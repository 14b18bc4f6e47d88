//! The registration handshake between the page and the wallets.
//!
//! The page attaches a listener for the wallets' event and only then
//! announces that it is ready. What has to be done on the host is handed to
//! the embedder as a [`HostAction`]; the embedder does it and reports how it
//! went.

use crate::error::{WalletError, WalletErrorView, WalletResult};
use crate::host::{HostModel, HostValue};
use crate::registry::{fingerprint_of, Registry};
use crate::utils::{failure_text, Utils};
use crate::wallet::{wallet_outcome, Wallet, WalletView};
use vstd::prelude::*;
use vstd::string::StringExecFns;

verus! {

/// The type of the event by which the page says that it is ready.
pub const WINDOW_APP_READY_EVENT_TYPE: &'static str = "wallet-standard:app-ready";

/// The type of the event by which a wallet asks to be registered.
pub const WINDOW_REGISTER_WALLET_EVENT_TYPE: &'static str = "wallet-standard:register-wallet";

/// How far the handshake has come.
#[derive(Debug, Clone, Copy, PartialEq, Eq, Structural)]
pub enum HandshakeState {
    /// Nothing is attached and nothing was dispatched.
    Idle,
    /// The listener for the wallets' event is attached.
    ListeningOnly,
    /// The listener is attached and the page has said that it is ready.
    AppReady,
}

/// What the embedder has to do on the host.
#[derive(Debug, PartialEq, Eq)]
pub enum HostAction {
    /// Attach a listener that stays, on the window, for the event of type
    /// [`WINDOW_REGISTER_WALLET_EVENT_TYPE`], and report how that went.
    AttachListener,
    /// Dispatch a custom event of type [`WINDOW_APP_READY_EVENT_TYPE`] on
    /// the window, with the flags given and the register object as its
    /// detail, and report how that went.
    DispatchAppReady {
        /// Whether the event bubbles.
        bubbles: bool,
        /// Whether the event can be cancelled.
        cancelable: bool,
        /// Whether the event crosses shadow roots.
        composed: bool,
    },
    /// Call the callable with this handle, with a null receiver and the
    /// register object as its one argument.
    Invoke(u64),
    /// Write the error to the host's console and go on.
    Report(WalletError),
    /// Nothing.
    Nothing,
}

/// Mathematical model of a [`HostAction`].
pub enum HostActionView {
    AttachListener,
    DispatchAppReady { bubbles: bool, cancelable: bool, composed: bool },
    Invoke(u64),
    Report(WalletErrorView),
    Nothing,
}

impl View for HostAction {
    type V = HostActionView;

    open spec fn view(&self) -> HostActionView {
        match self {
            HostAction::AttachListener => HostActionView::AttachListener,
            HostAction::DispatchAppReady { bubbles, cancelable, composed } => {
                HostActionView::DispatchAppReady {
                    bubbles: *bubbles,
                    cancelable: *cancelable,
                    composed: *composed,
                }
            },
            HostAction::Invoke(handle) => HostActionView::Invoke(*handle),
            HostAction::Report(error) => HostActionView::Report(error@),
            HostAction::Nothing => HostActionView::Nothing,
        }
    }
}

/// Why the page's event did not go out.
#[derive(Debug, PartialEq, Eq)]
pub enum AppReadyFailure {
    /// The host could not make the event; what it raised.
    Create(HostValue),
    /// The host could not dispatch the event; what it raised.
    Dispatch(HostValue),
}

/// Mathematical model of an [`AppReadyFailure`].
pub enum AppReadyFailureView {
    Create(HostModel),
    Dispatch(HostModel),
}

impl View for AppReadyFailure {
    type V = AppReadyFailureView;

    open spec fn view(&self) -> AppReadyFailureView {
        match self {
            AppReadyFailure::Create(raised) => AppReadyFailureView::Create(raised@),
            AppReadyFailure::Dispatch(raised) => AppReadyFailureView::Dispatch(raised@),
        }
    }
}

/// What became of an announcement.
#[derive(Debug, PartialEq, Eq)]
pub enum Registration {
    /// The wallet is in the registry, under this key.
    Stored([u8; 32]),
    /// The wallet serves no chain of the family asked for, or one outside
    /// it, which is named here. Nothing was stored and nothing is to be
    /// reported.
    Ignored(String),
    /// The announcement could not be read. Nothing was stored; the error is
    /// to be written to the host's console.
    Reported(WalletError),
}

/// Mathematical model of a [`Registration`].
pub enum RegistrationView {
    Stored(Seq<u8>),
    Ignored(Seq<char>),
    Reported(WalletErrorView),
}

impl View for Registration {
    type V = RegistrationView;

    open spec fn view(&self) -> RegistrationView {
        match self {
            Registration::Stored(key) => RegistrationView::Stored(key@),
            Registration::Ignored(chain) => RegistrationView::Ignored(chain@),
            Registration::Reported(error) => RegistrationView::Reported(error@),
        }
    }
}

/// What an announcement leads to, by what reading it as a wallet yields.
pub open spec fn registration_of(read: Result<WalletView, WalletErrorView>) -> RegistrationView {
    match read {
        Ok(wallet) => RegistrationView::Stored(fingerprint_of(wallet.name)),
        Err(WalletErrorView::UnsupportedChain(chain)) => RegistrationView::Ignored(chain),
        Err(error) => RegistrationView::Reported(error),
    }
}

/// The registry after an announcement that was read as `read`.
pub open spec fn registry_after(
    store: Map<Seq<u8>, WalletView>,
    read: Result<WalletView, WalletErrorView>,
) -> Map<Seq<u8>, WalletView> {
    match read {
        Ok(wallet) => store.insert(fingerprint_of(wallet.name), wallet),
        Err(_) => store,
    }
}

/// The message for a step that the handshake is not at.
pub open spec fn out_of_turn_text() -> Seq<char> {
    "the handshake is not at this step"@
}

/// The message for an event that did not go out: which of the two steps
/// failed, and what the host raised.
pub open spec fn app_ready_failed_text(failure: AppReadyFailureView) -> Seq<char> {
    match failure {
        AppReadyFailureView::Create(raised) => "Failed to create app ready event: "@
            + failure_text(raised),
        AppReadyFailureView::Dispatch(raised) => "Failed to dispatch app ready event: "@
            + failure_text(raised),
    }
}

/// What the detail of a wallet's event leads to: a call of the callable
/// that it is, or a report that it is none.
pub open spec fn wallet_event_action(state: HandshakeState, detail: HostModel) -> HostActionView {
    if state is Idle {
        HostActionView::Nothing
    } else {
        match detail.as_function() {
            Ok(handle) => HostActionView::Invoke(handle),
            Err(error) => HostActionView::Report(error),
        }
    }
}

/// The page's side of the handshake, for one page session.
#[derive(Debug)]
pub struct InitEvents {
    state: HandshakeState,
    prefix: String,
}

/// Mathematical model of [`InitEvents`].
pub struct InitEventsView {
    pub state: HandshakeState,
    pub prefix: Seq<char>,
}

impl View for InitEvents {
    type V = InitEventsView;

    closed spec fn view(&self) -> InitEventsView {
        InitEventsView { state: self.state, prefix: self.prefix@ }
    }
}

impl InitEvents {
    /// A handshake that has not begun, for wallets of the chain family
    /// `prefix`.
    pub fn new(prefix: &str) -> (made: Self)
        ensures
            made@ == (InitEventsView { state: HandshakeState::Idle, prefix: prefix@ }),
    {
        InitEvents { state: HandshakeState::Idle, prefix: String::from_str(prefix) }
    }

    /// How far the handshake has come.
    pub fn state(&self) -> (state: HandshakeState)
        ensures
            state == self@.state,
    {
        self.state
    }

    /// The prefix of the chain family that wallets are read for.
    pub fn chain_prefix(&self) -> (prefix: &String)
        ensures
            prefix@ == self@.prefix,
    {
        &self.prefix
    }

    /// Whether the listener for the wallets' event is to be attached in
    /// this state. After a step that failed, the embedder detaches the
    /// listener where this says `false`.
    pub fn expects_listener(&self) -> (expected: bool)
        ensures
            expected == !(self@.state is Idle),
    {
        match self.state {
            HandshakeState::Idle => false,
            _ => true,
        }
    }

    /// Begins the handshake: the first thing to do is to attach the
    /// listener. A handshake that has begun cannot begin again.
    pub fn init(&self) -> (first: WalletResult<HostAction>)
        ensures
            self@.state is Idle ==> first is Ok && first->Ok_0@ is AttachListener,
            !(self@.state is Idle) ==> first is Err && first->Err_0@
                == WalletErrorView::InternalError(out_of_turn_text()),
    {
        match self.state {
            HandshakeState::Idle => Ok(HostAction::AttachListener),
            _ => Err(Self::out_of_turn()),
        }
    }

    /// Takes note of how attaching the listener went. Where it is attached,
    /// the page may say that it is ready, and not before: an event that
    /// neither bubbles nor can be cancelled nor crosses shadow roots. Where
    /// the host refused, the handshake has failed and stays where it was.
    pub fn register_wallet_event(&mut self, attached: Result<(), HostValue>) -> (next: WalletResult<
        HostAction,
    >)
        ensures
            final(self)@.prefix == old(self)@.prefix,
            old(self)@.state is Idle && attached is Ok ==> final(self)@.state is ListeningOnly
                && next is Ok && next->Ok_0@ == (HostActionView::DispatchAppReady {
                bubbles: false,
                cancelable: false,
                composed: false,
            }),
            old(self)@.state is Idle && attached is Err ==> final(self)@.state is Idle && next
                is Err && next->Err_0@ == WalletErrorView::InternalError(
                failure_text(attached->Err_0@),
            ),
            !(old(self)@.state is Idle) ==> final(self)@.state == old(self)@.state && next is Err
                && next->Err_0@ == WalletErrorView::InternalError(out_of_turn_text()),
    {
        match self.state {
            HandshakeState::Idle => match attached {
                Ok(_) => {
                    self.state = HandshakeState::ListeningOnly;
                    Ok(
                        HostAction::DispatchAppReady {
                            bubbles: false,
                            cancelable: false,
                            composed: false,
                        },
                    )
                },
                Err(raised) => Err(Utils::host_failure(&raised)),
            },
            _ => Err(Self::out_of_turn()),
        }
    }

    /// Takes note of how making and dispatching the page's event went.
    /// Where it was dispatched, the handshake is complete. Where the host
    /// could not make or not dispatch it, the handshake has failed and is
    /// back where it began, so that the listener is to be detached.
    pub fn dispatch_app_event(&mut self, dispatched: Result<(), AppReadyFailure>) -> (done:
        WalletResult<()>)
        ensures
            final(self)@.prefix == old(self)@.prefix,
            old(self)@.state is ListeningOnly && dispatched is Ok ==> final(self)@.state
                is AppReady && done is Ok,
            old(self)@.state is ListeningOnly && dispatched is Err ==> final(self)@.state is Idle
                && done is Err && done->Err_0@ == WalletErrorView::InternalError(
                app_ready_failed_text(dispatched->Err_0@),
            ),
            !(old(self)@.state is ListeningOnly) ==> final(self)@.state == old(self)@.state && done
                is Err && done->Err_0@ == WalletErrorView::InternalError(out_of_turn_text()),
    {
        match self.state {
            HandshakeState::ListeningOnly => match dispatched {
                Ok(_) => {
                    self.state = HandshakeState::AppReady;
                    Ok(())
                },
                Err(failure) => {
                    self.state = HandshakeState::Idle;
                    let (mut message, raised) = match failure {
                        AppReadyFailure::Create(raised) => (
                            String::from_str("Failed to create app ready event: "),
                            raised,
                        ),
                        AppReadyFailure::Dispatch(raised) => (
                            String::from_str("Failed to dispatch app ready event: "),
                            raised,
                        ),
                    };
                    match Utils::host_failure(&raised) {
                        WalletError::InternalError(text) => {
                            message.append(text.as_str());
                        },
                        _ => {},
                    }
                    Err(WalletError::InternalError(message))
                },
            },
            _ => Err(Self::out_of_turn()),
        }
    }

    /// What to do for an event of a wallet that asks to be registered, by
    /// the event's detail: where it is a callable, as it should be, call
    /// it; where it is anything else, report that and go on. While no
    /// listener is attached there is nothing to do.
    pub fn wallet_event(&self, detail: &HostValue) -> (action: HostAction)
        ensures
            action@ == wallet_event_action(self@.state, detail@),
    {
        match self.state {
            HandshakeState::Idle => HostAction::Nothing,
            _ => match detail.as_function() {
                Ok(handle) => HostAction::Invoke(handle),
                Err(error) => HostAction::Report(error),
            },
        }
    }

    /// What the `register` callable of the register object does with an
    /// announcement, in every state: it reads the announcement as a wallet
    /// of the chain family and stores the wallet under the digest of its
    /// name. A wallet of another chain family is passed over in silence;
    /// any other failure is to be reported. Neither changes the registry,
    /// and neither ends the session.
    pub fn register_object(&self, registry: &mut Registry, announcement: &HostValue) -> (outcome:
        Registration)
        ensures
            outcome@ == registration_of(wallet_outcome(announcement@, self@.prefix)),
            final(registry)@ == registry_after(
                old(registry)@,
                wallet_outcome(announcement@, self@.prefix),
            ),
    {
        match Wallet::from_host_value(announcement, self.prefix.as_str()) {
            Ok(wallet) => Registration::Stored(registry.insert(wallet)),
            Err(WalletError::UnsupportedChain(chain)) => Registration::Ignored(chain),
            Err(error) => Registration::Reported(error),
        }
    }

    /// The error for a step that the handshake is not at.
    fn out_of_turn() -> (error: WalletError)
        ensures
            error@ == WalletErrorView::InternalError(out_of_turn_text()),
    {
        WalletError::InternalError(String::from_str("the handshake is not at this step"))
    }
}

/// Where none of the strings in `items` starts with `prefix`, reading them
/// as a family fails on the first of them.
proof fn lemma_none_in_family(items: Seq<HostModel>, prefix: Seq<char>, n: nat)
    requires
        0 < n <= items.len(),
        forall|i: int|
            0 <= i < items.len() ==> (#[trigger] items[i]) is Text && !prefix.is_prefix_of(
                items[i]->Text_0,
            ),
    ensures
        crate::host::all_in_family(items, prefix, n) == Err::<Seq<Seq<char>>, WalletErrorView>(
            WalletErrorView::UnsupportedChain(items[0]->Text_0),
        ),
    decreases n,
{
    if n > 1 {
        lemma_none_in_family(items, prefix, (n - 1) as nat);
    } else {
        assert(items[0] is Text);
        assert(crate::host::all_in_family(items, prefix, 0) == Ok::<
            Seq<Seq<char>>,
            WalletErrorView,
        >(Seq::empty()));
    }
}

/// An announcement with a name whose `chains` hold strings of which none
/// starts with the prefix asked for is refused as unsupported: it is passed
/// over, and the registry stays as it is.
pub proof fn lemma_other_family_is_ignored(
    store: Map<Seq<u8>, WalletView>,
    announcement: HostModel,
    prefix: Seq<char>,
)
    requires
        announcement.text_at("name"@) is Ok,
        announcement.text_at("name"@)->Ok_0.len() > 0,
        announcement.array_at("chains"@) is Ok,
        forall|i: int|
            0 <= i < announcement.array_at("chains"@)->Ok_0.len() ==> (
            #[trigger] announcement.array_at("chains"@)->Ok_0[i]) is Text && !prefix.is_prefix_of(
                announcement.array_at("chains"@)->Ok_0[i]->Text_0,
            ),
    ensures
        wallet_outcome(announcement, prefix) is Err,
        wallet_outcome(announcement, prefix)->Err_0 is UnsupportedChain,
        registration_of(wallet_outcome(announcement, prefix)) is Ignored,
        registry_after(store, wallet_outcome(announcement, prefix)) == store,
{
    let items = announcement.array_at("chains"@)->Ok_0;
    if items.len() > 0 {
        lemma_none_in_family(items, prefix, items.len());
    }
}

/// An announcement without a name is refused as lacking a value: it is
/// reported, and the registry stays as it is.
pub proof fn lemma_nameless_is_not_found(
    store: Map<Seq<u8>, WalletView>,
    announcement: HostModel,
    prefix: Seq<char>,
)
    requires
        announcement.is_absent() || announcement.property("name"@) is Ok,
        announcement.property("name"@) is Ok ==> announcement.property("name"@)->Ok_0.is_absent(),
    ensures
        wallet_outcome(announcement, prefix) == Err::<WalletView, WalletErrorView>(
            WalletErrorView::ValueNotFound,
        ),
        registration_of(wallet_outcome(announcement, prefix)) == RegistrationView::Reported(
            WalletErrorView::ValueNotFound,
        ),
        registry_after(store, wallet_outcome(announcement, prefix)) == store,
{
}

/// Whatever an announcement holds, the registry afterwards is the registry
/// before, or the registry before with one wallet stored under the digest
/// of its name; and it is the latter exactly where the announcement reads
/// as a wallet.
pub proof fn lemma_registration_is_isolated(
    store: Map<Seq<u8>, WalletView>,
    announcement: HostModel,
    prefix: Seq<char>,
)
    ensures
        wallet_outcome(announcement, prefix) is Err ==> registry_after(
            store,
            wallet_outcome(announcement, prefix),
        ) == store,
        wallet_outcome(announcement, prefix) is Ok ==> registry_after(
            store,
            wallet_outcome(announcement, prefix),
        ).contains_pair(
            fingerprint_of(wallet_outcome(announcement, prefix)->Ok_0.name),
            wallet_outcome(announcement, prefix)->Ok_0,
        ),
        registration_of(wallet_outcome(announcement, prefix)) is Stored <==> wallet_outcome(
            announcement,
            prefix,
        ) is Ok,
{
}

} // verus!
