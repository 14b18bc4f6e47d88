//! A discovered wallet, and how it is read from an announcement.

use crate::account::{account_outcome, copy_texts, WalletAccount, WalletAccountView};
use crate::error::{WalletError, WalletErrorView, WalletResult};
use crate::host::{lemma_items_model, models, texts, HostModel, HostValue};
use crate::text::same_text;
use crate::version::{version_of, SemverVersion};
use vstd::prelude::*;
use vstd::string::StringExecFns;

verus! {

/// The handles of the callables that a wallet offers for the features this
/// crate knows. A feature that the wallet lacks, or whose entry holds no
/// callable, has none.
#[derive(Debug, Clone, Copy, PartialEq, Eq, Structural)]
pub struct FeatureHandles {
    /// `connect` of `standard:connect`.
    pub connect: Option<u64>,
    /// `disconnect` of `standard:disconnect`.
    pub disconnect: Option<u64>,
    /// `on` of `standard:events`.
    pub events: Option<u64>,
    /// `signMessage` of `solana:signMessage`.
    pub sign_message: Option<u64>,
    /// `signTransaction` of `solana:signTransaction`.
    pub sign_transaction: Option<u64>,
    /// `signAndSendTransaction` of `solana:signAndSendTransaction`.
    pub sign_and_send_transaction: Option<u64>,
}

/// A wallet that announced itself.
#[derive(Debug, PartialEq, Eq)]
pub struct Wallet {
    name: String,
    version: String,
    icon: String,
    prefix: String,
    chains: Vec<String>,
    features: Vec<String>,
    handles: FeatureHandles,
    accounts: Vec<WalletAccount>,
}

/// Mathematical model of a [`Wallet`].
pub struct WalletView {
    pub name: Seq<char>,
    pub version: Seq<char>,
    pub icon: Seq<char>,
    pub prefix: Seq<char>,
    pub chains: Seq<Seq<char>>,
    pub features: Seq<Seq<char>>,
    pub handles: FeatureHandles,
    pub accounts: Seq<WalletAccountView>,
}

/// The models of `accounts`, one by one.
pub open spec fn account_views(accounts: Seq<WalletAccount>) -> Seq<WalletAccountView> {
    Seq::new(accounts.len(), |i: int| accounts[i]@)
}

/// Whether `version` writes a version that a page of version 1.0.0 can
/// speak to.
pub open spec fn speaks_standard(version: Seq<char>) -> bool {
    match version_of(version) {
        Some(found) => found.compatible_with(SemverVersion { major: 1, minor: 0, patch: 0 }),
        None => false,
    }
}

/// Whether every one of `chains` starts with `prefix`.
pub open spec fn all_start_with(chains: Seq<Seq<char>>, prefix: Seq<char>) -> bool {
    forall|i: int| 0 <= i < chains.len() ==> prefix.is_prefix_of(#[trigger] chains[i])
}

impl WalletView {
    /// What holds of every wallet in this crate.
    pub open spec fn valid(self) -> bool {
        &&& self.name.len() > 0
        &&& speaks_standard(self.version)
        &&& self.chains.len() > 0
        &&& all_start_with(self.chains, self.prefix)
        &&& self.features.no_duplicates()
        &&& !self.features.contains(Seq::empty())
        &&& self.features.contains("standard:connect"@)
        &&& self.features.contains("standard:disconnect"@)
        &&& self.features.contains("standard:events"@)
        &&& forall|i: int| 0 <= i < self.accounts.len() ==> (#[trigger] self.accounts[i]).valid()
        &&& forall|i: int|
            0 <= i < self.accounts.len() ==> all_start_with(
                (#[trigger] self.accounts[i]).chains,
                self.prefix,
            )
    }
}

impl View for Wallet {
    type V = WalletView;

    closed spec fn view(&self) -> WalletView {
        WalletView {
            name: self.name@,
            version: self.version@,
            icon: self.icon@,
            prefix: self.prefix@,
            chains: texts(self.chains@),
            features: texts(self.features@),
            handles: self.handles,
            accounts: account_views(self.accounts@),
        }
    }
}

/// The accounts that the first `n` of `items` announce, or the error of the
/// first of them that announces none.
pub open spec fn all_accounts(items: Seq<HostModel>, prefix: Seq<char>, n: nat) -> Result<
    Seq<WalletAccountView>,
    WalletErrorView,
>
    decreases n,
{
    if n == 0 || n > items.len() {
        Ok(Seq::empty())
    } else {
        match all_accounts(items, prefix, (n - 1) as nat) {
            Err(error) => Err(error),
            Ok(earlier) => match account_outcome(items[n - 1], prefix) {
                Err(error) => Err(error),
                Ok(account) => Ok(earlier.push(account)),
            },
        }
    }
}

/// The handles that the object `features` holds for the features this crate
/// knows.
pub open spec fn handles_of(features: HostModel) -> FeatureHandles {
    FeatureHandles {
        connect: features.handle_at("standard:connect"@, "connect"@),
        disconnect: features.handle_at("standard:disconnect"@, "disconnect"@),
        events: features.handle_at("standard:events"@, "on"@),
        sign_message: features.handle_at("solana:signMessage"@, "signMessage"@),
        sign_transaction: features.handle_at("solana:signTransaction"@, "signTransaction"@),
        sign_and_send_transaction: features.handle_at(
            "solana:signAndSendTransaction"@,
            "signAndSendTransaction"@,
        ),
    }
}

/// The message for a wallet that speaks another version of the standard.
pub open spec fn other_version_text(version: Seq<char>) -> Seq<char> {
    "the wallet speaks version `"@ + version + "` of the standard, which 1.0.0 cannot speak to"@
}

/// The error for the feature names `features`, where a wallet with them is
/// refused: one that is empty, or one of the three standard features
/// missing.
pub open spec fn features_refusal(features: Seq<Seq<char>>) -> Option<WalletErrorView> {
    if features.contains(Seq::empty()) {
        Some(WalletErrorView::InternalError("a feature has an empty name"@))
    } else if !features.contains("standard:connect"@) || !features.contains(
        "standard:disconnect"@,
    ) || !features.contains("standard:events"@) {
        Some(WalletErrorView::ValueNotFound)
    } else {
        None
    }
}

/// The error for the version text `version`, where a wallet with it is
/// refused.
pub open spec fn version_refusal(version: Seq<char>) -> Option<WalletErrorView> {
    match version_of(version) {
        None => Some(WalletErrorView::InternalError(crate::version::malformed_text(version))),
        Some(found) => if found.compatible_with(SemverVersion { major: 1, minor: 0, patch: 0 }) {
            None
        } else {
            Some(WalletErrorView::InternalError(other_version_text(version)))
        },
    }
}

/// What reading a wallet from an announcement yields. The fields are read
/// in the order `name`, `chains`, `version`, `icon`, `features`,
/// `accounts`, and the first failure is the result.
pub open spec fn wallet_outcome(value: HostModel, prefix: Seq<char>) -> Result<
    WalletView,
    WalletErrorView,
> {
    match value.text_at("name"@) {
        Err(error) => Err(error),
        Ok(name) => if name.len() == 0 {
            Err(WalletErrorView::ValueNotFound)
        } else {
            match value.family_at("chains"@, prefix) {
                Err(error) => Err(error),
                Ok(chains) => if chains.len() == 0 {
                    Err(WalletErrorView::UnsupportedChain(Seq::empty()))
                } else {
                    match value.text_at("version"@) {
                        Err(error) => Err(error),
                        Ok(version) => match version_refusal(version) {
                            Some(error) => Err(error),
                            None => match value.text_at("icon"@) {
                                Err(error) => Err(error),
                                Ok(icon) => match value.keys_at("features"@) {
                                    Err(error) => Err(error),
                                    Ok(features) => match features_refusal(features) {
                                        Some(error) => Err(error),
                                        None => match value.array_at("accounts"@) {
                                            Err(error) => Err(error),
                                            Ok(items) => match all_accounts(
                                                items,
                                                prefix,
                                                items.len(),
                                            ) {
                                                Err(error) => Err(error),
                                                Ok(accounts) => Ok(
                                                    WalletView {
                                                        name,
                                                        version,
                                                        icon,
                                                        prefix,
                                                        chains,
                                                        features,
                                                        handles: handles_of(
                                                            value.property("features"@)->Ok_0,
                                                        ),
                                                        accounts,
                                                    },
                                                ),
                                            },
                                        },
                                    },
                                },
                            },
                        },
                    }
                },
            }
        },
    }
}

/// An error among the first `n` items is the error of any longer prefix.
pub proof fn lemma_first_account_error(items: Seq<HostModel>, prefix: Seq<char>, n: nat, m: nat)
    requires
        n <= m <= items.len(),
        all_accounts(items, prefix, n) is Err,
    ensures
        all_accounts(items, prefix, m) == all_accounts(items, prefix, n),
    decreases m,
{
    if n < m {
        lemma_first_account_error(items, prefix, n, (m - 1) as nat);
    }
}

/// Strings that were read as a family all start with the family's prefix.
pub proof fn lemma_family_starts_with(items: Seq<HostModel>, prefix: Seq<char>, n: nat)
    requires
        n <= items.len(),
        crate::host::all_in_family(items, prefix, n) is Ok,
    ensures
        all_start_with(crate::host::all_in_family(items, prefix, n)->Ok_0, prefix),
        crate::host::all_in_family(items, prefix, n)->Ok_0.len() == n,
    decreases n,
{
    if n > 0 {
        lemma_family_starts_with(items, prefix, (n - 1) as nat);
    }
}

/// The keys of an object hold none twice.
pub proof fn lemma_distinct_keys(fields: Seq<(Seq<char>, HostModel, bool)>, n: nat)
    requires
        n <= fields.len(),
    ensures
        crate::host::distinct_keys(fields, n).no_duplicates(),
    decreases n,
{
    if n > 0 {
        lemma_distinct_keys(fields, (n - 1) as nat);
    }
}

/// Whether `wanted` is one of `items`.
pub fn contains_text(items: &Vec<String>, wanted: &str) -> (found: bool)
    ensures
        found == texts(items@).contains(wanted@),
{
    let mut i: usize = 0;
    while i < items.len()
        invariant
            i <= items.len(),
            forall|j: int| 0 <= j < i ==> texts(items@)[j] != wanted@,
        decreases items.len() - i,
    {
        if same_text(items[i].as_str(), wanted) {
            assert(texts(items@)[i as int] == wanted@);
            return true;
        }
        i += 1;
    }
    false
}

/// Reads the accounts that `items` announce.
fn read_accounts(items: &Vec<HostValue>, prefix: &str) -> (read: WalletResult<Vec<WalletAccount>>)
    ensures
        match all_accounts(models(items@), prefix@, items@.len()) {
            Err(error) => read is Err && read->Err_0@ == error,
            Ok(wanted) => read is Ok && account_views(read->Ok_0@) == wanted,
        },
{
    proof {
        lemma_items_model(items@, items@.len());
    }
    let mut read: Vec<WalletAccount> = Vec::new();
    let mut i: usize = 0;
    assert(account_views(read@) =~= Seq::empty());
    while i < items.len()
        invariant
            i <= items.len(),
            models(items@).len() == items@.len(),
            forall|j: int| 0 <= j < items@.len() ==> (#[trigger] models(items@)[j]) == items@[j]@,
            all_accounts(models(items@), prefix@, i as nat) is Ok,
            all_accounts(models(items@), prefix@, i as nat)->Ok_0 == account_views(read@),
        decreases items.len() - i,
    {
        assert(models(items@)[i as int] == items@[i as int]@);
        match WalletAccount::parse(&items[i], prefix) {
            Err(error) => {
                proof {
                    assert(all_accounts(models(items@), prefix@, (i + 1) as nat) is Err);
                    lemma_first_account_error(
                        models(items@),
                        prefix@,
                        (i + 1) as nat,
                        items@.len(),
                    );
                }
                return Err(error);
            },
            Ok(account) => {
                let ghost before = account_views(read@);
                read.push(account);
                assert(account_views(read@) == before.push(account@));
            },
        }
        i += 1;
    }
    Ok(read)
}

/// Accounts that were read for a family are valid and claim chains of that
/// family only.
pub proof fn lemma_accounts_valid(items: Seq<HostModel>, prefix: Seq<char>, n: nat)
    requires
        n <= items.len(),
        all_accounts(items, prefix, n) is Ok,
    ensures
        all_accounts(items, prefix, n)->Ok_0.len() == n,
        forall|i: int| 0 <= i < n ==> (#[trigger] all_accounts(items, prefix, n)->Ok_0[i]).valid(),
        forall|i: int|
            0 <= i < n ==> all_start_with(
                (#[trigger] all_accounts(items, prefix, n)->Ok_0[i]).chains,
                prefix,
            ),
    decreases n,
{
    if n > 0 {
        lemma_accounts_valid(items, prefix, (n - 1) as nat);
        let item = items[n - 1];
        let account = account_outcome(item, prefix)->Ok_0;
        let chains = item.array_at("chains"@)->Ok_0;
        lemma_family_starts_with(chains, prefix, chains.len());
        assert(account.chains == crate::host::all_in_family(chains, prefix, chains.len())->Ok_0);
        assert(account.public_key.len() == 32);
    }
}

impl Wallet {
    #[verifier::type_invariant]
    spec fn well_formed(self) -> bool {
        self@.valid()
    }

    /// Reads a wallet from what it announced, for the chain family
    /// `prefix`. A wallet that names no chain, or a chain outside the
    /// family, is refused as unsupported.
    pub fn from_host_value(value: &HostValue, prefix: &str) -> (wallet: WalletResult<Wallet>)
        ensures
            crate::host::outcome(wallet) == wallet_outcome(value@, prefix@),
            wallet is Ok ==> wallet->Ok_0@.valid(),
    {
        let name = value.text_at("name")?;
        if name.as_str().is_empty() {
            return Err(WalletError::ValueNotFound);
        }
        let chains = value.family_at("chains", prefix)?;
        if chains.len() == 0 {
            return Err(WalletError::UnsupportedChain(String::new()));
        }
        let version = value.text_at("version")?;
        Self::check_version(version.as_str())?;
        let icon = value.text_at("icon")?;
        let features = value.keys_at("features")?;
        Self::check_features(&features)?;
        let items = value.array_at("accounts")?;
        proof {
            lemma_items_model(items@, items@.len());
        }
        let accounts = read_accounts(&items, prefix)?;
        let handles = match value.find("features") {
            Ok(Some(entries)) => FeatureHandles {
                connect: entries.handle_at("standard:connect", "connect"),
                disconnect: entries.handle_at("standard:disconnect", "disconnect"),
                events: entries.handle_at("standard:events", "on"),
                sign_message: entries.handle_at("solana:signMessage", "signMessage"),
                sign_transaction: entries.handle_at("solana:signTransaction", "signTransaction"),
                sign_and_send_transaction: entries.handle_at(
                    "solana:signAndSendTransaction",
                    "signAndSendTransaction",
                ),
            },
            _ => FeatureHandles {
                connect: None,
                disconnect: None,
                events: None,
                sign_message: None,
                sign_transaction: None,
                sign_and_send_transaction: None,
            },
        };
        proof {
            let announced = value@.array_at("chains"@)->Ok_0;
            lemma_family_starts_with(announced, prefix@, announced.len());
            let entries = value@.property("features"@)->Ok_0;
            lemma_distinct_keys(entries->Object_0, entries->Object_0.len());
            lemma_accounts_valid(models(items@), prefix@, items@.len());
        }
        Ok(
            Wallet {
                name,
                version,
                icon,
                prefix: String::from_str(prefix),
                chains,
                features,
                handles,
                accounts,
            },
        )
    }

    /// Refuses a version text that writes no version, or one that 1.0.0
    /// cannot speak to.
    fn check_version(version: &str) -> (checked: WalletResult<()>)
        ensures
            match version_refusal(version@) {
                Some(error) => checked is Err && checked->Err_0@ == error,
                None => checked is Ok,
            },
    {
        let found = SemverVersion::parse(version)?;
        if found.is_compatible_with(&SemverVersion::standard()) {
            Ok(())
        } else {
            let mut message = String::from_str("the wallet speaks version `");
            message.append(version);
            message.append("` of the standard, which 1.0.0 cannot speak to");
            Err(WalletError::InternalError(message))
        }
    }

    /// Refuses feature names of which one is empty or among which one of
    /// the three standard features is missing.
    fn check_features(features: &Vec<String>) -> (checked: WalletResult<()>)
        ensures
            match features_refusal(texts(features@)) {
                Some(error) => checked is Err && checked->Err_0@ == error,
                None => checked is Ok,
            },
    {
        proof {
            reveal_strlit("");
            assert(""@ =~= Seq::<char>::empty());
        }
        if contains_text(features, "") {
            return Err(WalletError::InternalError(String::from_str("a feature has an empty name")));
        }
        if !contains_text(features, "standard:connect") || !contains_text(
            features,
            "standard:disconnect",
        ) || !contains_text(features, "standard:events") {
            return Err(WalletError::ValueNotFound);
        }
        Ok(())
    }

    /// The wallet's name, which is not empty.
    pub fn name(&self) -> (name: &String)
        ensures
            name@ == self@.name,
            self@.valid(),
    {
        proof {
            use_type_invariant(self);
        }
        &self.name
    }

    /// The version of the standard that the wallet speaks.
    pub fn version(&self) -> (version: &String)
        ensures
            version@ == self@.version,
    {
        &self.version
    }

    /// The wallet's icon, a URI.
    pub fn icon(&self) -> (icon: &String)
        ensures
            icon@ == self@.icon,
    {
        &self.icon
    }

    /// The prefix of the chain family the wallet was read for.
    pub fn chain_prefix(&self) -> (prefix: &String)
        ensures
            prefix@ == self@.prefix,
    {
        &self.prefix
    }

    /// The chains the wallet serves, all of one family.
    pub fn chains(&self) -> (chains: &Vec<String>)
        ensures
            texts(chains@) == self@.chains,
    {
        &self.chains
    }

    /// The names of the wallet's features, each once.
    pub fn features(&self) -> (features: &Vec<String>)
        ensures
            texts(features@) == self@.features,
    {
        &self.features
    }

    /// The handles of the wallet's callables.
    pub fn handles(&self) -> (handles: FeatureHandles)
        ensures
            handles == self@.handles,
    {
        self.handles
    }

    /// The wallet's accounts.
    pub fn accounts(&self) -> (accounts: &Vec<WalletAccount>)
        ensures
            account_views(accounts@) == self@.accounts,
    {
        &self.accounts
    }

    /// A copy of the wallet.
    pub fn duplicate(&self) -> (copy: Wallet)
        ensures
            copy@ == self@,
    {
        proof {
            use_type_invariant(self);
        }
        let mut accounts: Vec<WalletAccount> = Vec::new();
        let mut i: usize = 0;
        while i < self.accounts.len()
            invariant
                i <= self.accounts.len(),
                accounts@.len() == i,
                forall|j: int| 0 <= j < i ==> (#[trigger] accounts@[j])@ == self.accounts@[j]@,
            decreases self.accounts.len() - i,
        {
            accounts.push(self.accounts[i].duplicate());
            i += 1;
        }
        assert(account_views(accounts@) =~= account_views(self.accounts@));
        Wallet {
            name: self.name.clone(),
            version: self.version.clone(),
            icon: self.icon.clone(),
            prefix: self.prefix.clone(),
            chains: copy_texts(&self.chains),
            features: copy_texts(&self.features),
            handles: self.handles,
            accounts,
        }
    }
}

impl Clone for Wallet {
    fn clone(&self) -> (copy: Self)
        ensures
            copy@ == self@,
    {
        self.duplicate()
    }
}

} // verus!
