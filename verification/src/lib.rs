//! Client-side core of a wallet discovery handshake: typed reading of wallet
//! announcements, a content-addressed wallet registry, the page/wallet
//! registration protocol, a bounded event bus and the Base58 / Ed25519 helpers
//! that go with them.

pub mod account;
pub mod channel;
pub mod codec;
pub mod crypto;
pub mod error;
pub mod events;
pub mod handshake;
pub mod host;
pub mod reflection;
pub mod registry;
pub mod text;
pub mod utils;
pub mod version;
pub mod wallet;

pub use account::{WalletAccount, WalletAccountView};
pub use error::{WalletError, WalletErrorView, WalletResult};
pub use events::{EventBus, EventBusView, RecvOutcome, SendOutcome, WalletEvent, WalletEventView};
pub use handshake::{
    AppReadyFailure, HandshakeState, HostAction, InitEvents, Registration,
    WINDOW_APP_READY_EVENT_TYPE,
    WINDOW_REGISTER_WALLET_EVENT_TYPE,
};
pub use host::{HostField, HostModel, HostValue};
pub use reflection::Reflection;
pub use registry::{fingerprint, Registry};
pub use version::SemverVersion;
pub use wallet::{FeatureHandles, Wallet, WalletView};
pub use utils::{
    PublicKey, PublicKeyBytes, Signature, SignatureBytes, Utils, WALLET_STANDARD_VERSION,
};
