//! The error type shared by every component.

use crate::codec::{debug_quoted, quote_text};
use vstd::prelude::*;
use vstd::string::StringExecFns;

verus! {

/// Everything that can go wrong while reading announcements, decoding keys
/// and signatures, or talking to the host.
#[derive(Debug, Clone, PartialEq, Eq, PartialOrd, Ord, Hash)]
pub enum WalletError {
    /// A required value was `null` or `undefined`.
    ValueNotFound,
    /// A host value had the wrong runtime type: the expected type, then the
    /// type the host reported.
    TypeMismatch(String, String),
    /// A byte view that should hold 32 bytes has another width.
    Expected32ByteLength,
    /// A byte view that should hold 64 bytes has another width.
    Expected64ByteLength,
    /// 32 bytes that do not decode to a point of the curve.
    InvalidEd25519PublicKeyBytes,
    /// The signature does not verify.
    InvalidSignature,
    /// A Base58 string that is too short or malformed.
    InvalidBase58Address,
    /// A chain identifier outside the configured family.
    UnsupportedChain(String),
    /// Anything else, with a diagnostic message.
    InternalError(String),
}

/// The result of every fallible operation of this crate.
pub type WalletResult<T> = Result<T, WalletError>;

/// Mathematical model of a [`WalletError`].
pub enum WalletErrorView {
    ValueNotFound,
    TypeMismatch(Seq<char>, Seq<char>),
    Expected32ByteLength,
    Expected64ByteLength,
    InvalidEd25519PublicKeyBytes,
    InvalidSignature,
    InvalidBase58Address,
    UnsupportedChain(Seq<char>),
    InternalError(Seq<char>),
}

impl View for WalletError {
    type V = WalletErrorView;

    open spec fn view(&self) -> WalletErrorView {
        match self {
            WalletError::ValueNotFound => WalletErrorView::ValueNotFound,
            WalletError::TypeMismatch(expected, got) => WalletErrorView::TypeMismatch(
                expected@,
                got@,
            ),
            WalletError::Expected32ByteLength => WalletErrorView::Expected32ByteLength,
            WalletError::Expected64ByteLength => WalletErrorView::Expected64ByteLength,
            WalletError::InvalidEd25519PublicKeyBytes => {
                WalletErrorView::InvalidEd25519PublicKeyBytes
            },
            WalletError::InvalidSignature => WalletErrorView::InvalidSignature,
            WalletError::InvalidBase58Address => WalletErrorView::InvalidBase58Address,
            WalletError::UnsupportedChain(chain) => WalletErrorView::UnsupportedChain(chain@),
            WalletError::InternalError(message) => WalletErrorView::InternalError(message@),
        }
    }
}

impl WalletErrorView {
    /// The text shown for an error: a fixed phrase per kind, with the
    /// payload spliced in where the kind carries one.
    pub open spec fn message(self) -> Seq<char> {
        match self {
            WalletErrorView::ValueNotFound => "a required value is null or undefined"@,
            WalletErrorView::TypeMismatch(expected, got) => "expected a value of type `"@
                + expected + "` but the host reported `"@ + got + "`"@,
            WalletErrorView::Expected32ByteLength => "expected a byte view of 32 bytes"@,
            WalletErrorView::Expected64ByteLength => "expected a byte view of 64 bytes"@,
            WalletErrorView::InvalidEd25519PublicKeyBytes => {
                "the bytes are not a valid Ed25519 public key"@
            },
            WalletErrorView::InvalidSignature => "the signature is not valid"@,
            WalletErrorView::InvalidBase58Address => "the Base58 string is too short or malformed"@,
            WalletErrorView::UnsupportedChain(chain) => "the chain `"@ + chain
                + "` is not supported"@,
            WalletErrorView::InternalError(message) => "internal error: "@ + message,
        }
    }
}

impl WalletErrorView {
    /// The form in which `Debug` writes the error: the name of its kind,
    /// followed, where the kind carries strings, by those strings in
    /// parentheses, each quoted as `Debug` quotes a string.
    pub open spec fn debug_form(self) -> Seq<char> {
        match self {
            WalletErrorView::ValueNotFound => "ValueNotFound"@,
            WalletErrorView::TypeMismatch(expected, got) => "TypeMismatch("@ + debug_quoted(
                expected,
            ) + ", "@ + debug_quoted(got) + ")"@,
            WalletErrorView::Expected32ByteLength => "Expected32ByteLength"@,
            WalletErrorView::Expected64ByteLength => "Expected64ByteLength"@,
            WalletErrorView::InvalidEd25519PublicKeyBytes => "InvalidEd25519PublicKeyBytes"@,
            WalletErrorView::InvalidSignature => "InvalidSignature"@,
            WalletErrorView::InvalidBase58Address => "InvalidBase58Address"@,
            WalletErrorView::UnsupportedChain(chain) => "UnsupportedChain("@ + debug_quoted(chain)
                + ")"@,
            WalletErrorView::InternalError(message) => "InternalError("@ + debug_quoted(message)
                + ")"@,
        }
    }
}

impl WalletError {
    /// The form in which `Debug` writes this error.
    pub fn debug_text(&self) -> (text: String)
        ensures
            text@ == self@.debug_form(),
    {
        match self {
            WalletError::ValueNotFound => String::from_str("ValueNotFound"),
            WalletError::TypeMismatch(expected, got) => {
                let mut text = String::from_str("TypeMismatch(");
                text.append(quote_text(expected.as_str()).as_str());
                text.append(", ");
                text.append(quote_text(got.as_str()).as_str());
                text.append(")");
                text
            },
            WalletError::Expected32ByteLength => String::from_str("Expected32ByteLength"),
            WalletError::Expected64ByteLength => String::from_str("Expected64ByteLength"),
            WalletError::InvalidEd25519PublicKeyBytes => String::from_str(
                "InvalidEd25519PublicKeyBytes",
            ),
            WalletError::InvalidSignature => String::from_str("InvalidSignature"),
            WalletError::InvalidBase58Address => String::from_str("InvalidBase58Address"),
            WalletError::UnsupportedChain(chain) => {
                let mut text = String::from_str("UnsupportedChain(");
                text.append(quote_text(chain.as_str()).as_str());
                text.append(")");
                text
            },
            WalletError::InternalError(message) => {
                let mut text = String::from_str("InternalError(");
                text.append(quote_text(message.as_str()).as_str());
                text.append(")");
                text
            },
        }
    }

    /// Whether this error only says that a wallet serves a chain family the
    /// page did not ask for.
    pub fn is_unsupported_chain(&self) -> (unsupported: bool)
        ensures
            unsupported == (self@ is UnsupportedChain),
    {
        match self {
            WalletError::UnsupportedChain(_) => true,
            _ => false,
        }
    }

    /// The text shown for this error.
    pub fn message(&self) -> (text: String)
        ensures
            text@ == self@.message(),
    {
        match self {
            WalletError::ValueNotFound => String::from_str(
                "a required value is null or undefined",
            ),
            WalletError::TypeMismatch(expected, got) => {
                let mut text = String::from_str("expected a value of type `");
                text.append(expected.as_str());
                text.append("` but the host reported `");
                text.append(got.as_str());
                text.append("`");
                text
            },
            WalletError::Expected32ByteLength => String::from_str(
                "expected a byte view of 32 bytes",
            ),
            WalletError::Expected64ByteLength => String::from_str(
                "expected a byte view of 64 bytes",
            ),
            WalletError::InvalidEd25519PublicKeyBytes => String::from_str(
                "the bytes are not a valid Ed25519 public key",
            ),
            WalletError::InvalidSignature => String::from_str("the signature is not valid"),
            WalletError::InvalidBase58Address => String::from_str(
                "the Base58 string is too short or malformed",
            ),
            WalletError::UnsupportedChain(chain) => {
                let mut text = String::from_str("the chain `");
                text.append(chain.as_str());
                text.append("` is not supported");
                text
            },
            WalletError::InternalError(message) => {
                let mut text = String::from_str("internal error: ");
                text.append(message.as_str());
                text
            },
        }
    }

    /// A copy of this error.
    pub fn duplicate(&self) -> (copy: WalletError)
        ensures
            copy@ == self@,
    {
        match self {
            WalletError::ValueNotFound => WalletError::ValueNotFound,
            WalletError::TypeMismatch(expected, got) => WalletError::TypeMismatch(
                expected.clone(),
                got.clone(),
            ),
            WalletError::Expected32ByteLength => WalletError::Expected32ByteLength,
            WalletError::Expected64ByteLength => WalletError::Expected64ByteLength,
            WalletError::InvalidEd25519PublicKeyBytes => WalletError::InvalidEd25519PublicKeyBytes,
            WalletError::InvalidSignature => WalletError::InvalidSignature,
            WalletError::InvalidBase58Address => WalletError::InvalidBase58Address,
            WalletError::UnsupportedChain(chain) => WalletError::UnsupportedChain(chain.clone()),
            WalletError::InternalError(message) => WalletError::InternalError(message.clone()),
        }
    }
}

} // verus!
