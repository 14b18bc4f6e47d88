//! Keys, signatures and their Base58 text.

use crate::codec::{
    base58_bytes, base58_decode, base58_encode, base58_text, in_base58_alphabet,
};
use crate::crypto::{
    chacha20_first_32, decodes_to_point, ed25519_accepts, ed25519_point, expand_seed, os_seed,
    signature_verifies,
};
use crate::error::{WalletError, WalletErrorView, WalletResult};
use crate::host::{HostModel, HostValue};
use vstd::prelude::*;
use vstd::string::{StrSliceExecFns, StringExecFns};

verus! {

/// The 32 bytes of a public key.
pub type PublicKeyBytes = [u8; 32];

/// The 64 bytes of a signature.
pub type SignatureBytes = [u8; 64];

/// The version of the wallet standard that this crate speaks.
pub const WALLET_STANDARD_VERSION: &'static str = "1.0.0";

/// A public key: 32 bytes that decode to a point of the curve.
#[derive(Debug, Clone, Copy)]
pub struct PublicKey {
    bytes: [u8; 32],
}

impl View for PublicKey {
    type V = Seq<u8>;

    closed spec fn view(&self) -> Seq<u8> {
        self.bytes@
    }
}

impl PublicKey {
    #[verifier::type_invariant]
    spec fn decodes(self) -> bool {
        ed25519_point(self.bytes@)
    }

    /// The key's 32 bytes.
    pub fn to_bytes(&self) -> (bytes: PublicKeyBytes)
        ensures
            bytes@ == self@,
            ed25519_point(bytes@),
    {
        proof {
            use_type_invariant(self);
        }
        self.bytes
    }
}

/// A signature: any 64 bytes.
#[derive(Debug, Clone, Copy)]
pub struct Signature {
    bytes: [u8; 64],
}

impl View for Signature {
    type V = Seq<u8>;

    closed spec fn view(&self) -> Seq<u8> {
        self.bytes@
    }
}

impl Signature {
    /// The signature's 64 bytes.
    pub fn to_bytes(&self) -> (bytes: SignatureBytes)
        ensures
            bytes@ == self@,
    {
        self.bytes
    }
}

/// `text` cut down to its first and last `take` characters, with three dots
/// between them.
pub open spec fn shortened(text: Seq<char>, take: nat) -> Seq<char> {
    text.subrange(0, take as int) + seq!['.', '.', '.'] + text.subrange(
        text.len() - take,
        text.len() as int,
    )
}

/// What `shorten` yields: the cut text, or the error for a text of fewer
/// than twice `take` characters.
pub open spec fn shorten_outcome(text: Seq<char>, take: nat) -> Result<Seq<char>, WalletErrorView> {
    if text.len() < take + take {
        Err(WalletErrorView::InvalidBase58Address)
    } else {
        Ok(shortened(text, take))
    }
}

/// The text that stands for a value the host raised as an error: the value
/// itself where it is a string, its `message` where it has one, the name of
/// its type otherwise.
pub open spec fn failure_text(raised: HostModel) -> Seq<char> {
    match raised {
        HostModel::Text(text) => text,
        _ => match raised.property("message"@) {
            Ok(HostModel::Text(message)) => message,
            _ => raised.kind_name(),
        },
    }
}

/// Text that says which caller was handed a value of type `kind` in place
/// of bytes.
pub open spec fn not_bytes_text(namespace: Seq<char>, kind: Seq<char>) -> Seq<char> {
    namespace + ": a value of type `"@ + kind + "` cannot be cast to a Uint8Array"@
}

/// What reading a signature from a host value yields.
pub open spec fn signature_outcome(value: HostModel, namespace: Seq<char>) -> Result<
    Seq<u8>,
    WalletErrorView,
> {
    match value {
        HostModel::Bytes(bytes) => if bytes.len() == 64 {
            Ok(bytes)
        } else {
            Err(WalletErrorView::Expected64ByteLength)
        },
        _ => Err(WalletErrorView::InternalError(not_bytes_text(namespace, value.kind_name()))),
    }
}

/// What checking a signature from raw bytes yields.
pub open spec fn verify_outcome(key: Seq<u8>, message: Seq<u8>, signature: Seq<u8>) -> Result<
    (),
    WalletErrorView,
> {
    if !ed25519_point(key) {
        Err(WalletErrorView::InvalidEd25519PublicKeyBytes)
    } else if !ed25519_accepts(key, message, signature) {
        Err(WalletErrorView::InvalidSignature)
    } else {
        Ok(())
    }
}

/// Shortening looks at nothing but the ends: two texts that are long enough
/// and agree in their first `take` and in their last `take` characters are
/// shortened to the same text.
pub proof fn lemma_shorten_reads_only_the_ends(first: Seq<char>, second: Seq<char>, take: nat)
    requires
        first.len() >= take + take,
        second.len() >= take + take,
        first.subrange(0, take as int) == second.subrange(0, take as int),
        first.subrange(first.len() - take, first.len() as int) == second.subrange(
            second.len() - take,
            second.len() as int,
        ),
    ensures
        shorten_outcome(first, take) == shorten_outcome(second, take),
        shorten_outcome(first, take) is Ok,
{
}

/// A shortened text has twice `take` characters and three dots, begins as
/// the text begins and ends as it ends.
pub proof fn lemma_shortened_shape(text: Seq<char>, take: nat)
    requires
        text.len() >= take + take,
    ensures
        shortened(text, take).len() == take + take + 3,
        forall|i: int| 0 <= i < take ==> shortened(text, take)[i] == text[i],
        forall|i: int| take <= i < take + 3 ==> shortened(text, take)[i] == '.',
        forall|i: int|
            take + 3 <= i < take + take + 3 ==> shortened(text, take)[i] == text[text.len() - take
                - take - 3 + i],
{
}

/// Helper operations on keys, signatures and addresses.
pub struct Utils;

impl Utils {
    /// 32 random bytes in the place of a public key, for tests. They need
    /// not decode to a point of the curve.
    pub fn public_key_rand() -> (bytes: WalletResult<PublicKeyBytes>)
        ensures
            bytes is Ok ==> exists|seed: Seq<u8>|
                seed.len() == 32 && #[trigger] chacha20_first_32(seed) == bytes->Ok_0@,
            bytes is Err ==> bytes->Err_0@ == WalletErrorView::InternalError(
                "the operating system gave no entropy"@,
            ),
    {
        Self::rand_32bytes()
    }

    /// 32 bytes from a ChaCha20 generator seeded by the operating system:
    /// the first 32 bytes of the stream of some seed of 32 bytes. Fails only
    /// where the system gives no entropy.
    pub fn rand_32bytes() -> (bytes: WalletResult<[u8; 32]>)
        ensures
            bytes is Ok ==> exists|seed: Seq<u8>|
                seed.len() == 32 && #[trigger] chacha20_first_32(seed) == bytes->Ok_0@,
            bytes is Err ==> bytes->Err_0@ == WalletErrorView::InternalError(
                "the operating system gave no entropy"@,
            ),
    {
        let seed = os_seed();
        let bytes = Self::draw_32bytes(seed);
        proof {
            if seed is Some {
                assert(seed->Some_0@.len() == 32);
                assert(chacha20_first_32(seed->Some_0@) == bytes->Ok_0@);
            }
        }
        bytes
    }

    /// The first 32 bytes of the ChaCha20 generator that `seed` seeds, or
    /// the error for a seed that the operating system did not give.
    pub fn draw_32bytes(seed: Option<[u8; 32]>) -> (bytes: WalletResult<[u8; 32]>)
        ensures
            seed is Some ==> bytes is Ok && bytes->Ok_0@ == chacha20_first_32(seed->Some_0@),
            seed is None ==> bytes is Err && bytes->Err_0@ == WalletErrorView::InternalError(
                "the operating system gave no entropy"@,
            ),
    {
        match seed {
            Some(given) => Ok(expand_seed(&given)),
            None => Err(
                WalletError::InternalError(String::from_str("the operating system gave no entropy")),
            ),
        }
    }

    /// Turns what a host call raised into an error of this crate, and
    /// forgets what it returned.
    pub fn jsvalue_to_error<T>(value: Result<T, HostValue>) -> (converted: Result<(), WalletError>)
        ensures
            value is Ok ==> converted is Ok,
            value is Err ==> converted is Err && converted->Err_0@
                == WalletErrorView::InternalError(failure_text(value->Err_0@)),
    {
        match value {
            Ok(_) => Ok(()),
            Err(raised) => Err(Self::host_failure(&raised)),
        }
    }

    /// The error that stands for a value the host raised.
    pub fn host_failure(raised: &HostValue) -> (error: WalletError)
        ensures
            error@ == WalletErrorView::InternalError(failure_text(raised@)),
    {
        match raised {
            HostValue::Text(text) => WalletError::InternalError(text.clone()),
            _ => match raised.find("message") {
                Ok(Some(HostValue::Text(message))) => WalletError::InternalError(message.clone()),
                _ => WalletError::InternalError(raised.kind_name()),
            },
        }
    }

    /// The public key with the given bytes, where they decode to a point of
    /// the curve.
    pub fn public_key(public_key_bytes: [u8; 32]) -> (key: WalletResult<PublicKey>)
        ensures
            ed25519_point(public_key_bytes@) ==> key is Ok && key->Ok_0@ == public_key_bytes@,
            !ed25519_point(public_key_bytes@) ==> key is Err && key->Err_0@
                is InvalidEd25519PublicKeyBytes,
    {
        if decodes_to_point(&public_key_bytes) {
            Ok(PublicKey { bytes: public_key_bytes })
        } else {
            Err(WalletError::InvalidEd25519PublicKeyBytes)
        }
    }

    /// The signature with the given bytes.
    pub fn signature(signature_bytes: [u8; 64]) -> (signature: Signature)
        ensures
            signature@ == signature_bytes@,
    {
        Signature { bytes: signature_bytes }
    }

    /// Checks `signature` for `message` under `public_key`, as permissively
    /// as `ed25519-dalek` does by default.
    pub fn verify_signature(public_key: PublicKey, message: &[u8], signature: Signature) -> (checked:
        WalletResult<()>)
        ensures
            checked is Ok <==> ed25519_accepts(public_key@, message@, signature@),
            checked is Err ==> checked->Err_0@ is InvalidSignature,
    {
        proof {
            use_type_invariant(&public_key);
        }
        if signature_verifies(&public_key.bytes, message, &signature.bytes) {
            Ok(())
        } else {
            Err(WalletError::InvalidSignature)
        }
    }

    /// Checks a signature given as raw bytes for `message` under a key given
    /// as raw bytes.
    pub fn verify(public_key_bytes: [u8; 32], message: &[u8], signature_bytes: [u8; 64]) -> (checked:
        WalletResult<()>)
        ensures
            crate::host::outcome(checked) == verify_outcome(
                public_key_bytes@,
                message@,
                signature_bytes@,
            ),
    {
        let key = Self::public_key(public_key_bytes)?;
        Self::verify_signature(key, message, Self::signature(signature_bytes))
    }

    /// Reads a signature from the bytes that `value` views. `namespace`
    /// names the caller in the error for a value that views no bytes.
    pub fn jsvalue_to_signature(value: HostValue, namespace: &str) -> (signature: WalletResult<
        Signature,
    >)
        ensures
            crate::host::outcome(signature) == signature_outcome(value@, namespace@),
    {
        match &value {
            HostValue::Bytes(bytes) => {
                match Self::to64byte_array(bytes.as_slice()) {
                    Ok(array) => Ok(Self::signature(array)),
                    Err(error) => Err(error),
                }
            },
            _ => {
                let mut text = String::from_str(namespace);
                text.append(": a value of type `");
                text.append(value.kind_name().as_str());
                text.append("` cannot be cast to a Uint8Array");
                Err(WalletError::InternalError(text))
            },
        }
    }

    /// The address of a public key: the Base58 text of its 32 bytes,
    /// without checksum or prefix. It has 32 to 44 characters of the Base58
    /// alphabet and decodes to the key's bytes again.
    pub fn address(public_key: PublicKey) -> (address: String)
        ensures
            address@ == base58_text(public_key@),
            base58_bytes(address@) == Some(public_key@),
            in_base58_alphabet(address@),
            32 <= address@.len() <= 44,
    {
        base58_encode(public_key.bytes.as_slice())
    }

    /// The Base58 text of a signature's 64 bytes. It has 64 to 88
    /// characters of the Base58 alphabet and decodes to the signature's
    /// bytes again.
    pub fn base58_signature(signature: Signature) -> (text: String)
        ensures
            text@ == base58_text(signature@),
            base58_bytes(text@) == Some(signature@),
            in_base58_alphabet(text@),
            64 <= text@.len() <= 88,
    {
        base58_encode(signature.bytes.as_slice())
    }

    /// The bytes that a Base58 text stands for.
    pub fn decode_base58(text: &str) -> (bytes: WalletResult<Vec<u8>>)
        ensures
            match base58_bytes(text@) {
                Some(wanted) => bytes is Ok && bytes->Ok_0@ == wanted,
                None => bytes is Err && bytes->Err_0@ is InvalidBase58Address,
            },
    {
        match base58_decode(text) {
            Some(bytes) => Ok(bytes),
            None => Err(WalletError::InvalidBase58Address),
        }
    }

    /// The first four and the last four characters of `base58_str` with
    /// three dots between them, as in `FXdl...RGd4`. A text of fewer than
    /// eight characters is refused.
    pub fn shorten_base58(base58_str: &str) -> (short: WalletResult<String>)
        ensures
            crate::host::outcome(short) == shorten_outcome(base58_str@, 4),
    {
        Self::custom_shorten_base58(base58_str, 4)
    }

    /// The first `take` and the last `take` characters of `base58_str` with
    /// three dots between them. A text of fewer than twice `take` characters
    /// is refused.
    pub fn custom_shorten_base58(base58_str: &str, take: usize) -> (short: WalletResult<String>)
        ensures
            crate::host::outcome(short) == shorten_outcome(base58_str@, take as nat),
    {
        let length: usize = base58_str.unicode_len();
        if take > length || length - take < take {
            return Err(WalletError::InvalidBase58Address);
        }
        let first = base58_str.substring_char(0, take);
        let last = base58_str.substring_char(length - take, length);
        let mut short = String::from_str(first);
        proof {
            reveal_strlit("...");
            assert("..."@ =~= seq!['.', '.', '.']);
        }
        short.append("...");
        short.append(last);
        Ok(short)
    }

    /// The 32 bytes of `bytes`, which must be exactly that many.
    pub fn to32byte_array(bytes: &[u8]) -> (array: WalletResult<[u8; 32]>)
        ensures
            bytes@.len() == 32 ==> array is Ok && array->Ok_0@ == bytes@,
            bytes@.len() != 32 ==> array is Err && array->Err_0@ is Expected32ByteLength,
    {
        if bytes.len() != 32 {
            return Err(WalletError::Expected32ByteLength);
        }
        let mut array: [u8; 32] = [0u8; 32];
        let mut i: usize = 0;
        while i < 32
            invariant
                i <= 32,
                bytes@.len() == 32,
                forall|j: int| 0 <= j < i ==> array@[j] == bytes@[j],
            decreases 32 - i,
        {
            array[i] = bytes[i];
            i += 1;
        }
        assert(array@ =~= bytes@);
        Ok(array)
    }

    /// The 64 bytes of `bytes`, which must be exactly that many.
    pub fn to64byte_array(bytes: &[u8]) -> (array: WalletResult<[u8; 64]>)
        ensures
            bytes@.len() == 64 ==> array is Ok && array->Ok_0@ == bytes@,
            bytes@.len() != 64 ==> array is Err && array->Err_0@ is Expected64ByteLength,
    {
        if bytes.len() != 64 {
            return Err(WalletError::Expected64ByteLength);
        }
        let mut array: [u8; 64] = [0u8; 64];
        let mut i: usize = 0;
        while i < 64
            invariant
                i <= 64,
                bytes@.len() == 64,
                forall|j: int| 0 <= j < i ==> array@[j] == bytes@[j],
            decreases 64 - i,
        {
            array[i] = bytes[i];
            i += 1;
        }
        assert(array@ =~= bytes@);
        Ok(array)
    }
}

} // verus!
