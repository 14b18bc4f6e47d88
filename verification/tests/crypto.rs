use ed25519_dalek::{Signer, SigningKey};
use wallet_adapter::{HostField, HostValue, Utils, WalletError};

fn hex(text: &str) -> Vec<u8> {
    let digits: Vec<u8> = text
        .bytes()
        .map(|b| match b {
            b'0'..=b'9' => b - b'0',
            b'a'..=b'f' => b - b'a' + 10,
            _ => panic!("not a hex digit"),
        })
        .collect();
    digits.chunks(2).map(|pair| pair[0] * 16 + pair[1]).collect()
}

fn vector() -> ([u8; 32], Vec<u8>, [u8; 64]) {
    let key = hex("3d4017c3e843895a92b70aa74d1b7ebc9c982ccf2ec4968cc0cd55f12af4660c");
    let signature = hex(
        "92a009a9f0d4cab8720e820b5f642540a2b27b5416503f8fb3762223ebdb69da\
         085ac1e43e15996e458f3613d0f11d8c387b2eaeb4302aeeb00d291612bb0c00",
    );
    (
        Utils::to32byte_array(&key).unwrap(),
        vec![0x72],
        Utils::to64byte_array(&signature).unwrap(),
    )
}

#[test]
fn known_signature_verifies() {
    let (key, message, signature) = vector();
    assert_eq!(Utils::verify(key, &message, signature), Ok(()));
    let public_key = Utils::public_key(key).unwrap();
    assert_eq!(public_key.to_bytes(), key);
    assert_eq!(Utils::signature(signature).to_bytes(), signature);
    assert_eq!(
        Utils::verify_signature(public_key, &message, Utils::signature(signature)),
        Ok(())
    );
}

#[test]
fn changed_message_does_not_verify() {
    let (key, mut message, signature) = vector();
    message[0] ^= 1;
    assert_eq!(Utils::verify(key, &message, signature), Err(WalletError::InvalidSignature));
    assert_eq!(Utils::verify(key, &[], signature), Err(WalletError::InvalidSignature));
}

#[test]
fn known_key_belongs_to_known_secret() {
    let secret = hex("4ccd089b28ff96da9db6c346ec114e0f5b8a319f35aba624da8cf6ed4fb8a6fb");
    let signing = SigningKey::from_bytes(&Utils::to32byte_array(&secret).unwrap());
    let (key, message, signature) = vector();
    assert_eq!(signing.verifying_key().to_bytes(), key);
    assert_eq!(signing.sign(&message).to_bytes(), signature);
}

#[test]
fn what_is_signed_verifies() {
    for round in 0u8..8 {
        let secret = Utils::rand_32bytes().unwrap();
        let signing = SigningKey::from_bytes(&secret);
        let key = signing.verifying_key().to_bytes();
        let message: Vec<u8> = (0..round as usize * 7 + 1).map(|i| i as u8 ^ round).collect();
        let signature = signing.sign(&message).to_bytes();
        assert_eq!(Utils::verify(key, &message, signature), Ok(()));
    }
}

#[test]
fn any_flipped_bit_of_the_message_fails() {
    let signing = SigningKey::from_bytes(&[7u8; 32]);
    let key = signing.verifying_key().to_bytes();
    let message = b"wallet".to_vec();
    let signature = signing.sign(&message).to_bytes();
    for byte in 0..message.len() {
        for bit in 0..8 {
            let mut changed = message.clone();
            changed[byte] ^= 1 << bit;
            assert_eq!(
                Utils::verify(key, &changed, signature),
                Err(WalletError::InvalidSignature)
            );
        }
    }
}

#[test]
fn any_flipped_bit_of_the_signature_fails() {
    let signing = SigningKey::from_bytes(&[9u8; 32]);
    let key = signing.verifying_key().to_bytes();
    let message = b"wallet".to_vec();
    let signature = signing.sign(&message).to_bytes();
    for byte in 0..64 {
        for bit in 0..8 {
            let mut changed = signature;
            changed[byte] ^= 1 << bit;
            assert_eq!(
                Utils::verify(key, &message, changed),
                Err(WalletError::InvalidSignature)
            );
        }
    }
}

#[test]
fn bytes_off_the_curve_are_no_key() {
    let mut refused = 0;
    let mut taken = 0;
    for first in 0u8..=255 {
        let mut bytes = [0u8; 32];
        bytes[0] = first;
        match Utils::public_key(bytes) {
            Ok(key) => {
                taken += 1;
                assert_eq!(key.to_bytes(), bytes);
            }
            Err(error) => {
                refused += 1;
                assert_eq!(error, WalletError::InvalidEd25519PublicKeyBytes);
                assert_eq!(
                    Utils::verify(bytes, b"any", [0u8; 64]),
                    Err(WalletError::InvalidEd25519PublicKeyBytes)
                );
            }
        }
    }
    assert!(refused > 0);
    assert!(taken > 0);
}

#[test]
fn two_and_zeros_is_no_key() {
    let mut bytes = [0u8; 32];
    bytes[0] = 2;
    assert_eq!(
        Utils::public_key(bytes).unwrap_err(),
        WalletError::InvalidEd25519PublicKeyBytes
    );
    assert!(Utils::public_key([0u8; 32]).is_ok());
}

#[test]
fn random_bytes_differ() {
    let first = Utils::rand_32bytes().unwrap();
    let second = Utils::rand_32bytes().unwrap();
    let third = Utils::public_key_rand().unwrap();
    assert_ne!(first, second);
    assert_ne!(second, third);
    assert_ne!(first, [0u8; 32]);
}

#[test]
fn a_seed_gives_the_start_of_its_stream() {
    let zero = Utils::draw_32bytes(Some([0u8; 32])).unwrap();
    assert_eq!(
        zero.to_vec(),
        hex("76b8e0ada0f13d90405d6ae55386bd28bdd219b8a08ded1aa836efcc8b770dc7")
    );
    assert_eq!(Utils::draw_32bytes(Some([0u8; 32])), Ok(zero));
    let mut seed = [0u8; 32];
    seed[0] = 1;
    let one = Utils::draw_32bytes(Some(seed)).unwrap();
    assert_ne!(one, zero);
    assert_ne!(one, seed);
    assert_eq!(Utils::draw_32bytes(Some(seed)), Ok(one));
}

#[test]
fn a_missing_seed_is_an_error() {
    assert_eq!(
        Utils::draw_32bytes(None),
        Err(WalletError::InternalError("the operating system gave no entropy".to_string()))
    );
}

#[test]
fn host_errors_become_internal_errors() {
    let ok: Result<u8, HostValue> = Ok(3);
    assert_eq!(Utils::jsvalue_to_error(ok), Ok(()));
    let text: Result<(), HostValue> = Err(HostValue::Text("denied".to_string()));
    assert_eq!(
        Utils::jsvalue_to_error(text),
        Err(WalletError::InternalError("denied".to_string()))
    );
    let object: Result<(), HostValue> = Err(HostValue::Object(vec![
        HostField { key: "name".to_string(), value: HostValue::Text("TypeError".to_string()), listed: true },
        HostField { key: "message".to_string(), value: HostValue::Text("no such thing".to_string()), listed: true },
    ]));
    assert_eq!(
        Utils::jsvalue_to_error(object),
        Err(WalletError::InternalError("no such thing".to_string()))
    );
    let other: Result<(), HostValue> = Err(HostValue::Other("number".to_string()));
    assert_eq!(
        Utils::jsvalue_to_error(other),
        Err(WalletError::InternalError("number".to_string()))
    );
    let null: Result<(), HostValue> = Err(HostValue::Null);
    assert_eq!(
        Utils::jsvalue_to_error(null),
        Err(WalletError::InternalError("object".to_string()))
    );
    let odd: Result<(), HostValue> = Err(HostValue::Object(vec![HostField {
        key: "message".to_string(),
        value: HostValue::Boolean(true),
        listed: true,
    }]));
    assert_eq!(
        Utils::jsvalue_to_error(odd),
        Err(WalletError::InternalError("object".to_string()))
    );
}

#[test]
fn signatures_are_read_from_sixty_four_bytes() {
    let bytes: Vec<u8> = (0u8..64).collect();
    let signature = Utils::jsvalue_to_signature(HostValue::Bytes(bytes.clone()), "signMessage");
    assert_eq!(signature.unwrap().to_bytes().to_vec(), bytes);
    assert_eq!(
        Utils::jsvalue_to_signature(HostValue::Bytes(bytes[..63].to_vec()), "signMessage")
            .unwrap_err(),
        WalletError::Expected64ByteLength
    );
    assert_eq!(
        Utils::jsvalue_to_signature(HostValue::Bytes(Vec::new()), "signMessage").unwrap_err(),
        WalletError::Expected64ByteLength
    );
    assert_eq!(
        Utils::jsvalue_to_signature(HostValue::Text("abc".to_string()), "signMessage")
            .unwrap_err(),
        WalletError::InternalError(
            "signMessage: a value of type `string` cannot be cast to a Uint8Array".to_string()
        )
    );
    assert_eq!(
        Utils::jsvalue_to_signature(HostValue::Undefined, "solana:signIn").unwrap_err(),
        WalletError::InternalError(
            "solana:signIn: a value of type `undefined` cannot be cast to a Uint8Array"
                .to_string()
        )
    );
}
