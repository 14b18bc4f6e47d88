use wallet_adapter::registry::fingerprint;
use wallet_adapter::text::{has_prefix, same_text};
use wallet_adapter::{SemverVersion, Utils, WalletError, WALLET_STANDARD_VERSION};

fn hex(text: &str) -> Vec<u8> {
    let digits: Vec<u8> = text
        .bytes()
        .map(|b| match b {
            b'0'..=b'9' => b - b'0',
            b'a'..=b'f' => b - b'a' + 10,
            _ => panic!("not a hex digit"),
        })
        .collect();
    digits.chunks(2).map(|pair| pair[0] * 16 + pair[1]).collect()
}

#[test]
fn shorten_takes_four_from_each_end() {
    assert_eq!(Utils::shorten_base58("abcdefgh"), Ok("abcd...efgh".to_string()));
    assert_eq!(
        Utils::shorten_base58("FXdlmnopqrstuvwxyzRGd4"),
        Ok("FXdl...RGd4".to_string())
    );
}

#[test]
fn shorten_refuses_fewer_than_eight_characters() {
    assert_eq!(Utils::shorten_base58("abcdefg"), Err(WalletError::InvalidBase58Address));
    assert_eq!(Utils::shorten_base58(""), Err(WalletError::InvalidBase58Address));
}

#[test]
fn custom_shorten_takes_the_given_number() {
    assert_eq!(Utils::custom_shorten_base58("abcdefgh", 2), Ok("ab...gh".to_string()));
    assert_eq!(Utils::custom_shorten_base58("abcdefgh", 4), Ok("abcd...efgh".to_string()));
    assert_eq!(Utils::custom_shorten_base58("abcdefgh", 0), Ok("...".to_string()));
    assert_eq!(Utils::custom_shorten_base58("", 0), Ok("...".to_string()));
    assert_eq!(
        Utils::custom_shorten_base58("abcdefgh", 5),
        Err(WalletError::InvalidBase58Address)
    );
}

#[test]
fn custom_shorten_survives_a_huge_take() {
    assert_eq!(
        Utils::custom_shorten_base58("abcdefgh", usize::MAX),
        Err(WalletError::InvalidBase58Address)
    );
    assert_eq!(
        Utils::custom_shorten_base58("abcdefgh", usize::MAX / 2 + 1),
        Err(WalletError::InvalidBase58Address)
    );
}

#[test]
fn shorten_counts_characters_not_bytes() {
    assert_eq!(
        Utils::custom_shorten_base58("äbcdefgü", 2),
        Ok("äb...gü".to_string())
    );
    assert_eq!(Utils::shorten_base58("äöüßäöü"), Err(WalletError::InvalidBase58Address));
}

#[test]
fn shorten_reads_only_the_ends() {
    let first = Utils::shorten_base58("abcdXXXXXXwxyz");
    let second = Utils::shorten_base58("abcd1wxyz");
    assert_eq!(first, second);
    assert_eq!(first, Ok("abcd...wxyz".to_string()));
}

fn keys() -> Vec<[u8; 32]> {
    let mut found = Vec::new();
    for first in 0u8..=255 {
        for second in [0u8, 1, 77, 255] {
            let mut bytes = [second; 32];
            bytes[0] = first;
            if Utils::public_key(bytes).is_ok() {
                found.push(bytes);
            }
        }
    }
    found
}

#[test]
fn address_of_zero_key_is_thirty_two_ones() {
    let key = Utils::public_key([0u8; 32]).unwrap();
    assert_eq!(Utils::address(key), "11111111111111111111111111111111");
}

#[test]
fn address_decodes_to_the_key() {
    let keys = keys();
    assert!(keys.len() > 100);
    for bytes in keys {
        let address = Utils::address(Utils::public_key(bytes).unwrap());
        assert!(address.chars().all(|c| {
            "123456789ABCDEFGHJKLMNPQRSTUVWXYZabcdefghijkmnopqrstuvwxyz".contains(c)
        }));
        assert!(32 <= address.chars().count() && address.chars().count() <= 44);
        assert_eq!(Utils::decode_base58(&address), Ok(bytes.to_vec()));
        assert_eq!(bs58::decode(&address).into_vec().unwrap(), bytes.to_vec());
        assert_eq!(address, bs58::encode(bytes).into_string());
    }
}

#[test]
fn address_lengths_reach_both_ends() {
    let lengths: Vec<usize> = keys()
        .into_iter()
        .map(|bytes| Utils::address(Utils::public_key(bytes).unwrap()).len())
        .collect();
    assert_eq!(lengths.iter().min(), Some(&32));
    assert_eq!(lengths.iter().max(), Some(&44));
}

#[test]
fn signature_text_decodes_to_the_signature() {
    let mut signature = [0u8; 64];
    for (i, byte) in signature.iter_mut().enumerate() {
        *byte = (i as u8).wrapping_mul(91).wrapping_add(3);
    }
    let text = Utils::base58_signature(Utils::signature(signature));
    assert!(64 <= text.len() && text.len() <= 88);
    assert_eq!(Utils::decode_base58(&text), Ok(signature.to_vec()));
    let again = Utils::to64byte_array(&Utils::decode_base58(&text).unwrap()).unwrap();
    assert_eq!(again, signature);
}

#[test]
fn signature_text_is_sixty_four_to_eighty_eight_long() {
    assert_eq!(Utils::base58_signature(Utils::signature([0u8; 64])), "1".repeat(64));
    let largest = Utils::base58_signature(Utils::signature([255u8; 64]));
    assert_eq!(largest.len(), 88);
    assert_eq!(Utils::decode_base58(&largest), Ok(vec![255u8; 64]));
}

#[test]
fn base58_matches_the_known_text() {
    let bytes = [0x04u8, 0x30, 0x5e, 0x2b, 0x24, 0x73, 0xf0, 0x58];
    assert_eq!(Utils::decode_base58("he11owor1d"), Ok(bytes.to_vec()));
    let mut signature = [0u8; 64];
    signature[63] = 1;
    let text = Utils::base58_signature(Utils::signature(signature));
    assert_eq!(text.len(), 64);
    assert!(text.starts_with(&"1".repeat(63)));
    assert!(text.ends_with('2'));
}

#[test]
fn decode_refuses_what_is_not_base58() {
    assert_eq!(Utils::decode_base58("0OIl"), Err(WalletError::InvalidBase58Address));
    assert_eq!(Utils::decode_base58("abc def"), Err(WalletError::InvalidBase58Address));
    assert_eq!(Utils::decode_base58(""), Ok(Vec::new()));
}

#[test]
fn byte_arrays_need_the_exact_width() {
    let bytes: Vec<u8> = (0u8..64).collect();
    assert_eq!(Utils::to32byte_array(&bytes[..32]).unwrap().to_vec(), bytes[..32].to_vec());
    assert_eq!(Utils::to32byte_array(&bytes[..31]), Err(WalletError::Expected32ByteLength));
    assert_eq!(Utils::to32byte_array(&bytes[..33]), Err(WalletError::Expected32ByteLength));
    assert_eq!(Utils::to32byte_array(&[]), Err(WalletError::Expected32ByteLength));
    assert_eq!(Utils::to64byte_array(&bytes).unwrap().to_vec(), bytes);
    assert_eq!(Utils::to64byte_array(&bytes[..63]), Err(WalletError::Expected64ByteLength));
    assert_eq!(Utils::to64byte_array(&bytes[..32]), Err(WalletError::Expected64ByteLength));
}

#[test]
fn fingerprint_is_the_digest_of_the_lowercased_name() {
    assert_eq!(fingerprint("Alpha"), *blake3::hash(b"alpha").as_bytes());
    assert_eq!(fingerprint("ALPHA"), fingerprint("alpha"));
    assert_ne!(fingerprint("alpha"), fingerprint("beta"));
    assert_eq!(fingerprint("ÄRGER"), *blake3::hash("ärger".as_bytes()).as_bytes());
    assert_eq!(
        fingerprint("").to_vec(),
        hex("af1349b9f5f9a1a6a0404dea36dcc9499bcb25c9adc112b7cc9a93cae41f3262")
    );
}

#[test]
fn text_helpers_compare_characters() {
    assert!(same_text("solana:", "solana:"));
    assert!(!same_text("solana:", "solana"));
    assert!(!same_text("a", "b"));
    assert!(same_text("", ""));
    assert!(has_prefix("solana:mainnet", "solana:"));
    assert!(has_prefix("solana:", "solana:"));
    assert!(has_prefix("anything", ""));
    assert!(!has_prefix("solana", "solana:"));
    assert!(!has_prefix("ethereum:1", "solana:"));
    assert!(has_prefix("äöü", "äö"));
}

#[test]
fn versions_are_three_numbers() {
    assert_eq!(
        SemverVersion::parse("1.0.0"),
        Ok(SemverVersion { major: 1, minor: 0, patch: 0 })
    );
    assert_eq!(
        SemverVersion::parse("12.345.6789"),
        Ok(SemverVersion { major: 12, minor: 345, patch: 6789 })
    );
    assert_eq!(
        SemverVersion::parse("18446744073709551615.0.0"),
        Ok(SemverVersion { major: u64::MAX, minor: 0, patch: 0 })
    );
    assert_eq!(SemverVersion::parse(WALLET_STANDARD_VERSION), Ok(SemverVersion::standard()));
    for bad in [
        "", "1", "1.0", "1.0.0.0", "1..0", ".1.0", "1.0.", "a.b.c", "1.0.x", "-1.0.0",
        "18446744073709551616.0.0", "1.0.0 ", "１.0.0",
    ] {
        assert_eq!(
            SemverVersion::parse(bad),
            Err(WalletError::InternalError(format!(
                "`{}` is not a version of the form major.minor.patch",
                bad
            )))
        );
    }
}

#[test]
fn versions_agree_by_their_major_number() {
    let standard = SemverVersion::standard();
    assert!(SemverVersion { major: 1, minor: 4, patch: 2 }.is_compatible_with(&standard));
    assert!(!SemverVersion { major: 2, minor: 0, patch: 0 }.is_compatible_with(&standard));
    assert!(!SemverVersion { major: 0, minor: 9, patch: 0 }.is_compatible_with(&standard));
}

#[test]
fn errors_have_their_messages() {
    assert_eq!(
        WalletError::UnsupportedChain("ethereum:1".to_string()).message(),
        "the chain `ethereum:1` is not supported"
    );
    assert!(WalletError::UnsupportedChain(String::new()).is_unsupported_chain());
    assert!(!WalletError::ValueNotFound.is_unsupported_chain());
    assert_eq!(
        WalletError::TypeMismatch("string".to_string(), "object".to_string()).message(),
        "expected a value of type `string` but the host reported `object`"
    );
    assert_eq!(
        WalletError::InternalError("boom".to_string()).message(),
        "internal error: boom"
    );
    assert_eq!(
        WalletError::ValueNotFound.message(),
        "a required value is null or undefined"
    );
    assert_eq!(WalletError::InvalidSignature.message(), "the signature is not valid");
    assert_eq!(
        WalletError::InvalidBase58Address.message(),
        "the Base58 string is too short or malformed"
    );
    assert_eq!(
        WalletError::Expected32ByteLength.message(),
        "expected a byte view of 32 bytes"
    );
    assert_eq!(
        WalletError::Expected64ByteLength.message(),
        "expected a byte view of 64 bytes"
    );
    assert_eq!(
        WalletError::InvalidEd25519PublicKeyBytes.message(),
        "the bytes are not a valid Ed25519 public key"
    );
    let error = WalletError::TypeMismatch("a".to_string(), "b".to_string());
    assert_eq!(error.duplicate(), error);
}
