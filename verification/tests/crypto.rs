use clipway::crypto::{
    hex_decode, hex_encode, key_drawn, key_from_environment, key_from_keyring, key_saved, HexError,
    KeyError, KeyStep, KeyringReply,
};

#[test]
fn hex_roundtrip() {
    let bytes = [0x00, 0x0f, 0xa5, 0xff];
    assert_eq!(hex_encode(&bytes), "000fa5ff");
    assert_eq!(hex_decode("000fa5ff").unwrap(), bytes);
}

#[test]
fn hex_rejects_invalid_input() {
    assert!(hex_decode("abc").is_err());
    assert!(hex_decode("zz").is_err());
}

#[test]
fn hex_errors_say_what_is_wrong() {
    assert_eq!(hex_decode("abc"), Err(HexError::OddLength));
    assert_eq!(hex_decode("zz"), Err(HexError::NotHex));
    // Two bytes in UTF-8, neither of them a digit.
    assert_eq!(hex_decode("\u{e9}"), Err(HexError::NotHex));
    // Three bytes in UTF-8: the length is looked at first.
    assert_eq!(hex_decode("\u{e9}a"), Err(HexError::OddLength));
    assert_eq!(HexError::OddLength.message(), "hex string has odd length");
    assert_eq!(
        HexError::NotHex.message(),
        "hex string contains non-hex characters"
    );
}

#[test]
fn hex_ignores_case_and_white_space_around() {
    assert_eq!(hex_decode(" \u{2003}DEADbeef\n").unwrap(), [0xde, 0xad, 0xbe, 0xef]);
    assert_eq!(hex_decode("").unwrap(), Vec::<u8>::new());
    assert_eq!(hex_encode(&[]), "");
}

#[test]
fn hex_gives_every_byte_back() {
    let all: Vec<u8> = (0..=255).collect();
    assert_eq!(hex_decode(&hex_encode(&all)).unwrap(), all);
}

#[test]
fn env_key_override_is_used() {
    let step = key_from_environment(Some("00112233445566778899aabbccddeeff"));
    let KeyStep::Finished(key) = step else {
        panic!("no key");
    };
    assert_eq!(key.len(), 16);
}

#[test]
fn key_comes_from_the_keyring_without_an_override() {
    assert_eq!(key_from_environment(None), KeyStep::ReadKeyring);
    assert_eq!(
        key_from_keyring(KeyringReply::Password("00ff".to_string())),
        KeyStep::Finished(vec![0x00, 0xff])
    );
    assert_eq!(key_from_keyring(KeyringReply::NoEntry), KeyStep::Draw(32));
    let failed = key_from_keyring(KeyringReply::Failed("locked".to_string()));
    assert_eq!(failed, KeyStep::Failed(KeyError::Reading("locked".to_string())));
    let KeyStep::Failed(error) = failed else {
        panic!("not failed");
    };
    assert_eq!(error.message(), "reading database key from keyring: locked");
}

#[test]
fn bad_keys_are_refused() {
    let KeyStep::Failed(error) = key_from_environment(Some("abc")) else {
        panic!("not failed");
    };
    assert_eq!(error.message(), "hex string has odd length");
    let KeyStep::Failed(error) = key_from_keyring(KeyringReply::Password("zz".to_string())) else {
        panic!("not failed");
    };
    assert_eq!(error.message(), "hex string contains non-hex characters");
}

#[test]
fn new_key_is_saved_and_read_back() {
    let drawn: Vec<u8> = (0..32).map(|byte| byte * 7).collect();
    let KeyStep::Save { key, hex } = key_drawn(drawn.clone()) else {
        panic!("not saved");
    };
    assert_eq!(key, drawn);
    assert_eq!(hex.len(), 64);
    assert_eq!(&hex[..6], "00070e");
    assert_eq!(key_saved(key, None), KeyStep::Finished(drawn.clone()));
    assert_eq!(
        key_from_keyring(KeyringReply::Password(hex)),
        KeyStep::Finished(drawn.clone())
    );
    let KeyStep::Failed(error) = key_saved(drawn, Some("denied".to_string())) else {
        panic!("not failed");
    };
    assert_eq!(error.message(), "storing database key in keyring: denied");
}
