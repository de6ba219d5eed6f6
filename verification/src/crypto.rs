//! Hexadecimal text and the database key.

use vstd::prelude::*;
use vstd::utf8::*;

use crate::text::{from_chars, to_chars, trim, trimmed};

verus! {

/// The lower case hexadecimal digit for a number below sixteen.
pub open spec fn hex_digit(n: int) -> char {
    if n < 10 {
        (48 + n) as char
    } else {
        (87 + n) as char
    }
}

/// Two lower case hexadecimal digits for each byte.
pub open spec fn hex_encoded(bytes: Seq<u8>) -> Seq<char> {
    Seq::new(
        2 * bytes.len(),
        |i: int|
            if i % 2 == 0 {
                hex_digit(bytes[i / 2] as int / 16)
            } else {
                hex_digit(bytes[i / 2] as int % 16)
            },
    )
}

/// Is the byte an ASCII hexadecimal digit, in either case?
pub open spec fn is_hex_digit(byte: u8) -> bool {
    ||| 48 <= byte <= 57
    ||| 65 <= byte <= 70
    ||| 97 <= byte <= 102
}

/// The number that a hexadecimal digit stands for.
pub open spec fn hex_value(byte: u8) -> int {
    if byte <= 57 {
        byte - 48
    } else if byte <= 70 {
        byte - 55
    } else {
        byte - 87
    }
}

/// Why a text is not the hexadecimal form of some bytes.
#[derive(Clone, Copy, Debug, PartialEq, Eq, Structural)]
pub enum HexError {
    /// The text has an odd number of bytes.
    OddLength,
    /// The text holds something else than hexadecimal digits.
    NotHex,
}

impl HexError {
    /// The message for this error.
    pub fn message(self) -> (res: &'static str)
        ensures
            res@ == (match self {
                HexError::OddLength => "hex string has odd length"@,
                HexError::NotHex => "hex string contains non-hex characters"@,
            }),
    {
        match self {
            HexError::OddLength => "hex string has odd length",
            HexError::NotHex => "hex string contains non-hex characters",
        }
    }
}

/// The bytes whose hexadecimal form `text` is, but for white space around it.
pub open spec fn hex_decoded(text: Seq<char>) -> Result<Seq<u8>, HexError> {
    let digits = encode_utf8(trimmed(text));
    if digits.len() % 2 != 0 {
        Err(HexError::OddLength)
    } else if exists|i: int| 0 <= i < digits.len() && !is_hex_digit(#[trigger] digits[i]) {
        Err(HexError::NotHex)
    } else {
        Ok(
            Seq::new(
                digits.len() / 2,
                |i: int| (hex_value(digits[2 * i]) * 16 + hex_value(digits[2 * i + 1])) as u8,
            ),
        )
    }
}

fn hex_char(n: u8) -> (res: char)
    requires
        n < 16,
    ensures
        res == hex_digit(n as int),
{
    if n < 10 {
        (48 + n) as char
    } else {
        (87 + n) as char
    }
}

/// Writes bytes as lower case hexadecimal digits.
pub fn hex_encode(bytes: &[u8]) -> (res: String)
    ensures
        res@ == hex_encoded(bytes@),
{
    let mut out = String::new();
    let mut i: usize = 0;
    while i < bytes.len()
        invariant
            i <= bytes@.len(),
            out@ == hex_encoded(bytes@.take(i as int)),
        decreases bytes@.len() - i,
    {
        out.push(hex_char(bytes[i] / 16));
        out.push(hex_char(bytes[i] % 16));
        i += 1;
        proof {
            assert(out@ =~= hex_encoded(bytes@.take(i as int)));
        }
    }
    proof {
        assert(bytes@.take(i as int) =~= bytes@);
    }
    out
}

fn hex_number(byte: u8) -> (res: u8)
    requires
        is_hex_digit(byte),
    ensures
        res == hex_value(byte),
        res < 16,
{
    if byte <= 57 {
        byte - 48
    } else if byte <= 70 {
        byte - 55
    } else {
        byte - 87
    }
}

/// Reads bytes from hexadecimal digits, in either case, with or without white
/// space around them.
pub fn hex_decode(text: &str) -> (res: Result<Vec<u8>, HexError>)
    ensures
        match hex_decoded(text@) {
            Ok(bytes) => res matches Ok(v) && v@ == bytes,
            Err(error) => res matches Err(e) && e == error,
        },
{
    let chars = to_chars(text);
    let digits = from_chars(trim(chars.as_slice()));
    let bytes = digits.as_str().as_bytes();
    if bytes.len() % 2 != 0 {
        return Err(HexError::OddLength);
    }
    let mut i: usize = 0;
    while i < bytes.len()
        invariant
            i <= bytes@.len(),
            forall|j: int| 0 <= j < i ==> is_hex_digit(#[trigger] bytes@[j]),
            bytes@ == encode_utf8(trimmed(text@)),
            bytes@.len() % 2 == 0,
        decreases bytes@.len() - i,
    {
        let byte = bytes[i];
        if !((48 <= byte && byte <= 57) || (65 <= byte && byte <= 70) || (97 <= byte && byte
            <= 102)) {
            return Err(HexError::NotHex);
        }
        i += 1;
    }
    let mut out: Vec<u8> = Vec::new();
    let mut at: usize = 0;
    while at < bytes.len()
        invariant
            at <= bytes@.len(),
            at % 2 == 0,
            bytes@.len() % 2 == 0,
            forall|j: int| 0 <= j < bytes@.len() ==> is_hex_digit(#[trigger] bytes@[j]),
            out@.len() == at / 2,
            forall|j: int|
                0 <= j < out@.len() ==> #[trigger] out@[j] == hex_value(bytes@[2 * j]) * 16
                    + hex_value(bytes@[2 * j + 1]),
        decreases bytes@.len() - at,
    {
        let high = hex_number(bytes[at]);
        let low = hex_number(bytes[at + 1]);
        out.push(high * 16 + low);
        at += 2;
    }
    proof {
        assert(out@ =~= hex_decoded(text@)->Ok_0);
    }
    Ok(out)
}

/// What is written in hexadecimal is read back as it was.
pub proof fn law_hex_round_trip(bytes: Seq<u8>)
    ensures
        hex_decoded(hex_encoded(bytes)) == Ok::<Seq<u8>, HexError>(bytes),
{
    let text = hex_encoded(bytes);
    assert forall|i: int| 0 <= i < text.len() implies '0' <= (#[trigger] text[i]) <= 'f' by {}
    assert(is_ascii_chars(text));
    is_ascii_chars_encode_utf8(text);
    assert(trimmed(text) =~= text);
    let digits = encode_utf8(text);
    assert forall|i: int| 0 <= i < digits.len() implies is_hex_digit(#[trigger] digits[i]) by {
        assert(digits[i] == text[i] as u8);
    }
    let back = hex_decoded(text)->Ok_0;
    assert forall|i: int| 0 <= i < bytes.len() implies back[i] == bytes[i] by {
        assert(digits[2 * i] == text[2 * i] as u8);
        assert(digits[2 * i + 1] == text[2 * i + 1] as u8);
        assert((2 * i) / 2 == i && (2 * i + 1) / 2 == i);
    }
    assert(back =~= bytes);
}

/// Why there is no database key.
#[derive(Debug, PartialEq, Eq)]
pub enum KeyError {
    /// The key is not in hexadecimal.
    Hex(HexError),
    /// The keyring could not be read, for the reason given.
    Reading(String),
    /// The new key could not be stored in the keyring, for the reason given.
    Storing(String),
}

impl KeyError {
    /// The text of the message for this error.
    pub open spec fn text(&self) -> Seq<char> {
        match *self {
            KeyError::Hex(HexError::OddLength) => "hex string has odd length"@,
            KeyError::Hex(HexError::NotHex) => "hex string contains non-hex characters"@,
            KeyError::Reading(reason) => "reading database key from keyring: "@ + reason@,
            KeyError::Storing(reason) => "storing database key in keyring: "@ + reason@,
        }
    }

    /// The message for this error.
    pub fn message(&self) -> (res: String)
        ensures
            res@ == self.text(),
    {
        match self {
            KeyError::Hex(error) => error.message().to_owned(),
            KeyError::Reading(reason) => {
                let mut out = "reading database key from keyring: ".to_owned();
                out.append(reason.as_str());
                out
            },
            KeyError::Storing(reason) => {
                let mut out = "storing database key in keyring: ".to_owned();
                out.append(reason.as_str());
                out
            },
        }
    }
}

/// What the keyring answers when it is asked for the key.
#[derive(Debug, PartialEq, Eq)]
pub enum KeyringReply {
    /// It holds this password.
    Password(String),
    /// It holds no password.
    NoEntry,
    /// It could not be read, for the reason given.
    Failed(String),
}

/// What is to be done next to get the database key.
#[derive(Debug, PartialEq, Eq)]
pub enum KeyStep {
    /// Ask the keyring for the key.
    ReadKeyring,
    /// Draw this many random bytes for a new key.
    Draw(usize),
    /// Store the text in the keyring; it is the hexadecimal form of the key.
    Save {
        key: Vec<u8>,
        hex: String,
    },
    /// The key is here.
    Finished(Vec<u8>),
    /// There is no key.
    Failed(KeyError),
}

/// `step` gives the key that `hex` writes, or the error that it makes.
pub open spec fn is_decoded(step: KeyStep, hex: Seq<char>) -> bool {
    match hex_decoded(hex) {
        Ok(bytes) => step matches KeyStep::Finished(key) && key@ == bytes,
        Err(error) => step matches KeyStep::Failed(KeyError::Hex(e)) && e == error,
    }
}

fn decoded_key(hex: &str) -> (res: KeyStep)
    ensures
        is_decoded(res, hex@),
{
    match hex_decode(hex) {
        Ok(key) => KeyStep::Finished(key),
        Err(error) => KeyStep::Failed(KeyError::Hex(error)),
    }
}

/// The first step: a key that the environment gives is taken, whatever the keyring
/// holds.
pub fn key_from_environment(value: Option<&str>) -> (res: KeyStep)
    ensures
        match value {
            Some(hex) => is_decoded(res, hex@),
            None => res == KeyStep::ReadKeyring,
        },
{
    match value {
        Some(hex) => decoded_key(hex),
        None => KeyStep::ReadKeyring,
    }
}

/// The step after the keyring's answer: a key that it holds is taken; where it
/// holds none, a new key of 32 bytes is drawn.
pub fn key_from_keyring(reply: KeyringReply) -> (res: KeyStep)
    ensures
        match reply {
            KeyringReply::Password(hex) => is_decoded(res, hex@),
            KeyringReply::NoEntry => res == KeyStep::Draw(32),
            KeyringReply::Failed(reason) => res == KeyStep::Failed(KeyError::Reading(reason)),
        },
{
    match reply {
        KeyringReply::Password(hex) => decoded_key(hex.as_str()),
        KeyringReply::NoEntry => KeyStep::Draw(32),
        KeyringReply::Failed(reason) => KeyStep::Failed(KeyError::Reading(reason)),
    }
}

/// The step after a new key was drawn: it is stored before it is used.
pub fn key_drawn(key: Vec<u8>) -> (res: KeyStep)
    ensures
        res matches KeyStep::Save { key: kept, hex } && kept == key && hex@ == hex_encoded(key@),
{
    let hex = hex_encode(key.as_slice());
    KeyStep::Save { key, hex }
}

/// The step after a new key was stored, or was not.
pub fn key_saved(key: Vec<u8>, failure: Option<String>) -> (res: KeyStep)
    ensures
        match failure {
            None => res == KeyStep::Finished(key),
            Some(reason) => res == KeyStep::Failed(KeyError::Storing(reason)),
        },
{
    match failure {
        None => KeyStep::Finished(key),
        Some(reason) => KeyStep::Failed(KeyError::Storing(reason)),
    }
}

/// A new key that was stored in the keyring is the key that the keyring gives at
/// every later start.
pub proof fn law_saved_key_is_read_back(key: Seq<u8>, step: KeyStep)
    requires
        is_decoded(step, hex_encoded(key)),
    ensures
        step matches KeyStep::Finished(again) && again@ == key,
{
    law_hex_round_trip(key);
}

} // verus!
