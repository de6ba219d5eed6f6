//! Laws on hexadecimal text and on the database key.

use vstd::prelude::*;
use vstd::utf8::encode_utf8;

use crate::crypto::{
    hex_decode, hex_encode, is_hex_digit, key_drawn, key_from_environment, key_from_keyring,
    key_saved, law_hex_round_trip, HexError, KeyError, KeyStep, KeyringReply,
};
use crate::laws::text::{is_bare, is_blank, lemma_trimmed};

verus! {

/// The number that a lower case hexadecimal digit stands for, or -1.
pub open spec fn digit_number(c: int) -> int {
    if '0' as int <= c && c <= '9' as int {
        c - '0' as int
    } else if 'a' as int <= c && c <= 'f' as int {
        c - 'a' as int + 10
    } else {
        -1
    }
}

/// The number that a hexadecimal digit of either case stands for, or -1.
pub open spec fn any_digit_number(c: int) -> int {
    if 'A' as int <= c && c <= 'F' as int {
        c - 'A' as int + 10
    } else {
        digit_number(c)
    }
}

/// Bytes are written as two lower case hexadecimal digits each, the higher first.
pub proof fn law_hex_writes_each_byte(bytes: &[u8], res: String, i: int)
    requires
        call_ensures(hex_encode, (bytes,), res),
        0 <= i < bytes@.len(),
    ensures
        res@.len() == 2 * bytes@.len(),
        0 <= digit_number(res@[2 * i] as int),
        0 <= digit_number(res@[2 * i + 1] as int),
        bytes@[i] == 16 * digit_number(res@[2 * i] as int) + digit_number(res@[2 * i + 1] as int),
{
    assert((2 * i) / 2 == i && (2 * i) % 2 == 0);
    assert((2 * i + 1) / 2 == i && (2 * i + 1) % 2 == 1);
    let b = bytes@[i] as int;
    assert(0 <= b / 16 < 16 && 0 <= b % 16 < 16 && b == 16 * (b / 16) + b % 16);
}

/// Reading takes digits of either case, two for each byte, and no other character
/// but white space around them. An odd number of bytes in the text is found first.
pub proof fn law_hex_reads_each_byte(
    text: &str,
    before: Seq<char>,
    inner: Seq<char>,
    after: Seq<char>,
    res: Result<Vec<u8>, HexError>,
)
    requires
        text@ == before + inner + after,
        is_blank(before),
        is_blank(after),
        is_bare(inner),
        call_ensures(hex_decode, (text,), res),
    ensures
        res == Err::<Vec<u8>, HexError>(HexError::OddLength) <==> encode_utf8(inner).len() % 2 == 1,
        res == Err::<Vec<u8>, HexError>(HexError::NotHex) <==> encode_utf8(inner).len() % 2 == 0
            && exists|i: int|
            0 <= i < encode_utf8(inner).len() && any_digit_number(
                #[trigger] encode_utf8(inner)[i] as int,
            ) < 0,
        res matches Ok(bytes) ==> {
            &&& 2 * bytes@.len() == encode_utf8(inner).len()
            &&& forall|i: int|
                0 <= i < bytes@.len() ==> #[trigger] bytes@[i] == 16 * any_digit_number(
                    encode_utf8(inner)[2 * i] as int,
                ) + any_digit_number(encode_utf8(inner)[2 * i + 1] as int)
        },
{
    lemma_trimmed(before, inner, after);
    let digits = encode_utf8(inner);
    assert forall|i: int| 0 <= i < digits.len() implies (is_hex_digit(#[trigger] digits[i]) <==> 0
        <= any_digit_number(digits[i] as int)) by {}
    if digits.len() % 2 == 0 {
        if exists|i: int| 0 <= i < digits.len() && !is_hex_digit(#[trigger] digits[i]) {
            let i = choose|i: int| 0 <= i < digits.len() && !is_hex_digit(#[trigger] digits[i]);
            assert(any_digit_number(digits[i] as int) < 0);
        } else {
            let bytes = res->Ok_0@;
            assert forall|i: int| 0 <= i < bytes.len() implies #[trigger] bytes[i] == 16
                * any_digit_number(digits[2 * i] as int) + any_digit_number(
                digits[2 * i + 1] as int,
            ) by {
                assert(is_hex_digit(digits[2 * i]));
                assert(is_hex_digit(digits[2 * i + 1]));
            }
        }
    }
}

/// Bytes that were written in hexadecimal are read back.
pub proof fn law_hex_is_read_back(
    bytes: &[u8],
    text: String,
    view: &str,
    back: Result<Vec<u8>, HexError>,
)
    requires
        call_ensures(hex_encode, (bytes,), text),
        view@ == text@,
        call_ensures(hex_decode, (view,), back),
    ensures
        back matches Ok(again) && again@ == bytes@,
{
    law_hex_round_trip(bytes@);
}

/// A key that the environment gives is read as it is and settles the matter: the
/// keyring is asked only where the environment gives none.
pub proof fn law_environment_goes_first(
    value: Option<&str>,
    res: KeyStep,
    read: Result<Vec<u8>, HexError>,
)
    requires
        call_ensures(key_from_environment, (value,), res),
        value is Some ==> call_ensures(hex_decode, (value->Some_0,), read),
    ensures
        value is None <==> res == KeyStep::ReadKeyring,
        value is Some ==> match read {
            Ok(bytes) => res matches KeyStep::Finished(key) && key@ == bytes@,
            Err(error) => res == KeyStep::Failed(KeyError::Hex(error)),
        },
{
}

/// A key that the keyring holds is the key, a keyring without one asks for a new key
/// of 32 bytes, and a keyring that fails gives no key.
pub proof fn law_keyring_decides(
    reply: KeyringReply,
    password: &str,
    read: Result<Vec<u8>, HexError>,
    res: KeyStep,
)
    requires
        call_ensures(key_from_keyring, (reply,), res),
        reply matches KeyringReply::Password(held) ==> password@ == held@,
        call_ensures(hex_decode, (password,), read),
    ensures
        reply == KeyringReply::NoEntry <==> res == KeyStep::Draw(32),
        !(res is Draw) || res == KeyStep::Draw(32),
        reply is Password ==> match read {
            Ok(bytes) => res matches KeyStep::Finished(key) && key@ == bytes@,
            Err(error) => res == KeyStep::Failed(KeyError::Hex(error)),
        },
        reply matches KeyringReply::Failed(reason) ==> res == KeyStep::Failed(
            KeyError::Reading(reason),
        ),
{
}

/// A new key is used only once it is stored, as it was drawn; what is stored is what
/// the keyring gives it back from at every later start.
pub proof fn law_new_key_is_kept(
    key: Vec<u8>,
    step: KeyStep,
    failure: Option<String>,
    done: KeyStep,
    reply: KeyringReply,
    later: KeyStep,
)
    requires
        call_ensures(key_drawn, (key,), step),
        call_ensures(key_saved, (key, failure), done),
        step matches KeyStep::Save { hex, .. } ==> (reply matches KeyringReply::Password(held)
            && held@ == hex@),
        call_ensures(key_from_keyring, (reply,), later),
    ensures
        step matches KeyStep::Save { key: same, .. } && same == key,
        failure is None ==> done == KeyStep::Finished(key),
        failure matches Some(reason) ==> done == KeyStep::Failed(KeyError::Storing(reason)),
        later matches KeyStep::Finished(again) && again@ == key@,
{
    law_hex_round_trip(key@);
}

/// Every error says what failed, and the keyring's own reason follows.
pub proof fn law_key_messages(error: &KeyError, res: String)
    requires
        call_ensures(KeyError::message, (error,), res),
    ensures
        *error matches KeyError::Hex(HexError::OddLength) ==> res@ == "hex string has odd length"@,
        *error matches KeyError::Hex(HexError::NotHex) ==> res@
            == "hex string contains non-hex characters"@,
        *error matches KeyError::Reading(reason) ==> res@ == "reading database key from keyring: "@
            + reason@,
        *error matches KeyError::Storing(reason) ==> res@ == "storing database key in keyring: "@
            + reason@,
{
}

/// The two faults of hexadecimal text are told apart.
pub proof fn law_hex_messages(error: HexError, res: &'static str)
    requires
        call_ensures(HexError::message, (error,), res),
    ensures
        error == HexError::OddLength ==> res@ == "hex string has odd length"@,
        error == HexError::NotHex ==> res@ == "hex string contains non-hex characters"@,
{
}

} // verus!
