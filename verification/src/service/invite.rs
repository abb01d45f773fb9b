//! Invite codes: six characters from an alphabet without look-alikes.
//!
//! The alphabet is the capital letters without `I` and `O` and the digits
//! without `0` and `1`.

use vstd::prelude::*;
use vstd::string::*;
use vstd::utf8::is_ascii_chars;
use crate::host::random_index;

verus! {

/// The number of characters of an invite code.
pub const INVITE_CODE_LENGTH: usize = 6;

/// The number of characters of the alphabet.
pub const ALPHABET_SIZE: usize = 32;

/// The alphabet of invite codes, in the order in which indices pick from it.
pub open spec fn alphabet() -> Seq<char> {
    "ABCDEFGHJKLMNPQRSTUVWXYZ23456789"@
}

/// `c` is a character of the alphabet.
pub open spec fn in_alphabet(c: char) -> bool {
    ('A' <= c <= 'Z' && c != 'I' && c != 'O') || ('2' <= c <= '9')
}

/// `code` is an invite code: six characters of the alphabet.
pub open spec fn invite_code_valid(code: Seq<char>) -> bool {
    code.len() == INVITE_CODE_LENGTH && forall|i: int|
        0 <= i < code.len() ==> in_alphabet(#[trigger] code[i])
}

/// The alphabet has `ALPHABET_SIZE` characters, each of them without a
/// look-alike.
pub proof fn lemma_alphabet()
    ensures
        alphabet().len() == ALPHABET_SIZE,
        forall|i: int| 0 <= i < alphabet().len() ==> in_alphabet(#[trigger] alphabet()[i]),
        is_ascii_chars(alphabet()),
{
    reveal_strlit("ABCDEFGHJKLMNPQRSTUVWXYZ23456789");
}

/// Tests whether `code` is an invite code.
pub fn is_valid_invite_code(code: &str) -> (b: bool)
    ensures
        b == invite_code_valid(code@),
{
    if !code.is_ascii() {
        proof {
            if invite_code_valid(code@) {
                assert forall|i: int| 0 <= i < code@.len() implies '\0' <= #[trigger] code@[i]
                    <= '\u{7f}' by {
                    assert(in_alphabet(code@[i]));
                }
            }
        }
        return false;
    }
    let bytes: &[u8] = code.as_bytes();
    proof {
        is_ascii_spec_bytes(code);
    }
    if bytes.len() != INVITE_CODE_LENGTH {
        return false;
    }
    let mut i: usize = 0;
    while i < bytes.len()
        invariant
            i <= bytes.len(),
            bytes.len() == code@.len(),
            code@.len() == INVITE_CODE_LENGTH,
            is_ascii_chars(code@),
            forall|j: int| 0 <= j < bytes.len() ==> bytes[j] == (#[trigger] code@[j]) as u8,
            forall|j: int| 0 <= j < i ==> in_alphabet(#[trigger] code@[j]),
        decreases bytes.len() - i,
    {
        let b: u8 = bytes[i];
        assert(b == code@[i as int] as u8);
        let letter: bool = 65 <= b && b <= 90 && b != 73 && b != 79;
        let digit: bool = 50 <= b && b <= 57;
        if !letter && !digit {
            assert(!in_alphabet(code@[i as int]));
            return false;
        }
        assert(in_alphabet(code@[i as int]));
        i += 1;
    }
    true
}

/// The character of the alphabet at `index`, as a text of one character.
pub fn alphabet_char(index: usize) -> (r: &'static str)
    requires
        index < ALPHABET_SIZE,
    ensures
        r@ == seq![alphabet()[index as int]],
        in_alphabet(r@[0]),
{
    let letters: &'static str = "ABCDEFGHJKLMNPQRSTUVWXYZ23456789";
    proof {
        lemma_alphabet();
    }
    let r = letters.substring_ascii(index, index + 1);
    assert(r@ =~= seq![alphabet()[index as int]]);
    r
}

/// Generate a random invite code.
pub fn generate_invite_code() -> (code: String)
    ensures
        invite_code_valid(code@),
{
    let mut code: String = String::new();
    let mut i: usize = 0;
    while i < INVITE_CODE_LENGTH
        invariant
            i <= INVITE_CODE_LENGTH,
            code@.len() == i,
            forall|j: int| 0 <= j < code@.len() ==> in_alphabet(#[trigger] code@[j]),
        decreases INVITE_CODE_LENGTH - i,
    {
        let index: usize = random_index(ALPHABET_SIZE);
        let ghost before = code@;
        code.append(alphabet_char(index));
        assert forall|j: int| 0 <= j < code@.len() implies in_alphabet(#[trigger] code@[j]) by {
            if j < before.len() {
                assert(code@[j] == before[j]);
            }
        }
        i += 1;
    }
    code
}

/// The invite code of a new market: the custom code if one is given and is
/// an invite code, else a random one.
pub fn choose_invite_code(custom: Option<String>) -> (code: String)
    ensures
        invite_code_valid(code@),
        custom matches Some(wanted) ==> (invite_code_valid(wanted@) ==> code == wanted),
{
    match custom {
        Some(wanted) => {
            if is_valid_invite_code(wanted.as_str()) {
                wanted
            } else {
                generate_invite_code()
            }
        },
        None => generate_invite_code(),
    }
}

} // verus!
