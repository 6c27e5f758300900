//! Credential shape checks: username grammar and password composition.
use vstd::prelude::*;
use vstd::string::*;
use vstd::utf8::*;

verus! {

/// Unicode alphabetic classification of a character, a function of the
/// character alone; given meaning by `is_alphabetic_char` below.
pub uninterp spec fn char_alphabetic(c: char) -> bool;

/// Relies on char::is_alphabetic: a pure classification. ASCII letters have
/// the Alphabetic property and ASCII digits do not.
#[verifier::external_body]
fn is_alphabetic_char(c: char) -> (r: bool)
    ensures
        r == char_alphabetic(c),
        ('a' as u32 <= c as u32 && c as u32 <= 'z' as u32) || ('A' as u32 <= c as u32 && c as u32
            <= 'Z' as u32) ==> r,
        ('0' as u32 <= c as u32 && c as u32 <= '9' as u32) ==> !r,
{
    c.is_alphabetic()
}

/// Characters a username may hold: ASCII letters, `-`, `_` and `.`.
pub open spec fn username_char(c: char) -> bool {
    let u = c as u32;
    ||| ('a' as u32 <= u && u <= 'z' as u32)
    ||| ('A' as u32 <= u && u <= 'Z' as u32)
    ||| c == '-'
    ||| c == '_'
    ||| c == '.'
}

/// A username is 2 to 32 bytes long and every character is from the
/// restricted alphabet.
pub open spec fn valid_username(s: Seq<char>) -> bool {
    &&& 2 <= encode_utf8(s).len() <= 32
    &&& forall|i: int| 0 <= i < s.len() ==> username_char(#[trigger] s[i])
}

/// Whether `c` is an ASCII digit.
pub open spec fn digit_char(c: char) -> bool {
    '0' as u32 <= c as u32 && c as u32 <= '9' as u32
}

/// How many characters of `s` are alphabetic.
pub open spec fn alpha_count(s: Seq<char>) -> nat
    decreases s.len(),
{
    if s.len() == 0 {
        0
    } else {
        alpha_count(s.drop_last()) + if char_alphabetic(s.last()) {
            1nat
        } else {
            0nat
        }
    }
}

/// How many characters of `s` are ASCII digits.
pub open spec fn digit_count(s: Seq<char>) -> nat
    decreases s.len(),
{
    if s.len() == 0 {
        0
    } else {
        digit_count(s.drop_last()) + if digit_char(s.last()) {
            1nat
        } else {
            0nat
        }
    }
}

/// A password is at least 12 bytes long and holds at least one alphabetic
/// character, at least one ASCII digit, and at least one byte of neither
/// class (multi-byte characters count toward that last bucket).
pub open spec fn valid_password(s: Seq<char>) -> bool {
    let bytes = encode_utf8(s).len();
    &&& bytes >= 12
    &&& alpha_count(s) > 0
    &&& digit_count(s) > 0
    &&& bytes - alpha_count(s) - digit_count(s) > 0
}

/// The UTF-8 encoding of a character sequence is at least as long as the
/// sequence itself.
proof fn lemma_byte_len_ge_char_len(s: Seq<char>)
    ensures
        encode_utf8(s).len() >= s.len(),
    decreases s.len(),
{
    if s.len() > 0 {
        lemma_byte_len_ge_char_len(s.drop_first());
        assert(encode_scalar(s[0] as u32).len() >= 1);
    }
}

/// Exact check of the username grammar: length within [2, 32] bytes and
/// every character an ASCII letter, `-`, `_` or `.`.
pub fn is_valid_username(username: &str) -> (r: bool)
    ensures
        r == valid_username(username@),
{
    let len = username.as_bytes().len();
    if len < 2 || len > 32 {
        return false;
    }
    let n = username.unicode_len();
    let mut i: usize = 0;
    while i < n
        invariant
            n == username@.len(),
            i <= n,
            2 <= encode_utf8(username@).len() <= 32,
            forall|j: int| 0 <= j < i ==> username_char(#[trigger] username@[j]),
        decreases n - i,
    {
        let c = username.get_char(i);
        let u = c as u32;
        if !((97 <= u && u <= 122) || (65 <= u && u <= 90) || u == 45 || u == 95 || u == 46) {
            return false;
        }
        i += 1;
    }
    true
}

/// Exact check of the password rule: at least 12 bytes, at least one
/// alphabetic character, one ASCII digit, and one byte of neither class.
pub fn is_valid_password(password: &str) -> (r: bool)
    ensures
        r == valid_password(password@),
{
    let bytes = password.as_bytes().len();
    let n = password.unicode_len();
    let mut alpha: usize = 0;
    let mut digit: usize = 0;
    let mut i: usize = 0;
    while i < n
        invariant
            n == password@.len(),
            i <= n,
            alpha == alpha_count(password@.take(i as int)),
            digit == digit_count(password@.take(i as int)),
            alpha + digit <= i,
        decreases n - i,
    {
        let c = password.get_char(i);
        let a = is_alphabetic_char(c);
        let u = c as u32;
        let d = 48 <= u && u <= 57;
        proof {
            assert(password@.take(i + 1).drop_last() =~= password@.take(i as int));
            assert(password@.take(i + 1).last() == password@[i as int]);
        }
        if a {
            alpha += 1;
        }
        if d {
            digit += 1;
        }
        i += 1;
    }
    proof {
        assert(password@.take(n as int) =~= password@);
        lemma_byte_len_ge_char_len(password@);
    }
    bytes >= 12 && alpha > 0 && digit > 0 && bytes - alpha - digit > 0
}

} // verus!
