//! Hiragana to katakana.

use vstd::prelude::*;
use vstd::utf8::is_scalar;

use crate::text::{chars_of, push_char};

verus! {

/// The katakana for a hiragana character (U+3041 to U+3096, shifted by 0x60);
/// any other character unchanged.
pub open spec fn katakana_char(c: char) -> char {
    let v = c as u32;
    if 0x3041 <= v <= 0x3096 {
        (v + 0x60) as char
    } else {
        c
    }
}

/// Relies on `char::from_u32`: a character exactly for a Unicode scalar value.
#[verifier::external_body]
fn char_from_u32(v: u32) -> (r: Option<char>)
    ensures
        is_scalar(v) ==> r == Some(v as char),
        !is_scalar(v) ==> r is None,
{
    char::from_u32(v)
}

/// `input` with every hiragana character replaced by its katakana; long vowel
/// marks, ASCII, punctuation and the rest stay as they are.
pub fn to_katakana(input: &str) -> (r: String)
    ensures
        r@ == input@.map_values(|c: char| katakana_char(c)),
{
    let cs = chars_of(input);
    let mut out = String::new();
    let mut i: usize = 0;
    while i < cs.len()
        invariant
            i <= cs@.len(),
            out@ == cs@.subrange(0, i as int).map_values(|c: char| katakana_char(c)),
        decreases cs@.len() - i,
    {
        let ch = cs[i];
        let cp = ch as u32;
        let k = if 0x3041 <= cp && cp <= 0x3096 {
            match char_from_u32(cp + 0x60) {
                Some(k) => k,
                None => ch,
            }
        } else {
            ch
        };
        assert(is_scalar((cp + 0x60) as u32) || !(0x3041 <= cp <= 0x3096));
        push_char(&mut out, k);
        assert(out@ =~= cs@.subrange(0, i + 1).map_values(|c: char| katakana_char(c)));
        i = i + 1;
    }
    assert(cs@.subrange(0, cs@.len() as int) =~= cs@);
    out
}

} // verus!
