//! Helpers that build the texts of greatest value.

use crate::common::{LABEL_SEPARATOR, MAX_DOMAIN_ASCII_CHAR_VALUE};
use crate::grammar::z_text;
use crate::text::{lemma_ascii_bytes, push_char, str_bytes};
use vstd::prelude::*;

verus! {

/// The bytes of the greatest domain name, which no domain name comes
/// after: 255 bytes, three labels of 63 times the letter `z` and one of 62,
/// each with its dot.
pub open spec fn max_domain_name_bytes() -> Seq<u8> {
    z_text(254).push(LABEL_SEPARATOR)
}

/// The greatest domain name, as a string.
pub fn max_domain_name() -> (r: String)
    ensures
        str_bytes(r@) == max_domain_name_bytes(),
{
    let mut text = String::new();
    let mut i: usize = 0;
    while i < 255
        invariant
            i <= 255,
            text@ == Seq::new(
                i as nat,
                |j: int|
                    if j % 64 == 63 || j == 254 {
                        '.'
                    } else {
                        'z'
                    },
            ),
        decreases 255 - i,
    {
        let ghost before = text@;
        if i % 64 == 63 || i == 254 {
            push_char(&mut text, '.');
        } else {
            push_char(&mut text, 'z');
        }
        i = i + 1;
        proof {
            assert(text@ =~= Seq::new(
                i as nat,
                |j: int|
                    if j % 64 == 63 || j == 254 {
                        '.'
                    } else {
                        'z'
                    },
            ));
        }
    }
    proof {
        lemma_ascii_bytes(text@);
        assert(str_bytes(text@) =~= max_domain_name_bytes());
    }
    text
}

/// The greatest label, as a string: 63 times the letter `z`.
pub fn max_domain_label() -> (r: String)
    ensures
        r@ == Seq::new(63, |i: int| 'z'),
        str_bytes(r@) == Seq::new(63, |i: int| MAX_DOMAIN_ASCII_CHAR_VALUE),
{
    let r = repeat_char('z', 63);
    proof {
        lemma_ascii_bytes(r@);
        assert(str_bytes(r@) =~= Seq::new(63, |i: int| MAX_DOMAIN_ASCII_CHAR_VALUE));
    }
    r
}

/// A string that holds the character `c`, `times` times.
pub fn repeat_char(c: char, times: usize) -> (r: String)
    ensures
        r@ == Seq::new(times as nat, |i: int| c),
{
    let mut text = String::new();
    let mut i: usize = 0;
    while i < times
        invariant
            i <= times,
            text@ == Seq::new(i as nat, |j: int| c),
        decreases times - i,
    {
        push_char(&mut text, c);
        i = i + 1;
        proof {
            assert(text@ =~= Seq::new(i as nat, |j: int| c));
        }
    }
    text
}

} // verus!
