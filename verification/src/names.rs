//! Name shaping: conversion of snake-case identifiers to camel case.

use vstd::prelude::*;

use crate::strutil::push_char;

verus! {

/// A word separator in an identifier.
pub open spec fn is_sep(c: char) -> bool {
    c == '_' || c == ' '
}

/// The ASCII upper-case counterpart of a character.
pub open spec fn ascii_upper(c: char) -> char {
    if 97 <= c as u32 <= 122 {
        (((c as u32) - 32) as u8) as char
    } else {
        c
    }
}

/// Walk the characters of an identifier: separators are dropped, and
/// the first character after a separator is upper-cased; `pending`
/// records whether such a character is awaited.
pub open spec fn camel_rec(s: Seq<char>, pending: bool) -> Seq<char>
    decreases s.len(),
{
    if s.len() == 0 {
        Seq::empty()
    } else if is_sep(s.first()) {
        camel_rec(s.drop_first(), true)
    } else if pending {
        seq![ascii_upper(s.first())] + camel_rec(s.drop_first(), false)
    } else {
        seq![s.first()] + camel_rec(s.drop_first(), false)
    }
}

/// The camel-case form of an identifier: words split on `_` and space
/// are joined, each word after the first beginning upper case.
pub open spec fn camel_of(s: Seq<char>) -> Seq<char> {
    camel_rec(s, false)
}

/// Convert an identifier to camel case.
pub fn string_to_camel_case(text: &str) -> (out: String)
    ensures
        out@ == camel_of(text@),
{
    let n: usize = text.unicode_len();
    let mut out = String::new();
    let mut pending = false;
    let mut i: usize = 0;
    proof {
        assert(text@.skip(0) =~= text@);
        assert(Seq::<char>::empty() + camel_rec(text@, false) =~= camel_rec(text@, false));
    }
    while i < n
        invariant
            n == text@.len(),
            i <= n,
            camel_of(text@) == out@ + camel_rec(text@.skip(i as int), pending),
        decreases n - i,
    {
        let ghost out_old = out@;
        let ghost rest_new = camel_rec(text@.skip(i as int + 1), false);
        let c = text.get_char(i);
        proof {
            assert(text@.skip(i as int).first() == text@[i as int]);
            assert(text@.skip(i as int).drop_first() =~= text@.skip(i as int + 1));
        }
        let code: u32 = c as u32;
        if c == '_' || c == ' ' {
            pending = true;
        } else if pending {
            let up: char = if 97 <= code && code <= 122 {
                ((code - 32) as u8) as char
            } else {
                c
            };
            proof {
                assert(up == ascii_upper(c));
                assert(camel_rec(text@.skip(i as int), true) == seq![up] + rest_new);
            }
            push_char(&mut out, up);
            pending = false;
            proof {
                assert(out_old + (seq![up] + rest_new) =~= out@ + rest_new);
            }
        } else {
            proof {
                assert(camel_rec(text@.skip(i as int), false) == seq![c] + rest_new);
            }
            push_char(&mut out, c);
            proof {
                assert(out_old + (seq![c] + rest_new) =~= out@ + rest_new);
            }
        }
        i = i + 1;
    }
    proof {
        assert(text@.skip(n as int) =~= Seq::<char>::empty());
        assert(camel_rec(Seq::<char>::empty(), pending) == Seq::<char>::empty());
        assert(out@ + Seq::<char>::empty() =~= out@);
    }
    out
}

} // verus!
