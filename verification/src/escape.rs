//! Decoding of one character token of the textual surface syntax: a bare
//! character stands for itself; longer tokens must be backslash escapes
//! (`\"`, `\'`, `\\`, `\/`, `\t`, `\r`, `\n`, `\b`, `\f`, or `\u` followed
//! by a decimal Unicode scalar value).

use vstd::prelude::*;
use vstd::std_specs::iter::IteratorSpec;

verus! {

/// Relies on char::from_u32: `Some` exactly on Unicode scalar values (not
/// a surrogate and at most 0x10FFFF), carrying the given code.
pub assume_specification[ char::from_u32 ](i: u32) -> (c: Option<char>)
    ensures
        c is Some <==> (i < 0xD800 || (0xE000 <= i && i <= 0x10FFFF)),
        (c matches Some(ch) ==> ch as u32 == i),
;

/// The numeric value of a decimal digit character, if it is one.
pub open spec fn digit_value(c: char) -> Option<u32> {
    if 48 <= c as u32 && c as u32 <= 57 {
        Some((c as u32 - 48) as u32)
    } else {
        None
    }
}

/// The number a sequence of decimal digits denotes, folded onto `acc`;
/// nothing if a character is not a digit or the number would pass the
/// largest Unicode code point.
pub open spec fn decimal_spec(s: Seq<char>, acc: u32) -> Option<u32>
    decreases s.len(),
{
    if acc > 0x10FFFF {
        None
    } else if s.len() == 0 {
        Some(acc)
    } else {
        match digit_value(s[0]) {
            None => None,
            Some(d) => if acc * 10 + d > 0x10FFFF {
                None
            } else {
                decimal_spec(s.drop_first(), (acc * 10 + d) as u32)
            },
        }
    }
}

/// The Unicode scalar value a character token denotes: a single character
/// stands for itself; a two-character token must be a backslash escape; a
/// longer token must be `\u` followed by decimal digits denoting a scalar
/// value.
pub open spec fn decode_char_code(s: Seq<char>) -> Option<u32> {
    if s.len() == 0 {
        None
    } else if s.len() == 1 {
        Some(s[0] as u32)
    } else if s[0] != '\\' {
        None
    } else if s[1] == 'u' {
        if s.len() == 2 {
            None
        } else {
            match decimal_spec(s.skip(2), 0) {
                Some(code) => if code < 0xD800 || (0xE000 <= code && code <= 0x10FFFF) {
                    Some(code)
                } else {
                    None
                },
                None => None,
            }
        }
    } else if s.len() == 2 {
        match s[1] {
            '"' => Some('"' as u32),
            '\'' => Some('\'' as u32),
            '\\' => Some('\\' as u32),
            '/' => Some('/' as u32),
            't' => Some(9),
            'r' => Some(13),
            'n' => Some(10),
            'b' => Some(8),
            'f' => Some(12),
            _ => None,
        }
    } else {
        None
    }
}

/// Decodes a character token: the character whose scalar value the token
/// denotes, or nothing when the token is no valid character token.
pub fn decode_char(s: &str) -> (r: Option<char>)
    ensures
        (match r {
            Some(ch) => decode_char_code(s@) == Some(ch as u32),
            None => decode_char_code(s@) is None,
        }),
{
    let mut it = s.chars();
    let first = match it.next() {
        Some(c) => c,
        None => {
            return None;
        },
    };
    let second = match it.next() {
        Some(c) => c,
        None => {
            return Some(first);
        },
    };
    if first != '\\' {
        return None;
    }
    proof {
        assert(s@.len() >= 2);
        assert(s@[0] == first);
        assert(s@[1] == second);
        assert(it.remaining() =~= s@.skip(2));
    }
    if second == 'u' {
        let mut acc: u32 = 0;
        let mut saw_digit = false;
        loop
            invariant
                acc <= 0x10FFFF,
                s@.len() >= 2,
                s@[0] == '\\',
                s@[1] == 'u',
                decimal_spec(s@.skip(2), 0) == decimal_spec(it.remaining(), acc),
                saw_digit ==> s@.len() > 2,
                !saw_digit ==> acc == 0 && it.remaining() =~= s@.skip(2),
                it.obeys_prophetic_iter_laws(),
                it.decrease() is Some,
            decreases it.decrease()->0,
        {
            let ghost rem = it.remaining();
            match it.next() {
                None => {
                    if !saw_digit {
                        proof {
                            assert(s@.skip(2).len() == 0);
                            assert(s@.len() == 2);
                        }
                        return None;
                    }
                    proof {
                        assert(decimal_spec(rem, acc) == Some(acc));
                    }
                    return char::from_u32(acc);
                },
                Some(c) => {
                    let d32 = c as u32;
                    if 48 <= d32 && d32 <= 57 {
                        let d = d32 - 48;
                        let acc2 = acc * 10 + d;
                        if acc2 > 0x10FFFF {
                            return None;
                        }
                        proof {
                            assert(rem[0] == c);
                            assert(digit_value(c) == Some(d));
                            assert(decimal_spec(rem, acc) == decimal_spec(
                                rem.drop_first(),
                                acc2,
                            ));
                            assert(it.remaining() =~= rem.drop_first());
                        }
                        acc = acc2;
                        saw_digit = true;
                    } else {
                        proof {
                            assert(rem[0] == c);
                            assert(digit_value(c) is None);
                            assert(decimal_spec(rem, acc) is None);
                        }
                        return None;
                    }
                },
            }
        }
    } else {
        match it.next() {
            Some(_) => {
                proof {
                    assert(s@.len() > 2);
                }
                None
            },
            None => {
                proof {
                    assert(s@.skip(2).len() == 0);
                    assert(s@.len() == 2);
                }
                match second {
                    '"' => Some('"'),
                    '\'' => Some('\''),
                    '\\' => Some('\\'),
                    '/' => Some('/'),
                    't' => Some('\t'),
                    'r' => Some('\r'),
                    'n' => Some('\n'),
                    'b' => Some('\x08'),
                    'f' => Some('\x0c'),
                    _ => None,
                }
            },
        }
    }
}

} // verus!
