//! UUID text: validation and the canonical hyphenated lowercase form.
//!
//! The metadata server names the caller's organization and project by two
//! UUIDs.  The namespace string is built from their canonical form: 36
//! characters, lowercase hexadecimal, hyphens after the 8th, 12th, 16th and
//! 20th digit.  Both the hyphenated and the plain 32-digit spelling are
//! accepted on input.

use vstd::prelude::*;

use crate::text::push_char;

verus! {

/// A hexadecimal digit, either case.
pub open spec fn is_hex_digit(c: char) -> bool {
    (48 <= c as u32 && c as u32 <= 57) || (97 <= c as u32 && c as u32 <= 102) || (65 <= c as u32
        && c as u32 <= 70)
}

/// The lowercase form of a hexadecimal digit; other characters unchanged.
pub open spec fn spec_lower_hex(c: char) -> char {
    if c == 'A' {
        'a'
    } else if c == 'B' {
        'b'
    } else if c == 'C' {
        'c'
    } else if c == 'D' {
        'd'
    } else if c == 'E' {
        'e'
    } else if c == 'F' {
        'f'
    } else {
        c
    }
}

/// The positions that carry a hyphen in the canonical form.
pub open spec fn is_hyphen_pos(i: int) -> bool {
    i == 8 || i == 13 || i == 18 || i == 23
}

/// A 36-character hyphenated UUID, either case.
pub open spec fn is_uuid_hyphenated(s: Seq<char>) -> bool {
    s.len() == 36 && forall|i: int|
        0 <= i < 36 ==> (if is_hyphen_pos(i) {
            s[i] == '-'
        } else {
            is_hex_digit(s[i])
        })
}

/// A 32-digit UUID without hyphens, either case.
pub open spec fn is_uuid_simple(s: Seq<char>) -> bool {
    s.len() == 32 && forall|i: int| 0 <= i < 32 ==> is_hex_digit(s[i])
}

/// Where the canonical form's position `i` reads from in a 32-digit
/// spelling.
pub open spec fn plain_index(i: int) -> int {
    if i < 8 {
        i
    } else if i < 13 {
        i - 1
    } else if i < 18 {
        i - 2
    } else if i < 23 {
        i - 3
    } else {
        i - 4
    }
}

/// The canonical form of a hyphenated spelling: every digit lowered.
pub open spec fn canon_of_hyphenated(s: Seq<char>) -> Seq<char> {
    Seq::new(36, |i: int| spec_lower_hex(s[i]))
}

/// The canonical form of a 32-digit spelling: hyphens inserted, digits
/// lowered.
pub open spec fn canon_of_simple(s: Seq<char>) -> Seq<char> {
    Seq::new(
        36,
        |i: int|
            if is_hyphen_pos(i) {
                '-'
            } else {
                spec_lower_hex(s[plain_index(i)])
            },
    )
}

/// The canonical form of a UUID's text, or `None` if it is no UUID.
pub open spec fn spec_canon_uuid(s: Seq<char>) -> Option<Seq<char>> {
    if is_uuid_hyphenated(s) {
        Some(canon_of_hyphenated(s))
    } else if is_uuid_simple(s) {
        Some(canon_of_simple(s))
    } else {
        None
    }
}

/// Decides `is_hex_digit`.
pub fn hex_digit(c: char) -> (r: bool)
    ensures
        r == is_hex_digit(c),
{
    let u = c as u32;
    (48 <= u && u <= 57) || (97 <= u && u <= 102) || (65 <= u && u <= 70)
}

/// Lowers one hexadecimal digit.
pub fn lower_hex(c: char) -> (r: char)
    ensures
        r == spec_lower_hex(c),
{
    match c {
        'A' => 'a',
        'B' => 'b',
        'C' => 'c',
        'D' => 'd',
        'E' => 'e',
        'F' => 'f',
        _ => c,
    }
}

/// Validates a UUID's text and returns its canonical form, as
/// `spec_canon_uuid` describes.
pub fn canonical_uuid(s: &str) -> (r: Option<String>)
    ensures
        match r {
            Some(c) => spec_canon_uuid(s@) == Some(c@),
            None => spec_canon_uuid(s@) is None,
        },
{
    let len = s.unicode_len();
    if len == 36 {
        let mut out = String::new();
        let mut i: usize = 0;
        while i < 36
            invariant
                s@.len() == 36,
                i <= 36,
                out@.len() == i,
                forall|j: int|
                    0 <= j < i ==> (if is_hyphen_pos(j) {
                        s@[j] == '-'
                    } else {
                        is_hex_digit(s@[j])
                    }),
                forall|j: int| 0 <= j < i ==> out@[j] == canon_of_hyphenated(s@)[j],
            decreases 36 - i,
        {
            let c = s.get_char(i);
            if i == 8 || i == 13 || i == 18 || i == 23 {
                if c != '-' {
                    proof {
                        assert(!is_uuid_hyphenated(s@));
                        assert(!is_uuid_simple(s@));
                    }
                    return None;
                }
                push_char(&mut out, '-');
            } else {
                if !hex_digit(c) {
                    proof {
                        assert(!is_uuid_hyphenated(s@));
                        assert(!is_uuid_simple(s@));
                    }
                    return None;
                }
                push_char(&mut out, lower_hex(c));
            }
            i = i + 1;
        }
        proof {
            assert(is_uuid_hyphenated(s@));
            assert(out@ =~= canon_of_hyphenated(s@));
        }
        Some(out)
    } else if len == 32 {
        let mut i: usize = 0;
        while i < 32
            invariant
                s@.len() == 32,
                i <= 32,
                forall|j: int| 0 <= j < i ==> is_hex_digit(s@[j]),
            decreases 32 - i,
        {
            if !hex_digit(s.get_char(i)) {
                proof {
                    assert(!is_uuid_hyphenated(s@));
                    assert(!is_uuid_simple(s@));
                }
                return None;
            }
            i = i + 1;
        }
        proof {
            assert(is_uuid_simple(s@));
        }
        let mut out = String::new();
        let mut i: usize = 0;
        while i < 36
            invariant
                s@.len() == 32,
                is_uuid_simple(s@),
                i <= 36,
                out@.len() == i,
                forall|j: int| 0 <= j < i ==> out@[j] == canon_of_simple(s@)[j],
            decreases 36 - i,
        {
            if i == 8 || i == 13 || i == 18 || i == 23 {
                push_char(&mut out, '-');
            } else {
                let k: usize = if i < 8 {
                    i
                } else if i < 13 {
                    i - 1
                } else if i < 18 {
                    i - 2
                } else if i < 23 {
                    i - 3
                } else {
                    i - 4
                };
                push_char(&mut out, lower_hex(s.get_char(k)));
            }
            i = i + 1;
        }
        proof {
            assert(out@ =~= canon_of_simple(s@));
        }
        Some(out)
    } else {
        proof {
            assert(!is_uuid_hyphenated(s@));
            assert(!is_uuid_simple(s@));
        }
        None
    }
}

} // verus!
