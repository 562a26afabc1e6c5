//! Parsing of work-list accession ranges such as `SRX123-789`: a three
//! character prefix followed by one number, or by two numbers joined with
//! a dash, in either order.

use vstd::prelude::*;

verus! {

/// Why a number or a range could not be read from a work-list token.
#[derive(Clone, Copy, Debug, PartialEq, Eq, Structural)]
pub enum ParseNumberError {
    /// A number segment is empty or holds a character that is not a
    /// decimal digit, or its value does not fit the machine's word.
    IllegalCharacter,
    /// A dash announces a range, but it sits inside the three-character
    /// prefix, so no second number follows the first.
    IncompleteRange,
}

impl ParseNumberError {
    /// A human-readable description of the error.
    pub fn message(self) -> (m: &'static str)
        ensures
            self is IllegalCharacter ==> m@ == "Illegal character found"@,
            self is IncompleteRange ==> m@ == "Incomplete range"@,
    {
        match self {
            ParseNumberError::IllegalCharacter => "Illegal character found",
            ParseNumberError::IncompleteRange => "Incomplete range",
        }
    }
}

/// Whether `c` is a decimal digit.
pub open spec fn is_digit(c: char) -> bool {
    48 <= c as u32 && c as u32 <= 57
}

/// The value of the decimal digit `c`.
pub open spec fn digit_val(c: char) -> nat {
    (c as u32 - 48) as nat
}

/// Whether every character of `s` is a decimal digit.
pub open spec fn all_digits(s: Seq<char>) -> bool {
    forall|i: int| 0 <= i < s.len() ==> is_digit(#[trigger] s[i])
}

/// The value of `s` read as a decimal numeral, most significant digit
/// first.
pub open spec fn dec_val(s: Seq<char>) -> nat
    decreases s.len(),
{
    if s.len() == 0 {
        0
    } else {
        dec_val(s.drop_last()) * 10 + digit_val(s.last())
    }
}

/// Whether `s` is a numeral this machine can hold: non-empty, decimal
/// digits only — deliberately no leading sign — and a value no greater
/// than `usize::MAX`.
pub open spec fn valid_number(s: Seq<char>) -> bool {
    s.len() > 0 && all_digits(s) && dec_val(s) <= usize::MAX as nat
}

/// A longer numeral is worth at least as much as any of its prefixes.
proof fn lemma_dec_val_prefix(s: Seq<char>, i: int)
    requires
        0 <= i <= s.len(),
    ensures
        dec_val(s.take(i)) <= dec_val(s),
    decreases s.len(),
{
    if i < s.len() {
        assert(s.take(i) =~= s.drop_last().take(i));
        lemma_dec_val_prefix(s.drop_last(), i);
    } else {
        assert(s.take(i) =~= s);
    }
}

/// Reads `s` as a decimal numeral. Returns its value exactly when `s` is
/// non-empty, all digits, and fits in a machine word; anything else,
/// the empty string included, is an illegal character.
pub fn parse_decimal(s: &str) -> (r: Result<usize, ParseNumberError>)
    ensures
        match r {
            Ok(n) => valid_number(s@) && n == dec_val(s@),
            Err(e) => !valid_number(s@) && e == ParseNumberError::IllegalCharacter,
        },
{
    let len = s.unicode_len();
    if len == 0 {
        return Err(ParseNumberError::IllegalCharacter);
    }
    let mut acc: usize = 0;
    let mut i: usize = 0;
    while i < len
        invariant
            0 <= i <= len,
            len == s@.len(),
            all_digits(s@.take(i as int)),
            acc == dec_val(s@.take(i as int)),
        decreases len - i,
    {
        let c = s.get_char(i);
        let u = c as u32;
        if u < 48 || u > 57 {
            assert(!is_digit(s@[i as int]));
            return Err(ParseNumberError::IllegalCharacter);
        }
        let d = (u - 48) as usize;
        let shifted = match acc.checked_mul(10) {
            Some(v) => v,
            None => {
                proof {
                    assert(dec_val(s@.take(i + 1)) == acc * 10 + d) by {
                        assert(s@.take(i + 1).drop_last() =~= s@.take(i as int));
                        assert(s@.take(i + 1).last() == s@[i as int]);
                    }
                    lemma_dec_val_prefix(s@, i + 1);
                }
                return Err(ParseNumberError::IllegalCharacter);
            },
        };
        let next = match shifted.checked_add(d) {
            Some(v) => v,
            None => {
                proof {
                    assert(dec_val(s@.take(i + 1)) == acc * 10 + d) by {
                        assert(s@.take(i + 1).drop_last() =~= s@.take(i as int));
                        assert(s@.take(i + 1).last() == s@[i as int]);
                    }
                    lemma_dec_val_prefix(s@, i + 1);
                }
                return Err(ParseNumberError::IllegalCharacter);
            },
        };
        proof {
            assert(s@.take(i + 1).drop_last() =~= s@.take(i as int));
            assert(s@.take(i + 1).last() == s@[i as int]);
        }
        acc = next;
        i = i + 1;
    }
    proof {
        assert(s@.take(len as int) =~= s@);
    }
    Ok(acc)
}

/// The index of the first dash in `s`, or `s.len()` when there is none.
pub open spec fn dash_index(s: Seq<char>) -> int
    decreases s.len(),
{
    if s.len() == 0 {
        0
    } else if s[0] == '-' {
        0
    } else {
        1 + dash_index(s.drop_first())
    }
}

/// Whether `s` holds a dash anywhere.
pub open spec fn has_dash(s: Seq<char>) -> bool {
    dash_index(s) < s.len()
}

/// The characters of `s` before its first dash, or all of `s` when it has
/// none.
pub open spec fn first_segment(s: Seq<char>) -> Seq<char> {
    s.take(dash_index(s))
}

/// The characters of `s` between its first dash and the following dash or
/// the end.
pub open spec fn second_segment(s: Seq<char>) -> Seq<char> {
    let rest = s.skip(dash_index(s) + 1);
    rest.take(dash_index(rest))
}

/// `dash_index` is the position of the first dash: everything before it
/// is dash-free, and it points at a dash unless it is the length.
proof fn lemma_dash_index_is(s: Seq<char>, i: int)
    requires
        0 <= i <= s.len(),
        forall|j: int| 0 <= j < i ==> s[j] != '-',
        i < s.len() ==> s[i] == '-',
    ensures
        dash_index(s) == i,
    decreases s.len(),
{
    if s.len() == 0 {
    } else if s[0] == '-' {
        assert(i == 0);
    } else {
        assert(i >= 1);
        let t = s.drop_first();
        assert(forall|j: int| 0 <= j < i - 1 ==> t[j] == s[j + 1] && s[j + 1] != '-');
        lemma_dash_index_is(t, i - 1);
    }
}

/// Finds the first dash of `s`, by position.
fn find_dash(s: &str) -> (d: usize)
    ensures
        d == dash_index(s@),
        d <= s@.len(),
{
    let len = s.unicode_len();
    let mut i: usize = 0;
    while i < len
        invariant
            0 <= i <= len,
            len == s@.len(),
            forall|j: int| 0 <= j < i ==> s@[j] != '-',
        decreases len - i,
    {
        if s.get_char(i) == '-' {
            proof {
                lemma_dash_index_is(s@, i as int);
            }
            return i;
        }
        i = i + 1;
    }
    proof {
        lemma_dash_index_is(s@, len as int);
    }
    len
}

/// Reads an accession token: three prefix characters followed by either a
/// single number, giving a one-item range, or two numbers joined by a
/// dash, in either order, giving an inclusive ascending range. Anything
/// after a second dash is ignored.
///
/// A dash anywhere in the token announces a range. The first number must
/// be a plain numeral, else the character is illegal; when the token's
/// only dash sits inside the prefix, the range has no second number and
/// is incomplete; the second number is read between the body's first and
/// second dashes and must be a plain numeral too. A dash-free token whose
/// body is no plain numeral is rejected as an illegal character rather
/// than refused outright: such a token is malformed input, not a
/// programming error.
pub fn read_number(srx: &str) -> (r: Result<(usize, usize), ParseNumberError>)
    requires
        srx@.len() >= 3,
    ensures
        ({
            let body = srx@.skip(3);
            if !has_dash(srx@) {
                match r {
                    Ok(p) => valid_number(body) && p.0 == dec_val(body) && p.1 == p.0,
                    Err(e) => !valid_number(body) && e == ParseNumberError::IllegalCharacter,
                }
            } else {
                let s1 = first_segment(body);
                let s2 = second_segment(body);
                match r {
                    Ok(p) => has_dash(body) && valid_number(s1) && valid_number(s2) && ({
                        let v1 = dec_val(s1);
                        let v2 = dec_val(s2);
                        if v1 <= v2 {
                            p.0 == v1 && p.1 == v2
                        } else {
                            p.0 == v2 && p.1 == v1
                        }
                    }),
                    Err(e) => if !valid_number(s1) {
                        e == ParseNumberError::IllegalCharacter
                    } else if !has_dash(body) {
                        e == ParseNumberError::IncompleteRange
                    } else {
                        !valid_number(s2) && e == ParseNumberError::IllegalCharacter
                    },
                }
            }
        }),
{
    let len = srx.unicode_len();
    let token_dash = find_dash(srx);
    let body = srx.substring_char(3, len);
    proof {
        assert(body@ =~= srx@.skip(3));
    }
    let blen = len - 3;
    if token_dash == len {
        match parse_decimal(body) {
            Ok(n) => Ok((n, n)),
            Err(e) => Err(e),
        }
    } else {
        let d = find_dash(body);
        let s1 = body.substring_char(0, d);
        proof {
            assert(s1@ =~= first_segment(body@));
        }
        let n1 = match parse_decimal(s1) {
            Ok(n) => n,
            Err(e) => {
                return Err(e);
            },
        };
        if d == blen {
            return Err(ParseNumberError::IncompleteRange);
        }
        let rest = body.substring_char(d + 1, blen);
        proof {
            assert(rest@ =~= body@.skip(d + 1));
        }
        let d2 = find_dash(rest);
        let s2 = rest.substring_char(0, d2);
        proof {
            assert(s2@ =~= second_segment(body@));
        }
        let n2 = match parse_decimal(s2) {
            Ok(n) => n,
            Err(e) => {
                return Err(e);
            },
        };
        if n1 > n2 {
            Ok((n2, n1))
        } else {
            Ok((n1, n2))
        }
    }
}

} // verus!
