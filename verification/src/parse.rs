//! Base-10 parsing of a guess: spec-level definitions of when a character
//! sequence is a well-formed signed decimal numeral whose value fits an
//! `i32`, and an executable parser proved to accept exactly those
//! sequences and to return exactly that value.

use vstd::prelude::*;

use crate::digits::dec_digit_char;
use crate::digits::dec_rep;
use crate::digits::int_rep;

verus! {

/// Whether `c` is a decimal digit.
pub open spec fn is_dec_digit(c: char) -> bool {
    ||| c == '0'
    ||| c == '1'
    ||| c == '2'
    ||| c == '3'
    ||| c == '4'
    ||| c == '5'
    ||| c == '6'
    ||| c == '7'
    ||| c == '8'
    ||| c == '9'
}

/// The numeric value of a decimal digit character.
pub open spec fn digit_val(c: char) -> int {
    if c == '0' {
        0
    } else if c == '1' {
        1
    } else if c == '2' {
        2
    } else if c == '3' {
        3
    } else if c == '4' {
        4
    } else if c == '5' {
        5
    } else if c == '6' {
        6
    } else if c == '7' {
        7
    } else if c == '8' {
        8
    } else {
        9
    }
}

/// Whether every character of `s` is a decimal digit.
pub open spec fn all_digits(s: Seq<char>) -> bool {
    forall|i: int| 0 <= i < s.len() ==> is_dec_digit(s[i])
}

/// The value of a digit string read in base 10.
pub open spec fn digits_val(s: Seq<char>) -> int
    decreases s.len(),
{
    if s.len() == 0 {
        0
    } else {
        digits_val(s.drop_last()) * 10 + digit_val(s.last())
    }
}

/// The digit part of a numeral: everything after an optional leading sign.
pub open spec fn dec_body(s: Seq<char>) -> Seq<char> {
    if s.len() > 0 && (s[0] == '-' || s[0] == '+') {
        s.drop_first()
    } else {
        s
    }
}

/// Whether the numeral carries a '-' sign.
pub open spec fn is_negative(s: Seq<char>) -> bool {
    s.len() > 0 && s[0] == '-'
}

/// The signed value of a numeral, meaningful when `parse_ok` holds.
pub open spec fn parse_val(s: Seq<char>) -> int {
    if is_negative(s) {
        -digits_val(dec_body(s))
    } else {
        digits_val(dec_body(s))
    }
}

/// Whether `s` parses as an `i32`: an optional sign, then at least one
/// digit and nothing else, with the signed value in `i32`'s range.
pub open spec fn parse_ok(s: Seq<char>) -> bool {
    &&& dec_body(s).len() > 0
    &&& all_digits(dec_body(s))
    &&& i32::MIN <= parse_val(s) <= i32::MAX
}

/// Peeling one digit off the end of a prefix of `s`.
proof fn lemma_digits_val_step(s: Seq<char>, lo: int, i: int)
    requires
        0 <= lo <= i < s.len(),
    ensures
        digits_val(s.subrange(lo, i + 1)) == digits_val(s.subrange(lo, i)) * 10 + digit_val(
            s[i],
        ),
{
    let ext = s.subrange(lo, i + 1);
    assert(ext.drop_last() =~= s.subrange(lo, i));
    assert(ext.last() == s[i]);
}

/// The digit string of a non-negative integer is made of digits, is never
/// empty, and reads back as that integer.
proof fn lemma_dec_rep_reads_back(n: nat)
    ensures
        dec_rep(n).len() >= 1,
        all_digits(dec_rep(n)),
        is_dec_digit(dec_rep(n)[0]),
        digits_val(dec_rep(n)) == n,
    decreases n,
{
    if n < 10 {
        let s = dec_rep(n);
        assert(s.len() == 1);
        assert(s.last() == dec_digit_char(n as int));
        assert(s.drop_last() =~= Seq::<char>::empty());
        assert(digits_val(Seq::<char>::empty()) == 0);
        assert(digits_val(s) == digit_val(dec_digit_char(n as int)));
    } else {
        lemma_dec_rep_reads_back(n / 10);
        let s = dec_rep(n);
        let prefix = dec_rep(n / 10);
        assert(s.drop_last() =~= prefix);
        assert(forall|i: int| 0 <= i < s.len() ==> is_dec_digit(#[trigger] s[i])) by {
            assert(forall|i: int| 0 <= i < prefix.len() ==> is_dec_digit(#[trigger] prefix[i]));
            assert(forall|i: int| 0 <= i < s.len() - 1 ==> s[i] == prefix[i]);
        }
    }
}

/// Formatting and parsing agree: the decimal string of any `i32` value
/// parses, and parses back to that value.
pub proof fn lemma_format_parse_round_trip(g: int)
    requires
        i32::MIN <= g <= i32::MAX,
    ensures
        parse_ok(int_rep(g)),
        parse_val(int_rep(g)) == g,
{
    if g >= 0 {
        lemma_dec_rep_reads_back(g as nat);
        assert(dec_body(int_rep(g)) =~= dec_rep(g as nat));
    } else {
        lemma_dec_rep_reads_back((-g) as nat);
        let s = int_rep(g);
        assert(s[0] == '-');
        assert(dec_body(s) =~= dec_rep((-g) as nat));
    }
}

/// Parses the input buffer as a signed base-10 `i32`.
///
/// Returns `Some` exactly on the sequences `parse_ok` accepts, and then
/// the value is exactly `parse_val` of the input.
pub fn parse_i32(input: &Vec<char>) -> (r: Option<i32>)
    ensures
        r is Some <==> parse_ok(input@),
        r is Some ==> r->0 as int == parse_val(input@),
{
    let ghost s = input@;
    let n = input.len();
    let mut i: usize = 0;
    let mut negative: bool = false;
    if n > 0 && (input[0] == '-' || input[0] == '+') {
        negative = input[0] == '-';
        i = 1;
    }
    let ghost start = i as int;
    proof {
        assert(dec_body(s) =~= s.subrange(start, n as int));
        assert(negative == is_negative(s));
    }
    if i == n {
        // No digits at all after the optional sign.
        return None;
    }
    let limit: u64 = if negative {
        2147483648
    } else {
        2147483647
    };
    let mut acc: u64 = 0;
    let mut over: bool = false;
    while i < n
        invariant
            start <= i as int <= n as int,
            n == s.len(),
            s == input@,
            dec_body(s).len() == n as int - start,
            dec_body(s) =~= s.subrange(start, n as int),
            limit == if negative {
                2147483648int
            } else {
                2147483647int
            },
            all_digits(s.subrange(start, i as int)),
            !over ==> acc as int == digits_val(s.subrange(start, i as int)) && acc <= limit,
            over ==> digits_val(s.subrange(start, i as int)) > limit,
        decreases n as int - i as int,
    {
        let c = input[i];
        let d: u64 = match c {
            '0' => 0,
            '1' => 1,
            '2' => 2,
            '3' => 3,
            '4' => 4,
            '5' => 5,
            '6' => 6,
            '7' => 7,
            '8' => 8,
            '9' => 9,
            _ => {
                proof {
                    assert(!is_dec_digit(s[i as int]));
                    assert(dec_body(s)[i as int - start] == s[i as int]);
                    assert(!all_digits(dec_body(s)));
                }
                return None;
            },
        };
        proof {
            assert(is_dec_digit(s[i as int]));
            assert(d as int == digit_val(s[i as int]));
            assert(all_digits(s.subrange(start, i as int + 1)));
            lemma_digits_val_step(s, start, i as int);
        }
        if !over {
            let next: u64 = acc * 10 + d;
            if next > limit {
                over = true;
            } else {
                acc = next;
            }
        } else {
            proof {
                let v = digits_val(s.subrange(start, i as int));
                assert(digits_val(s.subrange(start, i as int + 1)) == v * 10 + digit_val(
                    s[i as int],
                ));
                assert(v * 10 == v + v * 9);
                assert(v * 9 >= 9) by (nonlinear_arith)
                    requires
                        v >= 1,
                ;
            }
        }
        i = i + 1;
    }
    proof {
        assert(s.subrange(start, i as int) =~= dec_body(s));
    }
    if over {
        // The magnitude exceeds what an i32 can hold.
        return None;
    }
    if negative {
        if acc == 2147483648 {
            Some(i32::MIN)
        } else {
            Some(0 - (acc as i32))
        }
    } else {
        Some(acc as i32)
    }
}

} // verus!
