use vstd::prelude::*;

verus! {

/// The character for one decimal digit.
pub open spec fn digit_char(d: int) -> char {
    if d == 0 {
        '0'
    } else if d == 1 {
        '1'
    } else if d == 2 {
        '2'
    } else if d == 3 {
        '3'
    } else if d == 4 {
        '4'
    } else if d == 5 {
        '5'
    } else if d == 6 {
        '6'
    } else if d == 7 {
        '7'
    } else if d == 8 {
        '8'
    } else {
        '9'
    }
}

/// The decimal representation of a natural number, most significant digit
/// first, with no leading zeros (a lone zero for 0).
pub open spec fn dec_spec(n: nat) -> Seq<char>
    decreases n,
{
    if n < 10 {
        seq![digit_char(n as int)]
    } else {
        dec_spec(n / 10) + seq![digit_char((n % 10) as int)]
    }
}

/// The decimal representation of an integer: a minus sign before the
/// magnitude where it is negative.
pub open spec fn dec_int_spec(n: int) -> Seq<char> {
    if n < 0 {
        seq!['-'] + dec_spec((-n) as nat)
    } else {
        dec_spec(n as nat)
    }
}

/// Whether a character is an ASCII decimal digit.
pub open spec fn is_digit(c: char) -> bool {
    48 <= c as int && c as int <= 57
}

/// The numeric value of one digit character.
pub open spec fn digit_val(c: char) -> int {
    c as int - 48
}

/// Whether every character of a sequence is an ASCII decimal digit.
pub open spec fn all_digits(s: Seq<char>) -> bool {
    forall|i: int| 0 <= i < s.len() ==> is_digit(#[trigger] s[i])
}

/// The numeric value of a digit string, most significant digit first.
pub open spec fn digits_val(s: Seq<char>) -> int
    decreases s.len(),
{
    if s.len() == 0 {
        0
    } else {
        digits_val(s.drop_last()) * 10 + digit_val(s.last())
    }
}

pub proof fn lemma_digits_val_nonneg(s: Seq<char>)
    requires
        all_digits(s),
    ensures
        digits_val(s) >= 0,
    decreases s.len(),
{
    if s.len() > 0 {
        assert(all_digits(s.drop_last()));
        lemma_digits_val_nonneg(s.drop_last());
    }
}

/// A digit string is worth at least any of its prefixes.
pub proof fn lemma_digits_val_prefix(s: Seq<char>, i: int)
    requires
        all_digits(s),
        0 <= i <= s.len(),
    ensures
        digits_val(s.take(i)) <= digits_val(s),
    decreases s.len() - i,
{
    if i < s.len() {
        assert(all_digits(s.take(i)));
        lemma_digits_val_nonneg(s.take(i));
        assert(s.take(i + 1).drop_last() =~= s.take(i));
        assert(digits_val(s.take(i + 1)) == digits_val(s.take(i)) * 10 + digit_val(s.take(i + 1).last()));
        lemma_digits_val_prefix(s, i + 1);
    } else {
        assert(s.take(i) =~= s);
    }
}

/// One digit as a string slice.
fn digit_str(d: u64) -> (r: &'static str)
    requires
        d < 10,
    ensures
        r@ == seq![digit_char(d as int)],
{
    proof {
        reveal_strlit("0");
        reveal_strlit("1");
        reveal_strlit("2");
        reveal_strlit("3");
        reveal_strlit("4");
        reveal_strlit("5");
        reveal_strlit("6");
        reveal_strlit("7");
        reveal_strlit("8");
        reveal_strlit("9");
    }
    if d == 0 {
        let r = "0";
        proof { assert(r@ =~= seq![digit_char(d as int)]); }
        r
    } else if d == 1 {
        let r = "1";
        proof { assert(r@ =~= seq![digit_char(d as int)]); }
        r
    } else if d == 2 {
        let r = "2";
        proof { assert(r@ =~= seq![digit_char(d as int)]); }
        r
    } else if d == 3 {
        let r = "3";
        proof { assert(r@ =~= seq![digit_char(d as int)]); }
        r
    } else if d == 4 {
        let r = "4";
        proof { assert(r@ =~= seq![digit_char(d as int)]); }
        r
    } else if d == 5 {
        let r = "5";
        proof { assert(r@ =~= seq![digit_char(d as int)]); }
        r
    } else if d == 6 {
        let r = "6";
        proof { assert(r@ =~= seq![digit_char(d as int)]); }
        r
    } else if d == 7 {
        let r = "7";
        proof { assert(r@ =~= seq![digit_char(d as int)]); }
        r
    } else if d == 8 {
        let r = "8";
        proof { assert(r@ =~= seq![digit_char(d as int)]); }
        r
    } else {
        let r = "9";
        proof { assert(r@ =~= seq![digit_char(d as int)]); }
        r
    }
}

/// Renders a number in decimal.
pub fn fmt_u64(n: u64) -> (r: String)
    ensures
        r@ == dec_spec(n as nat),
    decreases n,
{
    if n < 10 {
        String::from_str(digit_str(n))
    } else {
        let mut s = fmt_u64(n / 10);
        s.append(digit_str(n % 10));
        proof {
            assert(s@ =~= dec_spec(n as nat));
        }
        s
    }
}

/// Renders a signed number in decimal, with a minus sign where negative.
pub fn fmt_i32(n: i32) -> (r: String)
    ensures
        r@ == dec_int_spec(n as int),
{
    if n < 0 {
        let m: i64 = n as i64;
        let mag: u64 = (-m) as u64;
        let s = String::from_str("-");
        let r = s.concat(fmt_u64(mag).as_str());
        proof {
            reveal_strlit("-");
            assert(r@ =~= dec_int_spec(n as int));
        }
        r
    } else {
        fmt_u64(n as u64)
    }
}

/// Reads a run of decimal digits starting at `start` as a number, as long as
/// it does not exceed `cap`: `Some` exactly when the characters from `start`
/// on are one or more digits whose value is at most `cap`.
fn parse_digits(s: &str, start: usize, cap: u64) -> (r: Option<u64>)
    requires
        start as int <= s@.len(),
    ensures
        r is Some <==> (start as int) < s@.len() && all_digits(s@.skip(start as int)) && digits_val(
            s@.skip(start as int),
        ) <= cap as int,
        r is Some ==> r->Some_0 as int == digits_val(s@.skip(start as int)),
{
    let ghost tail = s@.skip(start as int);
    let n = s.unicode_len();
    if start == n {
        return None;
    }
    let mut mag: u64 = 0;
    let mut i: usize = start;
    while i < n
        invariant
            start <= i <= n,
            n == s@.len(),
            tail == s@.skip(start as int),
            all_digits(s@.subrange(start as int, i as int)),
            mag as int == digits_val(s@.subrange(start as int, i as int)),
            mag <= cap,
        decreases n - i,
    {
        let c = s.get_char(i);
        let cv = c as u32;
        proof {
            assert(tail[i - start] == s@[i as int]);
        }
        if cv < 48 || cv > 57 {
            proof {
                assert(!is_digit(tail[i - start]));
            }
            return None;
        }
        let d: u64 = (cv - 48) as u64;
        proof {
            assert(s@.subrange(start as int, i + 1).drop_last() =~= s@.subrange(
                start as int,
                i as int,
            ));
            assert(s@.subrange(start as int, i + 1).last() == s@[i as int]);
        }
        if mag > cap / 10 {
            proof {
                lemma_digits_over_cap(tail, i + 1 - start as int, cap as int);
                assert((cap / 10 + 1) * 10 > cap) by (nonlinear_arith);
                assert(mag * 10 >= (cap / 10 + 1) * 10) by (nonlinear_arith)
                    requires mag as int >= cap as int / 10 + 1;
                assert(digits_val(s@.subrange(start as int, i + 1)) > cap as int);
                assert(s@.subrange(start as int, i + 1) =~= tail.take(i + 1 - start as int));
            }
            return None;
        }
        let m10: u64 = mag * 10;
        proof {
            assert(m10 <= (cap / 10) * 10 <= cap) by (nonlinear_arith)
                requires mag <= cap / 10, m10 == mag * 10;
        }
        if d > cap - m10 {
            proof {
                lemma_digits_over_cap(tail, i + 1 - start as int, cap as int);
                assert(digits_val(s@.subrange(start as int, i + 1)) > cap as int);
                assert(s@.subrange(start as int, i + 1) =~= tail.take(i + 1 - start as int));
            }
            return None;
        }
        mag = m10 + d;
        i = i + 1;
    }
    proof {
        assert(s@.subrange(start as int, n as int) =~= tail);
    }
    Some(mag)
}

/// If some prefix of a digit string is already worth more than the cap, the
/// whole string is too.
proof fn lemma_digits_over_cap(tail: Seq<char>, k: int, cap: int)
    requires
        0 <= k <= tail.len(),
    ensures
        all_digits(tail) && digits_val(tail.take(k)) > cap ==> !(all_digits(tail) && digits_val(
            tail,
        ) <= cap),
{
    if all_digits(tail) {
        lemma_digits_val_prefix(tail, k);
    }
}

/// What `str::parse::<i32>` accepts: an optional sign followed by one or
/// more ASCII digits, with the value in `i32` range.
pub open spec fn parse_i32_spec(s: Seq<char>) -> Option<i32> {
    let ds = if s.len() > 0 && (s[0] == '+' || s[0] == '-') {
        s.drop_first()
    } else {
        s
    };
    let neg = s.len() > 0 && s[0] == '-';
    if ds.len() > 0 && all_digits(ds) {
        let v = if neg {
            -digits_val(ds)
        } else {
            digits_val(ds)
        };
        if i32::MIN <= v <= i32::MAX {
            Some(v as i32)
        } else {
            None
        }
    } else {
        None
    }
}

/// Reads a string as a decimal `i32`, exactly as `str::parse::<i32>` would.
pub fn parse_i32(s: &str) -> (r: Option<i32>)
    ensures
        r == parse_i32_spec(s@),
{
    let n = s.unicode_len();
    if n == 0 {
        return None;
    }
    let c0 = s.get_char(0);
    let signed = c0 == '+' || c0 == '-';
    let neg = c0 == '-';
    let start: usize = if signed {
        1
    } else {
        0
    };
    proof {
        if signed {
            assert(s@.skip(1) =~= s@.drop_first());
        } else {
            assert(s@.skip(0) =~= s@);
        }
    }
    let mag = parse_digits(s, start, 0x8000_0000u64);
    match mag {
        None => None,
        Some(m) => {
            if neg {
                let v: i64 = -(m as i64);
                Some(v as i32)
            } else if m > 0x7FFF_FFFFu64 {
                None
            } else {
                Some(m as i32)
            }
        },
    }
}

/// What `str::parse::<usize>` accepts: an optional plus sign followed by one
/// or more ASCII digits, with the value in `usize` range.
pub open spec fn parse_usize_spec(s: Seq<char>) -> Option<usize> {
    let ds = if s.len() > 0 && s[0] == '+' {
        s.drop_first()
    } else {
        s
    };
    if ds.len() > 0 && all_digits(ds) && digits_val(ds) <= usize::MAX as int {
        Some(digits_val(ds) as usize)
    } else {
        None
    }
}

/// Reads a string as a decimal `usize`, exactly as `str::parse::<usize>`
/// would.
pub fn parse_usize(s: &str) -> (r: Option<usize>)
    ensures
        r == parse_usize_spec(s@),
{
    let n = s.unicode_len();
    if n == 0 {
        return None;
    }
    let c0 = s.get_char(0);
    let start: usize = if c0 == '+' {
        1
    } else {
        0
    };
    proof {
        if c0 == '+' {
            assert(s@.skip(1) =~= s@.drop_first());
        } else {
            assert(s@.skip(0) =~= s@);
        }
    }
    match parse_digits(s, start, usize::MAX as u64) {
        None => None,
        Some(m) => Some(m as usize),
    }
}

/// Relies on std's `String::push`: appends exactly one character.
#[verifier::external_body]
pub(crate) fn push_char(s: &mut String, c: char)
    ensures
        final(s)@ == old(s)@.push(c),
{
    s.push(c);
}

} // verus!
