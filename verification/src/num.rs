//! Verified decimal rendering and parsing of integers, the scalar
//! formats used for numeric attribute and text values.
use vstd::prelude::*;

verus! {

/// The decimal digit character for a value below ten.
pub open spec fn digit_char(d: int) -> char {
    if d == 0 {
        '0'
    } else if d == 1 {
        '1'
    } else if d == 2 {
        '2'
    } else if d == 3 {
        '3'
    } else if d == 4 {
        '4'
    } else if d == 5 {
        '5'
    } else if d == 6 {
        '6'
    } else if d == 7 {
        '7'
    } else if d == 8 {
        '8'
    } else {
        '9'
    }
}

pub open spec fn is_digit(c: char) -> bool {
    '0' <= c && c <= '9'
}

pub open spec fn digit_val(c: char) -> int {
    c as int - 48
}

pub open spec fn all_digits(s: Seq<char>) -> bool {
    forall|i: int| 0 <= i < s.len() ==> is_digit(s[i])
}

/// The decimal rendering of a natural number, most significant digit first.
pub open spec fn spec_fmt_nat(n: nat) -> Seq<char>
    decreases n,
{
    if n < 10 {
        seq![digit_char(n as int)]
    } else {
        spec_fmt_nat(n / 10) + seq![digit_char((n % 10) as int)]
    }
}

/// The decimal rendering of a signed number: a minus sign for negative values.
pub open spec fn spec_fmt_int(n: int) -> Seq<char> {
    if n < 0 {
        seq!['-'] + spec_fmt_nat((-n) as nat)
    } else {
        spec_fmt_nat(n as nat)
    }
}

/// The numeric value of a digit string, read left to right.
pub open spec fn dec_val(s: Seq<char>) -> int
    decreases s.len(),
{
    if s.len() == 0 {
        0
    } else {
        dec_val(s.drop_last()) * 10 + digit_val(s.last())
    }
}

/// An unsigned decimal numeral as `str::parse` accepts it: an optional
/// leading plus sign, then one or more digits, within the type's range.
pub open spec fn spec_parse_u64(s: Seq<char>) -> Option<u64> {
    let t = if s.len() > 0 && s[0] == '+' {
        s.drop_first()
    } else {
        s
    };
    if t.len() > 0 && all_digits(t) && dec_val(t) <= u64::MAX {
        Some(dec_val(t) as u64)
    } else {
        None
    }
}

/// A signed decimal numeral: an optional sign, then one or more digits,
/// within the range of `i64`.
pub open spec fn spec_parse_i64(s: Seq<char>) -> Option<i64> {
    if s.len() > 0 && s[0] == '-' {
        let t = s.drop_first();
        if t.len() > 0 && all_digits(t) && -dec_val(t) >= i64::MIN {
            Some((-dec_val(t)) as i64)
        } else {
            None
        }
    } else {
        let t = if s.len() > 0 && s[0] == '+' {
            s.drop_first()
        } else {
            s
        };
        if t.len() > 0 && all_digits(t) && dec_val(t) <= i64::MAX {
            Some(dec_val(t) as i64)
        } else {
            None
        }
    }
}

/// The digit characters read back as their values.
pub proof fn lemma_digit_roundtrip(d: int)
    requires
        0 <= d < 10,
    ensures
        digit_val(digit_char(d)) == d,
        is_digit(digit_char(d)),
{
}

pub proof fn lemma_dec_val_nonneg(s: Seq<char>)
    requires
        all_digits(s),
    ensures
        dec_val(s) >= 0,
    decreases s.len(),
{
    if s.len() > 0 {
        assert(all_digits(s.drop_last()));
        lemma_dec_val_nonneg(s.drop_last());
        assert(is_digit(s.last()));
    }
}

/// Extending a digit string by one digit multiplies its value by ten
/// and adds the digit.
pub proof fn lemma_dec_val_step(s: Seq<char>, i: int)
    requires
        0 <= i < s.len(),
    ensures
        dec_val(s.take(i + 1)) == dec_val(s.take(i)) * 10 + digit_val(s[i]),
{
    assert(s.take(i + 1).drop_last() =~= s.take(i));
    assert(s.take(i + 1).last() == s[i]);
}

/// The value of a prefix of a digit string never exceeds the whole.
pub proof fn lemma_dec_val_prefix(s: Seq<char>, i: int)
    requires
        all_digits(s),
        0 <= i <= s.len(),
    ensures
        dec_val(s.take(i)) <= dec_val(s),
    decreases s.len() - i,
{
    if i == s.len() {
        assert(s.take(i) =~= s);
    } else {
        lemma_dec_val_prefix(s, i + 1);
        lemma_dec_val_step(s, i);
        assert(all_digits(s.take(i))) by {
            assert(forall|j: int| 0 <= j < i ==> s.take(i)[j] == s[j]);
        }
        lemma_dec_val_nonneg(s.take(i));
        assert(is_digit(s[i]));
    }
}

/// The decimal rendering of a natural number is made of digits, is
/// never empty, and reads back to the same number.
pub proof fn lemma_fmt_nat(n: nat)
    ensures
        spec_fmt_nat(n).len() >= 1,
        all_digits(spec_fmt_nat(n)),
        dec_val(spec_fmt_nat(n)) == n,
        is_digit(spec_fmt_nat(n)[0]),
    decreases n,
{
    if n < 10 {
        let s = spec_fmt_nat(n);
        assert(s == seq![digit_char(n as int)]);
        assert(s.drop_last() =~= Seq::<char>::empty());
        lemma_digit_roundtrip(n as int);
        assert(dec_val(s) == dec_val(s.drop_last()) * 10 + digit_val(s.last()));
        assert(s.last() == digit_char(n as int));
    } else {
        lemma_fmt_nat(n / 10);
        let p = spec_fmt_nat(n / 10);
        let s = spec_fmt_nat(n);
        assert(s == p + seq![digit_char((n % 10) as int)]);
        assert(s.drop_last() =~= p);
        assert(s.last() == digit_char((n % 10) as int));
        assert(digit_val(digit_char((n % 10) as int)) == n % 10);
        assert(forall|i: int| 0 <= i < s.len() ==> is_digit(#[trigger] s[i])) by {
            assert(forall|i: int| 0 <= i < p.len() ==> s[i] == p[i]);
        }
        assert(dec_val(s) == (n / 10) * 10 + n % 10);
        assert(n == 10 * (n as int / 10) + n as int % 10) by {
            vstd::arithmetic::div_mod::lemma_fundamental_div_mod(n as int, 10);
        }
    }
}

/// Parsing the rendering of an unsigned number gives the number back.
pub proof fn lemma_parse_fmt_u64(n: u64)
    ensures
        spec_parse_u64(spec_fmt_nat(n as nat)) == Some(n),
{
    lemma_fmt_nat(n as nat);
    let s = spec_fmt_nat(n as nat);
    assert(s[0] != '+');
}

/// Parsing the rendering of a signed number gives the number back.
pub proof fn lemma_parse_fmt_i64(n: i64)
    ensures
        spec_parse_i64(spec_fmt_int(n as int)) == Some(n),
{
    if n < 0 {
        lemma_fmt_nat((-(n as int)) as nat);
        let s = spec_fmt_int(n as int);
        assert(s[0] == '-');
        assert(s.drop_first() =~= spec_fmt_nat((-(n as int)) as nat));
    } else {
        lemma_fmt_nat(n as nat);
        let s = spec_fmt_int(n as int);
        assert(s =~= spec_fmt_nat(n as nat));
        assert(s[0] != '-' && s[0] != '+');
    }
}

/// The decimal digits of an unsigned number.
pub fn fmt_u64(n: u64) -> (r: Vec<char>)
    ensures
        r@ == spec_fmt_nat(n as nat),
    decreases n,
{
    let d = n % 10;
    let c = if d == 0 {
        '0'
    } else if d == 1 {
        '1'
    } else if d == 2 {
        '2'
    } else if d == 3 {
        '3'
    } else if d == 4 {
        '4'
    } else if d == 5 {
        '5'
    } else if d == 6 {
        '6'
    } else if d == 7 {
        '7'
    } else if d == 8 {
        '8'
    } else {
        '9'
    };
    if n < 10 {
        let mut r: Vec<char> = Vec::new();
        r.push(c);
        proof {
            assert(r@ =~= spec_fmt_nat(n as nat));
        }
        r
    } else {
        let mut r = fmt_u64(n / 10);
        r.push(c);
        proof {
            assert(r@ =~= spec_fmt_nat(n as nat));
        }
        r
    }
}

/// The decimal digits of a signed number, with a sign when negative.
pub fn fmt_i64(n: i64) -> (r: Vec<char>)
    ensures
        r@ == spec_fmt_int(n as int),
{
    if n >= 0 {
        fmt_u64(n as u64)
    } else {
        let mag: u64 = if n == i64::MIN {
            9223372036854775808u64
        } else {
            (-n) as u64
        };
        let mut r: Vec<char> = Vec::new();
        r.push('-');
        let mut digits = fmt_u64(mag);
        r.append(&mut digits);
        proof {
            assert(r@ =~= spec_fmt_int(n as int));
        }
        r
    }
}

/// Parse an unsigned decimal numeral.
pub fn parse_u64(s: &Vec<char>) -> (r: Option<u64>)
    ensures
        r == spec_parse_u64(s@),
{
    let start: usize = if s.len() > 0 && s[0] == '+' {
        1
    } else {
        0
    };
    let ghost t = if s@.len() > 0 && s@[0] == '+' {
        s@.drop_first()
    } else {
        s@
    };
    proof {
        assert(t =~= s@.subrange(start as int, s@.len() as int));
    }
    if s.len() == start {
        return None;
    }
    let mut acc: u64 = 0;
    let mut i: usize = start;
    while i < s.len()
        invariant
            start <= i <= s@.len(),
            start == (if s@.len() > 0 && s@[0] == '+' {
                1int
            } else {
                0int
            }),
            t == (if s@.len() > 0 && s@[0] == '+' {
                s@.drop_first()
            } else {
                s@
            }),
            t == s@.subrange(start as int, s@.len() as int),
            t.len() == s@.len() - start,
            all_digits(t.take(i - start)),
            acc == dec_val(t.take(i - start)),
        decreases s@.len() - i,
    {
        let c = s[i];
        if !('0' <= c && c <= '9') {
            proof {
                assert(t[i - start] == c);
                assert(!is_digit(t[i - start]));
                assert(!all_digits(t));
            }
            return None;
        }
        let d = (c as u32 - 48) as u64;
        proof {
            assert(t[i - start] == c);
            assert(d == digit_val(c));
            lemma_dec_val_step(t, i - start);
        }
        let m = match acc.checked_mul(10) {
            Some(m) => m,
            None => {
                proof {
                    overflow_means_whole_overflows(t, i - start + 1);
                }
                return None;
            },
        };
        let a = match m.checked_add(d) {
            Some(a) => a,
            None => {
                proof {
                    overflow_means_whole_overflows(t, i - start + 1);
                }
                return None;
            },
        };
        acc = a;
        i += 1;
    }
    proof {
        assert(t.take(t.len() as int) =~= t);
    }
    Some(acc)
}

/// When a prefix of the digit string already exceeds the range, the
/// whole string does too.
proof fn overflow_means_whole_overflows(t: Seq<char>, j: int)
    requires
        0 <= j <= t.len(),
        all_digits(t.take(j)),
        dec_val(t.take(j)) > u64::MAX,
    ensures
        !(t.len() > 0 && all_digits(t) && dec_val(t) <= u64::MAX),
        !(t.len() > 0 && all_digits(t) && dec_val(t) <= i64::MAX),
{
    if all_digits(t) {
        lemma_dec_val_prefix(t, j);
        assert(dec_val(t) > u64::MAX);
    }
}

/// Parse a signed decimal numeral.
pub fn parse_i64(s: &Vec<char>) -> (r: Option<i64>)
    ensures
        r == spec_parse_i64(s@),
{
    if s.len() > 0 && s[0] == '-' {
        let rest: Vec<char> = tail_of(s);
        let mag = parse_mag(&rest);
        proof {
            assert(rest@ =~= s@.drop_first());
        }
        match mag {
            Some(m) => {
                if m <= 9223372036854775807u64 {
                    Some(-(m as i64))
                } else if m == 9223372036854775808u64 {
                    Some(i64::MIN)
                } else {
                    None
                }
            },
            None => None,
        }
    } else {
        let r = parse_u64(s);
        proof {
            let t = if s@.len() > 0 && s@[0] == '+' {
                s@.drop_first()
            } else {
                s@
            };
            if t.len() > 0 && all_digits(t) {
                lemma_dec_val_nonneg(t);
            }
        }
        match r {
            Some(m) => {
                if m <= 9223372036854775807u64 {
                    Some(m as i64)
                } else {
                    None
                }
            },
            None => None,
        }
    }
}

/// The characters after the first.
fn tail_of(s: &Vec<char>) -> (r: Vec<char>)
    requires
        s@.len() >= 1,
    ensures
        r@ == s@.drop_first(),
{
    let mut r: Vec<char> = Vec::new();
    let mut i: usize = 1;
    while i < s.len()
        invariant
            1 <= i <= s@.len(),
            r@ == s@.subrange(1, i as int),
        decreases s@.len() - i,
    {
        r.push(s[i]);
        proof {
            assert(r@ =~= s@.subrange(1, i + 1));
        }
        i += 1;
    }
    proof {
        assert(r@ =~= s@.drop_first());
    }
    r
}

/// Parse a digit string whose value may exceed the signed range by one,
/// as the magnitude of a negative numeral; values above that are `None`,
/// as is any string that is not all digits.
fn parse_mag(s: &Vec<char>) -> (r: Option<u64>)
    ensures
        (match r {
            Some(m) => s@.len() > 0 && all_digits(s@) && dec_val(s@) == m,
            None => !(s@.len() > 0 && all_digits(s@) && -dec_val(s@) >= i64::MIN),
        }),
{
    if s.len() == 0 {
        return None;
    }
    let mut acc: u64 = 0;
    let mut i: usize = 0;
    while i < s.len()
        invariant
            0 <= i <= s@.len(),
            all_digits(s@.take(i as int)),
            acc == dec_val(s@.take(i as int)),
        decreases s@.len() - i,
    {
        let c = s[i];
        if !('0' <= c && c <= '9') {
            proof {
                assert(!is_digit(s@[i as int]));
                assert(!all_digits(s@));
            }
            return None;
        }
        let d = (c as u32 - 48) as u64;
        proof {
            assert(d == digit_val(c));
            lemma_dec_val_step(s@, i as int);
        }
        let m = match acc.checked_mul(10) {
            Some(m) => m,
            None => {
                proof {
                    mag_overflow_whole(s@, i + 1);
                }
                return None;
            },
        };
        let a = match m.checked_add(d) {
            Some(a) => a,
            None => {
                proof {
                    mag_overflow_whole(s@, i + 1);
                }
                return None;
            },
        };
        acc = a;
        i += 1;
    }
    proof {
        assert(s@.take(s@.len() as int) =~= s@);
    }
    Some(acc)
}

proof fn mag_overflow_whole(t: Seq<char>, j: int)
    requires
        0 <= j <= t.len(),
        all_digits(t.take(j)),
        dec_val(t.take(j)) > u64::MAX,
    ensures
        !(t.len() > 0 && all_digits(t) && -dec_val(t) >= i64::MIN),
{
    if all_digits(t) {
        lemma_dec_val_prefix(t, j);
    }
}

} // verus!
