use vstd::prelude::*;

verus! {

use vstd::string::StrSliceExecFns;
use vstd::string::StringExecFns;
use vstd::string::StringSliceAdditionalSpecFns;
use vstd::utf8::encode_utf8;
use vstd::utf8::decode_utf8;

/// Element-wise equality of two byte slices.
pub fn bytes_eq(a: &[u8], b: &[u8]) -> (r: bool)
    ensures
        r == (a@ == b@),
{
    if a.len() != b.len() {
        return false;
    }
    let mut i: usize = 0;
    while i < a.len()
        invariant
            0 <= i <= a@.len(),
            a@.len() == b@.len(),
            forall|j: int| 0 <= j < i ==> a@[j] == b@[j],
        decreases a@.len() - i,
    {
        if a[i] != b[i] {
            return false;
        }
        i += 1;
    }
    proof {
        assert(a@ =~= b@);
    }
    true
}

/// Equality of two string slices, decided on their UTF-8 bytes.
pub fn str_eq(a: &str, b: &str) -> (r: bool)
    ensures
        r == (a@ == b@),
{
    let r = bytes_eq(a.as_bytes(), b.as_bytes());
    proof {
        broadcast use vstd::utf8::encode_utf8_decode_utf8;

        assert(decode_utf8(encode_utf8(a@)) == a@);
        assert(decode_utf8(encode_utf8(b@)) == b@);
    }
    r
}

/// The decimal digit character for a value below ten.
pub open spec fn spec_digit_char(d: int) -> char {
    if d == 0 {
        '0'
    } else if d == 1 {
        '1'
    } else if d == 2 {
        '2'
    } else if d == 3 {
        '3'
    } else if d == 4 {
        '4'
    } else if d == 5 {
        '5'
    } else if d == 6 {
        '6'
    } else if d == 7 {
        '7'
    } else if d == 8 {
        '8'
    } else {
        '9'
    }
}

/// Decimal digit sequence of a non-negative number, most significant first.
pub open spec fn spec_digits(n: nat) -> Seq<char>
    decreases n,
{
    if n < 10 {
        seq![spec_digit_char(n as int)]
    } else {
        spec_digits(n / 10) + seq![spec_digit_char((n % 10) as int)]
    }
}

/// Decimal rendering of a signed number: a minus sign for negative values,
/// then the digits of the magnitude.
pub open spec fn spec_i32_str(n: int) -> Seq<char> {
    if n < 0 {
        seq!['-'] + spec_digits((-n) as nat)
    } else {
        spec_digits(n as nat)
    }
}

fn digit_str(d: u32) -> (r: &'static str)
    requires
        d < 10,
    ensures
        r@ == seq![spec_digit_char(d as int)],
{
    proof {
        reveal_strlit("0");
        reveal_strlit("1");
        reveal_strlit("2");
        reveal_strlit("3");
        reveal_strlit("4");
        reveal_strlit("5");
        reveal_strlit("6");
        reveal_strlit("7");
        reveal_strlit("8");
        reveal_strlit("9");
    }
    match d {
        0 => "0",
        1 => "1",
        2 => "2",
        3 => "3",
        4 => "4",
        5 => "5",
        6 => "6",
        7 => "7",
        8 => "8",
        _ => "9",
    }
}

/// Render an unsigned number in decimal.
pub fn fmt_u32(n: u32) -> (r: String)
    ensures
        r@ == spec_digits(n as nat),
    decreases n,
{
    if n < 10 {
        digit_str(n).to_owned()
    } else {
        let mut s = fmt_u32(n / 10);
        s.append(digit_str(n % 10));
        s
    }
}

/// Render a signed number in decimal.
pub fn fmt_i32(n: i32) -> (r: String)
    ensures
        r@ == spec_i32_str(n as int),
{
    if n >= 0 {
        fmt_u32(n as u32)
    } else {
        let mag: u32 = (-(n as i64)) as u32;
        proof {
            reveal_strlit("-");
        }
        let mut s: String = "-".to_owned();
        let digits = fmt_u32(mag);
        s.append(digits.as_str());
        s
    }
}

pub open spec fn spec_is_digit(c: char) -> bool {
    48 <= (c as u32) <= 57
}

pub open spec fn spec_digit_val(c: char) -> int {
    (c as u32) - 48
}

pub open spec fn spec_all_digits(s: Seq<char>) -> bool {
    forall|i: int| 0 <= i < s.len() ==> spec_is_digit(s[i])
}

/// Value of a digit sequence, read most significant first.
pub open spec fn spec_digits_val(s: Seq<char>) -> int
    decreases s.len(),
{
    if s.len() == 0 {
        0
    } else {
        spec_digits_val(s.drop_last()) * 10 + spec_digit_val(s.last())
    }
}

/// What parsing a decimal string as an `i32` yields: an optional minus sign,
/// then at least one digit, and the value must fit the type.
pub open spec fn spec_parse_i32(s: Seq<char>) -> Option<i32> {
    if s.len() == 0 {
        None
    } else if s[0] == '-' {
        let ds = s.subrange(1, s.len() as int);
        if ds.len() == 0 || !spec_all_digits(ds) {
            None
        } else if spec_digits_val(ds) > 0x8000_0000 {
            None
        } else {
            Some((-spec_digits_val(ds)) as i32)
        }
    } else if !spec_all_digits(s) {
        None
    } else if spec_digits_val(s) > 0x7fff_ffff {
        None
    } else {
        Some(spec_digits_val(s) as i32)
    }
}

proof fn lemma_digits_val_nonneg(s: Seq<char>)
    requires
        spec_all_digits(s),
    ensures
        spec_digits_val(s) >= 0,
    decreases s.len(),
{
    if s.len() > 0 {
        assert(spec_all_digits(s.drop_last()));
        lemma_digits_val_nonneg(s.drop_last());
    }
}

proof fn lemma_digits_val_prefix(s: Seq<char>, k: int)
    requires
        spec_all_digits(s),
        0 <= k <= s.len(),
    ensures
        spec_digits_val(s) >= spec_digits_val(s.subrange(0, k)),
    decreases s.len() - k,
{
    if k < s.len() {
        lemma_digits_val_prefix(s, k + 1);
        let p = s.subrange(0, k + 1);
        assert(p.drop_last() =~= s.subrange(0, k));
        assert(spec_all_digits(p));
        lemma_digits_val_nonneg(s.subrange(0, k));
        assert(spec_digits_val(p) == spec_digits_val(s.subrange(0, k)) * 10 + spec_digit_val(p.last()));
    } else {
        assert(s.subrange(0, k) =~= s);
    }
}

/// Parse a decimal string as an `i32`; `None` exactly when the string is not
/// a well-formed decimal number or the value does not fit.
pub fn parse_i32(s: &str) -> (r: Option<i32>)
    ensures
        r == spec_parse_i32(s@),
{
    let n = s.unicode_len();
    if n == 0 {
        return None;
    }
    let neg = s.get_char(0) == '-';
    let start: usize = if neg {
        1
    } else {
        0
    };
    if n == start {
        return None;
    }
    let ghost ds: Seq<char> = s@.subrange(start as int, s@.len() as int);
    proof {
        if !neg {
            assert(ds =~= s@);
        }
    }
    let mut acc: u64 = 0;
    let mut i: usize = start;
    while i < n
        invariant
            start <= i <= n,
            n == s@.len(),
            start == if neg { 1int } else { 0int },
            neg ==> s@[0] == '-',
            !neg ==> s@.len() > 0 && s@[0] != '-',
            ds == s@.subrange(start as int, s@.len() as int),
            spec_all_digits(ds.subrange(0, i - start)),
            acc == spec_digits_val(ds.subrange(0, i - start)),
            acc <= 0x8000_0000,
        decreases n - i,
    {
        let c = s.get_char(i);
        let u = c as u32;
        if u < 48 || u > 57 {
            proof {
                assert(ds[i - start] == s@[i as int]);
                assert(!spec_is_digit(ds[i - start]));
            }
            return None;
        }
        let d: u64 = (u - 48) as u64;
        let acc2: u64 = acc * 10 + d;
        proof {
            let pold = ds.subrange(0, i - start);
            let pnew = ds.subrange(0, i + 1 - start);
            assert(pnew.drop_last() =~= pold);
            assert(pnew.last() == ds[i - start]);
            assert(ds[i - start] == s@[i as int]);
            assert(spec_is_digit(s@[i as int]));
            assert forall|j: int| 0 <= j < pnew.len() implies spec_is_digit(pnew[j]) by {
                if j < pnew.len() - 1 {
                    assert(pnew[j] == pold[j]);
                }
            }
            assert(spec_digits_val(pnew) == spec_digits_val(pold) * 10 + spec_digit_val(pnew.last()));
            assert(acc2 == spec_digits_val(pnew));
        }
        acc = acc2;
        i += 1;
        if acc > 0x8000_0000 {
            proof {
                if spec_all_digits(ds) {
                    lemma_digits_val_prefix(ds, i - start);
                    assert(spec_digits_val(ds) >= spec_digits_val(ds.subrange(0, i - start)));
                    assert(spec_digits_val(ds) > 0x8000_0000);
                    if neg {
                        assert(s@[0] == '-');
                        assert(ds == s@.subrange(1, s@.len() as int));
                        assert(spec_digits_val(s@.subrange(1, s@.len() as int)) > 0x8000_0000);
                        assert(spec_parse_i32(s@) is None);
                    } else {
                        assert(s@[0] != '-');
                        assert(ds == s@);
                        assert(spec_digits_val(s@) > 0x7fff_ffff);
                        assert(spec_parse_i32(s@) is None);
                    }
                } else {
                    assert(spec_parse_i32(s@) is None);
                }
            }
            return None;
        }
    }
    proof {
        assert(ds.subrange(0, n - start) =~= ds);
    }
    if neg {
        let v: i64 = -(acc as i64);
        Some(v as i32)
    } else {
        if acc > 0x7fff_ffff {
            return None;
        }
        Some(acc as i32)
    }
}

/// The digit rendering of a number is non-empty, consists of digits alone,
/// and evaluates back to the number.
pub proof fn lemma_digits_shape(n: nat)
    ensures
        spec_digits(n).len() >= 1,
        spec_all_digits(spec_digits(n)),
        spec_digits_val(spec_digits(n)) == n,
        spec_digits(n)[0] != '-',
    decreases n,
{
    if n < 10 {
        let s = spec_digits(n);
        assert(s == seq![spec_digit_char(n as int)]);
        assert(s.drop_last() =~= Seq::<char>::empty());
        assert(spec_digits_val(Seq::<char>::empty()) == 0);
        assert(spec_digits_val(s) == spec_digit_val(s.last()));
        assert(spec_digit_val(spec_digit_char(n as int)) == n);
    } else {
        lemma_digits_shape(n / 10);
        let s = spec_digits(n);
        assert(s.drop_last() =~= spec_digits(n / 10));
        assert(s.last() == spec_digit_char((n % 10) as int));
        assert(spec_digits_val(s.drop_last()) == n / 10);
        assert(spec_digit_val(spec_digit_char((n % 10) as int)) == n % 10);
        assert(n == (n / 10) * 10 + n % 10) by (nonlinear_arith);
        assert(spec_digits_val(s) == n);
        assert(forall|i: int|
            0 <= i < s.len() ==> s[i] == if i < s.len() - 1 {
                spec_digits(n / 10)[i]
            } else {
                s.last()
            });
    }
}

/// Round trip: parsing the decimal rendering of any `i32` gives it back.
pub proof fn lemma_i32_str_round_trip(n: i32)
    ensures
        spec_parse_i32(spec_i32_str(n as int)) == Some(n),
{
    if n >= 0 {
        lemma_digits_shape(n as nat);
    } else {
        let s = spec_i32_str(n as int);
        lemma_digits_shape((-(n as int)) as nat);
        assert(s[0] == '-');
        assert(s.subrange(1, s.len() as int) =~= spec_digits((-(n as int)) as nat));
    }
}

} // verus!
