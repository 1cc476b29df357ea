//! Decimal text of integers, both ways.
use vstd::prelude::*;
use crate::utils::text::{chars_of, concat, to_string};

verus! {

/// The character of a decimal digit.
pub open spec fn digit_char(d: int) -> char {
    (48 + d) as char
}

/// The decimal text of a natural number, without leading zeros.
pub open spec fn decimal(n: nat) -> Seq<char>
    decreases n,
{
    if n < 10 {
        seq![digit_char(n as int)]
    } else {
        decimal(n / 10) + seq![digit_char((n % 10) as int)]
    }
}

/// The decimal text of an integer, with a `-` before negative ones.
pub open spec fn signed_decimal(n: int) -> Seq<char> {
    if n < 0 {
        seq!['-'] + decimal((-n) as nat)
    } else {
        decimal(n as nat)
    }
}

/// The text of one decimal digit.
fn digit_str(d: u64) -> (r: &'static str)
    requires
        d < 10,
    ensures
        r@ == seq![digit_char(d as int)],
{
    proof {
        reveal_strlit("0");
        reveal_strlit("1");
        reveal_strlit("2");
        reveal_strlit("3");
        reveal_strlit("4");
        reveal_strlit("5");
        reveal_strlit("6");
        reveal_strlit("7");
        reveal_strlit("8");
        reveal_strlit("9");
    }
    let r = if d == 0 {
        "0"
    } else if d == 1 {
        "1"
    } else if d == 2 {
        "2"
    } else if d == 3 {
        "3"
    } else if d == 4 {
        "4"
    } else if d == 5 {
        "5"
    } else if d == 6 {
        "6"
    } else if d == 7 {
        "7"
    } else if d == 8 {
        "8"
    } else {
        "9"
    };
    assert(r@ =~= seq![digit_char(d as int)]);
    r
}

/// The decimal text of `n`, as `u64::to_string`.
pub fn u64_to_string(n: u64) -> (r: String)
    ensures
        r@ == decimal(n as nat),
    decreases n,
{
    if n < 10 {
        to_string(digit_str(n))
    } else {
        let mut s = u64_to_string(n / 10);
        s.append(digit_str(n % 10));
        s
    }
}

/// The decimal text of `n`, as `i64::to_string`.
pub fn i64_to_string(n: i64) -> (r: String)
    ensures
        r@ == signed_decimal(n as int),
{
    if n < 0 {
        let magnitude: u64 = ((-(n + 1)) as u64) + 1;
        assert(magnitude == -(n as int));
        let digits = u64_to_string(magnitude);
        let r = concat("-", digits.as_str());
        proof {
            reveal_strlit("-");
        }
        r
    } else {
        u64_to_string(n as u64)
    }
}

/// Whether every character is an ASCII digit.
pub open spec fn all_digits(s: Seq<char>) -> bool {
    forall|i: int| 0 <= i < s.len() ==> '0' <= #[trigger] s[i] <= '9'
}

/// The value of a string of decimal digits.
pub open spec fn digits_value(s: Seq<char>) -> int
    decreases s.len(),
{
    if s.len() == 0 {
        0
    } else {
        digits_value(s.drop_last()) * 10 + (s.last() as int - 48)
    }
}

/// The sign and digits of an integer's text: a leading `-` or `+` is the
/// sign.
pub open spec fn sign_and_digits(s: Seq<char>) -> (bool, Seq<char>) {
    if s.len() > 0 && s[0] == '-' {
        (true, s.skip(1))
    } else if s.len() > 0 && s[0] == '+' {
        (false, s.skip(1))
    } else {
        (false, s)
    }
}

/// The integer written by `s` as `i64::from_str` reads it: an optional sign,
/// then one or more ASCII digits, the value within the range of `i64`.
pub open spec fn parse_i64_spec(s: Seq<char>) -> Option<int> {
    let (neg, body) = sign_and_digits(s);
    if body.len() == 0 || !all_digits(body) {
        None
    } else {
        let v = if neg { -digits_value(body) } else { digits_value(body) };
        if i64::MIN <= v <= i64::MAX {
            Some(v)
        } else {
            None
        }
    }
}

/// The decimal text of a natural number is a non-empty string of digits
/// whose value is that number.
pub proof fn lemma_decimal_reads_back(n: nat)
    ensures
        decimal(n).len() > 0,
        all_digits(decimal(n)),
        digits_value(decimal(n)) == n,
    decreases n,
{
    let d = decimal(n);
    if n < 10 {
        assert(d == seq![digit_char(n as int)]);
        assert(d.drop_last().len() == 0);
        assert(digits_value(d.drop_last()) == 0);
        assert(d.last() as int == 48 + n);
    } else {
        let front = decimal(n / 10);
        lemma_decimal_reads_back(n / 10);
        assert(d.drop_last() =~= front);
        assert(d.last() == digit_char((n % 10) as int));
        assert(d.last() as int == 48 + n % 10);
        assert(n == (n / 10) * 10 + n % 10);
        assert forall|i: int| 0 <= i < d.len() implies '0' <= #[trigger] d[i] <= '9' by {
            if i < d.len() - 1 {
                assert(d[i] == front[i]);
            }
        }
    }
}

/// The decimal text of an `i64` reads back as that integer; it starts with
/// `-` or a digit.
pub proof fn lemma_signed_decimal_reads_back(i: int)
    requires
        i64::MIN <= i <= i64::MAX,
    ensures
        parse_i64_spec(signed_decimal(i)) == Some(i),
        signed_decimal(i).len() > 0,
        signed_decimal(i)[0] == '-' || '0' <= signed_decimal(i)[0] <= '9',
{
    let s = signed_decimal(i);
    if i < 0 {
        let m: nat = (-i) as nat;
        lemma_decimal_reads_back(m);
        assert(s == seq!['-'] + decimal(m));
        assert(s.skip(1) =~= decimal(m));
        assert(sign_and_digits(s) == (true, decimal(m)));
    } else {
        lemma_decimal_reads_back(i as nat);
        assert(s == decimal(i as nat));
        assert('0' <= s[0] <= '9');
        assert(sign_and_digits(s) == (false, s));
    }
}

/// The value of the digits, capped at `cap`.
pub open spec fn capped(v: int, cap: int) -> int {
    if v < cap { v } else { cap }
}

/// Capping after each digit caps the whole value.
proof fn lemma_capped_step(v: int, d: int, cap: int)
    requires
        v >= 0,
        0 <= d < 10,
        cap > 0,
    ensures
        capped(capped(v, cap) * 10 + d, cap) == capped(v * 10 + d, cap),
{
    if v >= cap {
        assert(v * 10 + d >= cap) by (nonlinear_arith)
            requires v >= cap, cap > 0, d >= 0;
        assert(cap * 10 + d >= cap) by (nonlinear_arith)
            requires cap > 0, d >= 0;
    }
}

/// Reads an integer as `i64::from_str` does; none when `s` is not one.
pub fn parse_i64(s: &str) -> (r: Option<i64>)
    ensures
        r matches Some(v) ==> parse_i64_spec(s@) == Some(v as int),
        r is None ==> parse_i64_spec(s@) is None,
{
    let chars = chars_of(s);
    let n: usize = chars.len();
    let mut start: usize = 0;
    let mut neg = false;
    if n > 0 && chars[0] == '-' {
        neg = true;
        start = 1;
    } else if n > 0 && chars[0] == '+' {
        start = 1;
    }
    let ghost body = s@.skip(start as int);
    assert(sign_and_digits(s@) == (neg, body));
    if start == n {
        return None;
    }
    let cap: u128 = 9223372036854775809;
    let mut acc: u128 = 0;
    let mut i: usize = start;
    while i < n
        invariant
            chars@ == s@,
            n == s@.len(),
            start <= i <= n,
            body == s@.skip(start as int),
            sign_and_digits(s@) == (neg, body),
            cap == 9223372036854775809,
            all_digits(body.take(i - start)),
            acc as int == capped(digits_value(body.take(i - start)), cap as int),
            acc <= cap,
        decreases n - i,
    {
        let c = chars[i];
        if c < '0' || c > '9' {
            assert(body[i - start] == c);
            assert(!all_digits(body)) by {
                assert(!('0' <= body[i - start] <= '9'));
            }
            assert(sign_and_digits(s@).1 == body);
            assert(!all_digits(sign_and_digits(s@).1));
            return None;
        }
        let d: u128 = (c as u32 - 48) as u128;
        let ghost prefix = body.take(i - start);
        let ghost next = body.take(i - start + 1);
        assert(next.drop_last() =~= prefix);
        assert(next.last() == c);
        assert(digits_value(next) == digits_value(prefix) * 10 + d);
        proof {
            assert(digits_value(prefix) >= 0) by {
                lemma_digits_value_nonneg(prefix);
            }
            lemma_capped_step(digits_value(prefix), d as int, cap as int);
        }
        let raw: u128 = acc * 10 + d;
        acc = if raw < cap { raw } else { cap };
        assert(all_digits(next)) by {
            assert forall|j: int| 0 <= j < next.len() implies '0' <= #[trigger] next[j] <= '9' by {
                if j < prefix.len() {
                    assert(next[j] == prefix[j]);
                }
            }
        }
        i = i + 1;
    }
    assert(body.take(n - start) =~= body);
    if neg {
        if acc <= 9223372036854775808 {
            let v: i64 = if acc == 9223372036854775808 { i64::MIN } else { -(acc as i64) };
            Some(v)
        } else {
            None
        }
    } else {
        if acc <= 9223372036854775807 {
            Some(acc as i64)
        } else {
            None
        }
    }
}

/// The value of a string of digits is not negative.
proof fn lemma_digits_value_nonneg(s: Seq<char>)
    requires
        all_digits(s),
    ensures
        digits_value(s) >= 0,
    decreases s.len(),
{
    if s.len() > 0 {
        assert(all_digits(s.drop_last())) by {
            assert forall|j: int| 0 <= j < s.drop_last().len() implies '0' <= #[trigger] s.drop_last()[j] <= '9' by {
                assert(s.drop_last()[j] == s[j]);
            }
        }
        lemma_digits_value_nonneg(s.drop_last());
        assert('0' <= s[s.len() - 1] <= '9');
    }
}


/// The character of a hexadecimal digit, in lowercase.
pub open spec fn hex_digit_char(d: int) -> char {
    if d < 10 {
        (48 + d) as char
    } else {
        (87 + d) as char
    }
}

/// The four lowercase hexadecimal digits of `v`, with leading zeros (as
/// `format!("{:04x}", v)`).
pub open spec fn hex4(v: u16) -> Seq<char> {
    seq![
        hex_digit_char((v / 4096) as int),
        hex_digit_char(((v / 256) % 16) as int),
        hex_digit_char(((v / 16) % 16) as int),
        hex_digit_char((v % 16) as int),
    ]
}

/// The text of one hexadecimal digit.
fn hex_digit_str(d: u16) -> (r: &'static str)
    requires
        d < 16,
    ensures
        r@ == seq![hex_digit_char(d as int)],
{
    proof {
        reveal_strlit("0");
        reveal_strlit("1");
        reveal_strlit("2");
        reveal_strlit("3");
        reveal_strlit("4");
        reveal_strlit("5");
        reveal_strlit("6");
        reveal_strlit("7");
        reveal_strlit("8");
        reveal_strlit("9");
        reveal_strlit("a");
        reveal_strlit("b");
        reveal_strlit("c");
        reveal_strlit("d");
        reveal_strlit("e");
        reveal_strlit("f");
    }
    let r = if d == 0 {
        "0"
    } else if d == 1 {
        "1"
    } else if d == 2 {
        "2"
    } else if d == 3 {
        "3"
    } else if d == 4 {
        "4"
    } else if d == 5 {
        "5"
    } else if d == 6 {
        "6"
    } else if d == 7 {
        "7"
    } else if d == 8 {
        "8"
    } else if d == 9 {
        "9"
    } else if d == 10 {
        "a"
    } else if d == 11 {
        "b"
    } else if d == 12 {
        "c"
    } else if d == 13 {
        "d"
    } else if d == 14 {
        "e"
    } else {
        "f"
    };
    assert(r@ =~= seq![hex_digit_char(d as int)]);
    r
}

/// The four lowercase hexadecimal digits of `v`, with leading zeros.
pub fn hex4_string(v: u16) -> (r: String)
    ensures
        r@ == hex4(v),
{
    let mut r = to_string(hex_digit_str(v / 4096));
    r.append(hex_digit_str((v / 256) % 16));
    r.append(hex_digit_str((v / 16) % 16));
    r.append(hex_digit_str(v % 16));
    assert(r@ =~= hex4(v));
    r
}


/// The value of a hexadecimal digit (either case), or -1 for another
/// character.
pub open spec fn hex_value(c: char) -> int {
    if '0' <= c && c <= '9' {
        c as int - 48
    } else if 'a' <= c && c <= 'f' {
        c as int - 87
    } else if 'A' <= c && c <= 'F' {
        c as int - 55
    } else {
        -1
    }
}

/// Whether every character is a hexadecimal digit.
pub open spec fn all_hex_digits(s: Seq<char>) -> bool {
    forall|i: int| 0 <= i < s.len() ==> hex_value(#[trigger] s[i]) >= 0
}

/// The value of a string of hexadecimal digits.
pub open spec fn hex_digits_value(s: Seq<char>) -> int
    decreases s.len(),
{
    if s.len() == 0 {
        0
    } else {
        hex_digits_value(s.drop_last()) * 16 + hex_value(s.last())
    }
}

/// The number written by `s` as `u32::from_str_radix(s, 16)` reads it: an
/// optional `+`, then one or more hexadecimal digits, the value within the
/// range of `u32`.
pub open spec fn parse_hex_u32_spec(s: Seq<char>) -> Option<int> {
    let body = if s.len() > 0 && s[0] == '+' { s.skip(1) } else { s };
    if body.len() == 0 || !all_hex_digits(body) {
        None
    } else if hex_digits_value(body) <= u32::MAX {
        Some(hex_digits_value(body))
    } else {
        None
    }
}

/// The value of a string of hexadecimal digits is not negative.
proof fn lemma_hex_value_nonneg(s: Seq<char>)
    requires
        all_hex_digits(s),
    ensures
        hex_digits_value(s) >= 0,
    decreases s.len(),
{
    if s.len() > 0 {
        assert(all_hex_digits(s.drop_last())) by {
            assert forall|j: int| 0 <= j < s.drop_last().len() implies hex_value(#[trigger] s.drop_last()[j]) >= 0 by {
                assert(s.drop_last()[j] == s[j]);
            }
        }
        lemma_hex_value_nonneg(s.drop_last());
        assert(hex_value(s[s.len() - 1]) >= 0);
    }
}

/// Capping after each hexadecimal digit caps the whole value.
proof fn lemma_capped_hex_step(v: int, d: int, cap: int)
    requires
        v >= 0,
        0 <= d < 16,
        cap > 0,
    ensures
        capped(capped(v, cap) * 16 + d, cap) == capped(v * 16 + d, cap),
{
    if v >= cap {
        assert(v * 16 + d >= cap) by (nonlinear_arith)
            requires v >= cap, cap > 0, d >= 0;
        assert(cap * 16 + d >= cap) by (nonlinear_arith)
            requires cap > 0, d >= 0;
    }
}

/// The value of a hexadecimal digit.
fn hex_digit_value(c: char) -> (r: Option<u64>)
    ensures
        match r {
            Some(d) => hex_value(c) >= 0 && d as int == hex_value(c),
            None => hex_value(c) < 0,
        },
{
    if '0' <= c && c <= '9' {
        Some((c as u32 - 48) as u64)
    } else if 'a' <= c && c <= 'f' {
        Some((c as u32 - 87) as u64)
    } else if 'A' <= c && c <= 'F' {
        Some((c as u32 - 55) as u64)
    } else {
        None
    }
}

/// Reads a hexadecimal number as `u32::from_str_radix(s, 16)` does; none
/// when `s` is not one.
pub fn parse_hex_u32(s: &str) -> (r: Option<u32>)
    ensures
        match r {
            Some(v) => parse_hex_u32_spec(s@) == Some(v as int),
            None => parse_hex_u32_spec(s@) is None,
        },
{
    let chars = chars_of(s);
    let n: usize = chars.len();
    let start: usize = if n > 0 && chars[0] == '+' { 1 } else { 0 };
    let ghost body = s@.skip(start as int);
    assert(body == (if s@.len() > 0 && s@[0] == '+' { s@.skip(1) } else { s@ }));
    if start == n {
        return None;
    }
    let cap: u64 = 4294967296;
    let mut acc: u64 = 0;
    let mut i: usize = start;
    assert(body.take(0) =~= Seq::<char>::empty());
    while i < n
        invariant
            chars@ == s@,
            n == s@.len(),
            start <= i <= n,
            body == s@.skip(start as int),
            body == (if s@.len() > 0 && s@[0] == '+' { s@.skip(1) } else { s@ }),
            cap == 4294967296,
            all_hex_digits(body.take(i - start)),
            acc as int == capped(hex_digits_value(body.take(i - start)), cap as int),
            acc <= cap,
        decreases n - i,
    {
        let c = chars[i];
        let d = match hex_digit_value(c) {
            Some(d) => d,
            None => {
                assert(body[i - start] == c);
                assert(!all_hex_digits(body)) by {
                    assert(hex_value(body[i - start]) < 0);
                }
                return None;
            },
        };
        let ghost prefix = body.take(i - start);
        let ghost next = body.take(i - start + 1);
        assert(next.drop_last() =~= prefix);
        assert(next.last() == c);
        assert(hex_digits_value(next) == hex_digits_value(prefix) * 16 + d);
        proof {
            lemma_hex_value_nonneg(prefix);
            lemma_capped_hex_step(hex_digits_value(prefix), d as int, cap as int);
        }
        let raw: u64 = acc * 16 + d;
        acc = if raw < cap { raw } else { cap };
        assert(all_hex_digits(next)) by {
            assert forall|j: int| 0 <= j < next.len() implies hex_value(#[trigger] next[j]) >= 0 by {
                if j < prefix.len() {
                    assert(next[j] == prefix[j]);
                }
            }
        }
        i = i + 1;
    }
    assert(body.take(n - start) =~= body);
    proof {
        lemma_hex_value_nonneg(body);
    }
    if acc < cap {
        Some(acc as u32)
    } else {
        None
    }
}

/// The integer written by `s` as `i32::from_str` reads it.
pub open spec fn parse_i32_spec(s: Seq<char>) -> Option<int> {
    match parse_i64_spec(s) {
        Some(v) => if i32::MIN <= v <= i32::MAX { Some(v) } else { None },
        None => None,
    }
}

/// Reads an integer as `i32::from_str` does; none when `s` is not one.
pub fn parse_i32(s: &str) -> (r: Option<i32>)
    ensures
        match r {
            Some(v) => parse_i32_spec(s@) == Some(v as int),
            None => parse_i32_spec(s@) is None,
        },
{
    match parse_i64(s) {
        Some(v) => if -2147483648 <= v && v <= 2147483647 { Some(v as i32) } else { None },
        None => None,
    }
}

} // verus!
