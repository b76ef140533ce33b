//! Integers as text: reading decimal and hexadecimal numbers, and writing
//! decimal ones.

use vstd::prelude::*;
use vstd::string::*;

verus! {

/// The value of `c` as a digit in base `radix`: `0` to `9`, then the letters
/// of either case from ten on.
pub open spec fn digit_of(c: char, radix: int) -> Option<int> {
    let n = c as u32 as int;
    let v = if 48 <= n <= 57 {
        n - 48
    } else if 97 <= n <= 122 {
        n - 87
    } else if 65 <= n <= 90 {
        n - 55
    } else {
        -1
    };
    if 0 <= v < radix {
        Some(v)
    } else {
        None
    }
}

/// Every character of `s` is a digit in base `radix`.
pub open spec fn all_digits(s: Seq<char>, radix: int) -> bool {
    forall|i: int| 0 <= i < s.len() ==> (#[trigger] digit_of(s[i], radix)) is Some
}

/// The number that the digits `s` write in base `radix`.
pub open spec fn value_of(s: Seq<char>, radix: int) -> int
    decreases s.len(),
{
    if s.len() == 0 {
        0
    } else {
        value_of(s.drop_last(), radix) * radix + digit_of(s.last(), radix).unwrap()
    }
}

/// The number that `s` writes, where `s` is at least one digit in base
/// `radix` and the number is at most `max`.
pub open spec fn digits_upto(s: Seq<char>, radix: int, max: int) -> Option<int> {
    if s.len() > 0 && all_digits(s, radix) && value_of(s, radix) <= max {
        Some(value_of(s, radix))
    } else {
        None
    }
}

/// `s` without the plus sign that may begin it.
pub open spec fn unsigned_body(s: Seq<char>) -> Seq<char> {
    if s.len() > 0 && s[0] == '+' {
        s.skip(1)
    } else {
        s
    }
}

/// The `u32` that `s` writes in decimal: an optional plus sign, then digits
/// only, at least one, with a value that a `u32` holds.
pub open spec fn u32_of(s: Seq<char>) -> Option<u32> {
    match digits_upto(unsigned_body(s), 10, u32::MAX as int) {
        Some(v) => Some(v as u32),
        None => None,
    }
}

/// The `u32` that `s` writes in hexadecimal: an optional plus sign, then
/// digits only (`0` to `9`, `a` to `f`, `A` to `F`), at least one, with a
/// value that a `u32` holds.
pub open spec fn hex_u32_of(s: Seq<char>) -> Option<u32> {
    match digits_upto(unsigned_body(s), 16, u32::MAX as int) {
        Some(v) => Some(v as u32),
        None => None,
    }
}

/// The `i32` that `s` writes in decimal: an optional sign, then digits only,
/// at least one, with a value that an `i32` holds.
pub open spec fn i32_of(s: Seq<char>) -> Option<i32> {
    if s.len() > 0 && s[0] == '-' {
        match digits_upto(s.skip(1), 10, 0x8000_0000) {
            Some(v) => Some((-v) as i32),
            None => None,
        }
    } else {
        match digits_upto(unsigned_body(s), 10, i32::MAX as int) {
            Some(v) => Some(v as i32),
            None => None,
        }
    }
}

proof fn lemma_value_nonnegative(s: Seq<char>, radix: int)
    requires
        radix > 0,
        all_digits(s, radix),
    ensures
        value_of(s, radix) >= 0,
    decreases s.len(),
{
    if s.len() > 0 {
        let t = s.drop_last();
        assert forall|i: int| 0 <= i < t.len() implies (#[trigger] digit_of(t[i], radix)) is Some by {
            assert(t[i] == s[i]);
        }
        lemma_value_nonnegative(t, radix);
        assert(digit_of(s[s.len() - 1], radix) is Some);
        assert(value_of(t, radix) * radix >= 0) by (nonlinear_arith)
            requires
                value_of(t, radix) >= 0,
                radix > 0,
        ;
    }
}

/// Digits that follow make a number no smaller.
proof fn lemma_value_prefix(s: Seq<char>, radix: int, k: int)
    requires
        radix > 0,
        all_digits(s, radix),
        0 <= k <= s.len(),
    ensures
        0 <= value_of(s.take(k), radix) <= value_of(s, radix),
    decreases s.len(),
{
    if k == s.len() {
        assert(s.take(k) =~= s);
        lemma_value_nonnegative(s, radix);
    } else {
        let t = s.drop_last();
        assert forall|i: int| 0 <= i < t.len() implies (#[trigger] digit_of(t[i], radix)) is Some by {
            assert(t[i] == s[i]);
        }
        lemma_value_prefix(t, radix, k);
        assert(t.take(k) =~= s.take(k));
        assert(digit_of(s[s.len() - 1], radix) is Some);
        assert(value_of(t, radix) * radix >= value_of(t, radix)) by (nonlinear_arith)
            requires
                value_of(t, radix) >= 0,
                radix > 0,
        ;
    }
}

/// The value of `c` as a digit in base `radix`.
pub fn char_digit(c: char, radix: u32) -> (r: Option<u32>)
    ensures
        r.is_some() == digit_of(c, radix as int).is_some(),
        r matches Some(d) ==> digit_of(c, radix as int) == Some(d as int),
{
    let n: u32 = c as u32;
    let v: u32 = if 48 <= n && n <= 57 {
        n - 48
    } else if 97 <= n && n <= 122 {
        n - 87
    } else if 65 <= n && n <= 90 {
        n - 55
    } else {
        return None;
    };
    if v < radix {
        Some(v)
    } else {
        None
    }
}

/// Reads the digits of `s` from `from` on as one number in base `radix`,
/// where there is at least one, nothing else, and the number is at most
/// `max`.
pub fn read_digits(s: &Vec<char>, from: usize, radix: u32, max: u64) -> (r: Option<u64>)
    requires
        from <= s.len(),
        0 < radix <= 36,
        max <= 0xFFFF_FFFF,
    ensures
        r.is_some() == digits_upto(s@.skip(from as int), radix as int, max as int).is_some(),
        r matches Some(v) ==> digits_upto(s@.skip(from as int), radix as int, max as int) == Some(
            v as int,
        ),
{
    let ghost body = s@.skip(from as int);
    if from == s.len() {
        return None;
    }
    let mut acc: u64 = 0;
    let mut i: usize = from;
    proof {
        assert(body.take(0) =~= Seq::<char>::empty());
    }
    while i < s.len()
        invariant
            from <= i <= s.len(),
            body == s@.skip(from as int),
            0 < radix <= 36,
            max <= 0xFFFF_FFFF,
            acc <= max,
            all_digits(body.take(i - from), radix as int),
            acc == value_of(body.take(i - from), radix as int),
        decreases s.len() - i,
    {
        let ghost seen = body.take(i - from);
        let ghost next = body.take(i - from + 1);
        proof {
            assert(next.drop_last() =~= seen);
            assert(next.last() == s@[i as int]);
        }
        match char_digit(s[i], radix) {
            None => {
                assert(digit_of(body[i - from], radix as int) is None);
                return None;
            },
            Some(d) => {
                assert(acc * radix + d <= 0xFFFF_FFFF * 36 + 36) by (nonlinear_arith)
                    requires
                        acc <= 0xFFFF_FFFF,
                        radix <= 36,
                        d < 36,
                ;
                let wider: u64 = acc * (radix as u64) + (d as u64);
                proof {
                    assert forall|k: int| 0 <= k < next.len() implies (#[trigger] digit_of(
                        next[k],
                        radix as int,
                    )) is Some by {
                        if k < seen.len() {
                            assert(next[k] == seen[k]);
                        }
                    }
                    assert(wider == value_of(next, radix as int));
                }
                if wider > max {
                    proof {
                        if all_digits(body, radix as int) {
                            lemma_value_prefix(body, radix as int, i - from + 1);
                        }
                    }
                    return None;
                }
                acc = wider;
            },
        }
        i += 1;
    }
    proof {
        assert(body.take(i - from) =~= body);
    }
    Some(acc)
}

/// Where the digits of an unsigned number begin in `s`.
fn unsigned_start(s: &Vec<char>) -> (from: usize)
    ensures
        from <= s.len(),
        s@.skip(from as int) == unsigned_body(s@),
{
    if s.len() > 0 && s[0] == '+' {
        1
    } else {
        assert(s@.skip(0) =~= s@);
        0
    }
}

/// Reads a `u32` written in decimal.
pub fn parse_u32(s: &Vec<char>) -> (r: Option<u32>)
    ensures
        r == u32_of(s@),
{
    let from: usize = unsigned_start(s);
    match read_digits(s, from, 10, 0xFFFF_FFFF) {
        Some(v) => Some(v as u32),
        None => None,
    }
}

/// Reads a `u32` written in hexadecimal.
pub fn parse_hex_u32(s: &Vec<char>) -> (r: Option<u32>)
    ensures
        r == hex_u32_of(s@),
{
    let from: usize = unsigned_start(s);
    match read_digits(s, from, 16, 0xFFFF_FFFF) {
        Some(v) => Some(v as u32),
        None => None,
    }
}

/// Reads an `i32` written in decimal.
pub fn parse_i32(s: &Vec<char>) -> (r: Option<i32>)
    ensures
        r == i32_of(s@),
{
    if s.len() > 0 && s[0] == '-' {
        match read_digits(s, 1, 10, 0x8000_0000) {
            Some(v) => {
                let wide: i64 = -(v as i64);
                Some(wide as i32)
            },
            None => None,
        }
    } else {
        let from: usize = unsigned_start(s);
        match read_digits(s, from, 10, 0x7FFF_FFFF) {
            Some(v) => Some(v as i32),
            None => None,
        }
    }
}

/// The character that writes the digit `d`.
pub open spec fn digit_char(d: int) -> char {
    if d == 0 {
        '0'
    } else if d == 1 {
        '1'
    } else if d == 2 {
        '2'
    } else if d == 3 {
        '3'
    } else if d == 4 {
        '4'
    } else if d == 5 {
        '5'
    } else if d == 6 {
        '6'
    } else if d == 7 {
        '7'
    } else if d == 8 {
        '8'
    } else {
        '9'
    }
}

/// `v` written in decimal, without a sign and without leading zeros.
pub open spec fn decimal(v: nat) -> Seq<char>
    decreases v,
{
    if v < 10 {
        seq![digit_char(v as int)]
    } else {
        decimal(v / 10).push(digit_char((v % 10) as int))
    }
}

/// `v` written in decimal, with a minus sign where it is negative.
pub open spec fn signed_decimal(v: int) -> Seq<char> {
    if v < 0 {
        seq!['-'] + decimal((-v) as nat)
    } else {
        decimal(v as nat)
    }
}

/// The text of one decimal digit.
fn digit_str(d: u64) -> (r: &'static str)
    requires
        d < 10,
    ensures
        r@ == seq![digit_char(d as int)],
{
    proof {
        reveal_strlit("0");
        reveal_strlit("1");
        reveal_strlit("2");
        reveal_strlit("3");
        reveal_strlit("4");
        reveal_strlit("5");
        reveal_strlit("6");
        reveal_strlit("7");
        reveal_strlit("8");
        reveal_strlit("9");
    }
    let r = if d == 0 {
        "0"
    } else if d == 1 {
        "1"
    } else if d == 2 {
        "2"
    } else if d == 3 {
        "3"
    } else if d == 4 {
        "4"
    } else if d == 5 {
        "5"
    } else if d == 6 {
        "6"
    } else if d == 7 {
        "7"
    } else if d == 8 {
        "8"
    } else {
        "9"
    };
    assert(r@ =~= seq![digit_char(d as int)]);
    r
}

/// Appends `v`, written in decimal, to `out`.
pub fn push_decimal(out: &mut String, v: u64)
    ensures
        final(out)@ == old(out)@ + decimal(v as nat),
    decreases v,
{
    if v >= 10 {
        push_decimal(out, v / 10);
    }
    out.append(digit_str(v % 10));
    assert(final(out)@ =~= old(out)@ + decimal(v as nat));
}

/// Appends `v`, written in decimal with its sign, to `out`.
pub fn push_signed_decimal(out: &mut String, v: i64)
    ensures
        final(out)@ == old(out)@ + signed_decimal(v as int),
{
    if v < 0 {
        proof {
            reveal_strlit("-");
        }
        out.append("-");
        let magnitude: i128 = -(v as i128);
        push_decimal(out, magnitude as u64);
        assert(final(out)@ =~= old(out)@ + signed_decimal(v as int));
    } else {
        push_decimal(out, v as u64);
    }
}

/// A number that was written in decimal reads back as itself: what
/// `decimal` writes is at least one digit, digits only, and has the value
/// that was written.
pub proof fn lemma_decimal_reads_back(v: nat)
    ensures
        decimal(v).len() > 0,
        all_digits(decimal(v), 10),
        value_of(decimal(v), 10) == v,
        decimal(v)[0] != '+',
        digit_of(decimal(v).last(), 10) is Some,
    decreases v,
{
    let s = decimal(v);
    if v < 10 {
        assert(s.drop_last() =~= Seq::<char>::empty());
        assert(digit_of(digit_char(v as int), 10) == Some(v as int));
        assert(value_of(s, 10) == value_of(s.drop_last(), 10) * 10 + digit_of(s.last(), 10).unwrap());
        assert(value_of(Seq::<char>::empty(), 10) == 0);
    } else {
        let front = decimal(v / 10);
        let d = (v % 10) as int;
        lemma_decimal_reads_back(v / 10);
        assert(s.drop_last() =~= front);
        assert(digit_of(digit_char(d), 10) == Some(d));
        assert forall|i: int| 0 <= i < s.len() implies (#[trigger] digit_of(s[i], 10)) is Some by {
            if i < front.len() {
                assert(s[i] == front[i]);
            }
        }
        assert(s[0] == front[0]);
    }
}

/// The decimal text of a number that a `u32` holds is read as that number.
pub proof fn lemma_u32_reads_back(v: u32)
    ensures
        u32_of(decimal(v as nat)) == Some(v),
{
    lemma_decimal_reads_back(v as nat);
}

} // verus!
