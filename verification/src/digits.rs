//! Numbers written in decimal and bytes written in hexadecimal.

use vstd::prelude::*;

use crate::text::to_chars;

verus! {

// ── Decimal ──────────────────────────────────────────────────────────────────

/// The character for a decimal digit.
pub open spec fn digit_char(d: int) -> char {
    (d + 48) as char
}

/// A number in decimal, without leading zeros.
pub open spec fn decimal(n: nat) -> Seq<char>
    decreases n,
{
    if n < 10 {
        seq![digit_char(n as int)]
    } else {
        decimal(n / 10).push(digit_char((n % 10) as int))
    }
}

/// Writes a number in decimal.
pub fn dec(n: u64) -> (r: String)
    ensures
        r@ == decimal(n as nat),
    decreases n,
{
    let d: u8 = (n % 10) as u8;
    let c: char = (d + 48) as char;
    let mut out = if n < 10 {
        String::new()
    } else {
        dec(n / 10)
    };
    out.push(c);
    proof {
        if n < 10 {
            assert(out@ =~= decimal(n as nat));
        }
    }
    out
}

/// Writes a size or a count in decimal.
pub fn dec_usize(n: usize) -> (r: String)
    ensures
        r@ == decimal(n as nat),
{
    dec(n as u64)
}

/// Whether a character is a decimal digit.
pub open spec fn is_digit(c: char) -> bool {
    '0' <= c <= '9'
}

/// Whether every character is a decimal digit.
pub open spec fn all_digits(s: Seq<char>) -> bool {
    forall|i: int| 0 <= i < s.len() ==> is_digit(#[trigger] s[i])
}

/// The number that a sequence of decimal digits writes.
pub open spec fn digits_value(s: Seq<char>) -> nat
    decreases s.len(),
{
    if s.len() == 0 {
        0
    } else {
        digits_value(s.drop_last()) * 10 + ((s.last() as int - '0' as int) as nat)
    }
}

/// A longer run of digits writes a number that is no smaller.
pub proof fn lemma_digits_value_prefix(s: Seq<char>, i: int)
    requires
        0 <= i <= s.len(),
        all_digits(s),
    ensures
        digits_value(s.take(i)) <= digits_value(s),
    decreases s.len(),
{
    if i == s.len() {
        assert(s.take(i) =~= s);
    } else {
        lemma_digits_value_prefix(s.drop_last(), i);
        assert(s.drop_last().take(i) =~= s.take(i));
        assert(is_digit(s[s.len() - 1]));
    }
}

/// Digits written one after the other and read back give the number they came from.
pub proof fn lemma_decimal_reads_back(n: nat)
    ensures
        decimal(n).len() > 0,
        all_digits(decimal(n)),
        digits_value(decimal(n)) == n,
    decreases n,
{
    if n < 10 {
        let s = decimal(n);
        assert(s.drop_last() =~= Seq::<char>::empty());
        assert(digits_value(s.drop_last()) == 0);
    } else {
        lemma_decimal_reads_back(n / 10);
        let s = decimal(n);
        assert(s.drop_last() =~= decimal(n / 10));
    }
}

/// The digits of an unsigned number: what follows its optional plus sign.
pub open spec fn unsigned_body(s: Seq<char>) -> Seq<char> {
    if s.len() > 0 && s[0] == '+' {
        s.skip(1)
    } else {
        s
    }
}

/// The unsigned number no larger than `max` that a text writes: an optional plus
/// sign and one or more decimal digits.
pub open spec fn unsigned_value(s: Seq<char>, max: nat) -> Option<nat> {
    let body = unsigned_body(s);
    if body.len() > 0 && all_digits(body) && digits_value(body) <= max {
        Some(digits_value(body))
    } else {
        None
    }
}

/// Reads an unsigned number no larger than `max`.
pub fn parse_unsigned(s: &str, max: u64) -> (r: Option<u64>)
    ensures
        match r {
            Some(n) => unsigned_value(s@, max as nat) == Some(n as nat),
            None => unsigned_value(s@, max as nat) is None,
        },
{
    let chars = to_chars(s);
    let n: usize = chars.len();
    let start: usize = if n > 0 && chars[0] == '+' {
        1
    } else {
        0
    };
    let ghost body = unsigned_body(s@);
    proof {
        assert(body =~= chars@.skip(start as int));
    }
    if start == n {
        return None;
    }
    let mut value: u64 = 0;
    let mut i: usize = start;
    while i < n
        invariant
            n == chars@.len(),
            start <= i <= n,
            start < n,
            body == chars@.skip(start as int),
            body == unsigned_body(s@),
            value <= max,
            all_digits(body.take(i - start)),
            value == digits_value(body.take(i - start)),
        decreases n - i,
    {
        let c = chars[i];
        let ghost before = body.take(i - start);
        let ghost now = body.take(i + 1 - start);
        proof {
            assert(body[i - start] == c);
            assert(now.drop_last() =~= before);
            assert(now.last() == c);
        }
        if !('0' <= c && c <= '9') {
            return None;
        }
        let d: u64 = (c as u32 - '0' as u32) as u64;
        proof {
            assert forall|k: int| 0 <= k < now.len() implies is_digit(#[trigger] now[k]) by {
                if k < before.len() {
                    assert(now[k] == before[k]);
                }
            }
        }
        if d > max || value > max / 10 || value * 10 > max - d {
            proof {
                assert(digits_value(now) == value * 10 + d);
                assert(digits_value(now) > max);
                if all_digits(body) {
                    lemma_digits_value_prefix(body, i + 1 - start);
                }
            }
            return None;
        }
        value = value * 10 + d;
        i += 1;
    }
    proof {
        assert(body.take(i - start) =~= body);
    }
    Some(value)
}

// ── Hexadecimal ──────────────────────────────────────────────────────────────

/// The lower-case character for a hexadecimal digit.
pub open spec fn hex_char(d: int) -> char {
    if d < 10 {
        (d + 48) as char
    } else {
        (d + 87) as char
    }
}

/// Bytes in hexadecimal, two lower-case digits each.
pub open spec fn hex_of(bytes: Seq<u8>) -> Seq<char> {
    Seq::new(
        2 * bytes.len(),
        |i: int|
            if i % 2 == 0 {
                hex_char(bytes[i / 2] as int / 16)
            } else {
                hex_char(bytes[i / 2] as int % 16)
            },
    )
}

/// The character for a hexadecimal digit.
pub fn hex_digit(d: u8) -> (r: char)
    requires
        d < 16,
    ensures
        r == hex_char(d as int),
{
    if d < 10 {
        (d + 48) as char
    } else {
        (d + 87) as char
    }
}

/// Writes bytes in hexadecimal.
pub fn hex(bytes: &[u8]) -> (r: String)
    ensures
        r@ == hex_of(bytes@),
{
    let mut out = String::new();
    let mut i: usize = 0;
    while i < bytes.len()
        invariant
            i <= bytes@.len(),
            out@ == hex_of(bytes@.take(i as int)),
        decreases bytes@.len() - i,
    {
        let ghost before = out@;
        out.push(hex_digit(bytes[i] / 16));
        out.push(hex_digit(bytes[i] % 16));
        i += 1;
        proof {
            assert(out@ =~= hex_of(bytes@.take(i as int)));
        }
    }
    proof {
        assert(bytes@.take(i as int) =~= bytes@);
    }
    out
}

/// The value of a hexadecimal digit of either case.
pub open spec fn hex_value(c: char) -> Option<int> {
    if '0' <= c <= '9' {
        Some(c as int - '0' as int)
    } else if 'a' <= c <= 'f' {
        Some(c as int - 'a' as int + 10)
    } else if 'A' <= c <= 'F' {
        Some(c as int - 'A' as int + 10)
    } else {
        None
    }
}

/// The value of a hexadecimal digit of either case.
pub fn hex_digit_value(c: char) -> (r: Option<u8>)
    ensures
        match r {
            Some(d) => hex_value(c) == Some(d as int) && d < 16,
            None => hex_value(c) is None,
        },
{
    if '0' <= c && c <= '9' {
        Some((c as u32 - '0' as u32) as u8)
    } else if 'a' <= c && c <= 'f' {
        Some((c as u32 - 'a' as u32 + 10) as u8)
    } else if 'A' <= c && c <= 'F' {
        Some((c as u32 - 'A' as u32 + 10) as u8)
    } else {
        None
    }
}

/// Whether every character is a hexadecimal digit.
pub open spec fn all_hex(s: Seq<char>) -> bool {
    forall|i: int| 0 <= i < s.len() ==> hex_value(#[trigger] s[i]) is Some
}

/// Whether every character of a text is a hexadecimal digit.
pub fn is_hex(s: &str) -> (r: bool)
    ensures
        r == all_hex(s@),
{
    let chars = to_chars(s);
    let mut i: usize = 0;
    while i < chars.len()
        invariant
            chars@ == s@,
            i <= chars@.len(),
            forall|k: int| 0 <= k < i ==> hex_value(#[trigger] s@[k]) is Some,
        decreases chars@.len() - i,
    {
        if hex_digit_value(chars[i]).is_none() {
            proof {
                assert(hex_value(s@[i as int]) is None);
            }
            return false;
        }
        i += 1;
    }
    true
}

// ── Laws ─────────────────────────────────────────────────────────────────────

/// A number in decimal has its lowest digit last, and before it the number without that digit;
/// it starts with a zero only where it is zero. Different numbers are written differently.
pub proof fn law_decimal(n: u64, m: u64, a: String, b: String)
    requires
        call_ensures(dec, (n,), a),
        call_ensures(dec, (m,), b),
    ensures
        a@.len() > 0,
        a@.last() as int - '0' as int == n % 10,
        m == n / 10 && n >= 10 ==> a@ == b@.push(a@.last()),
        n < 10 ==> a@.len() == 1,
        a@[0] == '0' ==> n == 0,
        a@ == b@ ==> n == m,
{
    lemma_decimal_reads_back(n as nat);
    lemma_decimal_reads_back(m as nat);
    lemma_decimal_start(n as nat);
}

/// A number other than zero starts with a digit other than zero.
pub proof fn lemma_decimal_start(n: nat)
    ensures
        decimal(n).len() > 0,
        decimal(n)[0] == '0' ==> n == 0,
    decreases n,
{
    if n >= 10 {
        lemma_decimal_start(n / 10);
    }
}

/// What is written in decimal is read back, where the limit admits it.
pub proof fn law_decimal_reads_back(n: u64, max: u64, s: &str, r: Option<u64>)
    requires
        s@ == decimal(n as nat),
        call_ensures(parse_unsigned, (s, max), r),
    ensures
        r == if n <= max {
            Some(n)
        } else {
            None
        },
{
    lemma_decimal_reads_back(n as nat);
    assert(is_digit(s@[0]));
}

/// A number is read digit by digit: one more digit makes it ten times as large, plus the digit.
pub proof fn law_digits_have_weights(s: Seq<char>, c: char)
    requires
        is_digit(c),
    ensures
        digits_value(s.push(c)) == 10 * digits_value(s) + (c as int - '0' as int),
{
    assert(s.push(c).drop_last() =~= s);
}

/// Bytes in hexadecimal take two digits each, the high one first, none of them a capital; each
/// digit has its value from 0 to 15.
pub proof fn law_hex(bytes: &[u8], r: String, i: int)
    requires
        call_ensures(hex, (bytes,), r),
        0 <= i < bytes@.len(),
    ensures
        r@.len() == 2 * bytes@.len(),
        is_digit(r@[2 * i]) || 'a' <= r@[2 * i] <= 'f',
        is_digit(r@[2 * i + 1]) || 'a' <= r@[2 * i + 1] <= 'f',
        hex_value(r@[2 * i]) is Some && hex_value(r@[2 * i + 1]) is Some,
        16 * hex_value(r@[2 * i])->0 + hex_value(r@[2 * i + 1])->0 == bytes@[i],
        hex_value('0') == Some(0int) && hex_value('9') == Some(9int) && hex_value('a') == Some(10int) && hex_value('f')
            == Some(15int) && hex_value('A') == Some(10int) && hex_value('F') == Some(15int),
{
}

/// Nothing but digits, with or without a plus sign before them, is a number, and no number is larger
/// than what was allowed.
pub proof fn law_only_digits_are_numbers(s: &str, max: u64, r: Option<u64>, i: int)
    requires
        call_ensures(parse_unsigned, (s, max), r),
    ensures
        s@.len() == 0 ==> r is None,
        0 <= i < s@.len() && !is_digit(s@[i]) && (i > 0 || s@[i] != '+' || s@.len() == 1) ==> r is None,
        r matches Some(n) ==> n <= max,
{
    let body = unsigned_body(s@);
    if 0 <= i < s@.len() && !is_digit(s@[i]) && (i > 0 || s@[i] != '+' || s@.len() == 1) {
        if s@[0] == '+' {
            if i > 0 {
                assert(body[i - 1] == s@[i]);
            }
        } else {
            assert(body[i] == s@[i]);
        }
    }
}

/// One more digit at the end makes a number ten times as large, plus the digit, as long as that is
/// allowed; what was no number or too large stays so. A plus sign at the start changes nothing.
pub proof fn law_one_more_digit(s: &str, t: &str, c: char, max: u64, a: Option<u64>, b: Option<u64>)
    requires
        call_ensures(parse_unsigned, (s, max), a),
        call_ensures(parse_unsigned, (t, max), b),
    ensures
        s@.len() > 0 && s@ != seq!['+'] && is_digit(c) && t@ == s@.push(c) ==> {
            let d = c as int - '0' as int;
            &&& a is Some && 10 * a->0 + d <= max ==> b is Some && b->0 == 10 * a->0 + d
            &&& a is Some && 10 * a->0 + d > max ==> b is None
            &&& a is None ==> b is None
        },
        s@.len() == 1 && is_digit(s@[0]) && s@[0] as int - '0' as int <= max ==> a is Some && a->0 == s@[0] as int
            - '0' as int,
        s@.len() > 0 && s@[0] != '+' && t@ == seq!['+'] + s@ ==> b == a,
{
    let x = unsigned_body(s@);
    let y = unsigned_body(t@);
    if s@.len() > 0 && s@ != seq!['+'] && is_digit(c) && t@ == s@.push(c) {
        if s@[0] == '+' {
            assert(s@.len() > 1) by {
                if s@.len() == 1 {
                    assert(s@ =~= seq!['+']);
                }
            }
        }
        assert(y =~= x.push(c));
        assert(y.drop_last() =~= x);
        assert(digits_value(y) == digits_value(x) * 10 + (c as int - '0' as int));
        assert(all_digits(x) ==> all_digits(y));
        assert(all_digits(y) ==> all_digits(x)) by {
            if all_digits(y) {
                assert forall|i: int| 0 <= i < x.len() implies is_digit(#[trigger] x[i]) by {
                    assert(y[i] == x[i]);
                }
            }
        }
    }
    if s@.len() == 1 && is_digit(s@[0]) {
        assert(s@.drop_last() =~= Seq::<char>::empty());
        assert(digits_value(s@.drop_last()) == 0);
        assert(x == s@);
        assert(all_digits(x));
    }
    if s@.len() > 0 && s@[0] != '+' && t@ == seq!['+'] + s@ {
        assert(y =~= s@);
    }
}

/// A digit has its value, whatever its case, and a text is in hexadecimal exactly where each of its
/// characters is a digit or one of the first six letters.
pub proof fn law_hexadecimal_digits(c: char, r: Option<u8>, s: &str, all: bool)
    requires
        call_ensures(hex_digit_value, (c,), r),
        call_ensures(is_hex, (s,), all),
    ensures
        '0' <= c <= '9' ==> r is Some && r->0 == c as int - '0' as int,
        'a' <= c <= 'f' ==> r is Some && r->0 == 10 + (c as int - 'a' as int),
        'A' <= c <= 'F' ==> r is Some && r->0 == 10 + (c as int - 'A' as int),
        r is Some <==> '0' <= c <= '9' || 'a' <= c <= 'f' || 'A' <= c <= 'F',
        all <==> forall|i: int|
            0 <= i < s@.len() ==> '0' <= #[trigger] s@[i] <= '9' || 'a' <= s@[i] <= 'f' || 'A' <= s@[i] <= 'F',
{
    if forall|i: int| 0 <= i < s@.len() ==> '0' <= #[trigger] s@[i] <= '9' || 'a' <= s@[i] <= 'f' || 'A' <= s@[i] <= 'F' {
        assert(all_hex(s@));
    }
}

} // verus!
