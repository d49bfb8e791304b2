//! Decimal and hexadecimal text of numbers, as attribute values carry it.

use vstd::prelude::*;
use vstd::string::{StrSliceExecFns, StringExecFns};
use vstd::arithmetic::div_mod::lemma_breakdown;
use crate::scalar::{Scalar, UNIT};

verus! {

/// The character of a digit below sixteen, upper-case beyond nine.
pub open spec fn digit_char(d: int) -> char {
    if d == 0 { '0' }
    else if d == 1 { '1' }
    else if d == 2 { '2' }
    else if d == 3 { '3' }
    else if d == 4 { '4' }
    else if d == 5 { '5' }
    else if d == 6 { '6' }
    else if d == 7 { '7' }
    else if d == 8 { '8' }
    else if d == 9 { '9' }
    else if d == 10 { 'A' }
    else if d == 11 { 'B' }
    else if d == 12 { 'C' }
    else if d == 13 { 'D' }
    else if d == 14 { 'E' }
    else { 'F' }
}

/// The decimal digits of `n`, without leading zeros.
pub open spec fn decimal(n: nat) -> Seq<char>
    decreases n,
{
    if n < 10 {
        seq![digit_char(n as int)]
    } else {
        decimal(n / 10) + seq![digit_char((n % 10) as int)]
    }
}

/// The last `width` decimal digits of `n`, with leading zeros.
pub open spec fn padded(n: nat, width: nat) -> Seq<char>
    decreases width,
{
    if width == 0 {
        Seq::empty()
    } else {
        padded(n / 10, (width - 1) as nat) + seq![digit_char((n % 10) as int)]
    }
}

/// The last `width` decimal digits of `n` with the trailing zeros dropped.
pub open spec fn fraction(n: nat, width: nat) -> Seq<char>
    decreases width,
{
    if width > 0 && n % 10 == 0 {
        fraction(n / 10, (width - 1) as nat)
    } else {
        padded(n, width)
    }
}

/// The shortest decimal text of a scalar in pixels: `1`, `-2.5`, `0.125`.
pub open spec fn scalar_text(v: int) -> Seq<char> {
    let m = if v < 0 { -v } else { v };
    let sign = if v < 0 { seq!['-'] } else { Seq::empty() };
    let whole = decimal((m / UNIT as int) as nat);
    let part = (m % UNIT as int) as nat;
    if part == 0 {
        sign + whole
    } else {
        sign + whole + seq!['.'] + fraction(part, 6)
    }
}

/// The decimal text of an integer, with a leading `-` when negative.
pub open spec fn integer_text(v: int) -> Seq<char> {
    if v < 0 {
        seq!['-'] + decimal((-v) as nat)
    } else {
        decimal(v as nat)
    }
}

/// Appends the decimal text of `v`.
pub fn push_integer(s: &mut String, v: i64)
    ensures
        final(s)@ == old(s)@ + integer_text(v as int),
{
    if v < 0 {
        proof {
            reveal_strlit("-");
        }
        s.append("-");
        push_decimal(s, (-(v as i128)) as u64);
    } else {
        push_decimal(s, v as u64);
    }
    assert(final(s)@ =~= old(s)@ + integer_text(v as int));
}

/// Two upper-case hexadecimal digits of a byte.
pub open spec fn hex_byte(b: u8) -> Seq<char> {
    seq![digit_char(b as int / 16), digit_char(b as int % 16)]
}

/// A hexadecimal digit in lower case.
pub open spec fn lower_hex_digit(d: int) -> char {
    if d < 10 {
        digit_char(d)
    } else if d == 10 {
        'a'
    } else if d == 11 {
        'b'
    } else if d == 12 {
        'c'
    } else if d == 13 {
        'd'
    } else if d == 14 {
        'e'
    } else {
        'f'
    }
}

/// Two lower-case hexadecimal digits per byte, high half first.
pub open spec fn lower_hex(bytes: Seq<u8>) -> Seq<char>
    decreases bytes.len(),
{
    if bytes.len() == 0 {
        Seq::empty()
    } else {
        lower_hex(bytes.drop_last()) + seq![
            lower_hex_digit(bytes.last() as int / 16),
            lower_hex_digit(bytes.last() as int % 16),
        ]
    }
}

/// A hexadecimal digit of either case.
pub open spec fn is_hex_digit(c: char) -> bool {
    ('0' <= c && c <= '9') || ('a' <= c && c <= 'f') || ('A' <= c && c <= 'F')
}

/// The value of a hexadecimal digit.
pub open spec fn hex_value(c: char) -> int {
    if '0' <= c && c <= '9' {
        c as int - '0' as int
    } else if 'a' <= c && c <= 'f' {
        c as int - 'a' as int + 10
    } else {
        c as int - 'A' as int + 10
    }
}

/// The text is an even number of hexadecimal digits.
pub open spec fn hex_decodable(t: Seq<char>) -> bool {
    t.len() % 2 == 0 && forall|i: int| 0 <= i < t.len() ==> is_hex_digit(#[trigger] t[i])
}

/// The bytes that pairs of hexadecimal digits spell, high half first.
pub open spec fn hex_decoded(t: Seq<char>) -> Seq<u8> {
    Seq::new(
        t.len() / 2,
        |i: int| (16 * hex_value(t[2 * i]) + hex_value(t[2 * i + 1])) as u8,
    )
}

/// Appends the digit `d`.
fn push_digit(s: &mut String, d: u64)
    requires
        d < 16,
    ensures
        final(s)@ == old(s)@ + seq![digit_char(d as int)],
{
    let t = match d {
        0 => "0",
        1 => "1",
        2 => "2",
        3 => "3",
        4 => "4",
        5 => "5",
        6 => "6",
        7 => "7",
        8 => "8",
        9 => "9",
        10 => "A",
        11 => "B",
        12 => "C",
        13 => "D",
        14 => "E",
        _ => "F",
    };
    proof {
        reveal_strlit("0");
        reveal_strlit("1");
        reveal_strlit("2");
        reveal_strlit("3");
        reveal_strlit("4");
        reveal_strlit("5");
        reveal_strlit("6");
        reveal_strlit("7");
        reveal_strlit("8");
        reveal_strlit("9");
        reveal_strlit("A");
        reveal_strlit("B");
        reveal_strlit("C");
        reveal_strlit("D");
        reveal_strlit("E");
        reveal_strlit("F");
    }
    assert(t@ =~= seq![digit_char(d as int)]);
    s.append(t);
}

/// Appends the decimal digits of `n`.
pub fn push_decimal(s: &mut String, n: u64)
    ensures
        final(s)@ == old(s)@ + decimal(n as nat),
    decreases n,
{
    if n >= 10 {
        push_decimal(s, n / 10);
        push_digit(s, n % 10);
        assert(final(s)@ =~= old(s)@ + decimal(n as nat));
    } else {
        push_digit(s, n);
    }
}

/// Appends the last `width` digits of `n`, with leading zeros.
fn push_padded(s: &mut String, n: u64, width: u64)
    ensures
        final(s)@ == old(s)@ + padded(n as nat, width as nat),
    decreases width,
{
    if width > 0 {
        push_padded(s, n / 10, width - 1);
        push_digit(s, n % 10);
        assert(final(s)@ =~= old(s)@ + padded(n as nat, width as nat));
    } else {
        assert(final(s)@ =~= old(s)@ + padded(n as nat, width as nat));
    }
}

/// Appends the last `width` digits of `n`, trailing zeros dropped.
fn push_fraction(s: &mut String, n: u64, width: u64)
    ensures
        final(s)@ == old(s)@ + fraction(n as nat, width as nat),
    decreases width,
{
    if width > 0 && n % 10 == 0 {
        push_fraction(s, n / 10, width - 1);
    } else {
        push_padded(s, n, width);
    }
}

/// The decimal text of `v` pixels (see [`scalar_text`]).
pub fn scalar_to_text(v: Scalar) -> (r: String)
    ensures
        r@ == scalar_text(v as int),
{
    let mut s = String::new();
    let m: u64 = if v < 0 {
        proof {
            reveal_strlit("-");
        }
        s.append("-");
        (-(v as i128)) as u64
    } else {
        v as u64
    };
    let ghost sign = s@;
    push_decimal(&mut s, m / (UNIT as u64));
    let part = m % (UNIT as u64);
    if part != 0 {
        proof {
            reveal_strlit(".");
        }
        s.append(".");
        push_fraction(&mut s, part, 6);
    }
    assert(s@ =~= scalar_text(v as int));
    s
}

/// Appends the two upper-case hexadecimal digits of `b`.
pub fn push_hex_byte(s: &mut String, b: u8)
    ensures
        final(s)@ == old(s)@ + hex_byte(b),
{
    push_digit(s, (b / 16) as u64);
    push_digit(s, (b % 16) as u64);
    assert(final(s)@ =~= old(s)@ + hex_byte(b));
}

/// A decimal digit.
pub open spec fn is_digit(c: char) -> bool {
    '0' <= c && c <= '9'
}

pub open spec fn all_digits(s: Seq<char>) -> bool {
    forall|i: int| 0 <= i < s.len() ==> is_digit(#[trigger] s[i])
}

/// The number that a sequence of decimal digits spells.
pub open spec fn digits_value(s: Seq<char>) -> int
    decreases s.len(),
{
    if s.len() == 0 {
        0
    } else {
        digits_value(s.drop_last()) * 10 + (s.last() as int - '0' as int)
    }
}

pub open spec fn pow10(k: nat) -> int
    decreases k,
{
    if k == 0 {
        1
    } else {
        10 * pow10((k - 1) as nat)
    }
}

/// `b` is digits, a point at `k`, and digits.
pub open spec fn splits_at(b: Seq<char>, k: int) -> bool {
    &&& 0 <= k < b.len()
    &&& b[k] == '.'
    &&& all_digits(b.take(k))
    &&& all_digits(b.skip(k + 1))
}

/// The value in millionths of unsigned decimal text: digits, or digits, a
/// point and digits with at least one digit in all. Fraction digits past
/// the sixth are dropped.
pub open spec fn unsigned_value(b: Seq<char>) -> Option<int> {
    if b.len() > 0 && all_digits(b) {
        Some(digits_value(b) * UNIT)
    } else if b.len() > 1 && exists|k: int| splits_at(b, k) {
        let k = choose|k: int| splits_at(b, k);
        let f = b.skip(k + 1);
        let f6 = if f.len() > 6 { f.take(6) } else { f };
        Some(digits_value(b.take(k)) * UNIT + digits_value(f6) * pow10((6 - f6.len()) as nat))
    } else {
        None
    }
}

/// The scalar that decimal text in pixels spells: an optional `-`, then
/// unsigned decimal text (see [`unsigned_value`]); `None` for any other text
/// and for values outside `i64`.
pub open spec fn parse_number(t: Seq<char>) -> Option<i64> {
    let neg = t.len() > 0 && t[0] == '-';
    match unsigned_value(if neg { t.skip(1) } else { t }) {
        Some(m) => {
            let v = if neg { -m } else { m };
            if i64::MIN <= v <= i64::MAX { Some(v as i64) } else { None }
        },
        None => None,
    }
}

proof fn lemma_split_unique(b: Seq<char>, k: int, j: int)
    requires
        splits_at(b, k),
        splits_at(b, j),
    ensures
        j == k,
{
    if j < k {
        assert(b.take(k)[j] == b[j]);
    } else if j > k {
        assert(b.skip(k + 1)[j - k - 1] == b[j]);
    }
}

/// Two characters that are not digits, or one that is neither a digit nor
/// a point, leave no reading.
proof fn lemma_no_reading(b: Seq<char>, i: int, j: int)
    requires
        0 <= i < b.len(),
        0 <= j < b.len(),
        !is_digit(b[i]),
        !is_digit(b[j]),
        i != j || b[i] != '.',
    ensures
        unsigned_value(b) is None,
{
    assert(!all_digits(b));
    assert forall|k: int| !splits_at(b, k) by {
        if splits_at(b, k) {
            let m = if i != k { i } else { j };
            assert(m != k);
            if m < k {
                assert(b.take(k)[m] == b[m]);
            } else {
                assert(b.skip(k + 1)[m - k - 1] == b[m]);
            }
        }
    }
}

proof fn lemma_digits_value_nonneg(s: Seq<char>)
    requires
        all_digits(s),
    ensures
        digits_value(s) >= 0,
    decreases s.len(),
{
    if s.len() > 0 {
        assert(all_digits(s.drop_last())) by {
            assert forall|i: int| 0 <= i < s.len() - 1 implies is_digit(#[trigger] s.drop_last()[i]) by {
                assert(s.drop_last()[i] == s[i]);
            }
        }
        lemma_digits_value_nonneg(s.drop_last());
        assert(is_digit(s[s.len() - 1]));
    }
}

proof fn lemma_pow10_positive(k: nat)
    ensures
        pow10(k) >= 1,
    decreases k,
{
    if k > 0 {
        lemma_pow10_positive((k - 1) as nat);
    }
}

proof fn lemma_pow10_add(a: nat, b: nat)
    ensures
        pow10(a) * pow10(b) == pow10(a + b),
    decreases a,
{
    if a > 0 {
        lemma_pow10_add((a - 1) as nat, b);
        assert(pow10(a) * pow10(b) == 10 * (pow10((a - 1) as nat) * pow10(b))) by (nonlinear_arith)
            requires
                pow10(a) == 10 * pow10((a - 1) as nat),
        ;
        assert(pow10(a + b) == 10 * pow10((a + b - 1) as nat));
    }
}

proof fn lemma_digit_char(d: int)
    requires
        0 <= d < 10,
    ensures
        is_digit(digit_char(d)),
        digit_char(d) as int - '0' as int == d,
{
}

proof fn lemma_push_digit(p: Seq<char>, d: int)
    requires
        all_digits(p),
        0 <= d < 10,
    ensures
        all_digits(p + seq![digit_char(d)]),
        digits_value(p + seq![digit_char(d)]) == digits_value(p) * 10 + d,
{
    lemma_digit_char(d);
    let q = p + seq![digit_char(d)];
    assert(q.drop_last() =~= p);
    assert forall|i: int| 0 <= i < q.len() implies is_digit(#[trigger] q[i]) by {
        if i < p.len() {
            assert(q[i] == p[i]);
        }
    }
}

proof fn lemma_decimal(n: nat)
    ensures
        all_digits(decimal(n)),
        decimal(n).len() >= 1,
        digits_value(decimal(n)) == n,
    decreases n,
{
    if n < 10 {
        lemma_push_digit(Seq::empty(), n as int);
        assert(Seq::<char>::empty() + seq![digit_char(n as int)] =~= decimal(n));
    } else {
        lemma_decimal(n / 10);
        lemma_push_digit(decimal(n / 10), (n % 10) as int);
    }
}

proof fn lemma_padded(n: nat, w: nat)
    ensures
        all_digits(padded(n, w)),
        padded(n, w).len() == w,
        digits_value(padded(n, w)) == (n as int) % pow10(w),
    decreases w,
{
    if w == 0 {
        assert(all_digits(padded(n, w)));
    } else {
        lemma_padded(n / 10, (w - 1) as nat);
        lemma_push_digit(padded(n / 10, (w - 1) as nat), (n % 10) as int);
        lemma_pow10_positive((w - 1) as nat);
        lemma_breakdown(n as int, 10, pow10((w - 1) as nat));
    }
}

proof fn lemma_fraction(n: nat, w: nat)
    ensures
        all_digits(fraction(n, w)),
        fraction(n, w).len() <= w,
        digits_value(fraction(n, w)) * pow10((w - fraction(n, w).len()) as nat) == (n as int) % pow10(w),
    decreases w,
{
    if w > 0 && n % 10 == 0 {
        let w1 = (w - 1) as nat;
        lemma_fraction(n / 10, w1);
        let f = fraction(n / 10, w1);
        lemma_pow10_positive(w1);
        lemma_breakdown(n as int, 10, pow10(w1));
        assert(pow10((w - f.len()) as nat) == 10 * pow10((w1 - f.len()) as nat));
        assert(digits_value(f) * pow10((w - f.len()) as nat) == 10 * (digits_value(f) * pow10(
            (w1 - f.len()) as nat,
        ))) by (nonlinear_arith)
            requires
                pow10((w - f.len()) as nat) == 10 * pow10((w1 - f.len()) as nat),
        ;
    } else {
        lemma_padded(n, w);
    }
}

proof fn lemma_pow10_six()
    ensures
        pow10(6) == 1_000_000,
{
    reveal_with_fuel(pow10, 7);
}

/// The unsigned text of `m` millionths, as `scalar_text` writes it.
pub open spec fn unsigned_text(m: nat) -> Seq<char> {
    let whole = decimal(m / UNIT as nat);
    let part = m % UNIT as nat;
    if part == 0 {
        whole
    } else {
        whole + seq!['.'] + fraction(part, 6)
    }
}

proof fn lemma_unsigned_text(m: nat)
    ensures
        unsigned_value(unsigned_text(m)) == Some(m as int),
        unsigned_text(m).len() >= 1,
        is_digit(unsigned_text(m)[0]),
{
    let wh = m / UNIT as nat;
    let part = m % UNIT as nat;
    let whole = decimal(wh);
    let body = unsigned_text(m);
    lemma_decimal(wh);
    lemma_pow10_six();
    vstd::arithmetic::div_mod::lemma_fundamental_div_mod(m as int, UNIT as int);
    assert(m == wh * UNIT + part);
    if part == 0 {
        assert(unsigned_value(body) == Some(m as int));
    } else {
        lemma_fraction(part, 6);
        let f = fraction(part, 6);
        let k = whole.len() as int;
        assert(body.take(k) =~= whole);
        assert(body.skip(k + 1) =~= f);
        assert(body[k] == '.');
        assert(splits_at(body, k));
        assert(!all_digits(body)) by {
            assert(!is_digit(body[k]));
        }
        let kc = choose|kk: int| splits_at(body, kk);
        lemma_split_unique(body, k, kc);
        vstd::arithmetic::div_mod::lemma_small_mod(part, 1_000_000);
        assert(f.len() > 0) by {
            if f.len() == 0 {
                assert(digits_value(f) == 0);
                assert(digits_value(f) * pow10((6 - f.len()) as nat) == 0);
            }
        }
        assert(f.len() <= 6);
        assert(unsigned_value(body) == Some(m as int));
    }
    assert(body[0] == whole[0]);
}

/// Reading the text of a scalar gives the scalar back.
pub proof fn lemma_parse_scalar_text(v: i64)
    ensures
        parse_number(scalar_text(v as int)) == Some(v),
{
    let m: nat = (if v < 0 { -v } else { v as int }) as nat;
    lemma_unsigned_text(m);
    let body = unsigned_text(m);
    if v < 0 {
        let t = seq!['-'] + body;
        assert(t.skip(1) =~= body);
        assert(scalar_text(v as int) =~= t);
    } else {
        assert(scalar_text(v as int) =~= body);
    }
}

/// Fraction digits of a number are capped at six; whole digits at this.
pub const WHOLE_CAP: u64 = 10_000_000_000_000;

/// The scalar that decimal text in pixels spells (see [`parse_number`]).
#[verifier::rlimit(100)]
#[verifier::spinoff_prover]
pub fn parse_scalar(t: &str) -> (r: Option<Scalar>)
    ensures
        r == parse_number(t@),
{
    let n = t.unicode_len();
    let ghost tt = t@;
    let start: usize = if n > 0 && t.get_char(0) == '-' { 1 } else { 0 };
    let ghost b = if start == 1 { tt.skip(1) } else { tt };
    assert(b =~= tt.skip(start as int));
    let mut k = start;
    while k < n && t.get_char(k) != '.'
        invariant
            n == tt.len(),
            tt == t@,
            b == tt.skip(start as int),
                b == (if start == 1 { tt.skip(1) } else { tt }),
            start <= 1,
            start == 1 <==> (tt.len() > 0 && tt[0] == '-'),
            start <= k <= n,
            forall|j: int| start <= j < k ==> tt[j] != '.',
        decreases n - k,
    {
        k = k + 1;
    }
    let mut whole: u64 = 0;
    let mut j = start;
    while j < k
        invariant
            n == tt.len(),
            tt == t@,
            b == tt.skip(start as int),
                b == (if start == 1 { tt.skip(1) } else { tt }),
            start <= 1,
            start == 1 <==> (tt.len() > 0 && tt[0] == '-'),
            start <= j <= k <= n,
            forall|i: int| start <= i < k ==> tt[i] != '.',
            all_digits(tt.subrange(start as int, j as int)),
            whole == (if digits_value(tt.subrange(start as int, j as int)) < WHOLE_CAP {
                digits_value(tt.subrange(start as int, j as int))
            } else {
                WHOLE_CAP as int
            }),
            digits_value(tt.subrange(start as int, j as int)) >= 0,
        decreases k - j,
    {
        let c = t.get_char(j);
        if !('0' <= c && c <= '9') {
            proof {
                assert(b[j - start] == tt[j as int]);
                lemma_no_reading(b, j - start, j - start);
            }
            return None;
        }
        let d = (c as u32 - '0' as u32) as u64;
        let ghost prev = tt.subrange(start as int, j as int);
        assert(tt.subrange(start as int, j + 1).drop_last() =~= prev);
        let w = whole * 10 + d;
        whole = if w > WHOLE_CAP { WHOLE_CAP } else { w };
        j = j + 1;
        assert(all_digits(tt.subrange(start as int, j as int))) by {
            assert forall|i: int| 0 <= i < j - start implies is_digit(
                #[trigger] tt.subrange(start as int, j as int)[i],
            ) by {
                if i < j - 1 - start {
                    assert(tt.subrange(start as int, j as int)[i] == prev[i]);
                }
            }
        }
    }
    let ghost w_digits = tt.subrange(start as int, k as int);
    assert(w_digits =~= b.take(k - start));
    let mut frac: u64 = 0;
    let mut count: usize = 0;
    if k < n {
        let mut j = k + 1;
        while j < n
            invariant
                n == tt.len(),
                tt == t@,
                b == tt.skip(start as int),
                b == (if start == 1 { tt.skip(1) } else { tt }),
                start <= k,
                start <= 1,
                start == 1 <==> (tt.len() > 0 && tt[0] == '-'),
                k < j <= n,
                tt[k as int] == '.',
                all_digits(tt.subrange(k + 1, j as int)),
                count == (if j - k - 1 < 6 { j - k - 1 } else { 6 }),
                frac == digits_value(tt.subrange(k + 1, k + 1 + count)),
                frac < pow10(count as nat),
            decreases n - j,
        {
            let c = t.get_char(j);
            if !('0' <= c && c <= '9') {
                proof {
                    assert(b[j - start] == tt[j as int]);
                    assert(b[k - start] == tt[k as int]);
                    lemma_no_reading(b, j - start, k - start);
                }
                return None;
            }
            let ghost prev = tt.subrange(k + 1, j as int);
            if count < 6 {
                assert(tt.subrange(k + 1, k + 2 + count).drop_last() =~= tt.subrange(
                    k + 1,
                    k + 1 + count,
                ));
                assert(pow10((count + 1) as nat) == 10 * pow10(count as nat));
                assert(frac * 10 + 9 < 10 * pow10(count as nat)) by (nonlinear_arith)
                    requires
                        frac < pow10(count as nat),
                ;
                assert(pow10(count as nat) <= 1_000_000) by {
                    reveal_with_fuel(pow10, 7);
                }
                frac = frac * 10 + (c as u32 - '0' as u32) as u64;
                count = count + 1;
            }
            j = j + 1;
            assert(all_digits(tt.subrange(k + 1, j as int))) by {
                assert forall|i: int| 0 <= i < j - k - 1 implies is_digit(
                    #[trigger] tt.subrange(k + 1, j as int)[i],
                ) by {
                    if i < j - k - 2 {
                        assert(tt.subrange(k + 1, j as int)[i] == prev[i]);
                    }
                }
            }
        }
        if n - start < 2 {
            assert(b.len() == n - start);
            assert(k == start);
            assert(!all_digits(b)) by {
                assert(b[0] == tt[k as int]);
                assert(!is_digit(b[0]));
            }
            assert(unsigned_value(b) is None);
            return None;
        }
        proof {
            let ks = k - start;
            assert(b.skip(ks + 1) =~= tt.subrange(k + 1, n as int));
            assert(splits_at(b, ks));
            let kc = choose|kk: int| splits_at(b, kk);
            lemma_split_unique(b, ks, kc);
            assert(!all_digits(b)) by {
                assert(b[ks] == '.');
            }
            let f = b.skip(ks + 1);
            if f.len() > 6 {
                assert(f.take(6) =~= tt.subrange(k + 1, k + 1 + count));
            } else {
                assert(f =~= tt.subrange(k + 1, k + 1 + count));
            }
        }
    } else {
        if n == start {
            return None;
        }
        assert(all_digits(b));
        proof {
            reveal_with_fuel(pow10, 7);
        }
    }
    if whole >= WHOLE_CAP {
        proof {
            let m = unsigned_value(b)->0;
            assert(digits_value(b.take(k - start)) >= WHOLE_CAP);
            if k < n {
                let kc = choose|kk: int| splits_at(b, kk);
                let f = b.skip(kc + 1);
                let f6 = if f.len() > 6 { f.take(6) } else { f };
                lemma_digits_value_nonneg(f6);
                lemma_pow10_positive((6 - f6.len()) as nat);
                assert(digits_value(f6) * pow10((6 - f6.len()) as nat) >= 0) by (nonlinear_arith)
                    requires
                        digits_value(f6) >= 0,
                        pow10((6 - f6.len()) as nat) >= 1,
                ;
            } else {
                assert(b.take(k - start) =~= b);
            }
            assert(m >= WHOLE_CAP * UNIT);
        }
        return None;
    }
    let scale: u64 = if count == 0 {
        1_000_000
    } else if count == 1 {
        100_000
    } else if count == 2 {
        10_000
    } else if count == 3 {
        1_000
    } else if count == 4 {
        100
    } else if count == 5 {
        10
    } else {
        1
    };
    proof {
        reveal_with_fuel(pow10, 7);
        lemma_pow10_add(count as nat, (6 - count) as nat);
    }
    assert(frac * scale <= 1_000_000) by (nonlinear_arith)
        requires
            frac < pow10(count as nat),
            scale == pow10((6 - count) as nat),
            pow10(count as nat) * pow10((6 - count) as nat) == 1_000_000,
            count <= 6,
    ;
    let m: i128 = (whole as i128) * 1_000_000 + (frac * scale) as i128;
    let v: i128 = if start == 1 { -m } else { m };
    if v < i64::MIN as i128 || v > i64::MAX as i128 {
        None
    } else {
        Some(v as i64)
    }
}

} // verus!
