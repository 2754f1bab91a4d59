//! Text helpers: decimal numbers, padding, SOL amounts, truncation.
use vstd::prelude::*;
use vstd::string::*;
use vstd::utf8::*;

verus! {

pub open spec fn digit_char(d: int) -> char {
    if d == 0 {
        '0'
    } else if d == 1 {
        '1'
    } else if d == 2 {
        '2'
    } else if d == 3 {
        '3'
    } else if d == 4 {
        '4'
    } else if d == 5 {
        '5'
    } else if d == 6 {
        '6'
    } else if d == 7 {
        '7'
    } else if d == 8 {
        '8'
    } else {
        '9'
    }
}

/// The decimal digits of a natural number, without leading zeros.
pub open spec fn decimal(n: nat) -> Seq<char>
    decreases n,
{
    if n < 10 {
        seq![digit_char(n as int)]
    } else {
        decimal(n / 10) + seq![digit_char((n % 10) as int)]
    }
}

/// Whether `c` is one of the ten decimal digits.
pub open spec fn is_digit(c: char) -> bool {
    '0' <= c && c <= '9'
}

/// The number that a run of decimal digits stands for, most significant first.
pub open spec fn digits_value(s: Seq<char>) -> int
    decreases s.len(),
{
    if s.len() == 0 {
        0
    } else {
        digits_value(s.drop_last()) * 10 + (s.last() as int - '0' as int)
    }
}

proof fn lemma_digit_char_value(d: int)
    requires
        0 <= d < 10,
    ensures
        digit_char(d) as int == '0' as int + d,
        is_digit(digit_char(d)),
{
    assert('0' as int == 48 && '1' as int == 49 && '2' as int == 50 && '3' as int == 51);
    assert('4' as int == 52 && '5' as int == 53 && '6' as int == 54 && '7' as int == 55);
    assert('8' as int == 56 && '9' as int == 57);
}

/// `decimal(n)` is a non-empty run of decimal digits without a leading zero
/// (but for zero itself) that reads back as `n`.
pub proof fn law_decimal_reads_back(n: nat)
    ensures
        digits_value(decimal(n)) == n,
        decimal(n).len() >= 1,
        forall|k: int| 0 <= k < decimal(n).len() ==> is_digit(#[trigger] decimal(n)[k]),
        n > 0 ==> decimal(n)[0] != '0',
    decreases n,
{
    lemma_digit_char_value((n % 10) as int);
    if n < 10 {
        let d = decimal(n);
        assert(d.drop_last() =~= Seq::<char>::empty());
        assert(n % 10 == n);
        assert(d.last() == digit_char(n as int));
        assert(digits_value(d) == digits_value(d.drop_last()) * 10 + (d.last() as int - '0' as int));
    } else {
        law_decimal_reads_back(n / 10);
        let d = decimal(n);
        let prefix = decimal(n / 10);
        assert(d.drop_last() =~= prefix);
        assert((n / 10) * 10 + n % 10 == n);
        assert(d.last() == digit_char((n % 10) as int));
        assert(digits_value(d) == digits_value(d.drop_last()) * 10 + (d.last() as int - '0' as int));
        assert(d[0] == prefix[0]);
        assert forall|k: int| 0 <= k < d.len() implies is_digit(#[trigger] d[k]) by {
            if k < prefix.len() {
                assert(d[k] == prefix[k]);
            }
        }
    }
}

/// `s` right-aligned in a field of `width` characters, filled with `fill`.
pub open spec fn pad_left(s: Seq<char>, width: nat, fill: char) -> Seq<char> {
    if s.len() < width {
        Seq::new((width - s.len()) as nat, |i: int| fill) + s
    } else {
        s
    }
}

/// `s` without its trailing `'0'` characters.
pub open spec fn trim_trailing_zeros(s: Seq<char>) -> Seq<char>
    decreases s.len(),
{
    if s.len() > 0 && s.last() == '0' {
        trim_trailing_zeros(s.drop_last())
    } else {
        s
    }
}

/// Lamports per SOL.
pub const LAMPORTS_PER_SOL: u64 = 1_000_000_000;

/// A lamport amount written in SOL: whole SOL, then, when there is a
/// fraction, a point and the nine fractional digits without trailing zeros.
pub open spec fn sol_compact(lamports: nat) -> Seq<char> {
    let whole = lamports / (LAMPORTS_PER_SOL as nat);
    let frac = lamports % (LAMPORTS_PER_SOL as nat);
    if frac == 0 {
        decimal(whole)
    } else {
        decimal(whole) + seq!['.'] + trim_trailing_zeros(pad_left(decimal(frac), 9, '0'))
    }
}

/// A SOL amount reads back as the lamports it was written from: the whole
/// SOL in decimal, then, when there is a fraction, a point and one to nine
/// digits, the last of them not a zero, that give the fraction in units of
/// `10^-(their number)` SOL.
pub proof fn law_sol_compact_reads_back(lamports: nat)
    ensures
        ({
            let whole = lamports / 1_000_000_000;
            let frac = lamports % 1_000_000_000;
            let w = decimal(whole);
            let text = sol_compact(lamports);
            let t = text.skip((w.len() + 1) as int);
            &&& digits_value(w) == whole
            &&& frac == 0 ==> text == w
            &&& frac != 0 ==> {
                &&& text == w + seq!['.'] + t
                &&& 1 <= t.len() <= 9
                &&& t.last() != '0'
                &&& forall|k: int| 0 <= k < t.len() ==> is_digit(#[trigger] t[k])
                &&& digits_value(t) * pow10((9 - t.len()) as nat) == frac
            }
        }),
{
    let whole = lamports / 1_000_000_000;
    let frac = lamports % 1_000_000_000;
    let w = decimal(whole);
    law_decimal_reads_back(whole);
    if frac != 0 {
        law_decimal_reads_back(frac);
        lemma_decimal_small_len(frac);
        let d = decimal(frac);
        let p = pad_left(d, 9, '0');
        let z = Seq::new((9 - d.len()) as nat, |i: int| '0');
        assert(p == z + d);
        lemma_leading_zeros_value(z, d);
        assert forall|k: int| 0 <= k < p.len() implies is_digit(#[trigger] p[k]) by {
            if k >= z.len() {
                assert(p[k] == d[k - z.len()]);
            }
        }
        lemma_trim_value(p);
        let t = trim_trailing_zeros(p);
        let text = sol_compact(lamports);
        assert(text == w + seq!['.'] + t);
        assert(text.skip((w.len() + 1) as int) =~= t);
        if t.len() == 0 {
            assert(digits_value(t) == 0);
            assert(digits_value(t) * pow10((9 - t.len()) as nat) == 0);
        }
        assert forall|k: int| 0 <= k < t.len() implies is_digit(#[trigger] t[k]) by {
            assert(t[k] == p[k]);
        }
    }
}

/// Zeros in front of digits do not change what they stand for.
proof fn lemma_leading_zeros_value(z: Seq<char>, s: Seq<char>)
    requires
        forall|k: int| 0 <= k < z.len() ==> #[trigger] z[k] == '0',
    ensures
        digits_value(z + s) == digits_value(s),
    decreases s.len(),
{
    if s.len() == 0 {
        assert(z + s =~= z);
        lemma_zeros_value(z);
    } else {
        lemma_leading_zeros_value(z, s.drop_last());
        assert((z + s).drop_last() =~= z + s.drop_last());
        assert((z + s).last() == s.last());
    }
}

proof fn lemma_zeros_value(z: Seq<char>)
    requires
        forall|k: int| 0 <= k < z.len() ==> #[trigger] z[k] == '0',
    ensures
        digits_value(z) == 0,
    decreases z.len(),
{
    if z.len() > 0 {
        lemma_zeros_value(z.drop_last());
        assert(z.last() == z[z.len() - 1]);
    }
}

/// Trimming `k` trailing zeros divides what the digits stand for by `10^k`;
/// what is left is the front of the digits, and ends in a non-zero digit
/// unless nothing is left.
proof fn lemma_trim_value(s: Seq<char>)
    ensures
        ({
            let t = trim_trailing_zeros(s);
            &&& t.len() <= s.len()
            &&& t == s.take(t.len() as int)
            &&& t.len() > 0 ==> t.last() != '0'
            &&& digits_value(t) * pow10((s.len() - t.len()) as nat) == digits_value(s)
        }),
    decreases s.len(),
{
    let t = trim_trailing_zeros(s);
    if s.len() > 0 && s.last() == '0' {
        let s1 = s.drop_last();
        lemma_trim_value(s1);
        assert(t == trim_trailing_zeros(s1));
        let a = digits_value(t);
        let e = (s1.len() - t.len()) as nat;
        assert(pow10((s.len() - t.len()) as nat) == 10 * pow10(e));
        assert(digits_value(s) == digits_value(s1) * 10);
        assert(a * (10 * pow10(e)) == (a * pow10(e)) * 10) by (nonlinear_arith);
        assert(digits_value(t) * pow10((s.len() - t.len()) as nat) == digits_value(s));
        assert(s1.take(t.len() as int) =~= s.take(t.len() as int));
        assert(t == s.take(t.len() as int));
    } else {
        assert(t == s);
        assert(s.take(s.len() as int) =~= s);
        assert(pow10(0) == 1);
        assert(digits_value(t) * pow10(0) == digits_value(t));
    }
}

fn digit_str(d: u64) -> (r: &'static str)
    requires
        d < 10,
    ensures
        r@ == seq![digit_char(d as int)],
{
    proof {
        reveal_strlit("0");
        reveal_strlit("1");
        reveal_strlit("2");
        reveal_strlit("3");
        reveal_strlit("4");
        reveal_strlit("5");
        reveal_strlit("6");
        reveal_strlit("7");
        reveal_strlit("8");
        reveal_strlit("9");
    }
    let r = if d == 0 {
        "0"
    } else if d == 1 {
        "1"
    } else if d == 2 {
        "2"
    } else if d == 3 {
        "3"
    } else if d == 4 {
        "4"
    } else if d == 5 {
        "5"
    } else if d == 6 {
        "6"
    } else if d == 7 {
        "7"
    } else if d == 8 {
        "8"
    } else {
        "9"
    };
    assert(r@ =~= seq![digit_char(d as int)]);
    r
}

/// Appends the decimal digits of `n`.
pub fn push_decimal(out: &mut String, n: u64)
    ensures
        final(out)@ == old(out)@ + decimal(n as nat),
    decreases n,
{
    if n >= 10 {
        push_decimal(out, n / 10);
    }
    out.append(digit_str(n % 10));
    assert(out@ =~= old(out)@ + decimal(n as nat));
}

/// The decimal digits of `n`.
pub fn decimal_string(n: u64) -> (r: String)
    ensures
        r@ == decimal(n as nat),
{
    let mut s = String::new();
    push_decimal(&mut s, n);
    assert(s@ =~= decimal(n as nat));
    s
}

/// Appends `count` copies of the one-character string `fill`.
pub fn push_repeated(out: &mut String, fill: &str, count: usize)
    requires
        fill@.len() == 1,
    ensures
        final(out)@ == old(out)@ + Seq::new(count as nat, |i: int| fill@[0]),
{
    let mut i: usize = 0;
    while i < count
        invariant
            i <= count,
            fill@.len() == 1,
            out@ == old(out)@ + Seq::new(i as nat, |j: int| fill@[0]),
        decreases count - i,
    {
        out.append(fill);
        assert(Seq::new((i + 1) as nat, |j: int| fill@[0]) =~= Seq::new(i as nat, |j: int| fill@[0])
            + fill@);
        i = i + 1;
    }
}

/// `s` right-aligned in `width` characters, filled with the character of `fill`.
pub fn pad_left_string(s: &str, width: usize, fill: &str) -> (r: String)
    requires
        fill@.len() == 1,
    ensures
        r@ == pad_left(s@, width as nat, fill@[0]),
{
    let n = s.unicode_len();
    let mut out = String::new();
    if n < width {
        push_repeated(&mut out, fill, width - n);
    }
    out.append(s);
    assert(out@ =~= pad_left(s@, width as nat, fill@[0]));
    out
}

proof fn lemma_decimal_times_ten(n: nat)
    requires
        n > 0,
    ensures
        decimal(n * 10) == decimal(n) + seq!['0'],
{
    assert((n * 10) / 10 == n);
    assert((n * 10) % 10 == 0);
    assert(n * 10 >= 10);
}

proof fn lemma_decimal_nonzero_last(n: nat)
    requires
        n % 10 != 0,
    ensures
        decimal(n).len() > 0,
        decimal(n).last() != '0',
{
}

proof fn lemma_decimal_len(n: nat)
    ensures
        decimal(n).len() >= 1,
    decreases n,
{
    if n >= 10 {
        lemma_decimal_len(n / 10);
    }
}

/// Appending zeros and then trimming them gives the part before them back.
proof fn lemma_trim_appended_zeros(s: Seq<char>, k: nat)
    requires
        s.len() > 0,
        s.last() != '0',
    ensures
        trim_trailing_zeros(s + Seq::new(k, |i: int| '0')) == s,
    decreases k,
{
    let z = Seq::new(k, |i: int| '0');
    if k == 0 {
        assert(s + z =~= s);
    } else {
        let t = s + z;
        assert(t.last() == '0');
        assert(t.drop_last() =~= s + Seq::new((k - 1) as nat, |i: int| '0'));
        lemma_trim_appended_zeros(s, (k - 1) as nat);
    }
}

/// Writes a lamport amount in SOL: e.g. 10_000_000 lamports is `0.01`.
pub fn format_sol_compact(lamports: u64) -> (r: String)
    ensures
        r@ == sol_compact(lamports as nat),
{
    let whole = lamports / LAMPORTS_PER_SOL;
    let frac = lamports % LAMPORTS_PER_SOL;
    let mut out = decimal_string(whole);
    if frac == 0 {
        return out;
    }
    // Strip the fraction's trailing zeros arithmetically: frac == f * 10^k.
    let mut f = frac;
    let mut k: usize = 0;
    let ghost mut zeros: Seq<char> = Seq::empty();
    while f % 10 == 0
        invariant
            0 < f <= frac,
            frac < LAMPORTS_PER_SOL,
            k <= 9,
            zeros == Seq::new(k as nat, |i: int| '0'),
            decimal(frac as nat) == decimal(f as nat) + zeros,
            decimal(frac as nat).len() == decimal(f as nat).len() + k,
        decreases f,
    {
        proof {
            lemma_decimal_times_ten((f / 10) as nat);
            assert((f / 10) * 10 == f);
            let nz = Seq::new((k + 1) as nat, |i: int| '0');
            assert(decimal(f as nat) == decimal((f / 10) as nat) + seq!['0']);
            assert(decimal((f / 10) as nat) + seq!['0'] + zeros =~= decimal((f / 10) as nat) + nz);
            lemma_decimal_len(frac as nat);
            assert(decimal(frac as nat).len() <= 9) by {
                lemma_decimal_small_len(frac as nat);
            }
            lemma_decimal_len((f / 10) as nat);
            zeros = nz;
        }
        f = f / 10;
        k = k + 1;
    }
    proof {
        lemma_decimal_small_len(frac as nat);
        lemma_decimal_nonzero_last(f as nat);
    }
    let digits = decimal_string(f);
    proof {
        reveal_strlit("0");
    }
    // The nine-digit fraction is `pad(digits) + zeros`; trimming drops the zeros.
    let padded = pad_left_string(digits.as_str(), 9 - k, "0");
    proof {
        reveal_strlit("0");
        reveal_strlit(".");
        let full = pad_left(decimal(frac as nat), 9, '0');
        let dlen = decimal(f as nat).len();
        assert(full =~= pad_left(decimal(f as nat), (9 - k) as nat, '0') + zeros);
        assert(padded@.len() > 0);
        assert(padded@.last() == decimal(f as nat).last());
        lemma_trim_appended_zeros(padded@, k as nat);
    }
    out.append(".");
    out.append(padded.as_str());
    out
}

proof fn lemma_decimal_small_len(n: nat)
    requires
        n < 1_000_000_000,
    ensures
        decimal(n).len() <= 9,
{
    reveal_with_fuel(pow10, 10);
    assert(pow10(9) == 1_000_000_000);
    lemma_decimal_small_len_rec(n, 9);
}

proof fn lemma_decimal_small_len_rec(n: nat, d: nat)
    requires
        n < pow10(d),
    ensures
        decimal(n).len() <= if d == 0 { 1 } else { d },
    decreases d,
{
    if n >= 10 {
        assert(d > 1) by {
            if d <= 1 {
                assert(pow10(d) <= 10) by {
                    if d == 1 {
                        assert(pow10(1) == 10 * pow10(0));
                    }
                }
            }
        }
        assert(pow10(d) == 10 * pow10((d - 1) as nat));
        assert(n / 10 < pow10((d - 1) as nat));
        lemma_decimal_small_len_rec(n / 10, (d - 1) as nat);
    }
}

pub open spec fn pow10(d: nat) -> nat
    decreases d,
{
    if d == 0 {
        1
    } else {
        10 * pow10((d - 1) as nat)
    }
}

/// The UTF-8 length of a text.
pub open spec fn utf8_len(s: Seq<char>) -> int {
    encode_utf8(s).len() as int
}

pub open spec fn min_int(a: int, b: int) -> int {
    if a < b {
        a
    } else {
        b
    }
}

/// Whether the first `n` bytes of `s` (all of it if shorter) end on a
/// character boundary; slicing there panics otherwise.
pub open spec fn prefix_sliceable(s: Seq<char>, n: int) -> bool {
    is_char_boundary(encode_utf8(s), min_int(n, utf8_len(s)))
}

/// The text in the first `n` bytes of `s` (all of it if shorter).
pub open spec fn byte_prefix_of(s: Seq<char>, n: int) -> Seq<char> {
    decode_utf8(encode_utf8(s).take(min_int(n, utf8_len(s))))
}

/// The first `n` bytes of `s` (all of it if shorter).
pub fn byte_prefix(s: &str, n: usize) -> (r: &str)
    requires
        prefix_sliceable(s@, n as int),
    ensures
        r@ == byte_prefix_of(s@, n as int),
{
    let len = s.as_bytes().len();
    let k = if len < n {
        len
    } else {
        n
    };
    assert(s.spec_bytes() == encode_utf8(s@));
    let (head, _) = s.split_at(k);
    proof {
        encode_utf8_decode_utf8(head@);
        assert(head.spec_bytes() == encode_utf8(head@));
        assert(encode_utf8(s@).take(min_int(n as int, utf8_len(s@))) =~= s.spec_bytes().subrange(
            0,
            k as int,
        ));
    }
    head
}

/// The UTF-8 length of `s`.
pub fn utf8_length(s: &str) -> (r: usize)
    ensures
        r == utf8_len(s@),
{
    assert(s.spec_bytes() == encode_utf8(s@));
    s.as_bytes().len()
}

} // verus!
