//! Decimal notation of numbers, for the human-readable messages of the canister.
use vstd::prelude::*;

verus! {

/// The character of a decimal digit.
pub open spec fn digit_char(d: nat) -> char {
    if d == 0 {
        '0'
    } else if d == 1 {
        '1'
    } else if d == 2 {
        '2'
    } else if d == 3 {
        '3'
    } else if d == 4 {
        '4'
    } else if d == 5 {
        '5'
    } else if d == 6 {
        '6'
    } else if d == 7 {
        '7'
    } else if d == 8 {
        '8'
    } else {
        '9'
    }
}

/// The decimal notation of a natural number, without leading zeros.
pub open spec fn decimal(n: nat) -> Seq<char>
    decreases n,
{
    if n < 10 {
        seq![digit_char(n)]
    } else {
        decimal(n / 10).push(digit_char(n % 10))
    }
}

fn digit_str(d: u128) -> (s: &'static str)
    requires
        d < 10,
    ensures
        s@ == seq![digit_char(d as nat)],
{
    proof {
        reveal_strlit("0");
        reveal_strlit("1");
        reveal_strlit("2");
        reveal_strlit("3");
        reveal_strlit("4");
        reveal_strlit("5");
        reveal_strlit("6");
        reveal_strlit("7");
        reveal_strlit("8");
        reveal_strlit("9");
    }
    if d == 0 {
        "0"
    } else if d == 1 {
        "1"
    } else if d == 2 {
        "2"
    } else if d == 3 {
        "3"
    } else if d == 4 {
        "4"
    } else if d == 5 {
        "5"
    } else if d == 6 {
        "6"
    } else if d == 7 {
        "7"
    } else if d == 8 {
        "8"
    } else {
        "9"
    }
}

/// Appends the decimal notation of `n` to `s`.
pub fn push_decimal(s: &mut String, n: u128)
    ensures
        final(s)@ == old(s)@ + decimal(n as nat),
    decreases n,
{
    if n >= 10 {
        push_decimal(s, n / 10);
    }
    s.append(digit_str(n % 10));
    proof {
        if n >= 10 {
            assert(decimal(n as nat) == decimal((n / 10) as nat).push(digit_char((n % 10) as nat)));
        }
        assert(s@ =~= old(s)@ + decimal(n as nat));
    }
}

/// The decimal notation of `n`.
pub fn decimal_string(n: u128) -> (s: String)
    ensures
        s@ == decimal(n as nat),
{
    let mut s = String::new();
    push_decimal(&mut s, n);
    assert(s@ =~= decimal(n as nat));
    s
}

/// The concatenation of three strings.
pub fn concat3(a: &str, b: &str, c: &str) -> (s: String)
    ensures
        s@ == a@ + b@ + c@,
{
    let mut s = String::from_str(a);
    s.append(b);
    s.append(c);
    s
}

} // verus!

verus! {

/// 10 to the power `d`.
pub open spec fn pow10(d: nat) -> nat
    decreases d,
{
    if d == 0 {
        1
    } else {
        10 * pow10((d - 1) as nat)
    }
}

pub proof fn lemma_pow10_positive(d: nat)
    ensures
        pow10(d) >= 1,
    decreases d,
{
    if d > 0 {
        lemma_pow10_positive((d - 1) as nat);
    }
}

pub proof fn lemma_pow10_monotone(a: nat, b: nat)
    requires
        a <= b,
    ensures
        pow10(a) <= pow10(b),
    decreases b,
{
    if a < b {
        lemma_pow10_monotone(a, (b - 1) as nat);
        lemma_pow10_positive((b - 1) as nat);
    }
}

/// 10 to the power `d`, for `d` up to 38 (the largest power of ten that fits in a `u128`).
pub fn pow10_u128(d: u32) -> (r: u128)
    requires
        d <= 38,
    ensures
        r == pow10(d as nat),
{
    proof {
        reveal_with_fuel(pow10, 39);
        assert(pow10(38) == 100000000000000000000000000000000000000nat);
    }
    let mut r: u128 = 1;
    let mut i: u32 = 0;
    while i < d
        invariant
            i <= d <= 38,
            r == pow10(i as nat),
            pow10(38) == 100000000000000000000000000000000000000nat,
        decreases d - i,
    {
        proof {
            lemma_pow10_monotone((i + 1) as nat, 38);
        }
        r = r * 10;
        i = i + 1;
    }
    r
}

/// The eight decimal digits of `n` below 10^8, with leading zeros.
pub open spec fn eight_digits(n: nat) -> Seq<char> {
    Seq::new(8, |i: int| digit_char((n / pow10((7 - i) as nat)) % 10))
}

/// An amount of 10^-8 units as ICP text: the whole units, a point, and eight decimals.
pub open spec fn icp_text(e8s: nat) -> Seq<char> {
    decimal(e8s / 100_000_000) + seq!['.'] + eight_digits(e8s % 100_000_000)
}

/// Renders `e8s` units of 10^-8 ICP as ICP with eight decimals, as the ledger's `Tokens`
/// display does.
pub fn icp_string(e8s: u64) -> (s: String)
    ensures
        s@ == icp_text(e8s as nat),
{
    let mut s = decimal_string((e8s / 100_000_000) as u128);
    proof {
        reveal_strlit(".");
    }
    s.append(".");
    let frac: u64 = e8s % 100_000_000;
    let mut p: u64 = 10_000_000;
    let mut i: usize = 0;
    let ghost prefix = s@;
    proof {
        reveal_with_fuel(pow10, 8);
    }
    while i < 8
        invariant
            i <= 8,
            frac < 100_000_000,
            p == pow10((7 - i) as nat) || (i == 8 && p == 0),
            prefix == decimal((e8s / 100_000_000) as nat) + seq!['.'],
            s@.len() == prefix.len() + i,
            s@.subrange(0, prefix.len() as int) == prefix,
            forall|j: int|
                0 <= j < i ==> #[trigger] s@[prefix.len() + j] == digit_char(
                    ((frac as nat) / pow10((7 - j) as nat)) % 10,
                ),
        decreases 8 - i,
    {
        proof {
            reveal_with_fuel(pow10, 8);
        }
        let d = (frac / p) % 10;
        let ghost before = s@;
        s.append(digit_str(d as u128));
        proof {
            assert(s@ == before + seq![digit_char(d as nat)]);
            assert forall|j: int| 0 <= j < i + 1 implies #[trigger] s@[prefix.len() + j]
                == digit_char(((frac as nat) / pow10((7 - j) as nat)) % 10) by {
                if j < i {
                    assert(s@[prefix.len() + j] == before[prefix.len() + j]);
                }
            }
            assert(s@.subrange(0, prefix.len() as int) =~= before.subrange(0, prefix.len() as int));
        }
        p = p / 10;
        i = i + 1;
    }
    proof {
        let t = icp_text(e8s as nat);
        assert(t.len() == s@.len());
        assert forall|k: int| 0 <= k < s@.len() implies s@[k] == t[k] by {
            if k < prefix.len() {
                assert(s@[k] == s@.subrange(0, prefix.len() as int)[k]);
            } else {
                let j = k - prefix.len();
                assert(s@[prefix.len() + j] == digit_char(((frac as nat) / pow10((7 - j) as nat)) % 10));
            }
        }
        assert(s@ =~= t);
    }
    s
}

} // verus!

verus! {

/// The lower-case hexadecimal digit of a number below 16.
pub open spec fn hex_char(d: nat) -> char {
    if d < 10 {
        digit_char(d)
    } else if d == 10 {
        'a'
    } else if d == 11 {
        'b'
    } else if d == 12 {
        'c'
    } else if d == 13 {
        'd'
    } else if d == 14 {
        'e'
    } else {
        'f'
    }
}

/// The lower-case hexadecimal notation of some bytes, two digits per byte.
pub open spec fn hex_text(bytes: Seq<u8>) -> Seq<char> {
    Seq::new(
        2 * bytes.len(),
        |i: int|
            if i % 2 == 0 {
                hex_char((bytes[i / 2] / 16) as nat)
            } else {
                hex_char((bytes[i / 2] % 16) as nat)
            },
    )
}

fn hex_str(d: u8) -> (s: &'static str)
    requires
        d < 16,
    ensures
        s@ == seq![hex_char(d as nat)],
{
    proof {
        reveal_strlit("a");
        reveal_strlit("b");
        reveal_strlit("c");
        reveal_strlit("d");
        reveal_strlit("e");
        reveal_strlit("f");
    }
    if d < 10 {
        digit_str(d as u128)
    } else if d == 10 {
        "a"
    } else if d == 11 {
        "b"
    } else if d == 12 {
        "c"
    } else if d == 13 {
        "d"
    } else if d == 14 {
        "e"
    } else {
        "f"
    }
}

/// The lower-case hexadecimal notation of `bytes`, as `hex::encode` writes it.
pub fn hex_string(bytes: &[u8]) -> (s: String)
    ensures
        s@ == hex_text(bytes@),
{
    let mut s = String::new();
    let mut i: usize = 0;
    while i < bytes.len()
        invariant
            i <= bytes@.len(),
            s@.len() == 2 * i,
            forall|j: int| 0 <= j < 2 * i ==> #[trigger] s@[j] == hex_text(bytes@)[j],
        decreases bytes@.len() - i,
    {
        let b = bytes[i];
        let ghost before = s@;
        s.append(hex_str(b / 16));
        s.append(hex_str(b % 16));
        proof {
            assert(s@ == before + seq![hex_char((b / 16) as nat)] + seq![hex_char((b % 16) as nat)]);
            assert forall|j: int| 0 <= j < 2 * (i + 1) implies #[trigger] s@[j] == hex_text(
                bytes@,
            )[j] by {
                if j < 2 * i {
                    assert(s@[j] == before[j]);
                } else if j == 2 * i {
                    assert((j / 2) == i as int);
                } else {
                    assert((j / 2) == i as int);
                }
            }
        }
        i = i + 1;
    }
    assert(s@ =~= hex_text(bytes@));
    s
}

} // verus!

verus! {

/// The significant decimal digits of a fraction: `unit` is the place value of the first
/// digit (a power of ten), and the digits stop as soon as what is left is zero.
pub open spec fn fraction_digits(frac: nat, unit: nat) -> Seq<char>
    decreases unit,
{
    if frac == 0 || unit == 0 {
        seq![]
    } else {
        seq![digit_char(frac / unit)] + fraction_digits(frac % unit, unit / 10)
    }
}

/// A whole number followed, where the fraction is not zero, by a point and the significant
/// digits of the fraction.
pub open spec fn decimal_with_fraction(whole: nat, frac: nat, unit: nat) -> Seq<char> {
    if frac == 0 {
        decimal(whole)
    } else {
        decimal(whole) + seq!['.'] + fraction_digits(frac, unit)
    }
}

/// A span of `nanos` nanoseconds as std's `Debug` shows a `Duration`: in seconds from one
/// second on, else in milliseconds, microseconds or nanoseconds, whichever it reaches,
/// with the significant decimals of what is left.
pub open spec fn duration_text(nanos: nat) -> Seq<char> {
    if nanos >= 1_000_000_000 {
        decimal_with_fraction(nanos / 1_000_000_000, nanos % 1_000_000_000, 100_000_000) + seq![
            's',
        ]
    } else if nanos >= 1_000_000 {
        decimal_with_fraction(nanos / 1_000_000, nanos % 1_000_000, 100_000) + seq!['m', 's']
    } else if nanos >= 1_000 {
        decimal_with_fraction(nanos / 1_000, nanos % 1_000, 100) + seq!['µ', 's']
    } else {
        decimal(nanos) + seq!['n', 's']
    }
}

/// Appends the significant digits of the fraction `frac` whose first digit has the place
/// value `unit` = 10^`k`.
fn push_fraction_digits(s: &mut String, frac: u64, unit: u64, k: u32)
    requires
        k <= 8,
        unit == pow10(k as nat),
        frac < 10 * unit,
    ensures
        final(s)@ == old(s)@ + fraction_digits(frac as nat, unit as nat),
    decreases k,
{
    proof {
        lemma_pow10_positive(k as nat);
    }
    if frac == 0 {
        assert(s@ =~= old(s)@ + fraction_digits(frac as nat, unit as nat));
        return ;
    }
    assert(frac / unit < 10) by (nonlinear_arith)
        requires
            frac < 10 * unit,
            unit > 0,
    ;
    s.append(digit_str((frac / unit) as u128));
    let rest: u64 = frac % unit;
    if k == 0 {
        assert(rest == 0);
        assert(fraction_digits(rest as nat, (unit / 10) as nat) =~= seq![]);
    } else {
        let next: u64 = unit / 10;
        assert(next == pow10((k - 1) as nat));
        push_fraction_digits(s, rest, next, k - 1);
    }
    assert(s@ =~= old(s)@ + fraction_digits(frac as nat, unit as nat));
}

/// Appends a whole number and, where `frac` is not zero, a point and the significant digits
/// of `frac`.
fn push_decimal_with_fraction(s: &mut String, whole: u64, frac: u64, unit: u64, k: u32)
    requires
        k <= 8,
        unit == pow10(k as nat),
        frac < 10 * unit,
    ensures
        final(s)@ == old(s)@ + decimal_with_fraction(whole as nat, frac as nat, unit as nat),
{
    push_decimal(s, whole as u128);
    if frac != 0 {
        proof {
            reveal_strlit(".");
        }
        s.append(".");
        push_fraction_digits(s, frac, unit, k);
    }
    assert(s@ =~= old(s)@ + decimal_with_fraction(whole as nat, frac as nat, unit as nat));
}

/// A span of `nanos` nanoseconds as std's `Debug` shows the `Duration` of that length.
pub fn duration_string(nanos: u64) -> (s: String)
    ensures
        s@ == duration_text(nanos as nat),
{
    proof {
        reveal_with_fuel(pow10, 9);
    }
    let mut s = String::new();
    if nanos >= 1_000_000_000 {
        push_decimal_with_fraction(&mut s, nanos / 1_000_000_000, nanos % 1_000_000_000, 100_000_000, 8);
        proof {
            reveal_strlit("s");
        }
        s.append("s");
    } else if nanos >= 1_000_000 {
        push_decimal_with_fraction(&mut s, nanos / 1_000_000, nanos % 1_000_000, 100_000, 5);
        proof {
            reveal_strlit("ms");
        }
        s.append("ms");
    } else if nanos >= 1_000 {
        push_decimal_with_fraction(&mut s, nanos / 1_000, nanos % 1_000, 100, 2);
        proof {
            reveal_strlit("µs");
        }
        s.append("µs");
    } else {
        push_decimal(&mut s, nanos as u128);
        proof {
            reveal_strlit("ns");
        }
        s.append("ns");
    }
    assert(s@ =~= duration_text(nanos as nat));
    s
}

} // verus!
