//! The sizes a stroke is drawn with, all fixed multiples of its width, and
//! how a size is written out. Widths are held in tenths of a canvas unit,
//! so every derived size is a whole number of hundredths.

use vstd::prelude::*;

verus! {

/// The text of one decimal digit.
pub open spec fn spec_digit(d: nat) -> Seq<char> {
    if d == 0 {
        "0"@
    } else if d == 1 {
        "1"@
    } else if d == 2 {
        "2"@
    } else if d == 3 {
        "3"@
    } else if d == 4 {
        "4"@
    } else if d == 5 {
        "5"@
    } else if d == 6 {
        "6"@
    } else if d == 7 {
        "7"@
    } else if d == 8 {
        "8"@
    } else {
        "9"@
    }
}

/// The decimal digits of `n`, without leading zeros (`0` for zero).
pub open spec fn spec_decimal(n: nat) -> Seq<char>
    decreases n,
{
    if n < 10 {
        spec_digit(n)
    } else {
        spec_decimal(n / 10) + spec_digit(n % 10)
    }
}

/// A number of hundredths written with two decimals: 250 is `2.50`.
pub open spec fn spec_hundredths(v: nat) -> Seq<char> {
    spec_decimal(v / 100) + "."@ + spec_digit((v / 10) % 10) + spec_digit(v % 10)
}

/// The text of the digit `d`.
fn digit_str(d: u64) -> (r: &'static str)
    requires
        d < 10,
    ensures
        r@ == spec_digit(d as nat),
{
    if d == 0 {
        "0"
    } else if d == 1 {
        "1"
    } else if d == 2 {
        "2"
    } else if d == 3 {
        "3"
    } else if d == 4 {
        "4"
    } else if d == 5 {
        "5"
    } else if d == 6 {
        "6"
    } else if d == 7 {
        "7"
    } else if d == 8 {
        "8"
    } else {
        "9"
    }
}

/// Appends the decimal digits of `n`.
fn push_decimal(s: &mut String, n: u64)
    ensures
        final(s)@ == old(s)@ + spec_decimal(n as nat),
    decreases n,
{
    if n >= 10 {
        push_decimal(s, n / 10);
    }
    s.append(digit_str(n % 10));
}

/// Writes a number of hundredths with two decimals, as a size is written
/// in the markup: 250 becomes `2.50`, 50 becomes `0.50`.
pub fn hundredths_text(v: u64) -> (r: String)
    ensures
        r@ == spec_hundredths(v as nat),
{
    let mut r = String::new();
    push_decimal(&mut r, v / 100);
    r.append(".");
    r.append(digit_str((v / 10) % 10));
    r.append(digit_str(v % 10));
    assert(r@ =~= spec_hundredths(v as nat));
    r
}

/// The value of a decimal digit character.
pub open spec fn digit_value(c: char) -> int {
    c as int - '0' as int
}

/// Reads a sequence of decimal digits back as a number.
pub open spec fn read_decimal(s: Seq<char>) -> int
    decreases s.len(),
{
    if s.len() == 0 {
        0
    } else {
        read_decimal(s.drop_last()) * 10 + digit_value(s.last())
    }
}

/// Every digit text is one character from `0` to `9` worth the digit.
proof fn lemma_digit(d: nat)
    requires
        d < 10,
    ensures
        spec_digit(d).len() == 1,
        '0' <= spec_digit(d)[0] <= '9',
        digit_value(spec_digit(d)[0]) == d,
{
    reveal_strlit("0");
    reveal_strlit("1");
    reveal_strlit("2");
    reveal_strlit("3");
    reveal_strlit("4");
    reveal_strlit("5");
    reveal_strlit("6");
    reveal_strlit("7");
    reveal_strlit("8");
    reveal_strlit("9");
}

/// Writing a number in decimal and reading it back gives the number: the
/// text is all digits, and has no leading zero.
pub proof fn lemma_decimal_reads_back(n: nat)
    ensures
        spec_decimal(n).len() >= 1,
        forall|i: int| 0 <= i < spec_decimal(n).len() ==> '0' <= #[trigger] spec_decimal(n)[i] <= '9',
        read_decimal(spec_decimal(n)) == n,
        n >= 10 ==> spec_decimal(n)[0] != '0',
    decreases n,
{
    if n < 10 {
        lemma_digit(n);
        let t = spec_decimal(n);
        assert(t.drop_last() =~= Seq::<char>::empty());
        assert(read_decimal(t.drop_last()) == 0);
        assert(t.last() == t[0]);
        assert(read_decimal(t) == read_decimal(t.drop_last()) * 10 + digit_value(t.last()));
    } else {
        lemma_decimal_reads_back(n / 10);
        lemma_digit(n % 10);
        let a = spec_decimal(n / 10);
        let t = spec_decimal(n);
        assert(t == a + spec_digit(n % 10));
        assert(t.drop_last() =~= a);
        assert(t.last() == spec_digit(n % 10)[0]);
        assert(n == (n / 10) * 10 + n % 10);
        assert(read_decimal(t) == read_decimal(a) * 10 + digit_value(t.last()));
        assert forall|i: int| 0 <= i < t.len() implies '0' <= #[trigger] t[i] <= '9' by {
            if i < a.len() {
                assert(t[i] == a[i]);
            }
        }
        if n / 10 >= 10 {
            assert(t[0] == a[0]);
        } else {
            lemma_digit(n / 10);
            assert(t[0] == a[0]);
        }
    }
}

/// A size written with two decimals reads back as its number of hundredths:
/// the whole part in decimal, a point, then the tenths and hundredths digits.
pub proof fn lemma_hundredths_reads_back(v: nat)
    ensures
        spec_hundredths(v).len() >= 4,
        spec_hundredths(v)[spec_hundredths(v).len() - 3] == '.',
        read_decimal(spec_hundredths(v).subrange(0, spec_hundredths(v).len() - 3)) * 100
            + digit_value(spec_hundredths(v)[spec_hundredths(v).len() - 2]) * 10 + digit_value(
            spec_hundredths(v)[spec_hundredths(v).len() - 1],
        ) == v,
{
    reveal_strlit(".");
    lemma_decimal_reads_back(v / 100);
    lemma_digit((v / 10) % 10);
    lemma_digit(v % 10);
    let a = spec_decimal(v / 100);
    let t = spec_hundredths(v);
    let k = t.len();
    assert(t == a + "."@ + spec_digit((v / 10) % 10) + spec_digit(v % 10));
    assert(t.subrange(0, k - 3) =~= a);
    assert(t[k - 3] == '.');
    assert(t[k - 2] == spec_digit((v / 10) % 10)[0]);
    assert(t[k - 1] == spec_digit(v % 10)[0]);
    assert(v == (v / 100) * 100 + ((v / 10) % 10) * 10 + v % 10) by (nonlinear_arith);
}

/// The sizes of a stroke of width `w` (in tenths), in hundredths.
pub open spec fn spec_width(w: u32) -> nat {
    10 * w as nat
}

/// Half the width: the radius of dots and round caps and joins, and how far
/// a square cap reaches past the end of a line.
pub open spec fn spec_half(w: u32) -> nat {
    5 * w as nat
}

/// The neon halo dot (1.2 widths) and white core dot (0.2 widths).
pub open spec fn spec_neon_radii(w: u32) -> (nat, nat) {
    (12 * w as nat, 2 * w as nat)
}

/// The neon halo line (2.4 widths) and white core line (0.4 widths).
pub open spec fn spec_neon_widths(w: u32) -> (nat, nat) {
    (24 * w as nat, 4 * w as nat)
}

/// The dash pattern: 3.5 widths on, 2.5 widths off.
pub open spec fn spec_dash(w: u32) -> (nat, nat) {
    (35 * w as nat, 25 * w as nat)
}

/// The spacing of dots along a dotted line: 2.2 widths.
pub open spec fn spec_dot_spacing(w: u32) -> nat {
    22 * w as nat
}

/// How the sizes relate: the width is twice the dot radius; the neon halo
/// is six times the white core, as a dot and as a line, and a neon line is
/// twice as wide as its single-point dot is large; a dash is 7/5 of the gap
/// after it, and dots are spaced 11/5 of a width apart. All grow in
/// proportion to the width, and a zero width gives zero sizes.
pub proof fn lemma_size_proportions(w: u32, v: u32)
    ensures
        spec_width(w) == 2 * spec_half(w),
        spec_neon_radii(w).0 == 6 * spec_neon_radii(w).1,
        spec_neon_widths(w).0 == 6 * spec_neon_widths(w).1,
        spec_neon_widths(w).0 == 2 * spec_neon_radii(w).0,
        spec_neon_widths(w).1 == 2 * spec_neon_radii(w).1,
        5 * spec_dash(w).0 == 7 * spec_dash(w).1,
        5 * spec_dot_spacing(w) == 11 * spec_width(w),
        2 * spec_dash(w).0 == 7 * spec_width(w),
        w <= v ==> spec_half(w) <= spec_half(v) && spec_dot_spacing(w) <= spec_dot_spacing(v)
            && spec_dash(w).0 <= spec_dash(v).0,
        spec_width(0) == 0 && spec_half(0) == 0,
{
}

/// Half the width of a stroke of width `w` tenths, in hundredths.
pub fn half_width_hundredths(w: u32) -> (r: u64)
    ensures
        r == spec_half(w),
{
    5 * (w as u64)
}

/// The dash pattern (on, off) of a stroke of width `w` tenths, in hundredths.
pub fn dash_hundredths(w: u32) -> (r: (u64, u64))
    ensures
        r.0 == spec_dash(w).0,
        r.1 == spec_dash(w).1,
{
    (35 * (w as u64), 25 * (w as u64))
}

/// The dot spacing of a stroke of width `w` tenths, in hundredths.
pub fn dot_spacing_hundredths(w: u32) -> (r: u64)
    ensures
        r == spec_dot_spacing(w),
{
    22 * (w as u64)
}

} // verus!
