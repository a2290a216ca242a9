//! Decimal text: the number formats that log lines, file names and dataset
//! records are made of.

use vstd::prelude::*;

verus! {

/// `String::push` appends one character.
pub assume_specification[ String::push ](s: &mut String, c: char)
    ensures
        final(s)@ == old(s)@.push(c),
;

/// The character of the decimal digit `d`.
pub open spec fn digit(d: nat) -> char {
    (48 + d) as char
}

/// `n` in decimal, without leading zeros.
pub open spec fn decimal(n: nat) -> Seq<char>
    decreases n,
{
    if n < 10 {
        seq![digit(n)]
    } else {
        decimal(n / 10).push(digit(n % 10))
    }
}

/// `k` zero characters.
pub open spec fn zeros(k: nat) -> Seq<char> {
    Seq::new(k, |i: int| '0')
}

/// `n` in decimal, filled up with leading zeros to at least `width` characters.
pub open spec fn padded(n: nat, width: nat) -> Seq<char> {
    let d = decimal(n);
    if d.len() >= width {
        d
    } else {
        zeros((width - d.len()) as nat) + d
    }
}

/// An integer in decimal, with a minus sign when it is negative.
pub open spec fn signed(n: int) -> Seq<char> {
    if n < 0 {
        seq!['-'] + decimal((-n) as nat)
    } else {
        decimal(n as nat)
    }
}

/// Ten to the power `p`.
pub open spec fn pow10(p: nat) -> nat
    decreases p,
{
    if p == 0 {
        1
    } else {
        10 * pow10((p - 1) as nat)
    }
}

/// `num / den` rounded to the nearest integer, a tie going to the even one.
pub open spec fn nearest(num: nat, den: nat) -> nat {
    let q = num / den;
    let r = num % den;
    if 2 * r < den || (2 * r == den && q % 2 == 0) {
        q
    } else {
        q + 1
    }
}

/// The fraction `num / den` in decimal with `places` digits behind the point
/// (and no point when `places` is zero), rounded to the nearest such number.
pub open spec fn fixed(num: nat, den: nat, places: nat) -> Seq<char> {
    let scaled = nearest(num * pow10(places), den);
    if places == 0 {
        decimal(scaled)
    } else {
        decimal(scaled / pow10(places)) + seq!['.'] + padded(scaled % pow10(places), places)
    }
}

/// [`fixed`] of a fraction that may be negative.
pub open spec fn signed_fixed(num: int, den: nat, places: nat) -> Seq<char> {
    if num < 0 {
        seq!['-'] + fixed((-num) as nat, den, places)
    } else {
        fixed(num as nat, den, places)
    }
}

/// Append `n` in decimal.
pub fn push_decimal(s: &mut String, n: u128)
    ensures
        final(s)@ == old(s)@ + decimal(n as nat),
    decreases n,
{
    let ghost before = s@;
    if n >= 10 {
        push_decimal(s, n / 10);
    }
    let d: u8 = (n % 10) as u8;
    s.push((48u8 + d) as char);
    assert(s@ =~= before + decimal(n as nat));
}

/// How many characters [`decimal`] takes for `n`.
fn decimal_len(n: u128) -> (len: u32)
    ensures
        len == decimal(n as nat).len(),
        1 <= len <= 39,
    decreases n,
{
    proof {
        lemma_decimal_len(n as nat, 39);
    }
    if n < 10 {
        1
    } else {
        proof {
            lemma_decimal_len((n / 10) as nat, 38);
        }
        decimal_len(n / 10) + 1
    }
}

/// A number below `10^k` takes at most `k` digits.
proof fn lemma_decimal_len(n: nat, k: nat)
    requires
        n < pow10(k) || (k == 39 && n <= u128::MAX) || (k == 38 && n <= u128::MAX / 10),
        k >= 1,
    ensures
        1 <= decimal(n).len() <= k,
    decreases n,
{
    if k == 39 {
        assert(pow10(39) > u128::MAX) by {
            reveal_with_fuel(pow10, 40);
        }
    }
    if k == 38 {
        assert(pow10(38) > u128::MAX / 10) by {
            reveal_with_fuel(pow10, 39);
        }
    }
    if n >= 10 {
        if k == 1 {
            assert(pow10(1) == 10) by {
                reveal_with_fuel(pow10, 2);
            }
        }
        lemma_decimal_len(n / 10, (k - 1) as nat);
    }
}

/// Append `n` in decimal, filled up with zeros to at least `width` characters.
pub fn push_padded(s: &mut String, n: u128, width: u32)
    ensures
        final(s)@ == old(s)@ + padded(n as nat, width as nat),
{
    let ghost before = s@;
    let len: u32 = decimal_len(n);
    let mut i: u32 = len;
    while i < width
        invariant
            len <= i,
            i <= width || i == len,
            s@ == before + zeros((i - len) as nat),
        decreases width - i,
    {
        s.push('0');
        i = i + 1;
        assert(s@ =~= before + zeros((i - len) as nat));
    }
    let ghost filled = s@;
    push_decimal(s, n);
    assert(s@ =~= before + padded(n as nat, width as nat));
}

/// Append an integer in decimal, with a minus sign when it is negative.
pub fn push_signed(s: &mut String, n: i128)
    ensures
        final(s)@ == old(s)@ + signed(n as int),
{
    let ghost before = s@;
    if n < 0 {
        s.push('-');
        let magnitude: u128 = (-(n + 1)) as u128 + 1;
        push_decimal(s, magnitude);
        assert(s@ =~= before + signed(n as int));
    } else {
        push_decimal(s, n as u128);
    }
}

/// Ten to the power `p`, where it fits.
fn power_of_ten(p: u32) -> (r: u128)
    requires
        pow10(p as nat) <= u128::MAX,
    ensures
        r == pow10(p as nat),
        r >= 1,
    decreases p,
{
    if p == 0 {
        1
    } else {
        10 * power_of_ten(p - 1)
    }
}

/// Append `num / den` with `places` digits behind the point.
pub fn push_fixed(s: &mut String, num: u128, den: u128, places: u32)
    requires
        0 < den,
        2 * den <= u128::MAX,
        pow10(places as nat) <= u128::MAX,
        num * pow10(places as nat) < u128::MAX,
    ensures
        final(s)@ == old(s)@ + fixed(num as nat, den as nat, places as nat),
{
    let ghost before = s@;
    let unit: u128 = power_of_ten(places);
    let scaled: u128 = num * unit;
    let q: u128 = scaled / den;
    let r: u128 = scaled % den;
    proof {
        assert(q <= scaled) by (nonlinear_arith)
            requires
                q == scaled / den,
                den > 0,
        ;
        assert(r < den) by (nonlinear_arith)
            requires
                r == scaled % den,
                den > 0,
        ;
    }
    let rounded: u128 = if 2 * r < den || (2 * r == den && q % 2 == 0) {
        q
    } else {
        q + 1
    };
    assert(rounded == nearest((num * unit) as nat, den as nat));
    if places == 0 {
        push_decimal(s, rounded);
    } else {
        push_decimal(s, rounded / unit);
        s.push('.');
        push_padded(s, rounded % unit, places);
    }
    assert(s@ =~= before + fixed(num as nat, den as nat, places as nat));
}

/// [`push_fixed`] of a fraction that may be negative.
pub fn push_signed_fixed(s: &mut String, num: i128, den: u128, places: u32)
    requires
        0 < den,
        2 * den <= u128::MAX,
        pow10(places as nat) <= u128::MAX,
        (if num < 0 { -num } else { num as int }) * pow10(places as nat) < u128::MAX,
    ensures
        final(s)@ == old(s)@ + signed_fixed(num as int, den as nat, places as nat),
{
    let ghost before = s@;
    if num < 0 {
        s.push('-');
        let magnitude: u128 = (-(num + 1)) as u128 + 1;
        push_fixed(s, magnitude, den, places);
        assert(s@ =~= before + signed_fixed(num as int, den as nat, places as nat));
    } else {
        push_fixed(s, num as u128, den, places);
    }
}

/// Every character of a decimal number is one of the ten digits.
pub proof fn lemma_decimal_is_digits(n: nat)
    ensures
        forall|i: int|
            0 <= i < decimal(n).len() ==> '0' <= #[trigger] decimal(n)[i] && decimal(n)[i] <= '9',
    decreases n,
{
    if n >= 10 {
        lemma_decimal_is_digits(n / 10);
        assert forall|i: int| 0 <= i < decimal(n).len() implies '0' <= #[trigger] decimal(n)[i]
            && decimal(n)[i] <= '9' by {
            if i < decimal(n / 10).len() {
                assert(decimal(n)[i] == decimal(n / 10)[i]);
            }
        }
    }
}

/// The number that a run of decimal digits stands for.
pub open spec fn read_digits(s: Seq<char>) -> nat
    decreases s.len(),
{
    if s.len() == 0 {
        0
    } else {
        10 * read_digits(s.drop_last()) + (s.last() as nat - 48) as nat
    }
}

/// Whether a text is one or more decimal digits.
pub open spec fn all_digits(s: Seq<char>) -> bool {
    s.len() > 0 && forall|i: int| 0 <= i < s.len() ==> '0' <= #[trigger] s[i] && s[i] <= '9'
}

/// A number in decimal reads back as itself, and has no digit too many: it leads
/// with a zero only where that is all of it.
pub proof fn a_decimal_reads_back(n: nat)
    ensures
        read_digits(decimal(n)) == n,
        all_digits(decimal(n)),
        decimal(n).len() > 1 ==> decimal(n)[0] != '0',
    decreases n,
{
    lemma_decimal_is_digits(n);
    if n >= 10 {
        a_decimal_reads_back(n / 10);
        assert(decimal(n).drop_last() =~= decimal(n / 10));
        assert(decimal(n)[0] == decimal(n / 10)[0]);
        assert(n / 10 >= 1);
        if decimal(n / 10).len() == 1 {
            assert(decimal(n / 10).drop_last() =~= Seq::<char>::empty());
            reveal_with_fuel(read_digits, 2);
            assert(read_digits(decimal(n / 10)) == decimal(n / 10)[0] as nat - 48);
        }
    } else {
        assert(decimal(n).drop_last() =~= Seq::<char>::empty());
        reveal_with_fuel(read_digits, 2);
    }
}

proof fn lemma_leading_zeros(k: nat, s: Seq<char>)
    ensures
        read_digits(zeros(k) + s) == read_digits(s),
    decreases s.len(), k,
{
    let t = zeros(k) + s;
    if s.len() > 0 {
        assert(t.drop_last() =~= zeros(k) + s.drop_last());
        lemma_leading_zeros(k, s.drop_last());
    } else if k > 0 {
        let j = (k - 1) as nat;
        assert(t.drop_last() =~= zeros(j) + s);
        lemma_leading_zeros(j, s);
        assert(t.last() == '0');
    } else {
        assert(t =~= s);
    }
}

/// A filled-up number reads back as itself too, and is as wide as was asked for,
/// or as wide as it takes.
pub proof fn a_padded_number_reads_back(n: nat, width: nat)
    ensures
        read_digits(padded(n, width)) == n,
        all_digits(padded(n, width)),
        padded(n, width).len() >= width,
        padded(n, width).len() > width ==> padded(n, width) == decimal(n),
{
    a_decimal_reads_back(n);
    let d = decimal(n);
    if d.len() < width {
        lemma_leading_zeros((width - d.len()) as nat, d);
    }
}

/// A number below a power of ten takes no more digits than the power has zeros.
pub proof fn a_small_number_fits_its_width(n: nat, width: nat)
    requires
        width >= 1,
        n < pow10(width),
    ensures
        padded(n, width).len() == width,
{
    lemma_decimal_len(n, width);
    a_padded_number_reads_back(n, width);
}

/// Ten to a power is ten multiplied by itself that many times.
pub proof fn a_power_of_ten_multiplies_ten(p: nat)
    ensures
        pow10(p) == vstd::arithmetic::power::pow(10, p),
    decreases p,
{
    reveal(vstd::arithmetic::power::pow);
    if p > 0 {
        a_power_of_ten_multiplies_ten((p - 1) as nat);
    }
}

/// A signed number is its magnitude, behind a minus sign exactly when it is below
/// zero.
pub proof fn a_signed_number_reads_back(n: int)
    ensures
        n < 0 ==> signed(n).len() > 1 && signed(n)[0] == '-' && signed(n).skip(1) == decimal(
            (-n) as nat,
        ),
        n >= 0 ==> all_digits(signed(n)) && read_digits(signed(n)) == n,
        n < 0 ==> read_digits(signed(n).skip(1)) == -n,
{
    if n < 0 {
        a_decimal_reads_back((-n) as nat);
        assert(signed(n).skip(1) =~= decimal((-n) as nat));
    } else {
        a_decimal_reads_back(n as nat);
    }
}

/// Rounding goes to the nearest whole number, and from half way to the even one.
pub proof fn rounding_goes_to_the_nearest(num: nat, den: nat)
    requires
        den > 0,
    ensures
        -(den as int) <= 2 * (num - nearest(num, den) * den) <= den,
        2 * (num - nearest(num, den) * den) == den ==> nearest(num, den) % 2 == 0,
        2 * (num - nearest(num, den) * den) == -(den as int) ==> nearest(num, den) % 2 == 0,
{
    vstd::arithmetic::div_mod::lemma_fundamental_div_mod(num as int, den as int);
    let q = num as int / den as int;
    assert((q + 1) * den == q * den + den) by (nonlinear_arith);
    assert(q * den == den * q) by (nonlinear_arith);
    vstd::arithmetic::div_mod::lemma_mod_bound(num as int, den as int);
}

/// A fraction in decimal has as many digits behind its point as were asked for,
/// and reads back as the fraction rounded to the nearest such number.
pub proof fn a_fraction_reads_back(num: nat, den: nat, places: nat)
    requires
        den > 0,
    ensures
        places == 0 ==> all_digits(fixed(num, den, 0)) && read_digits(fixed(num, den, 0))
            == nearest(num, den),
        places > 0 ==> ({
            let f = fixed(num, den, places);
            let dot = f.len() - places - 1;
            &&& dot > 0
            &&& f[dot] == '.'
            &&& all_digits(f.take(dot))
            &&& dot > 1 ==> f[0] != '0'
            &&& all_digits(f.skip(dot + 1))
            &&& read_digits(f.take(dot)) * pow10(places) + read_digits(f.skip(dot + 1)) == nearest(
                num * pow10(places),
                den,
            )
        }),
{
    let unit = pow10(places);
    let scaled = nearest(num * unit, den);
    lemma_unit(places);
    if places == 0 {
        assert(num * 1 == num);
        a_decimal_reads_back(scaled);
    } else {
        let whole = decimal(scaled / unit);
        let part = padded(scaled % unit, places);
        a_decimal_reads_back(scaled / unit);
        a_padded_number_reads_back(scaled % unit, places);
        vstd::arithmetic::div_mod::lemma_fundamental_div_mod(scaled as int, unit as int);
        vstd::arithmetic::div_mod::lemma_mod_bound(scaled as int, unit as int);
        assert(unit * (scaled / unit) == (scaled / unit) * unit) by (nonlinear_arith);
        a_small_number_fits_its_width(scaled % unit, places);
        let f = fixed(num, den, places);
        let dot = f.len() - places - 1;
        assert(dot == whole.len());
        assert(f.take(dot) =~= whole);
        assert(f.skip(dot + 1) =~= part);
    }
}

proof fn lemma_unit(p: nat)
    ensures
        pow10(p) >= 1,
    decreases p,
{
    if p > 0 {
        lemma_unit((p - 1) as nat);
    }
}

/// A fraction below zero is that above it behind a minus sign, and no other has
/// one.
pub proof fn a_negative_fraction_has_a_sign(num: int, den: nat, places: nat)
    requires
        den > 0,
    ensures
        num < 0 ==> signed_fixed(num, den, places) == seq!['-'] + signed_fixed(-num, den, places),
        num >= 0 ==> signed_fixed(num, den, places) == fixed(num as nat, den, places),
{
}

/// Whether a text is a number with so many digits behind its point, and no digit
/// too many before it, that reads as `q` when the point is left out.
pub open spec fn says(s: Seq<char>, q: nat, places: nat) -> bool {
    let dot = s.len() - places - 1;
    if places == 0 {
        all_digits(s) && read_digits(s) == q && (s.len() > 1 ==> s[0] != '0')
    } else {
        &&& dot > 0
        &&& s[dot] == '.'
        &&& all_digits(s.take(dot))
        &&& dot > 1 ==> s[0] != '0'
        &&& all_digits(s.skip(dot + 1))
        &&& read_digits(s.take(dot)) * pow10(places) + read_digits(s.skip(dot + 1)) == q
    }
}

/// A fraction in decimal says the nearest number with so many digits behind the
/// point.
pub proof fn a_fraction_says_the_nearest(num: nat, den: nat, places: nat)
    requires
        den > 0,
    ensures
        says(fixed(num, den, places), nearest(num * pow10(places), den), places),
{
    a_fraction_reads_back(num, den, places);
    if places == 0 {
        lemma_small_powers();
        assert(num * 1 == num);
        a_decimal_reads_back(nearest(num, den));
    }
}

/// The first powers of ten.
pub proof fn lemma_small_powers()
    ensures
        pow10(0) == 1,
        pow10(1) == 10,
        pow10(2) == 100,
        pow10(3) == 1000,
{
    reveal_with_fuel(pow10, 4);
}

} // verus!
