//! Cells of a contact sheet written out as files: which time each stands for,
//! and what it is called.

use vstd::prelude::*;

use crate::clock;
use crate::text;

verus! {

/// The middle of slice `i` when `duration` is cut into `n` equal slices.
pub open spec fn slice_middle(duration: int, i: int, n: int) -> int {
    duration * (2 * i + 1) / (2 * n)
}

/// The time sampled for cell `i` of `n`: the middle of its slice of the clip.
pub fn cell_time(duration_ns: i64, i: u32, n: u32) -> (t: i64)
    requires
        i < n,
    ensures
        t == slice_middle(duration_ns as int, i as int, n as int),
{
    let k: i128 = 2 * i as i128 + 1;
    let d: i128 = 2 * n as i128;
    proof {
        lemma_middle_fits(duration_ns as int, k as int, d as int);
    }
    clock::floor_div(duration_ns as i128 * k, d) as i64
}

proof fn lemma_middle_fits(duration: int, k: int, d: int)
    requires
        i64::MIN <= duration <= i64::MAX,
        0 < k < d <= 0x1_ffff_ffff,
    ensures
        -0x8000_0000_0000_0000 * 0x1_ffff_ffff <= duration * k,
        duration * k <= 0x7fff_ffff_ffff_ffff * 0x1_ffff_ffff,
        i64::MIN <= duration * k / d <= i64::MAX,
{
    assert(-0x8000_0000_0000_0000 * 0x1_ffff_ffff <= duration * k <= 0x7fff_ffff_ffff_ffff
        * 0x1_ffff_ffff) by (nonlinear_arith)
        requires
            -0x8000_0000_0000_0000 <= duration <= 0x7fff_ffff_ffff_ffff,
            0 <= k <= 0x1_ffff_ffff,
    ;
    if duration >= 0 {
        assert(0 <= duration * k / d <= duration) by (nonlinear_arith)
            requires
                0 <= duration,
                0 < k < d,
        ;
    } else {
        assert(duration <= duration * k / d <= 0) by (nonlinear_arith)
            requires
                duration < 0,
                0 < k < d,
        ;
    }
}

/// A time in seconds with two decimals, filled up with zeros to six characters,
/// of which a minus sign is one.
pub open spec fn seconds_label(ns: int) -> Seq<char> {
    let size = (if ns < 0 {
        -ns
    } else {
        ns
    }) as nat;
    let hundredths = text::nearest(size * 100, 1_000_000_000);
    let tail = "."@ + text::padded(hundredths % 100, 2);
    if ns < 0 {
        "-"@ + text::padded(hundredths / 100, 2) + tail
    } else {
        text::padded(hundredths / 100, 3) + tail
    }
}

/// The file name of cell `i`, sampled at time `ns`.
pub open spec fn cell_file(i: nat, ns: int) -> Seq<char> {
    "cell_"@ + text::padded(i, 2) + "_t"@ + seconds_label(ns) + ".png"@
}

/// The file name of cell `i`, sampled at `time_ns`.
pub fn cell_name(i: u32, time_ns: i64) -> (s: String)
    ensures
        s@ == cell_file(i as nat, time_ns as int),
{
    let size: u128 = if time_ns < 0 {
        (-(time_ns as i128)) as u128
    } else {
        time_ns as u128
    };
    let scaled: u128 = size * 100;
    let q: u128 = scaled / 1_000_000_000;
    let r: u128 = scaled % 1_000_000_000;
    let hundredths: u128 = if 2 * r < 1_000_000_000 || (2 * r == 1_000_000_000 && q % 2 == 0) {
        q
    } else {
        q + 1
    };
    let mut s: String = "cell_".to_owned();
    text::push_padded(&mut s, i as u128, 2);
    s.append("_t");
    let ghost before = s@;
    if time_ns < 0 {
        s.append("-");
        text::push_padded(&mut s, hundredths / 100, 2);
    } else {
        text::push_padded(&mut s, hundredths / 100, 3);
    }
    s.append(".");
    text::push_padded(&mut s, hundredths % 100, 2);
    assert(s@ =~= before + seconds_label(time_ns as int));
    s.append(".png");
    s
}

/// Cells are sampled in order, apart from each other, and inside the clip.
pub proof fn cells_are_sampled_in_order(duration: int, i: int, j: int, n: int)
    requires
        0 <= i < j < n,
        duration >= 0,
    ensures
        0 <= slice_middle(duration, i, n) <= slice_middle(duration, j, n) <= duration,
        duration >= n ==> slice_middle(duration, i, n) < slice_middle(duration, j, n),
{
    let d = 2 * n;
    let a = duration * (2 * i + 1);
    let b = duration * (2 * j + 1);
    assert(0 <= a <= b <= duration * d) by (nonlinear_arith)
        requires
            a == duration * (2 * i + 1),
            b == duration * (2 * j + 1),
            0 <= i < j < n,
            d == 2 * n,
            duration >= 0,
    ;
    vstd::arithmetic::div_mod::lemma_div_is_ordered(a, b, d);
    assert(0 <= a / d && b / d <= duration) by (nonlinear_arith)
        requires
            0 <= a,
            b <= duration * d,
            d > 0,
    ;
    if duration >= n {
        assert(b >= a + d) by (nonlinear_arith)
            requires
                a == duration * (2 * i + 1),
                b == duration * (2 * j + 1),
                i < j,
                duration >= n,
                n > 0,
                d == 2 * n,
        ;
        vstd::arithmetic::div_mod::lemma_div_is_ordered(a + d, b, d);
        assert((a + d) / d == a / d + 1) by (nonlinear_arith)
            requires
                d > 0,
        ;
    }
}

/// A cell is sampled in the middle of its slice: as far from the start of the
/// slice as from its end, to within a nanosecond.
pub proof fn a_cell_is_sampled_in_the_middle(duration: int, i: int, n: int)
    requires
        0 <= i < n,
    ensures
        ({
            let t = slice_middle(duration, i, n);
            let before = n * t - i * duration;
            let behind = (i + 1) * duration - n * t;
            0 <= behind - before < 2 * n
        }),
{
    let x = duration * (2 * i + 1);
    let d = 2 * n;
    let t = x / d;
    vstd::arithmetic::div_mod::lemma_fundamental_div_mod(x, d);
    vstd::arithmetic::div_mod::lemma_mod_bound(x, d);
    assert(d * t == 2 * (n * t)) by (nonlinear_arith)
        requires
            d == 2 * n,
    ;
    assert(x == i * duration + (i + 1) * duration) by (nonlinear_arith)
        requires
            x == duration * (2 * i + 1),
    ;
}

/// A label reads back as its time rounded to the nearest hundredth of a second:
/// six characters or more, the last three of them a point and two digits, with a
/// minus sign in front of a time before the start.
pub proof fn a_label_reads_back(ns: int)
    ensures
        ({
            let s = seconds_label(ns);
            let dot = s.len() - 3;
            let from: int = if ns < 0 {
                1
            } else {
                0
            };
            let size = (if ns < 0 {
                -ns
            } else {
                ns
            }) as nat;
            &&& s.len() >= 6
            &&& s[dot] == '.'
            &&& ns < 0 ==> s[0] == '-'
            &&& text::all_digits(s.subrange(from, dot))
            &&& text::all_digits(s.skip(dot + 1))
            &&& 100 * text::read_digits(s.subrange(from, dot)) + text::read_digits(s.skip(dot + 1))
                == text::nearest(size * 100, 1_000_000_000)
        }),
{
    reveal_strlit(".");
    reveal_strlit("-");
    let size = (if ns < 0 {
        -ns
    } else {
        ns
    }) as nat;
    let h = text::nearest(size * 100, 1_000_000_000);
    let s = seconds_label(ns);
    let whole = text::padded(
        h / 100,
        if ns < 0 {
            2
        } else {
            3
        },
    );
    let part = text::padded(h % 100, 2);
    text::a_padded_number_reads_back(
        h / 100,
        if ns < 0 {
            2
        } else {
            3
        },
    );
    text::a_padded_number_reads_back(h % 100, 2);
    reveal_with_fuel(text::pow10, 3);
    text::a_small_number_fits_its_width(h % 100, 2);
    let dot = s.len() - 3;
    let from: int = if ns < 0 {
        1
    } else {
        0
    };
    assert(s.subrange(from, dot) =~= whole);
    assert(s.skip(dot + 1) =~= part);
}

/// The file of a cell is named by the cell's number and the label of its time, and
/// reads back as both.
pub proof fn a_cell_file_says_which_cell_it_is(i: nat, ns: int)
    ensures
        ({
            let f = cell_file(i, ns);
            let to = f.len() - 4 - seconds_label(ns).len() - 2;
            &&& f.take(5) == seq!['c', 'e', 'l', 'l', '_']
            &&& to >= 7
            &&& text::all_digits(f.subrange(5, to))
            &&& text::read_digits(f.subrange(5, to)) == i
            &&& f.subrange(to, to + 2) == seq!['_', 't']
            &&& f.subrange(to + 2, f.len() - 4) == seconds_label(ns)
            &&& f.skip(f.len() - 4) == seq!['.', 'p', 'n', 'g']
        }),
{
    reveal_strlit("cell_");
    reveal_strlit("_t");
    reveal_strlit(".png");
    let f = cell_file(i, ns);
    let n = text::padded(i, 2);
    text::a_padded_number_reads_back(i, 2);
    let to = f.len() - 4 - seconds_label(ns).len() - 2;
    assert(f.take(5) =~= seq!['c', 'e', 'l', 'l', '_']);
    assert(f.subrange(5, to) =~= n);
    assert(f.subrange(to, to + 2) =~= seq!['_', 't']);
    assert(f.subrange(to + 2, f.len() - 4) =~= seconds_label(ns));
    assert(f.skip(f.len() - 4) =~= seq!['.', 'p', 'n', 'g']);
}

} // verus!
