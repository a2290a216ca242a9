//! What JSON text is, as far as the dataset needs it: numbers, strings, truth
//! values, and objects of these.

use vstd::prelude::*;

use crate::text;

verus! {

/// Text without control characters, and so without line breaks.
pub open spec fn printable(s: Seq<char>) -> bool {
    forall|i: int| 0 <= i < s.len() ==> ' ' <= #[trigger] s[i]
}

/// Text that stands between quotes as it is: without control characters, quotes
/// and backslashes.
pub open spec fn safe(s: Seq<char>) -> bool {
    forall|i: int| 0 <= i < s.len() ==> ' ' <= #[trigger] s[i] && s[i] != '"' && s[i] != '\\'
}

/// One or more decimal digits.
pub open spec fn digits(s: Seq<char>) -> bool {
    s.len() > 0 && forall|i: int| 0 <= i < s.len() ==> '0' <= #[trigger] s[i] && s[i] <= '9'
}

/// Digits without a leading zero, unless there is only one.
pub open spec fn whole(s: Seq<char>) -> bool {
    digits(s) && (s.len() == 1 || s[0] != '0')
}

/// A number without a sign: a whole one, or one with digits behind a point.
pub open spec fn is_magnitude(s: Seq<char>) -> bool {
    whole(s) || exists|a: Seq<char>, f: Seq<char>|
        s == #[trigger] (a + seq!['.'] + f) && whole(a) && digits(f)
}

/// A number.
pub open spec fn is_number(s: Seq<char>) -> bool {
    is_magnitude(s) || exists|m: Seq<char>| s == #[trigger] (seq!['-'] + m) && is_magnitude(m)
}

/// `s` between quotes.
pub open spec fn string(s: Seq<char>) -> Seq<char> {
    seq!['"'] + s + seq!['"']
}

/// A number, a string or a truth value.
pub open spec fn is_scalar(s: Seq<char>) -> bool {
    ||| is_number(s)
    ||| exists|b: Seq<char>| s == #[trigger] string(b) && safe(b)
    ||| s == "true"@
    ||| s == "false"@
}

/// A member of an object: its key and its value.
pub open spec fn member(m: (Seq<char>, Seq<char>)) -> Seq<char> {
    string(m.0) + seq![':'] + m.1
}

/// Members one after another, with a comma between any two.
pub open spec fn joined(ms: Seq<(Seq<char>, Seq<char>)>) -> Seq<char>
    decreases ms.len(),
{
    if ms.len() == 0 {
        Seq::empty()
    } else if ms.len() == 1 {
        member(ms[0])
    } else {
        joined(ms.drop_last()) + seq![','] + member(ms.last())
    }
}

/// An object with these members.
pub open spec fn object(ms: Seq<(Seq<char>, Seq<char>)>) -> Seq<char> {
    seq!['{'] + joined(ms) + seq!['}']
}

/// Members whose keys need no escapes and whose values are numbers, strings or
/// truth values.
pub open spec fn of_scalars(ms: Seq<(Seq<char>, Seq<char>)>) -> bool {
    forall|i: int| 0 <= i < ms.len() ==> safe((#[trigger] ms[i]).0) && is_scalar(ms[i].1)
}

/// A number, a string, a truth value, or an object of these.
pub open spec fn is_value(s: Seq<char>) -> bool {
    is_scalar(s) || exists|ms: Seq<(Seq<char>, Seq<char>)>| s == #[trigger] object(ms)
        && of_scalars(ms)
}

/// Members whose keys need no escapes and whose values are values.
pub open spec fn of_values(ms: Seq<(Seq<char>, Seq<char>)>) -> bool {
    forall|i: int| 0 <= i < ms.len() ==> safe((#[trigger] ms[i]).0) && is_value(ms[i].1)
}

/// A natural number in decimal is a whole number.
pub proof fn lemma_decimal_is_whole(n: nat)
    ensures
        whole(text::decimal(n)),
        n > 0 ==> text::decimal(n)[0] != '0',
    decreases n,
{
    text::lemma_decimal_is_digits(n);
    if n >= 10 {
        lemma_decimal_is_whole(n / 10);
        assert(text::decimal(n)[0] == text::decimal(n / 10)[0]);
    }
}

proof fn lemma_padded_is_digits(n: nat, width: nat)
    ensures
        digits(text::padded(n, width)),
{
    lemma_decimal_is_whole(n);
}

proof fn lemma_fixed_is_a_magnitude(num: nat, den: nat, places: nat)
    ensures
        is_magnitude(text::fixed(num, den, places)),
{
    let scaled = text::nearest(num * text::pow10(places), den);
    let a = text::decimal(scaled / text::pow10(places));
    let f = text::padded(scaled % text::pow10(places), places);
    lemma_decimal_is_whole(scaled);
    lemma_decimal_is_whole(scaled / text::pow10(places));
    lemma_padded_is_digits(scaled % text::pow10(places), places);
    if places > 0 {
        assert(text::fixed(num, den, places) == a + seq!['.'] + f);
    }
}

/// What the number formats give is a number.
pub proof fn lemma_formats_are_numbers(num: int, den: nat, places: nat)
    ensures
        is_number(text::signed(num)),
        is_number(text::signed_fixed(num, den, places)),
        num >= 0 ==> is_number(text::fixed(num as nat, den, places)),
        num >= 0 ==> is_number(text::decimal(num as nat)),
{
    let m = (if num < 0 {
        -num
    } else {
        num
    }) as nat;
    lemma_decimal_is_whole(m);
    lemma_fixed_is_a_magnitude(m, den, places);
    if num < 0 {
        assert(text::signed(num) == seq!['-'] + text::decimal(m));
        assert(text::signed_fixed(num, den, places) == seq!['-'] + text::fixed(m, den, places));
    }
}

/// Joining two runs of members.
pub proof fn lemma_joined_add(
    a: Seq<(Seq<char>, Seq<char>)>,
    b: Seq<(Seq<char>, Seq<char>)>,
)
    requires
        a.len() > 0,
        b.len() > 0,
    ensures
        joined(a + b) == joined(a) + seq![','] + joined(b),
    decreases b.len(),
{
    let ab = a + b;
    assert(ab.last() == b.last());
    if b.len() == 1 {
        assert(ab.drop_last() =~= a);
        assert(b.last() == b[0]);
    } else {
        assert(ab.drop_last() =~= a + b.drop_last());
        lemma_joined_add(a, b.drop_last());
        assert(joined(ab) =~= joined(a) + seq![','] + (joined(b.drop_last()) + seq![','] + member(
            b.last(),
        )));
    }
}

proof fn lemma_scalar_is_printable(s: Seq<char>)
    requires
        is_scalar(s),
    ensures
        printable(s),
{
    reveal_strlit("true");
    reveal_strlit("false");
}

proof fn lemma_joined_is_printable(ms: Seq<(Seq<char>, Seq<char>)>)
    requires
        forall|i: int| 0 <= i < ms.len() ==> safe((#[trigger] ms[i]).0) && printable(ms[i].1),
    ensures
        printable(joined(ms)),
    decreases ms.len(),
{
    if ms.len() > 0 {
        let m = ms[ms.len() - 1];
        assert(safe(m.0) && printable(m.1));
        assert(printable(member(m)));
        if ms.len() > 1 {
            assert forall|i: int| 0 <= i < ms.drop_last().len() implies safe(
                (#[trigger] ms.drop_last()[i]).0,
            ) && printable(ms.drop_last()[i].1) by {
                assert(ms.drop_last()[i] == ms[i]);
            }
            lemma_joined_is_printable(ms.drop_last());
        }
    }
}

/// An object of values takes one line.
pub proof fn lemma_an_object_is_printable(ms: Seq<(Seq<char>, Seq<char>)>)
    requires
        of_values(ms),
    ensures
        printable(object(ms)),
{
    assert forall|i: int| 0 <= i < ms.len() implies safe((#[trigger] ms[i]).0) && printable(
        ms[i].1,
    ) by {
        let v = ms[i].1;
        if is_scalar(v) {
            lemma_scalar_is_printable(v);
        } else {
            let inner = choose|inner: Seq<(Seq<char>, Seq<char>)>|
                v == #[trigger] object(inner) && of_scalars(inner);
            assert forall|j: int| 0 <= j < inner.len() implies safe((#[trigger] inner[j]).0)
                && printable(inner[j].1) by {
                lemma_scalar_is_printable(inner[j].1);
            }
            lemma_joined_is_printable(inner);
        }
    }
    lemma_joined_is_printable(ms);
}

/// Members stand one behind the other with a comma between any two, each as its
/// key in quotes, a colon and its value, and an object holds them in braces.
pub proof fn members_are_joined_by_commas(
    ms: Seq<(Seq<char>, Seq<char>)>,
    m: (Seq<char>, Seq<char>),
)
    ensures
        joined(seq![m]) == seq!['"'] + m.0 + seq!['"'] + seq![':'] + m.1,
        ms.len() > 0 ==> joined(ms.push(m)) == joined(ms) + seq![','] + joined(seq![m]),
        object(ms).len() == joined(ms).len() + 2,
        object(ms)[0] == '{',
        object(ms).last() == '}',
        object(ms).subrange(1, object(ms).len() - 1) == joined(ms),
        joined(Seq::empty()).len() == 0,
{
    assert(ms.push(m).drop_last() =~= ms);
    assert(object(ms).subrange(1, object(ms).len() - 1) =~= joined(ms));
}

} // verus!
