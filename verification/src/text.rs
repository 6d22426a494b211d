//! Text building blocks: decimal digits, digit grouping, padding and
//! prefix tests, each with its meaning stated over character sequences.

use vstd::prelude::*;
use vstd::string::*;

verus! {

/// Calls `String::push`, which appends the character `c` to `s`.
#[verifier::external_body]
pub(crate) fn push_char(s: &mut String, c: char)
    ensures
        final(s)@ == old(s)@.push(c),
{
    s.push(c);
}

/// The character of the decimal digit `d` (0–9).
pub open spec fn digit_char(d: int) -> char {
    if d == 0 {
        '0'
    } else if d == 1 {
        '1'
    } else if d == 2 {
        '2'
    } else if d == 3 {
        '3'
    } else if d == 4 {
        '4'
    } else if d == 5 {
        '5'
    } else if d == 6 {
        '6'
    } else if d == 7 {
        '7'
    } else if d == 8 {
        '8'
    } else {
        '9'
    }
}

/// The decimal representation of `n`, most significant digit first, with
/// no leading zeros (`0` is written as one digit).
pub open spec fn decimal(n: nat) -> Seq<char>
    decreases n,
{
    if n < 10 {
        seq![digit_char(n as int)]
    } else {
        decimal(n / 10).push(digit_char((n % 10) as int))
    }
}

/// The three digits of `m` (0–999), leading zeros included.
pub open spec fn three_digits(m: nat) -> Seq<char> {
    seq![digit_char((m / 100) as int), digit_char((m / 10 % 10) as int), digit_char((m % 10) as int)]
}

/// The decimal representation of `n` with a space between groups of three
/// digits, counted from the right.
pub open spec fn grouped(n: nat) -> Seq<char>
    decreases n,
{
    if n < 1000 {
        decimal(n)
    } else {
        grouped(n / 1000) + seq![' '] + three_digits(n % 1000)
    }
}

/// `n` spaces.
pub open spec fn spaces(n: nat) -> Seq<char> {
    Seq::new(n, |i: int| ' ')
}

/// `s` right-aligned in a field of `width` characters: spaces on the left
/// up to the width, nothing cut when `s` is longer.
pub open spec fn pad_left(s: Seq<char>, width: nat) -> Seq<char> {
    if s.len() < width {
        spaces((width - s.len()) as nat) + s
    } else {
        s
    }
}

/// `base` to the power `e`.
pub open spec fn power_of(base: nat, e: nat) -> nat
    decreases e,
{
    if e == 0 {
        1
    } else {
        base * power_of(base, (e - 1) as nat)
    }
}

/// A number below `10^d` has at most `d` digits.
proof fn lemma_decimal_len(n: nat, d: nat)
    requires
        1 <= d,
        n < power_of(10, d),
    ensures
        1 <= decimal(n).len() <= d,
    decreases d,
{
    if n >= 10 {
        if d == 1 {
            assert(power_of(10, 1) == 10 * power_of(10, 0));
        } else {
            let p = power_of(10, (d - 1) as nat);
            assert(power_of(10, d) == 10 * p);
            assert(n / 10 < p);
            lemma_decimal_len(n / 10, (d - 1) as nat);
        }
    }
}

/// A number below `1000^g` takes at most `4g - 1` characters when grouped.
proof fn lemma_grouped_len(n: nat, g: nat)
    requires
        1 <= g,
        n < power_of(1000, g),
    ensures
        grouped(n).len() <= 4 * g - 1,
    decreases g,
{
    if n < 1000 {
        reveal_with_fuel(decimal, 4);
        if n >= 100 {
            assert(decimal(n).len() == 3);
        } else if n >= 10 {
            assert(decimal(n).len() == 2);
        }
    } else {
        if g == 1 {
            assert(power_of(1000, 1) == 1000 * power_of(1000, 0));
        } else {
            let p = power_of(1000, (g - 1) as nat);
            assert(power_of(1000, g) == 1000 * p);
            assert(n / 1000 < p);
            lemma_grouped_len(n / 1000, (g - 1) as nat);
        }
    }
}

/// Different digits have different characters.
proof fn lemma_digit_char_injective(a: int, b: int)
    requires
        0 <= a < 10,
        0 <= b < 10,
        digit_char(a) == digit_char(b),
    ensures
        a == b,
{
}

/// Every decimal representation has at least one digit, and a number of
/// ten or more has at least two.
proof fn lemma_decimal_nonempty(n: nat)
    ensures
        decimal(n).len() >= 1,
        n >= 10 ==> decimal(n).len() >= 2,
    decreases n,
{
    if n >= 10 {
        lemma_decimal_nonempty(n / 10);
    }
}

/// Different numbers have different decimal representations.
pub proof fn lemma_decimal_injective(a: nat, b: nat)
    requires
        decimal(a) == decimal(b),
    ensures
        a == b,
    decreases a,
{
    lemma_decimal_nonempty(a);
    lemma_decimal_nonempty(b);
    if a < 10 && b < 10 {
        assert(decimal(a)[0] == digit_char(a as int));
        assert(decimal(b)[0] == digit_char(b as int));
        lemma_digit_char_injective(a as int, b as int);
    } else if a >= 10 && b >= 10 {
        let da = decimal(a);
        let db = decimal(b);
        assert(da.last() == digit_char((a % 10) as int));
        assert(db.last() == digit_char((b % 10) as int));
        lemma_digit_char_injective((a % 10) as int, (b % 10) as int);
        assert(da.drop_last() =~= decimal(a / 10));
        assert(db.drop_last() =~= decimal(b / 10));
        lemma_decimal_injective(a / 10, b / 10);
    } else {
        assert(decimal(a).len() != decimal(b).len());
    }
}

/// `s` with its spaces taken out.
pub open spec fn without_spaces(s: Seq<char>) -> Seq<char> {
    s.filter(|c: char| c != ' ')
}

/// Taking the spaces out of text that has none leaves it as it was.
proof fn lemma_without_spaces_keeps(s: Seq<char>)
    requires
        forall|i: int| 0 <= i < s.len() ==> s[i] != ' ',
    ensures
        without_spaces(s) == s,
    decreases s.len(),
{
    reveal(Seq::filter);
    if s.len() > 0 {
        lemma_without_spaces_keeps(s.drop_last());
        assert(s.drop_last().push(s.last()) =~= s);
    }
}

/// Taking the spaces out of a run of spaces leaves nothing.
proof fn lemma_without_spaces_of_spaces(n: nat)
    ensures
        without_spaces(spaces(n)) == Seq::<char>::empty(),
    decreases n,
{
    reveal(Seq::filter);
    if n > 0 {
        lemma_without_spaces_of_spaces((n - 1) as nat);
        assert(spaces(n).drop_last() =~= spaces((n - 1) as nat));
    }
}

/// No digit of a decimal numeral is a space.
proof fn lemma_decimal_has_no_space(n: nat)
    ensures
        forall|i: int| 0 <= i < decimal(n).len() ==> decimal(n)[i] != ' ',
    decreases n,
{
    if n >= 10 {
        lemma_decimal_has_no_space(n / 10);
        assert forall|i: int| 0 <= i < decimal(n).len() implies decimal(n)[i] != ' ' by {
            if i < decimal(n / 10).len() {
                assert(decimal(n)[i] == decimal(n / 10)[i]);
            }
        }
    }
}

/// The numeral of `n` is that of `n / 1000` followed by the last three
/// digits.
proof fn lemma_decimal_split(n: nat)
    requires
        n >= 1000,
    ensures
        decimal(n) == decimal(n / 1000) + three_digits(n % 1000),
{
    let m = n % 1000;
    assert(n / 10 >= 100 && n / 100 >= 10);
    assert(n / 10 / 10 == n / 100 && n / 100 / 10 == n / 1000) by (nonlinear_arith)
        requires
            n >= 1000,
    ;
    assert(m / 100 == n / 100 % 10 && m / 10 % 10 == n / 10 % 10 && m % 10 == n % 10)
        by (nonlinear_arith)
        requires
            m == n % 1000,
            n >= 0,
    ;
    let a = decimal(n / 1000);
    assert(decimal(n / 100) == a.push(digit_char((n / 100 % 10) as int)));
    assert(decimal(n / 10) == decimal(n / 100).push(digit_char((n / 10 % 10) as int)));
    assert(decimal(n) == decimal(n / 10).push(digit_char((n % 10) as int)));
    assert(decimal(n) =~= a + three_digits(m));
}

/// Taking the spaces out of a grouped numeral gives the plain numeral.
pub proof fn lemma_grouped_without_spaces(n: nat)
    ensures
        without_spaces(grouped(n)) == decimal(n),
    decreases n,
{
    broadcast use Seq::filter_distributes_over_add;

    if n < 1000 {
        lemma_decimal_has_no_space(n);
        lemma_without_spaces_keeps(decimal(n));
    } else {
        lemma_grouped_without_spaces(n / 1000);
        lemma_decimal_split(n);
        let t = three_digits(n % 1000);
        lemma_without_spaces_keeps(t);
        lemma_without_spaces_of_spaces(1);
        assert(spaces(1) =~= seq![' ']);
        assert(without_spaces(grouped(n / 1000) + seq![' '] + t) == without_spaces(
            grouped(n / 1000) + seq![' '],
        ) + without_spaces(t));
        assert(without_spaces(grouped(n / 1000) + seq![' ']) == without_spaces(grouped(n / 1000))
            + without_spaces(seq![' ']));
        assert(without_spaces(grouped(n / 1000)) + Seq::<char>::empty() + t =~= decimal(n / 1000)
            + t);
    }
}

/// Taking the spaces out of `pad_left(grouped(n), width)` gives the plain
/// numeral of `n`.
pub proof fn lemma_padded_grouped_without_spaces(n: nat, width: nat)
    ensures
        without_spaces(pad_left(grouped(n), width)) == decimal(n),
{
    broadcast use Seq::filter_distributes_over_add;

    lemma_grouped_without_spaces(n);
    if grouped(n).len() < width {
        let k = (width - grouped(n).len()) as nat;
        lemma_without_spaces_of_spaces(k);
        assert(without_spaces(spaces(k) + grouped(n)) == without_spaces(spaces(k))
            + without_spaces(grouped(n)));
        assert(Seq::<char>::empty() + decimal(n) =~= decimal(n));
    }
}

/// Every `u64` has at most 20 digits, and at most 27 characters grouped.
pub proof fn lemma_u64_text_len(n: u64)
    ensures
        1 <= decimal(n as nat).len() <= 20,
        grouped(n as nat).len() <= 27,
{
    reveal_with_fuel(power_of, 21);
    lemma_decimal_len(n as nat, 20);
    reveal_with_fuel(power_of, 8);
    lemma_grouped_len(n as nat, 7);
}

/// The digit character of `d`.
fn digit(d: u64) -> (c: char)
    requires
        d < 10,
    ensures
        c == digit_char(d as int),
{
    match d {
        0 => '0',
        1 => '1',
        2 => '2',
        3 => '3',
        4 => '4',
        5 => '5',
        6 => '6',
        7 => '7',
        8 => '8',
        _ => '9',
    }
}

/// Appends the decimal representation of `n` and returns how many
/// characters it has.
pub(crate) fn push_decimal(out: &mut String, n: u64) -> (k: usize)
    ensures
        final(out)@ == old(out)@ + decimal(n as nat),
        k == decimal(n as nat).len(),
        1 <= k <= 20,
    decreases n,
{
    proof {
        lemma_u64_text_len(n);
        lemma_u64_text_len(n / 10);
    }
    let mut k: usize = 0;
    if n >= 10 {
        k = push_decimal(out, n / 10);
    }
    push_char(out, digit(n % 10));
    proof {
        if n < 10 {
            assert(decimal(n as nat) == seq![digit_char(n as int)]);
        } else {
            assert(decimal(n as nat) == decimal((n / 10) as nat).push(digit_char((n % 10) as int)));
        }
    }
    assert(out@ =~= old(out)@ + decimal(n as nat));
    k + 1
}

/// Appends the three digits of `m`.
fn push_three_digits(out: &mut String, m: u64)
    requires
        m < 1000,
    ensures
        final(out)@ == old(out)@ + three_digits(m as nat),
{
    push_char(out, digit(m / 100));
    push_char(out, digit(m / 10 % 10));
    push_char(out, digit(m % 10));
    assert(out@ =~= old(out)@ + three_digits(m as nat));
}

/// Appends `n` with its digits grouped by three and returns how many
/// characters were appended.
pub(crate) fn push_grouped(out: &mut String, n: u64) -> (k: usize)
    ensures
        final(out)@ == old(out)@ + grouped(n as nat),
        k == grouped(n as nat).len(),
        k <= 27,
    decreases n,
{
    proof {
        lemma_u64_text_len(n);
        lemma_u64_text_len(n / 1000);
    }
    if n < 1000 {
        let k = push_decimal(out, n);
        return k;
    }
    let k = push_grouped(out, n / 1000);
    push_char(out, ' ');
    push_three_digits(out, n % 1000);
    assert(out@ =~= old(out)@ + grouped(n as nat));
    k + 4
}

/// Appends `n` spaces.
pub(crate) fn push_spaces(out: &mut String, n: usize)
    ensures
        final(out)@ == old(out)@ + spaces(n as nat),
{
    let ghost start = out@;
    let mut i: usize = 0;
    while i < n
        invariant
            i <= n,
            out@ == start + spaces(i as nat),
        decreases n - i,
    {
        push_char(out, ' ');
        i = i + 1;
        assert(out@ =~= start + spaces(i as nat));
    }
}

/// Appends every character of `s`.
pub(crate) fn push_str(out: &mut String, s: &str)
    ensures
        final(out)@ == old(out)@ + s@,
{
    let ghost start = out@;
    let n = s.unicode_len();
    let mut i: usize = 0;
    while i < n
        invariant
            i <= n == s@.len(),
            out@ == start + s@.subrange(0, i as int),
        decreases n - i,
    {
        let c = s.get_char(i);
        push_char(out, c);
        i = i + 1;
        assert(out@ =~= start + s@.subrange(0, i as int));
    }
    assert(s@.subrange(0, n as int) =~= s@);
}

/// Whether `s` begins with `prefix`.
pub(crate) fn starts_with(s: &str, prefix: &str) -> (b: bool)
    ensures
        b == (prefix@.len() <= s@.len() && s@.subrange(0, prefix@.len() as int) == prefix@),
{
    let n = prefix.unicode_len();
    let m = s.unicode_len();
    if n > m {
        return false;
    }
    let mut i: usize = 0;
    while i < n
        invariant
            i <= n <= m,
            n == prefix@.len(),
            m == s@.len(),
            forall|j: int| 0 <= j < i ==> s@[j] == prefix@[j],
        decreases n - i,
    {
        if s.get_char(i) != prefix.get_char(i) {
            assert(s@.subrange(0, n as int)[i as int] != prefix@[i as int]);
            return false;
        }
        i = i + 1;
    }
    assert(s@.subrange(0, n as int) =~= prefix@);
    true
}

/// Whether `a` and `b` hold the same characters.
pub(crate) fn same_text(a: &str, b: &str) -> (eq: bool)
    ensures
        eq == (a@ == b@),
{
    let n = a.unicode_len();
    if n != b.unicode_len() {
        return false;
    }
    let mut i: usize = 0;
    while i < n
        invariant
            i <= n == a@.len() == b@.len(),
            forall|j: int| 0 <= j < i ==> a@[j] == b@[j],
        decreases n - i,
    {
        if a.get_char(i) != b.get_char(i) {
            return false;
        }
        i = i + 1;
    }
    assert(a@ =~= b@);
    true
}

} // verus!
