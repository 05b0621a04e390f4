use itertools::Itertools;
use vstd::prelude::*;
use vstd::string::StringExecFns;

verus! {

/// `n` tab characters.
pub open spec fn tabs(n: nat) -> Seq<char>
    decreases n,
{
    if n == 0 {
        Seq::empty()
    } else {
        tabs((n - 1) as nat).push('\t')
    }
}

/// Appends `n` tab characters to `s`.
pub(crate) fn push_tabs(s: &mut String, n: usize)
    ensures
        final(s)@ == old(s)@ + tabs(n as nat),
{
    let mut i: usize = 0;
    while i < n
        invariant
            i <= n,
            s@ == old(s)@ + tabs(i as nat),
        decreases n - i,
    {
        proof {
            reveal_strlit("\t");
        }
        s.append("\t");
        i = i + 1;
        assert(s@ =~= old(s)@ + tabs(i as nat));
    }
}

} // verus!

verus! {

/// The decimal digit `d` as a character.
pub open spec fn digit_char(d: nat) -> char {
    ((d % 10) + 48) as char
}

/// The decimal rendering of `n`, most significant digit first, without leading zeros.
pub open spec fn decimal(n: nat) -> Seq<char>
    decreases n,
{
    if n < 10 {
        seq![digit_char(n)]
    } else {
        decimal(n / 10).push(digit_char(n % 10))
    }
}

/// Every character of a decimal rendering is a digit, and there is at least one.
pub proof fn lemma_decimal_digits(n: nat)
    ensures
        decimal(n).len() >= 1,
        forall|k: int| 0 <= k < decimal(n).len() ==> '0' <= #[trigger] decimal(n)[k] <= '9',
    decreases n,
{
    if n >= 10 {
        lemma_decimal_digits(n / 10);
    }
}

/// Distinct numbers have distinct decimal renderings.
pub proof fn lemma_decimal_injective(a: nat, b: nat)
    requires
        decimal(a) == decimal(b),
    ensures
        a == b,
    decreases a,
{
    if a < 10 && b < 10 {
        assert(decimal(a)[0] == digit_char(a));
    } else if a < 10 {
        lemma_decimal_digits(b / 10);
        assert(decimal(b).len() >= 2);
    } else if b < 10 {
        lemma_decimal_digits(a / 10);
        assert(decimal(a).len() >= 2);
    } else {
        assert(decimal(a / 10) =~= decimal(a).drop_last());
        assert(decimal(b / 10) =~= decimal(b).drop_last());
        assert(decimal(a).last() == digit_char(a % 10));
        assert(decimal(b).last() == digit_char(b % 10));
        lemma_decimal_injective(a / 10, b / 10);
    }
}

fn digit_str(d: usize) -> (s: &'static str)
    requires
        d < 10,
    ensures
        s@ == seq![digit_char(d as nat)],
{
    proof {
        reveal_strlit("0");
        reveal_strlit("1");
        reveal_strlit("2");
        reveal_strlit("3");
        reveal_strlit("4");
        reveal_strlit("5");
        reveal_strlit("6");
        reveal_strlit("7");
        reveal_strlit("8");
        reveal_strlit("9");
    }
    if d == 0 { "0" } else if d == 1 { "1" } else if d == 2 { "2" } else if d == 3 { "3" }
    else if d == 4 { "4" } else if d == 5 { "5" } else if d == 6 { "6" } else if d == 7 { "7" }
    else if d == 8 { "8" } else { "9" }
}

/// Appends the decimal rendering of `n` to `s`.
pub(crate) fn push_decimal(s: &mut String, n: usize)
    ensures
        final(s)@ == old(s)@ + decimal(n as nat),
    decreases n,
{
    if n < 10 {
        s.append(digit_str(n));
    } else {
        push_decimal(s, n / 10);
        s.append(digit_str(n % 10));
    }
    assert(s@ =~= old(s)@ + decimal(n as nat));
}

} // verus!

verus! {

/// `parts` joined with `sep` between consecutive elements.
pub open spec fn join(parts: Seq<Seq<char>>, sep: Seq<char>) -> Seq<char>
    decreases parts.len(),
{
    if parts.len() == 0 {
        Seq::empty()
    } else if parts.len() == 1 {
        parts[0]
    } else {
        join(parts.drop_last(), sep) + sep + parts.last()
    }
}

/// Every part appears in the joined text, preceded by the separator unless it is the first.
pub proof fn lemma_join_contains(parts: Seq<Seq<char>>, sep: Seq<char>, i: int)
    requires
        0 <= i < parts.len(),
    ensures
        exists|p: int|
            0 <= p && p + parts[i].len() <= join(parts, sep).len()
                && #[trigger] join(parts, sep).subrange(p, p + parts[i].len()) == parts[i]
                && (i == 0 ==> p == 0)
                && (i > 0 ==> p >= sep.len() && join(parts, sep).subrange(p - sep.len(), p) == sep),
    decreases parts.len(),
{
    let text = join(parts, sep);
    if parts.len() == 1 {
        let p: int = 0;
        assert(text.subrange(p, p + parts[i].len()) =~= parts[i]);
    } else if i == parts.len() - 1 {
        let pre = join(parts.drop_last(), sep);
        let p: int = (pre.len() + sep.len()) as int;
        assert(text =~= pre + sep + parts.last());
        assert(text.subrange(p, p + parts[i].len()) =~= parts[i]);
        assert(text.subrange(p - sep.len(), p) =~= sep);
    } else {
        let init = parts.drop_last();
        lemma_join_contains(init, sep, i);
        let pre = join(init, sep);
        assert(init[i] == parts[i]);
        let p = choose|p: int|
            0 <= p && p + init[i].len() <= pre.len()
                && #[trigger] pre.subrange(p, p + init[i].len()) == init[i]
                && (i == 0 ==> p == 0)
                && (i > 0 ==> p >= sep.len() && pre.subrange(p - sep.len(), p) == sep);
        assert(text =~= pre + (sep + parts.last()));
        assert(text.subrange(p, p + parts[i].len()) =~= pre.subrange(p, p + parts[i].len()));
        if i > 0 {
            assert(text.subrange(p - sep.len(), p) =~= pre.subrange(p - sep.len(), p));
        }
    }
}

/// The views of a vector of strings.
pub open spec fn string_views(parts: Seq<String>) -> Seq<Seq<char>> {
    parts.map_values(|p: String| p@)
}

/// Calls `Itertools::format` on the parts and renders the result with `format!`.
/// Trusted: the rendering writes the first part, then for each further part the
/// separator followed by that part (itertools `Format::fmt`), and `String`'s
/// `Display` writes the string unchanged.
#[verifier::external_body]
pub(crate) fn join_with_separator(parts: &Vec<String>, sep: &str) -> (joined: String)
    ensures
        joined@ == join(string_views(parts@), sep@),
{
    format!("{}", parts.iter().format(sep))
}

} // verus!
