//! Rendering a percentage as a bracketed bar and as a padded label.
use vstd::prelude::*;
use vstd::string::StrSliceExecFns;
use vstd::string::StringExecFns;

verus! {

/// `n` copies of `c`.
pub open spec fn repeat(c: char, n: nat) -> Seq<char> {
    Seq::new(n, |_i: int| c)
}

/// The number of filled slots of a bar of `length` slots at `value` percent.
pub open spec fn filled_slots(value: nat, length: nat) -> nat {
    value * length / 100
}

/// The bar: `[`, the filled slots as `+`, the rest as spaces, then `]`.
pub open spec fn progress_bar(value: nat, length: nat) -> Seq<char> {
    seq!['['] + repeat('+', filled_slots(value, length))
        + repeat(' ', (length - filled_slots(value, length)) as nat) + seq![']']
}

/// The decimal digit for `d < 10`.
pub open spec fn digit(d: nat) -> char {
    if d == 0 { '0' } else if d == 1 { '1' } else if d == 2 { '2' } else if d == 3 { '3' }
    else if d == 4 { '4' } else if d == 5 { '5' } else if d == 6 { '6' } else if d == 7 { '7' }
    else if d == 8 { '8' } else { '9' }
}

/// The decimal text of `n`, without leading zeros.
pub open spec fn decimal(n: nat) -> Seq<char>
    decreases n,
{
    if n < 10 { seq![digit(n)] } else { decimal(n / 10).push(digit(n % 10)) }
}

/// The number of spaces that pad the label of `value` to `width`; not
/// positive where the label is already as wide or wider.
pub open spec fn label_padding(value: nat, width: int) -> int {
    width - decimal(value).len() - 1
}

/// The label: the value's decimal text, `%`, then spaces up to `width`.
/// It is never truncated.
pub open spec fn progress_label(value: nat, width: int) -> Seq<char> {
    let base = decimal(value).push('%');
    if label_padding(value, width) > 0 {
        base + repeat(' ', label_padding(value, width) as nat)
    } else {
        base
    }
}

/// A bar is always its length plus the two brackets wide, and its filled
/// slots never outnumber its slots.
pub proof fn lemma_bar_width(value: nat, length: nat)
    requires
        value <= 100,
    ensures
        filled_slots(value, length) <= length,
        progress_bar(value, length).len() == length + 2,
{
    assert(value * length <= 100 * length) by (nonlinear_arith)
        requires
            value <= 100,
    ;
}

/// The number of filled slots never decreases as the value grows.
pub proof fn lemma_bar_monotone(low: nat, high: nat, length: nat)
    requires
        low <= high <= 100,
    ensures
        filled_slots(low, length) <= filled_slots(high, length),
{
    assert(low * length <= high * length) by (nonlinear_arith)
        requires
            low <= high,
    ;
    vstd::arithmetic::div_mod::lemma_div_is_ordered((low * length) as int, (high * length) as int, 100);
}

proof fn lemma_decimal_len(n: nat)
    ensures
        1 <= decimal(n).len() <= n + 1,
    decreases n,
{
    if n >= 10 {
        lemma_decimal_len(n / 10);
    }
}

/// Relies on `u32`'s `ToString`, which writes the value in decimal.
#[verifier::external_body]
fn decimal_string(n: u32) -> (r: String)
    ensures
        r@ == decimal(n as nat),
{
    n.to_string()
}

/// Appends `count` copies of the one-character string `unit` to `s`.
fn push_repeated(s: &mut String, unit: &str, count: u64)
    requires
        unit@.len() == 1,
    ensures
        final(s)@ == old(s)@ + repeat(unit@[0], count as nat),
{
    let mut k: u64 = 0;
    while k < count
        invariant
            unit@.len() == 1,
            k <= count,
            s@ == old(s)@ + repeat(unit@[0], k as nat),
        decreases count - k,
    {
        s.append(unit);
        k = k + 1;
        assert(s@ =~= old(s)@ + repeat(unit@[0], k as nat));
    }
}

/// Renders `progress` percent as a bar of `bar_length` slots.
pub fn get_progress_bar(progress: u32, bar_length: u32) -> (r: String)
    requires
        progress <= 100,
    ensures
        r@ == progress_bar(progress as nat, bar_length as nat),
{
    let p: u64 = progress as u64;
    let len: u64 = bar_length as u64;
    assert(p * len <= 100 * 0xffff_ffff) by (nonlinear_arith)
        requires
            p <= 100,
            len <= 0xffff_ffff,
    ;
    let filled: u64 = p * len / 100;
    assert(filled <= bar_length) by (nonlinear_arith)
        requires
            filled == p * len / 100,
            p <= 100,
            len == bar_length,
    ;
    let mut bar = String::new();
    proof {
        reveal_strlit("[");
        reveal_strlit("+");
        reveal_strlit(" ");
        reveal_strlit("]");
    }
    bar.append("[");
    push_repeated(&mut bar, "+", filled);
    push_repeated(&mut bar, " ", bar_length as u64 - filled);
    bar.append("]");
    assert(bar@ =~= progress_bar(progress as nat, bar_length as nat));
    bar
}

/// Renders `progress` as `"<progress>%"`, padded with spaces to `max_length`
/// characters where it is shorter.
pub fn pad_progress(progress: u32, max_length: u32) -> (r: String)
    ensures
        r@ == progress_label(progress as nat, max_length as int),
{
    let mut label = decimal_string(progress);
    proof {
        lemma_decimal_len(progress as nat);
        reveal_strlit("%");
        reveal_strlit(" ");
    }
    let digits = label.as_str().unicode_len();
    let padding: i64 = max_length as i64 - digits as i64 - 1;
    label.append("%");
    if padding > 0 {
        push_repeated(&mut label, " ", padding as u64);
    }
    assert(label@ =~= progress_label(progress as nat, max_length as int));
    label
}

} // verus!
