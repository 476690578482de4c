//! Numbers and lists as text.

use vstd::arithmetic::div_mod::{lemma_div_decreases, lemma_mod_bound, lemma_small_mod};
use vstd::prelude::*;
use vstd::string::{StringExecFns, StringSliceAdditionalSpecFns};

verus! {

/// The character for one digit below sixteen, in upper case.
pub open spec fn digit_char(d: nat) -> char {
    if d < 10 {
        (0x30 + d) as char
    } else {
        (0x41 + d - 10) as char
    }
}

/// The digits of `n` to the base `base`, most significant first, without
/// leading zeros; a single zero for 0.
pub open spec fn digits(n: nat, base: nat) -> Seq<char>
    decreases n,
    via digits_decreases
{
    if base < 2 || n < base {
        seq![digit_char(n)]
    } else {
        digits(n / base, base).push(digit_char(n % base))
    }
}

#[via_fn]
proof fn digits_decreases(n: nat, base: nat) {
    if base >= 2 && n >= base {
        lemma_div_decreases(n as int, base as int);
    }
}

/// The text of one digit.
fn digit_text(d: u32) -> (text: &'static str)
    requires
        d < 16,
    ensures
        text@ == seq![digit_char(d as nat)],
{
    proof {
        reveal_strlit("0");
        reveal_strlit("1");
        reveal_strlit("2");
        reveal_strlit("3");
        reveal_strlit("4");
        reveal_strlit("5");
        reveal_strlit("6");
        reveal_strlit("7");
        reveal_strlit("8");
        reveal_strlit("9");
        reveal_strlit("A");
        reveal_strlit("B");
        reveal_strlit("C");
        reveal_strlit("D");
        reveal_strlit("E");
        reveal_strlit("F");
    }
    let text = match d {
        0 => "0",
        1 => "1",
        2 => "2",
        3 => "3",
        4 => "4",
        5 => "5",
        6 => "6",
        7 => "7",
        8 => "8",
        9 => "9",
        10 => "A",
        11 => "B",
        12 => "C",
        13 => "D",
        14 => "E",
        _ => "F",
    };
    assert(text@ =~= seq![digit_char(d as nat)]);
    text
}

/// Writes `n` to the base `base` behind what `out` holds.
fn push_digits(out: &mut String, n: u32, base: u32)
    requires
        2 <= base <= 16,
    ensures
        final(out)@ == old(out)@ + digits(n as nat, base as nat),
    decreases n,
{
    proof {
        lemma_mod_bound(n as int, base as int);
    }
    if n >= base {
        proof {
            lemma_div_decreases(n as int, base as int);
        }
        push_digits(out, n / base, base);
    }
    let ghost upper = out@;
    out.append(digit_text(n % base));
    proof {
        let last = digit_char((n % base) as nat);
        if n >= base {
            assert(digits(n as nat, base as nat) == digits((n / base) as nat, base as nat).push(
                last,
            ));
            assert(out@ =~= old(out)@ + digits((n / base) as nat, base as nat).push(last));
        } else {
            lemma_small_mod(n as nat, base as nat);
            assert(digits(n as nat, base as nat) == seq![last]);
            assert(out@ =~= old(out)@ + seq![last]);
        }
    }
}

/// `n` in hexadecimal, in upper case.
pub fn hex_upper(n: u32) -> (text: String)
    ensures
        text@ == digits(n as nat, 16),
{
    let mut text = String::new();
    push_digits(&mut text, n, 16);
    assert(text@ =~= digits(n as nat, 16));
    text
}

/// `n` in decimal.
pub fn decimal(n: u32) -> (text: String)
    ensures
        text@ == digits(n as nat, 10),
{
    let mut text = String::new();
    push_digits(&mut text, n, 10);
    assert(text@ =~= digits(n as nat, 10));
    text
}

/// What each of `parts` holds.
pub open spec fn texts(parts: Seq<String>) -> Seq<Seq<char>> {
    Seq::new(parts.len(), |k: int| parts[k]@)
}

/// The parts in their order, with `sep` between each two.
pub open spec fn joined(parts: Seq<Seq<char>>, sep: Seq<char>) -> Seq<char>
    decreases parts.len(),
{
    if parts.len() == 0 {
        Seq::empty()
    } else if parts.len() == 1 {
        parts[0]
    } else {
        joined(parts.drop_last(), sep) + sep + parts.last()
    }
}

/// Joins `parts` with `sep` between each two, part by part.
pub fn join_with(parts: &Vec<String>, sep: &str) -> (text: String)
    ensures
        text@ == joined(texts(parts@), sep@),
{
    let mut text = String::new();
    let mut k: usize = 0;
    while k < parts.len()
        invariant
            k <= parts@.len(),
            text@ == joined(texts(parts@).take(k as int), sep@),
        decreases parts.len() - k,
    {
        let ghost upto = texts(parts@).take(k + 1);
        assert(upto.drop_last() =~= texts(parts@).take(k as int));
        assert(upto.last() == parts@[k as int]@);
        if k > 0 {
            text.append(sep);
        }
        text.append(parts[k].as_str());
        assert(text@ =~= joined(upto, sep@));
        k += 1;
    }
    assert(texts(parts@).take(k as int) =~= texts(parts@));
    text
}

/// The most parts, for a separator of at most `JOIN_SEP_MAX` bytes, that
/// `join` hands to itertools.
pub const JOIN_PARTS_MAX: usize = 0x0fff_ffff;

/// The longest separator, in bytes, that `join` hands to itertools.
pub const JOIN_SEP_MAX: usize = 8;

/// Calls `Itertools::join` on the parts in their order. It writes the first
/// part, then for each further part the separator and the part. Before that
/// it reserves room for as many separators as parts are left, which must not
/// be more than a string can hold.
#[verifier::external_body]
fn join_by_itertools(parts: &Vec<String>, sep: &str) -> (text: String)
    requires
        parts@.len() * sep.spec_bytes().len() <= isize::MAX,
    ensures
        text@ == joined(texts(parts@), sep@),
{
    itertools::Itertools::join(&mut parts.iter(), sep)
}

/// Joins `parts` with `sep` between each two: through itertools where the
/// room that it reserves up front is sure to fit, and part by part else.
pub fn join(parts: &Vec<String>, sep: &str) -> (text: String)
    ensures
        text@ == joined(texts(parts@), sep@),
{
    if parts.len() <= JOIN_PARTS_MAX && sep.as_bytes().len() <= JOIN_SEP_MAX {
        assert(parts@.len() * sep.spec_bytes().len() <= isize::MAX) by (nonlinear_arith)
            requires
                parts@.len() <= 0x0fff_ffff,
                sep.spec_bytes().len() <= 8,
        ;
        join_by_itertools(parts, sep)
    } else {
        join_with(parts, sep)
    }
}

} // verus!
