//! The workload: counting occurrences of a target character in a line, and
//! summing counts over many lines or many partial results.

use vstd::prelude::*;
use vstd::string::StrSliceExecFns;

verus! {

/// Number of occurrences of `target` in the character sequence `s`.
pub open spec fn spec_count_char(s: Seq<char>, target: char) -> nat
    decreases s.len(),
{
    if s.len() == 0 {
        0
    } else {
        spec_count_char(s.drop_last(), target) + if s.last() == target {
            1nat
        } else {
            0nat
        }
    }
}

/// Total number of occurrences of `target` over a sequence of lines.
pub open spec fn spec_count_lines(lines: Seq<Seq<char>>, target: char) -> nat
    decreases lines.len(),
{
    if lines.len() == 0 {
        0
    } else {
        spec_count_lines(lines.drop_last(), target) + spec_count_char(lines.last(), target)
    }
}

/// Sum of a sequence of partial results, as an unbounded natural number.
pub open spec fn spec_sum(results: Seq<u64>) -> nat
    decreases results.len(),
{
    if results.len() == 0 {
        0
    } else {
        spec_sum(results.drop_last()) + results.last() as nat
    }
}

/// A natural number clamped to what a `u64` can hold.
pub open spec fn capped(n: nat) -> nat {
    if n > u64::MAX {
        u64::MAX as nat
    } else {
        n
    }
}

/// The views of a sequence of owned lines.
pub open spec fn line_views(lines: Seq<String>) -> Seq<Seq<char>> {
    lines.map_values(|l: String| l@)
}

/// Scan one line and count how often `target` occurs in it.
pub fn count_in_line(line: &str, target: char) -> (n: u64)
    ensures
        n as nat == spec_count_char(line@, target),
{
    let len: usize = line.unicode_len();
    let mut n: u64 = 0;
    let mut i: usize = 0;
    while i < len
        invariant
            i <= len,
            len == line@.len(),
            n as nat == spec_count_char(line@.take(i as int), target),
            n <= i,
        decreases len - i,
    {
        let c = line.get_char(i);
        proof {
            assert(line@.take(i + 1) =~= line@.take(i as int).push(line@[i as int]));
            assert(line@.take(i + 1).drop_last() =~= line@.take(i as int));
        }
        if c == target {
            n = n + 1;
        }
        i = i + 1;
    }
    proof {
        assert(line@.take(len as int) =~= line@);
    }
    n
}

/// Add two partial results, clamping at `u64::MAX` instead of overflowing.
pub fn saturating_add_u64(a: u64, b: u64) -> (r: u64)
    ensures
        r as nat == capped(a as nat + b as nat),
{
    if a <= u64::MAX - b {
        a + b
    } else {
        u64::MAX
    }
}

/// Sum a vector of partial results exactly: `Some` of the mathematical sum
/// whenever it fits in a `u64`, `None` exactly when it does not.
pub fn sum_results_checked(results: &Vec<u64>) -> (total: Option<u64>)
    ensures
        total matches Some(t) ==> t as nat == spec_sum(results@),
        total is Some <==> spec_sum(results@) <= u64::MAX,
{
    let mut total: u64 = 0;
    let mut i: usize = 0;
    while i < results.len()
        invariant
            i <= results@.len(),
            total as nat == spec_sum(results@.take(i as int)),
        decreases results@.len() - i,
    {
        proof {
            lemma_sum_take_step(results@, i as int);
        }
        let next: u64 = results[i];
        if total <= u64::MAX - next {
            total = total + next;
        } else {
            proof {
                lemma_sum_take_le(results@, i + 1);
            }
            return None;
        }
        i = i + 1;
    }
    proof {
        assert(results@.take(results@.len() as int) =~= results@);
    }
    Some(total)
}

/// Sum a vector of partial results, clamping the total at `u64::MAX`.
pub fn sum_results_saturating(results: &Vec<u64>) -> (total: u64)
    ensures
        total as nat == capped(spec_sum(results@)),
{
    let mut total: u64 = 0;
    let mut i: usize = 0;
    while i < results.len()
        invariant
            i <= results@.len(),
            total as nat == capped(spec_sum(results@.take(i as int))),
        decreases results@.len() - i,
    {
        proof {
            lemma_sum_take_step(results@, i as int);
        }
        total = saturating_add_u64(total, results[i]);
        i = i + 1;
    }
    proof {
        assert(results@.take(results@.len() as int) =~= results@);
    }
    total
}

/// Taking one more line adds exactly that line's count.
pub proof fn lemma_count_lines_take_step(lines: Seq<Seq<char>>, i: int, target: char)
    requires
        0 <= i < lines.len(),
    ensures
        spec_count_lines(lines.take(i + 1), target) == spec_count_lines(lines.take(i), target)
            + spec_count_char(lines[i], target),
{
    assert(lines.take(i + 1).drop_last() =~= lines.take(i));
    assert(lines.take(i + 1).last() == lines[i]);
}

/// The count over a prefix never exceeds the count over the whole sequence.
pub proof fn lemma_count_lines_take_le(lines: Seq<Seq<char>>, i: int, target: char)
    requires
        0 <= i <= lines.len(),
    ensures
        spec_count_lines(lines.take(i), target) <= spec_count_lines(lines, target),
    decreases lines.len() - i,
{
    if i == lines.len() {
        assert(lines.take(i) =~= lines);
    } else {
        lemma_count_lines_take_step(lines, i, target);
        lemma_count_lines_take_le(lines, i + 1, target);
    }
}

/// Summing one more partial result adds exactly that result.
pub proof fn lemma_sum_take_step(results: Seq<u64>, i: int)
    requires
        0 <= i < results.len(),
    ensures
        spec_sum(results.take(i + 1)) == spec_sum(results.take(i)) + results[i],
{
    assert(results.take(i + 1).drop_last() =~= results.take(i));
    assert(results.take(i + 1).last() == results[i]);
}

/// The sum over a prefix never exceeds the sum over the whole sequence.
pub proof fn lemma_sum_take_le(results: Seq<u64>, i: int)
    requires
        0 <= i <= results.len(),
    ensures
        spec_sum(results.take(i)) <= spec_sum(results),
    decreases results.len() - i,
{
    if i == results.len() {
        assert(results.take(i) =~= results);
    } else {
        lemma_sum_take_step(results, i);
        lemma_sum_take_le(results, i + 1);
    }
}

/// Every element is at most the sum of the whole sequence.
pub proof fn lemma_element_le_sum(results: Seq<u64>, w: int)
    requires
        0 <= w < results.len(),
    ensures
        results[w] <= spec_sum(results),
    decreases results.len(),
{
    if w == results.len() - 1 {
    } else {
        lemma_element_le_sum(results.drop_last(), w);
    }
}

/// Replacing one element changes the sum by the difference of the elements.
pub proof fn lemma_sum_update(results: Seq<u64>, w: int, v: u64)
    requires
        0 <= w < results.len(),
    ensures
        spec_sum(results.update(w, v)) + results[w] == spec_sum(results) + v,
    decreases results.len(),
{
    if w == results.len() - 1 {
        assert(results.update(w, v).drop_last() =~= results.drop_last());
        assert(results.update(w, v).last() == v);
    } else {
        assert(results.update(w, v).drop_last() =~= results.drop_last().update(w, v));
        assert(results.update(w, v).last() == results.last());
        lemma_sum_update(results.drop_last(), w, v);
    }
}

/// A sequence of zeros sums to zero.
pub proof fn lemma_sum_all_zero(results: Seq<u64>)
    requires
        forall|j: int| 0 <= j < results.len() ==> results[j] == 0,
    ensures
        spec_sum(results) == 0,
    decreases results.len(),
{
    if results.len() > 0 {
        lemma_sum_all_zero(results.drop_last());
    }
}

} // verus!
