//! Line sources: splitting a text buffer into newline-delimited records and
//! yielding them one at a time, in order, each exactly once.

use vstd::prelude::*;
use vstd::string::StrSliceExecFns;
use crate::count::line_views;

verus! {

/// Index of the first newline in `s`, or `s.len()` if there is none.
pub open spec fn first_newline(s: Seq<char>) -> nat
    decreases s.len(),
{
    if s.len() == 0 {
        0
    } else if s[0] == '\n' {
        0
    } else {
        first_newline(s.drop_first()) + 1
    }
}

/// The records of a text buffer: the maximal newline-free segments between
/// newline characters. A trailing newline closes the last record; text after
/// the last newline forms one final record; the empty buffer has no records.
pub open spec fn spec_split_lines(s: Seq<char>) -> Seq<Seq<char>>
    decreases s.len(),
{
    if s.len() == 0 {
        Seq::empty()
    } else {
        let k = first_newline(s);
        if k >= s.len() {
            seq![s]
        } else {
            seq![s.take(k as int)] + spec_split_lines(s.skip(k as int + 1))
        }
    }
}

/// `first_newline` is pinned down by a newline-free prefix: if nothing before
/// position `k` is a newline, and `k` is a newline or the end, then `k` is it.
pub proof fn lemma_first_newline_at(s: Seq<char>, k: int)
    requires
        0 <= k <= s.len(),
        forall|j: int| 0 <= j < k ==> s[j] != '\n',
        k < s.len() ==> s[k] == '\n',
    ensures
        first_newline(s) == k,
    decreases k,
{
    if k == 0 {
    } else {
        assert(s[0] != '\n');
        let t = s.drop_first();
        assert forall|j: int| 0 <= j < k - 1 implies t[j] != '\n' by {
            assert(t[j] == s[j + 1]);
        }
        assert(k - 1 < t.len() ==> t[k - 1] == s[k]);
        lemma_first_newline_at(t, k - 1);
    }
}

/// Split a text buffer into its newline-delimited records.
pub fn split_lines(text: &str) -> (lines: Vec<String>)
    ensures
        line_views(lines@) == spec_split_lines(text@),
{
    let n: usize = text.unicode_len();
    let mut out: Vec<String> = Vec::new();
    let mut start: usize = 0;
    let mut i: usize = 0;
    proof {
        assert(text@.skip(0) =~= text@);
        assert(line_views(out@) + spec_split_lines(text@) =~= spec_split_lines(text@));
    }
    while i < n
        invariant
            start <= i <= n,
            n == text@.len(),
            forall|j: int| start <= j < i ==> text@[j] != '\n',
            spec_split_lines(text@) == line_views(out@) + spec_split_lines(
                text@.skip(start as int),
            ),
        decreases n - i,
    {
        let c = text.get_char(i);
        if c == '\n' {
            let line = text.substring_char(start, i).to_owned();
            proof {
                let t = text@.skip(start as int);
                assert forall|j: int| 0 <= j < i - start implies t[j] != '\n' by {
                    assert(t[j] == text@[start + j]);
                }
                assert(t[i - start] == text@[i as int]);
                lemma_first_newline_at(t, i - start);
                assert(t.take(i - start) =~= text@.subrange(start as int, i as int));
                assert(t.skip(i - start + 1) =~= text@.skip(i + 1));
                assert(spec_split_lines(t) == seq![line@] + spec_split_lines(text@.skip(i + 1)));
                assert(line_views(out@.push(line)) =~= line_views(out@).push(line@));
                assert(line_views(out@) + spec_split_lines(t) =~= line_views(out@.push(line))
                    + spec_split_lines(text@.skip(i + 1)));
            }
            out.push(line);
            start = i + 1;
        }
        i = i + 1;
    }
    if start < n {
        let line = text.substring_char(start, n).to_owned();
        proof {
            let t = text@.skip(start as int);
            assert forall|j: int| 0 <= j < n - start implies t[j] != '\n' by {
                assert(t[j] == text@[start + j]);
            }
            lemma_first_newline_at(t, n - start);
            assert(t =~= text@.subrange(start as int, n as int));
            assert(spec_split_lines(t) == seq![line@]);
            assert(line_views(out@.push(line)) =~= line_views(out@).push(line@));
            assert(line_views(out@.push(line)) =~= line_views(out@) + seq![line@]);
        }
        out.push(line);
    } else {
        proof {
            assert(text@.skip(start as int) =~= Seq::<char>::empty());
            assert(line_views(out@) + spec_split_lines(text@.skip(start as int)) =~= line_views(
                out@,
            ));
        }
    }
    out
}

/// A pre-materialized, single-pass source of lines: yields the records of its
/// dataset in original order, each exactly once, then reports exhaustion.
pub struct MemoryLineSource {
    lines: Vec<String>,
    pos: usize,
}

impl MemoryLineSource {
    #[verifier::type_invariant]
    spec fn wf(self) -> bool {
        self.pos <= self.lines@.len()
    }

    /// The full ordered sequence of records this source was built from.
    pub closed spec fn spec_records(self) -> Seq<Seq<char>> {
        line_views(self.lines@)
    }

    /// How many records have already been yielded.
    pub closed spec fn spec_pos(self) -> nat {
        self.pos as nat
    }

    /// Build a source over an already-split dataset.
    pub fn from_lines(lines: Vec<String>) -> (src: Self)
        ensures
            src.spec_records() == line_views(lines@),
            src.spec_pos() == 0,
    {
        MemoryLineSource { lines, pos: 0 }
    }

    /// Build a source by splitting a whole text buffer into records.
    pub fn from_text(text: &str) -> (src: Self)
        ensures
            src.spec_records() == spec_split_lines(text@),
            src.spec_pos() == 0,
    {
        let lines = split_lines(text);
        MemoryLineSource { lines, pos: 0 }
    }

    /// Total number of records in the underlying dataset.
    pub fn num_lines(&self) -> (n: usize)
        ensures
            n as nat == self.spec_records().len(),
    {
        self.lines.len()
    }

    /// Yield the next record in original order, or `None` once exhausted.
    pub fn next(&mut self) -> (r: Option<String>)
        ensures
            final(self).spec_records() == old(self).spec_records(),
            old(self).spec_pos() < old(self).spec_records().len() ==> (r matches Some(line)
                && line@ == old(self).spec_records()[old(self).spec_pos() as int]
                && final(self).spec_pos() == old(self).spec_pos() + 1),
            old(self).spec_pos() >= old(self).spec_records().len() ==> (r is None
                && final(self).spec_pos() == old(self).spec_pos()),
    {
        proof {
            use_type_invariant(&*self);
        }
        if self.pos < self.lines.len() {
            let line = self.lines[self.pos].clone();
            self.pos = self.pos + 1;
            Some(line)
        } else {
            None
        }
    }
}

} // verus!
