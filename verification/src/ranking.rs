//! Ranking of scored participants: a verified stable sort, descending by
//! score with ties broken by submission order.
//!
//! Each entry carries the index it had in the submission order, so the sort
//! key (score descending, then submission index ascending) is a strict total
//! order and the ranked sequence is uniquely determined.

use vstd::prelude::*;

verus! {

/// One participant's score, tagged with its submission position.
pub struct ScoreEntry {
    /// Account that submitted the scored portfolio.
    pub account: String,
    /// The portfolio's scaled return.
    pub score: i128,
    /// Position in submission order; unique across one ranking.
    pub submission_index: usize,
}

impl ScoreEntry {
    /// Returns a copy of this entry.
    pub fn duplicate(&self) -> (r: Self)
        ensures
            r == *self,
    {
        ScoreEntry {
            account: self.account.clone(),
            score: self.score,
            submission_index: self.submission_index,
        }
    }
}

/// Whether `a` ranks no worse than `b`: a higher score ranks first, and on
/// equal scores the earlier submission ranks first.
pub open spec fn spec_ranks_before_eq(a: ScoreEntry, b: ScoreEntry) -> bool {
    ||| a.score > b.score
    ||| (a.score == b.score && a.submission_index <= b.submission_index)
}

/// Whether a sequence is ranked: descending by score, ties in submission
/// order.
pub open spec fn spec_ranked(s: Seq<ScoreEntry>) -> bool {
    forall|i: int, j: int|
        0 <= i < j < s.len() ==> spec_ranks_before_eq(#[trigger] s[i], #[trigger] s[j])
}

/// Whether `a` ranks no worse than `b` (executable form).
fn ranks_before_eq(a: &ScoreEntry, b: &ScoreEntry) -> (r: bool)
    ensures
        r == spec_ranks_before_eq(*a, *b),
{
    a.score > b.score || (a.score == b.score && a.submission_index <= b.submission_index)
}

/// Sorts score entries into ranking order: descending by score, ties broken
/// by submission order (a stable ranking). The result holds exactly the
/// entries given.
pub fn rank_entries(entries: Vec<ScoreEntry>) -> (r: Vec<ScoreEntry>)
    ensures
        r@.to_multiset() == entries@.to_multiset(),
        r@.len() == entries@.len(),
        spec_ranked(r@),
{
    broadcast use vstd::seq_lib::group_to_multiset_ensures;

    let mut out: Vec<ScoreEntry> = Vec::new();
    let mut i: usize = 0;
    while i < entries.len()
        invariant
            i <= entries@.len(),
            out@.len() == i,
            out@.to_multiset() == entries@.take(i as int).to_multiset(),
            spec_ranked(out@),
        decreases entries@.len() - i,
    {
        let e = entries[i].duplicate();
        let mut pos: usize = 0;
        while pos < out.len() && ranks_before_eq(&out[pos], &e)
            invariant
                pos <= out@.len(),
                forall|k: int| 0 <= k < pos ==> spec_ranks_before_eq(#[trigger] out@[k], e),
            decreases out@.len() - pos,
        {
            pos += 1;
        }
        let ghost out_before = out@;
        out.insert(pos, e);
        proof {
            assert(entries@.take(i + 1) =~= entries@.take(i as int).push(entries@[i as int]));
            assert(out@ =~= out_before.insert(pos as int, e));
            lemma_insert_to_multiset(out_before, pos as int, e);
            assert(out@.to_multiset() =~= out_before.to_multiset().insert(e));
            vstd::seq_lib::to_multiset_build(entries@.take(i as int), entries@[i as int]);
            assert(entries@.take(i + 1).to_multiset() =~= entries@.take(
                i as int,
            ).to_multiset().insert(entries@[i as int]));
            assert(e == entries@[i as int]);
            assert(out@.to_multiset() =~= entries@.take(i + 1).to_multiset());
            assert forall|a: int, b: int| 0 <= a < b < out@.len() implies spec_ranks_before_eq(
                out@[a],
                out@[b],
            ) by {
                if b < pos {
                } else if a < pos && b == pos {
                } else if a < pos && b > pos {
                    assert(spec_ranks_before_eq(out_before[a], out_before[b - 1]));
                } else if a == pos {
                    assert(!spec_ranks_before_eq(out_before[b - 1], e) || pos == out_before.len());
                    if pos < out_before.len() {
                        assert(!spec_ranks_before_eq(out_before[pos as int], e));
                        if b - 1 > pos {
                            assert(spec_ranks_before_eq(out_before[pos as int], out_before[b - 1]));
                        }
                    }
                } else {
                    assert(spec_ranks_before_eq(out_before[a - 1], out_before[b - 1]));
                }
            }
        }
        i += 1;
    }
    proof {
        assert(entries@.take(entries@.len() as int) =~= entries@);
    }
    out
}

/// Inserting an element anywhere in a sequence adds exactly that element to
/// the sequence's multiset.
proof fn lemma_insert_to_multiset(s: Seq<ScoreEntry>, pos: int, e: ScoreEntry)
    requires
        0 <= pos <= s.len(),
    ensures
        s.insert(pos, e).to_multiset() =~= s.to_multiset().insert(e),
    decreases s.len() - pos,
{
    broadcast use vstd::seq_lib::group_to_multiset_ensures;

    if pos == s.len() {
        assert(s.insert(pos, e) =~= s.push(e));
    } else {
        let t = s.insert(pos, e);
        assert(t.remove(t.len() - 1) =~= s.drop_last().insert(pos, e));
        assert(t[t.len() - 1] == s.last());
        lemma_insert_to_multiset(s.drop_last(), pos, e);
        assert(t.to_multiset().remove(s.last()) =~= s.drop_last().insert(pos, e).to_multiset());
        assert(s.drop_last().push(s.last()) =~= s);
        assert(s.to_multiset() =~= s.drop_last().to_multiset().insert(s.last()));
        assert(t.to_multiset() =~= t.to_multiset().remove(s.last()).insert(s.last())) by {
            assert(t.contains(s.last())) by {
                assert(t[t.len() - 1] == s.last());
            }
            assert(t.to_multiset().count(s.last()) > 0);
        }
        assert(t.to_multiset() =~= s.drop_last().to_multiset().insert(e).insert(s.last()));
        assert(s.drop_last().to_multiset().insert(e).insert(s.last()) =~= s.drop_last().to_multiset().insert(s.last()).insert(e));
    }
}

} // verus!
