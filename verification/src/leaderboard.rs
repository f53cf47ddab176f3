//! The leaderboard: a score table ranked by score, highest first, in which
//! a submission falls behind every entry that ties or beats it, and an
//! entry is dropped when the entry ranked directly above it belongs to the
//! same player.

use vstd::prelude::*;

verus! {

/// One submitted score.
#[derive(Clone, Debug)]
pub struct Score {
    pub player: String,
    pub score: u32,
}

/// Where a stable descending sort puts `x` after appending it to the ranked
/// list `s`: behind every entry whose score is at least `x`'s.
pub open spec fn ranked_insert(s: Seq<Score>, x: Score) -> Seq<Score>
    decreases s.len(),
{
    if s.len() == 0 {
        seq![x]
    } else if s[0].score >= x.score {
        seq![s[0]] + ranked_insert(s.skip(1), x)
    } else {
        seq![x] + s
    }
}

/// `s` scanned left to right after an already-kept entry `prev`: an entry
/// by the same player as the one last kept is dropped, any other is kept.
pub open spec fn dedup_from(prev: Score, s: Seq<Score>) -> Seq<Score>
    decreases s.len(),
{
    if s.len() == 0 {
        s
    } else if s[0].player@ == prev.player@ {
        dedup_from(prev, s.skip(1))
    } else {
        seq![s[0]] + dedup_from(s[0], s.skip(1))
    }
}

/// `s` with every run of consecutive entries by one player collapsed to its
/// first — the highest-ranked — entry.
pub open spec fn dedup_players(s: Seq<Score>) -> Seq<Score> {
    if s.len() == 0 {
        s
    } else {
        seq![s[0]] + dedup_from(s[0], s.skip(1))
    }
}

/// What one submission does to the table: rank the new score in, then
/// collapse consecutive same-player entries.
pub open spec fn submitted(s: Seq<Score>, x: Score) -> Seq<Score> {
    dedup_players(ranked_insert(s, x))
}

/// Entries are ranked: scores never increase from one entry to the next.
pub open spec fn sorted_by_score(s: Seq<Score>) -> bool {
    forall|i: int, j: int| 0 <= i < j < s.len() ==> s[i].score >= s[j].score
}

/// No entry sits directly under another entry by the same player.
pub open spec fn players_separated(s: Seq<Score>) -> bool {
    forall|i: int| 0 <= i < s.len() - 1 ==> (#[trigger] s[i]).player@ != s[i + 1].player@
}

/// Ranked insertion keeps any upper bound on the scores, and grows the
/// table by one.
proof fn lemma_ranked_insert_bounded(s: Seq<Score>, x: Score, b: int)
    requires
        forall|i: int| 0 <= i < s.len() ==> s[i].score <= b,
        x.score <= b,
    ensures
        ranked_insert(s, x).len() == s.len() + 1,
        forall|i: int| 0 <= i < ranked_insert(s, x).len() ==> ranked_insert(s, x)[i].score <= b,
    decreases s.len(),
{
    if s.len() == 0 {
    } else if s[0].score >= x.score {
        lemma_ranked_insert_bounded(s.skip(1), x, b);
    } else {
    }
}

/// Ranked insertion keeps the table sorted.
proof fn lemma_ranked_insert_sorted(s: Seq<Score>, x: Score)
    requires
        sorted_by_score(s),
    ensures
        sorted_by_score(ranked_insert(s, x)),
    decreases s.len(),
{
    if s.len() == 0 {
    } else if s[0].score >= x.score {
        assert(sorted_by_score(s.skip(1)));
        lemma_ranked_insert_sorted(s.skip(1), x);
        lemma_ranked_insert_bounded(s.skip(1), x, s[0].score as int);
        let r = ranked_insert(s, x);
        let t = ranked_insert(s.skip(1), x);
        assert forall|i: int, j: int| 0 <= i < j < r.len() implies r[i].score >= r[j].score by {
            if i > 0 {
                assert(r[i] == t[i - 1] && r[j] == t[j - 1]);
            } else {
                assert(r[j] == t[j - 1]);
            }
        }
    } else {
    }
}

/// The collapse keeps the table sorted and bounded by its first entry,
/// leaves no two consecutive entries by one player, and never starts with
/// the player already kept.
proof fn lemma_dedup_from_props(prev: Score, s: Seq<Score>)
    requires
        sorted_by_score(s),
    ensures
        sorted_by_score(dedup_from(prev, s)),
        players_separated(dedup_from(prev, s)),
        dedup_from(prev, s).len() > 0 ==> dedup_from(prev, s)[0].player@ != prev.player@,
        s.len() > 0 ==> forall|i: int|
            0 <= i < dedup_from(prev, s).len() ==> dedup_from(prev, s)[i].score <= s[0].score,
    decreases s.len(),
{
    if s.len() == 0 {
    } else {
        assert(sorted_by_score(s.skip(1)));
        if s[0].player@ == prev.player@ {
            lemma_dedup_from_props(prev, s.skip(1));
        } else {
            lemma_dedup_from_props(s[0], s.skip(1));
            let t = dedup_from(s[0], s.skip(1));
            let r = dedup_from(prev, s);
            assert(r == seq![s[0]] + t);
            assert forall|i: int, j: int| 0 <= i < j < r.len() implies r[i].score >= r[j].score by {
                if i > 0 {
                    assert(r[i] == t[i - 1] && r[j] == t[j - 1]);
                } else {
                    assert(r[j] == t[j - 1]);
                    if s.skip(1).len() > 0 {
                        assert(t[j - 1].score <= s.skip(1)[0].score);
                    }
                }
            }
            assert forall|i: int| 0 <= i < r.len() - 1 implies (#[trigger] r[i]).player@ != r[i + 1].player@ by {
                if i > 0 {
                    assert(r[i] == t[i - 1] && r[i + 1] == t[i]);
                } else {
                    assert(r[1] == t[0]);
                }
            }
        }
    }
}

/// A sorted table stays sorted through a submission, and afterward no two
/// consecutive entries belong to one player. Since a leaderboard starts
/// empty and changes only by submissions, its entries always look so.
pub proof fn lemma_submitted_ranked(s: Seq<Score>, x: Score)
    requires
        sorted_by_score(s),
    ensures
        sorted_by_score(submitted(s, x)),
        players_separated(submitted(s, x)),
{
    lemma_ranked_insert_sorted(s, x);
    lemma_ranked_insert_bounded(s, x, u32::MAX as int);
    let r = ranked_insert(s, x);
    assert(r.len() > 0);
    assert(sorted_by_score(r.skip(1)));
    lemma_dedup_from_props(r[0], r.skip(1));
    let t = dedup_from(r[0], r.skip(1));
    let d = submitted(s, x);
    assert(d == seq![r[0]] + t);
    assert forall|i: int, j: int| 0 <= i < j < d.len() implies d[i].score >= d[j].score by {
        if i > 0 {
            assert(d[i] == t[i - 1] && d[j] == t[j - 1]);
        } else {
            assert(d[j] == t[j - 1]);
            if r.skip(1).len() > 0 {
                assert(t[j - 1].score <= r.skip(1)[0].score);
            }
        }
    }
    assert forall|i: int| 0 <= i < d.len() - 1 implies (#[trigger] d[i]).player@ != d[i + 1].player@ by {
        if i > 0 {
            assert(d[i] == t[i - 1] && d[i + 1] == t[i]);
        } else {
            assert(d[1] == t[0]);
        }
    }
}

/// Inserting at the first position whose score is below `x`'s is exactly
/// [`ranked_insert`].
proof fn lemma_ranked_insert_at(s: Seq<Score>, x: Score, i: int)
    requires
        0 <= i <= s.len(),
        forall|j: int| 0 <= j < i ==> s[j].score >= x.score,
        i < s.len() ==> s[i].score < x.score,
    ensures
        ranked_insert(s, x) == s.insert(i, x),
    decreases i,
{
    if i == 0 {
        if s.len() == 0 {
            assert(ranked_insert(s, x) =~= s.insert(0, x));
        } else {
            assert(ranked_insert(s, x) =~= s.insert(0, x));
        }
    } else {
        assert(s[0].score >= x.score);
        lemma_ranked_insert_at(s.skip(1), x, i - 1);
        assert(seq![s[0]] + s.skip(1).insert(i - 1, x) =~= s.insert(i, x));
    }
}

/// The ranked score table. Only submissions change it, so it is always
/// sorted by score descending with no two consecutive entries by one
/// player.
pub struct Leaderboard {
    scores: Vec<Score>,
}

impl View for Leaderboard {
    type V = Seq<Score>;

    closed spec fn view(&self) -> Seq<Score> {
        self.scores@
    }
}

impl Leaderboard {
    /// An empty table.
    pub fn new() -> (lb: Leaderboard)
        ensures
            lb@ == Seq::<Score>::empty(),
    {
        Leaderboard { scores: Vec::new() }
    }

    /// The ranked entries, highest score first.
    pub fn entries(&self) -> (r: &Vec<Score>)
        ensures
            r@ == self@,
    {
        &self.scores
    }

    /// Takes one submission: the new score is ranked behind every entry
    /// that ties or beats it, and then every entry ranked directly below
    /// another entry by the same player is dropped.
    pub fn submit(&mut self, new_score: Score)
        ensures
            final(self)@ == submitted(old(self)@, new_score),
            sorted_by_score(old(self)@) ==> sorted_by_score(final(self)@) && players_separated(
                final(self)@,
            ),
    {
        proof {
            if sorted_by_score(self.scores@) {
                lemma_submitted_ranked(self.scores@, new_score);
            }
        }
        let ghost original = self.scores@;
        let n = self.scores.len();
        let mut i: usize = 0;
        while i < n && self.scores[i].score >= new_score.score
            invariant
                n == self.scores@.len(),
                self.scores@ == original,
                i <= n,
                forall|j: int| 0 <= j < i ==> original[j].score >= new_score.score,
            decreases n - i,
        {
            i = i + 1;
        }
        proof {
            lemma_ranked_insert_at(original, new_score, i as int);
        }
        self.scores.insert(i, new_score);
        let ghost ranked = self.scores@;
        proof {
            assert(ranked =~= ranked_insert(original, new_score));
        }
        let mut src: Vec<Score> = Vec::new();
        core::mem::swap(&mut src, &mut self.scores);
        proof {
            assert(src@ == ranked);
            assert(self.scores@ =~= Seq::<Score>::empty());
        }
        while src.len() > 0
            invariant
                self.scores@.len() == 0 ==> src@ == ranked,
                self.scores@.len() > 0 ==> dedup_players(ranked) == self.scores@ + dedup_from(
                    self.scores@.last(),
                    src@,
                ),
            decreases src.len(),
        {
            let ghost src_before = src@;
            let cur = src.remove(0);
            proof {
                assert(src@ =~= src_before.skip(1));
            }
            if self.scores.len() == 0 {
                self.scores.push(cur);
                proof {
                    assert(self.scores@ =~= seq![cur]);
                    assert(dedup_players(ranked) == seq![cur] + dedup_from(cur, src@));
                }
            } else {
                let last = self.scores.len() - 1;
                let ghost kept = self.scores@;
                if self.scores[last].player == cur.player {
                    proof {
                        assert(dedup_from(kept.last(), src_before) == dedup_from(
                            kept.last(),
                            src@,
                        ));
                    }
                } else {
                    self.scores.push(cur);
                    proof {
                        assert(dedup_from(kept.last(), src_before) == seq![cur] + dedup_from(
                            cur,
                            src@,
                        ));
                        assert(kept + (seq![cur] + dedup_from(cur, src@)) =~= self.scores@
                            + dedup_from(self.scores@.last(), src@));
                    }
                }
            }
        }
        proof {
            if self.scores@.len() == 0 {
                assert(ranked =~= Seq::<Score>::empty());
            } else {
                assert(self.scores@ + dedup_from(self.scores@.last(), src@) =~= self.scores@);
            }
        }
    }
}

} // verus!
