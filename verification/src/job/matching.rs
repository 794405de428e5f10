//! Picks, among the hits of a rating search, the one closest to a title.

use crate::job::movies::RTHit;
use itertools::Itertools;
use std::cmp::Ordering;
use vstd::prelude::*;
use vstd::string::*;

verus! {

/// The smallest of three numbers.
pub open spec fn min3(a: nat, b: nat, c: nat) -> nat {
    if a <= b && a <= c {
        a
    } else if b <= c {
        b
    } else {
        c
    }
}

/// The least number of single-character insertions, deletions and
/// substitutions that turn `a` into `b`.
pub open spec fn edit_distance(a: Seq<char>, b: Seq<char>) -> nat
    decreases a.len() + b.len(),
{
    if a.len() == 0 {
        b.len()
    } else if b.len() == 0 {
        a.len()
    } else {
        let substitute: nat = if a.last() == b.last() { 0 } else { 1 };
        min3(
            edit_distance(a.drop_last(), b.drop_last()) + substitute,
            edit_distance(a.drop_last(), b) + 1,
            edit_distance(a, b.drop_last()) + 1,
        )
    }
}

/// A text is at distance zero from itself.
pub proof fn lemma_edit_distance_same(a: Seq<char>)
    ensures
        edit_distance(a, a) == 0,
    decreases a.len(),
{
    if a.len() > 0 {
        lemma_edit_distance_same(a.drop_last());
    }
}

/// The distance never exceeds the length of the longer text.
pub proof fn lemma_edit_distance_bounded(a: Seq<char>, b: Seq<char>)
    ensures
        edit_distance(a, b) <= a.len() || edit_distance(a, b) <= b.len(),
    decreases a.len() + b.len(),
{
    if a.len() > 0 && b.len() > 0 {
        lemma_edit_distance_bounded(a.drop_last(), b.drop_last());
    }
}

/// How far a candidate is from what was asked for, as an exact fraction:
/// a tenth for every year between the two release years, plus the edit
/// distance of the two titles divided by the length of the longer one.
/// A lower score is a better match.
#[derive(Clone, Copy, Debug)]
pub struct Score {
    /// Years between the two release years; zero unless both are known.
    pub year_gap: u32,
    /// Edit distance between the two titles, in characters.
    pub distance: usize,
    /// Length, in characters, of the longer of the two titles.
    pub length: usize,
}

/// The mathematical value of a [`Score`].
pub struct ScoreView {
    pub year_gap: nat,
    pub distance: nat,
    pub length: nat,
}

impl ScoreView {
    /// The length that the distance is divided by; one where both titles are
    /// empty, so that their distance counts as zero.
    pub open spec fn span(self) -> int {
        if self.length == 0 {
            1
        } else {
            self.length as int
        }
    }

    /// Numerator of the score over [`Self::denominator`].
    pub open spec fn numerator(self) -> int {
        self.year_gap * self.span() + 10 * self.distance
    }

    /// Denominator of the score; always positive.
    pub open spec fn denominator(self) -> int {
        10 * self.span()
    }

    /// Strictly lower, as fractions.
    pub open spec fn lt(self, other: ScoreView) -> bool {
        self.numerator() * other.denominator() < other.numerator() * self.denominator()
    }

    /// Neither is lower than the other.
    pub open spec fn ties(self, other: ScoreView) -> bool {
        !self.lt(other) && !other.lt(self)
    }

    /// The title part lies between zero and one.
    pub open spec fn wf(self) -> bool {
        self.distance <= self.length
    }
}

impl View for Score {
    type V = ScoreView;

    open spec fn view(&self) -> ScoreView {
        ScoreView {
            year_gap: self.year_gap as nat,
            distance: self.distance as nat,
            length: self.length as nat,
        }
    }
}

/// Comparing `w1 + x / p` with `w2 + y / p` goes by the whole parts first.
proof fn lemma_mixed_compare(w1: int, x: int, w2: int, y: int, p: int)
    requires
        p > 0,
        0 <= x < p,
        0 <= y < p,
    ensures
        (w1 * p + x < w2 * p + y) <==> (w1 < w2 || (w1 == w2 && x < y)),
{
    if w1 < w2 {
        assert(w1 * p + p <= w2 * p) by (nonlinear_arith)
            requires
                w1 + 1 <= w2,
                p > 0,
        ;
    } else if w1 > w2 {
        assert(w2 * p + p <= w1 * p) by (nonlinear_arith)
            requires
                w2 + 1 <= w1,
                p > 0,
        ;
    }
}

impl Score {
    /// Ten times the title part, split into whole tenths and a remainder over
    /// the span.
    fn tenths(&self) -> (parts: (u128, u128, u128))
        ensures
            parts.2 == self@.span(),
            parts.1 < parts.2,
            parts.0 * parts.2 + parts.1 == self@.numerator(),
            parts.0 <= u32::MAX + 10 * usize::MAX,
    {
        let span: u128 = if self.length == 0 {
            1
        } else {
            self.length as u128
        };
        let scaled: u128 = 10 * (self.distance as u128);
        let whole: u128 = scaled / span;
        let rest: u128 = scaled % span;
        proof {
            assert(scaled == span * whole + rest) by {
                vstd::arithmetic::div_mod::lemma_fundamental_div_mod(scaled as int, span as int);
            }
            assert(whole <= scaled) by {
                vstd::arithmetic::div_mod::lemma_div_is_ordered_by_denominator(
                    scaled as int,
                    1,
                    span as int,
                );
            }
            assert((self.year_gap as int + whole as int) * span == self.year_gap * span + whole
                * span) by (nonlinear_arith);
        }
        (self.year_gap as u128 + whole, rest, span)
    }

    /// Whether this score is strictly lower than `other`.
    pub fn less_than(&self, other: &Score) -> (lower: bool)
        ensures
            lower == self@.lt(other@),
    {
        let (w1, r1, m1) = self.tenths();
        let (w2, r2, m2) = other.tenths();
        proof {
            let p = m1 as int * m2 as int;
            let x = r1 as int * m2 as int;
            let y = r2 as int * m1 as int;
            assert(p > 0 && 0 <= x < p && 0 <= y < p && x <= u128::MAX && y <= u128::MAX) by (
                nonlinear_arith)
                requires
                    0 < m1 <= usize::MAX,
                    0 < m2 <= usize::MAX,
                    0 <= r1 < m1,
                    0 <= r2 < m2,
                    p == m1 as int * m2 as int,
                    x == r1 as int * m2 as int,
                    y == r2 as int * m1 as int,
            ;
            lemma_mixed_compare(w1 as int, x, w2 as int, y, p);
            let n1 = self@.numerator();
            let n2 = other@.numerator();
            assert(n1 * m2 == w1 * p + x) by (nonlinear_arith)
                requires
                    n1 == w1 * m1 + r1,
                    p == m1 as int * m2 as int,
                    x == r1 as int * m2 as int,
            ;
            assert(n2 * m1 == w2 * p + y) by (nonlinear_arith)
                requires
                    n2 == w2 * m2 + r2,
                    p == m1 as int * m2 as int,
                    y == r2 as int * m1 as int,
            ;
            assert(n1 * (10 * m2) == 10 * (n1 * m2)) by (nonlinear_arith);
            assert(n2 * (10 * m1) == 10 * (n2 * m1)) by (nonlinear_arith);
        }
        w1 < w2 || (w1 == w2 && r1 * m2 < r2 * m1)
    }

    /// How this score stands to `other`: `Less` where it is strictly lower,
    /// `Greater` where `other` is, `Equal` where they tie.
    pub fn order(&self, other: &Score) -> (o: Ordering)
        ensures
            (o == Ordering::Less) == self@.lt(other@),
            (o == Ordering::Greater) == other@.lt(self@),
    {
        if self.less_than(other) {
            Ordering::Less
        } else if other.less_than(self) {
            Ordering::Greater
        } else {
            Ordering::Equal
        }
    }
}

/// Years between two release years, zero unless both are known.
pub open spec fn year_gap(a: Option<i32>, b: Option<i32>) -> nat {
    match (a, b) {
        (Some(x), Some(y)) => if x >= y {
            (x - y) as nat
        } else {
            (y - x) as nat
        },
        _ => 0,
    }
}

/// The score of a candidate with the given title and release year against
/// the title and year that were asked for.
pub open spec fn score_of(
    title: Seq<char>,
    year: Option<i32>,
    hit_title: Seq<char>,
    hit_year: Option<i32>,
) -> ScoreView {
    ScoreView {
        year_gap: year_gap(hit_year, year),
        distance: edit_distance(title, hit_title),
        length: if title.len() >= hit_title.len() {
            title.len()
        } else {
            hit_title.len()
        },
    }
}

/// The scores of all candidates, in their order.
pub open spec fn scores_of(hits: Seq<RTHit>, title: Seq<char>, year: Option<i32>) -> Seq<
    ScoreView,
> {
    Seq::new(hits.len(), |i: int| score_of(title, year, hits[i].title@, hits[i].release_year))
}

/// Position `i` holds the lowest score, and no earlier position ties with it.
pub open spec fn is_first_minimum(scores: Seq<ScoreView>, i: int) -> bool {
    &&& 0 <= i < scores.len()
    &&& forall|j: int| 0 <= j < scores.len() ==> !(#[trigger] scores[j]).lt(scores[i])
    &&& forall|j: int| 0 <= j < i ==> scores[i].lt(#[trigger] scores[j])
}

/// What [`best_rt_hit`] returns for the given candidates: nothing where there
/// are none, else the first of the candidates with the lowest score, with
/// that score.
pub open spec fn is_best_match(
    hits: Seq<RTHit>,
    title: Seq<char>,
    year: Option<i32>,
    best: Option<(RTHit, Score)>,
) -> bool {
    match best {
        None => hits.len() == 0,
        Some((hit, score)) => exists|i: int|
            {
                &&& #[trigger] is_first_minimum(scores_of(hits, title, year), i)
                &&& hit == hits[i]
                &&& score@ == scores_of(hits, title, year)[i]
            },
    }
}

/// `out` holds the items of `inp` in ascending order of score, items of equal
/// score in the order they had in `inp`: `to[i]` is the place in `inp` of the
/// item at place `i` of `out`, and `back` undoes `to`.
pub open spec fn stable_sort_by(
    inp: Seq<(RTHit, Score)>,
    out: Seq<(RTHit, Score)>,
    to: Seq<int>,
    back: Seq<int>,
) -> bool {
    &&& out.len() == inp.len()
    &&& to.len() == inp.len()
    &&& back.len() == inp.len()
    &&& forall|i: int|
        0 <= i < out.len() ==> 0 <= #[trigger] to[i] < inp.len() && out[i] == inp[to[i]]
            && back[to[i]] == i
    &&& forall|k: int| 0 <= k < inp.len() ==> 0 <= #[trigger] back[k] < out.len() && to[back[k]] == k
    &&& forall|i: int, j: int|
        0 <= i < j < out.len() ==> (#[trigger] out[i]).1@.lt((#[trigger] out[j]).1@) || (out[i].1@.ties(
            out[j].1@,
        ) && to[i] < to[j])
}

/// `out` is `inp` sorted by score, ascending and stable.
pub open spec fn stably_sorted(inp: Seq<(RTHit, Score)>, out: Seq<(RTHit, Score)>) -> bool {
    exists|to: Seq<int>, back: Seq<int>| stable_sort_by(inp, out, to, back)
}

/// Calls `strsim::levenshtein`, which is documented to return the minimum
/// number of insertions, deletions and substitutions that change one string
/// into the other; it counts in characters. The contract claims that number,
/// as [`edit_distance`] defines it. Nothing here proves it.
#[verifier::external_body]
fn levenshtein(a: &str, b: &str) -> (distance: usize)
    ensures
        distance == edit_distance(a@, b@),
{
    strsim::levenshtein(a, b)
}

/// Calls `itertools::Itertools::sorted_by` with [`Score::order`] on the
/// scores. The method collects the items and sorts them with
/// `slice::sort_by`, which is stable and sorts by any comparison that is a
/// total order; [`Score::order`] is one, see [`lemma_lt_transitive`] and
/// [`lemma_ties_transitive`]. The contract claims what that documentation
/// says: the result holds the items of the input, in ascending order of
/// score, items of equal score in the order they came in. Nothing here
/// proves it.
#[verifier::external_body]
fn sorted_by_score(scored: Vec<(RTHit, Score)>) -> (ranked: Vec<(RTHit, Score)>)
    ensures
        stably_sorted(scored@, ranked@),
{
    scored.into_iter().sorted_by(|a, b| a.1.order(&b.1)).collect()
}

/// Years between two release years, zero unless both are known.
fn year_distance(a: Option<i32>, b: Option<i32>) -> (gap: u32)
    ensures
        gap == year_gap(a, b),
{
    match (a, b) {
        (Some(x), Some(y)) => {
            let wide: i64 = if x >= y {
                x as i64 - y as i64
            } else {
                y as i64 - x as i64
            };
            wide as u32
        },
        _ => 0,
    }
}

/// Scores one candidate against the title and year asked for.
fn score_hit(hit: &RTHit, title: &str, year: Option<i32>) -> (score: Score)
    ensures
        score@ == score_of(title@, year, hit.title@, hit.release_year),
        score@.wf(),
{
    let distance = levenshtein(title, hit.title.as_str());
    let asked = title.unicode_len();
    let found = hit.title.as_str().unicode_len();
    proof {
        lemma_edit_distance_bounded(title@, hit.title@);
    }
    Score {
        year_gap: year_distance(hit.release_year, year),
        distance,
        length: if asked >= found {
            asked
        } else {
            found
        },
    }
}

/// The head of a stable sort is the first minimum of what was sorted.
proof fn lemma_head_of_stable_sort(
    inp: Seq<(RTHit, Score)>,
    out: Seq<(RTHit, Score)>,
    to: Seq<int>,
    back: Seq<int>,
)
    requires
        stable_sort_by(inp, out, to, back),
        inp.len() > 0,
    ensures
        0 <= to[0] < inp.len(),
        out[0] == inp[to[0]],
        is_first_minimum(Seq::new(inp.len(), |k: int| inp[k].1@), to[0]),
{
    let scores = Seq::new(inp.len(), |k: int| inp[k].1@);
    let first = to[0];
    assert forall|j: int| 0 <= j < scores.len() implies !(#[trigger] scores[j]).lt(
        scores[first],
    ) by {
        // The item at `j` went to some place of `out`, at or behind the head.
        let at = back[j];
        assert(to[at] == j);
        if at != 0 {
            assert(out[0].1@.lt(out[at].1@) || out[0].1@.ties(out[at].1@));
        }
    }
    assert forall|j: int| 0 <= j < first implies scores[first].lt(#[trigger] scores[j]) by {
        // An earlier item that tied with the head would have stayed before it.
        let at = back[j];
        assert(to[at] == j && at != 0);
        assert(out[0].1@.lt(out[at].1@) || to[0] < to[at]);
    }
}

/// The candidate that matches `title` and `year` best, with its score:
/// the one with the lowest score, the earliest of them where several tie.
/// No candidates give no match. Any score is accepted, however poor.
pub fn best_rt_hit(hits: Vec<RTHit>, title: String, year: Option<i32>) -> (best: Option<
    (RTHit, Score),
>)
    ensures
        is_best_match(hits@, title@, year, best),
        best matches Some(found) ==> found.1@.wf(),
{
    let ghost all = hits@;
    let ghost scores = scores_of(all, title@, year);
    let mut scored: Vec<(RTHit, Score)> = Vec::new();
    for hit in it: hits
        invariant
            it.seq() == all,
            scores == scores_of(all, title@, year),
            scored@.len() == it.index(),
            forall|k: int|
                0 <= k < scored@.len() ==> (#[trigger] scored@[k]).0 == all[k] && scored@[k].1@
                    == scores[k] && scored@[k].1@.wf(),
    {
        let score = score_hit(&hit, title.as_str(), year);
        scored.push((hit, score));
    }
    let mut ranked = sorted_by_score(scored);
    if ranked.len() == 0 {
        None
    } else {
        proof {
            let (to, back) = choose|to: Seq<int>, back: Seq<int>|
                stable_sort_by(scored@, ranked@, to, back);
            lemma_head_of_stable_sort(scored@, ranked@, to, back);
            assert(Seq::new(scored@.len(), |k: int| scored@[k].1@) =~= scores);
        }
        Some(ranked.remove(0))
    }
}

/// The order of scores is transitive: lower than something lower is lower.
pub proof fn lemma_lt_transitive(a: ScoreView, b: ScoreView, c: ScoreView)
    requires
        a.lt(b),
        b.lt(c),
    ensures
        a.lt(c),
{
    let (na, nb, nc) = (a.numerator(), b.numerator(), c.numerator());
    let (da, db, dc) = (a.denominator(), b.denominator(), c.denominator());
    assert(na * dc < nc * da) by (nonlinear_arith)
        requires
            na * db < nb * da,
            nb * dc < nc * db,
            da > 0,
            db > 0,
            dc > 0,
    ;
}

/// Ties are transitive, so scores that tie form classes that `lt` orders.
pub proof fn lemma_ties_transitive(a: ScoreView, b: ScoreView, c: ScoreView)
    requires
        a.ties(b),
        b.ties(c),
    ensures
        a.ties(c),
{
    let (na, nb, nc) = (a.numerator(), b.numerator(), c.numerator());
    let (da, db, dc) = (a.denominator(), b.denominator(), c.denominator());
    assert(na * dc == nc * da) by (nonlinear_arith)
        requires
            na * db == nb * da,
            nb * dc == nc * db,
            da > 0,
            db > 0,
            dc > 0,
    ;
}

/// The match is determined by the candidates, the title and the year: any
/// two outcomes that [`best_rt_hit`] may give for them are the same.
pub proof fn lemma_best_match_unique(
    hits: Seq<RTHit>,
    title: Seq<char>,
    year: Option<i32>,
    first: Option<(RTHit, Score)>,
    second: Option<(RTHit, Score)>,
)
    requires
        is_best_match(hits, title, year, first),
        is_best_match(hits, title, year, second),
    ensures
        first == second,
{
    let scores = scores_of(hits, title, year);
    if let Some((hit1, score1)) = first {
        let (hit2, score2) = second->0;
        let i = choose|i: int|
            {
                &&& #[trigger] is_first_minimum(scores, i)
                &&& hit1 == hits[i]
                &&& score1@ == scores[i]
            };
        let j = choose|j: int|
            {
                &&& #[trigger] is_first_minimum(scores, j)
                &&& hit2 == hits[j]
                &&& score2@ == scores[j]
            };
        // Of two first minima the later would be strictly lower than the
        // earlier, which nothing is.
        assert(i == j) by {
            if i < j {
                assert(scores[j].lt(scores[i]));
            } else if j < i {
                assert(scores[i].lt(scores[j]));
            }
        }
        assert(score1@ == score2@);
    }
}

/// Of two candidates that both carry exactly the title asked for, one
/// released in the year asked for and the other in a different year, the
/// former scores strictly lower and is the match, whichever comes first.
pub proof fn lemma_exact_year_wins(
    hits: Seq<RTHit>,
    title: Seq<char>,
    year: i32,
    exact: int,
    best: Option<(RTHit, Score)>,
)
    requires
        hits.len() == 2,
        0 <= exact < 2,
        hits[0].title@ == title,
        hits[1].title@ == title,
        hits[exact].release_year == Some(year),
        hits[1 - exact].release_year matches Some(other) && other != year,
        is_best_match(hits, title, Some(year), best),
    ensures
        scores_of(hits, title, Some(year))[exact].lt(scores_of(hits, title, Some(year))[1 - exact]),
        best matches Some(found) && found.0 == hits[exact],
{
    let scores = scores_of(hits, title, Some(year));
    let good = scores[exact];
    let poor = scores[1 - exact];
    lemma_edit_distance_same(title);
    assert(good.numerator() == 0) by (nonlinear_arith)
        requires
            good.numerator() == good.year_gap * good.span() + 10 * good.distance,
            good.year_gap == 0,
            good.distance == 0,
    ;
    assert(poor.numerator() > 0) by (nonlinear_arith)
        requires
            poor.numerator() == poor.year_gap * poor.span() + 10 * poor.distance,
            poor.year_gap >= 1,
            poor.span() >= 1,
            poor.distance == 0,
    ;
    assert(good.lt(poor)) by (nonlinear_arith)
        requires
            good.numerator() == 0,
            poor.numerator() > 0,
            good.denominator() > 0,
            good.lt(poor) == (good.numerator() * poor.denominator() < poor.numerator()
                * good.denominator()),
    ;
    let found = best->0;
    let i = choose|i: int|
        {
            &&& #[trigger] is_first_minimum(scores, i)
            &&& found.0 == hits[i]
            &&& found.1@ == scores[i]
        };
    assert(i == exact) by {
        if i != exact {
            assert(!scores[exact].lt(scores[i]));
        }
    }
}

} // verus!
