use vstd::prelude::*;
use nucleo::pattern::{CaseMatching, Normalization, Pattern};
use nucleo::{Config, Matcher, Utf32Str};

verus! {

/// nucleo's `Matcher`, carried as an opaque value: scratch space for scoring.
#[verifier::external_type_specification]
#[verifier::external_body]
pub struct ExMatcher(Matcher);

/// The score that the ranking service gives `candidate` for `query`
/// (`None`: no match). Higher is better.
pub uninterp spec fn match_score(query: Seq<char>, candidate: Seq<char>) -> Option<u32>;

/// Relies on nucleo's `Matcher::new`: a matcher with the default configuration.
#[verifier::external_body]
fn default_matcher() -> Matcher {
    Matcher::new(Config::DEFAULT)
}

/// `a` and `b` are the same ASCII character up to the case of a letter.
pub open spec fn ascii_same_ignoring_case(a: char, b: char) -> bool {
    &&& (a as u32) < 128
    &&& (b as u32) < 128
    &&& (a == b || ('A' <= a <= 'Z' && (a as u32) + 32 == (b as u32)) || ('A' <= b <= 'Z' && (b as u32)
        + 32 == (a as u32)))
}

/// `p` and `q` are the same ASCII text up to the case of letters.
pub open spec fn ascii_same_text_ignoring_case(p: Seq<char>, q: Seq<char>) -> bool {
    &&& p.len() == q.len()
    &&& forall|i: int| 0 <= i < p.len() ==> ascii_same_ignoring_case(#[trigger] p[i], q[i])
}

/// The longest query, in characters, that can be scored: nucleo sums the
/// bonus of each matched character of a word into a `u16`, which at 26 per
/// character stays below its limit up to this length.
pub const MAX_QUERY_CHARS: usize = 2048;

/// Relies on nucleo's `Pattern::score`, on the pattern that `Pattern::parse`
/// reads from `query` (case ignored, smart normalisation). The score is a
/// function of query and candidate alone: the matcher is scratch space and
/// always carries the default configuration here. Longer queries could
/// overflow the score of a word and panic. An ASCII query is lowered to
/// lower case before matching, so the case of its letters does not change
/// the score.
#[verifier::external_body]
fn score_candidate(matcher: &mut Matcher, query: &str, candidate: &str) -> (r: Option<u32>)
    requires
        query@.len() <= MAX_QUERY_CHARS,
    ensures
        r == match_score(query@, candidate@),
        forall|other: Seq<char>|
            #[trigger] ascii_same_text_ignoring_case(other, query@) ==> match_score(other, candidate@)
                == r,
{
    let pattern = Pattern::parse(query, CaseMatching::Ignore, Normalization::Smart);
    let mut buf = Vec::new();
    pattern.score(Utf32Str::new(candidate, &mut buf), matcher)
}

/// Score of the candidate at index `i`.
pub open spec fn score_at(items: Seq<String>, query: Seq<char>, i: int) -> Option<u32> {
    match_score(query, items[i]@)
}

/// `a` is shown before `b`: a higher score first, equal scores in list order.
pub open spec fn ranks_before(items: Seq<String>, query: Seq<char>, a: usize, b: usize) -> bool {
    let sa = score_at(items, query, a as int).unwrap();
    let sb = score_at(items, query, b as int).unwrap();
    sa > sb || (sa == sb && a < b)
}

/// `r` lists exactly the matching candidates, best first.
pub open spec fn is_ranking(items: Seq<String>, query: Seq<char>, r: Seq<usize>) -> bool {
    &&& forall|k: int|
        0 <= k < r.len() ==> #[trigger] r[k] < items.len() && score_at(
            items,
            query,
            r[k] as int,
        ).is_some()
    &&& forall|i: int|
        0 <= i < items.len() && (#[trigger] score_at(items, query, i)).is_some() ==> r.contains(
            i as usize,
        )
    &&& forall|j: int, k: int|
        0 <= j < k < r.len() ==> #[trigger] ranks_before(items, query, r[j], r[k])
}

/// The indices `0..n` in order.
pub open spec fn identity(n: nat) -> Seq<usize> {
    Seq::new(n, |i: int| i as usize)
}

/// What filtering `items` with `query` yields: every index in list order for
/// an empty query, the ranking of the matches otherwise.
pub open spec fn filter_result(items: Seq<String>, query: Seq<char>, r: Seq<usize>) -> bool {
    if query.len() == 0 {
        r == identity(items.len())
    } else {
        is_ranking(items, query, r)
    }
}

/// Every filter result lists valid indices, each at most once.
pub proof fn lemma_filter_indices_distinct(items: Seq<String>, query: Seq<char>, r: Seq<usize>)
    requires
        items.len() <= usize::MAX,
        filter_result(items, query, r),
    ensures
        forall|k: int| 0 <= k < r.len() ==> #[trigger] r[k] < items.len(),
        forall|j: int, k: int| 0 <= j < k < r.len() ==> #[trigger] r[j] != #[trigger] r[k],
{
    if query.len() > 0 {
        assert forall|j: int, k: int| 0 <= j < k < r.len() implies #[trigger] r[j] != #[trigger] r[k] by {
            assert(ranks_before(items, query, r[j], r[k]));
        }
    } else {
        assert forall|j: int, k: int| 0 <= j < k < r.len() implies #[trigger] r[j] != #[trigger] r[k] by {
            assert(r[j] == j as usize && r[k] == k as usize);
        }
    }
}

/// For a non-empty query the scores never rise along the result.
pub proof fn lemma_filter_scores_non_increasing(
    items: Seq<String>,
    query: Seq<char>,
    r: Seq<usize>,
)
    requires
        query.len() > 0,
        filter_result(items, query, r),
    ensures
        forall|j: int, k: int|
            0 <= j < k < r.len() ==> score_at(items, query, #[trigger] r[j] as int).unwrap()
                >= score_at(items, query, #[trigger] r[k] as int).unwrap(),
{
    assert forall|j: int, k: int| 0 <= j < k < r.len() implies score_at(
        items,
        query,
        #[trigger] r[j] as int,
    ).unwrap() >= score_at(items, query, #[trigger] r[k] as int).unwrap() by {
        assert(ranks_before(items, query, r[j], r[k]));
    }
}

proof fn lemma_rankings_equal(items: Seq<String>, query: Seq<char>, a: Seq<usize>, b: Seq<usize>)
    requires
        forall|j: int, k: int| 0 <= j < k < a.len() ==> #[trigger] ranks_before(items, query, a[j], a[k]),
        forall|j: int, k: int| 0 <= j < k < b.len() ==> #[trigger] ranks_before(items, query, b[j], b[k]),
        forall|x: usize| a.contains(x) <==> b.contains(x),
    ensures
        a == b,
    decreases a.len(),
{
    if a.len() == 0 {
        if b.len() > 0 {
            assert(b.contains(b[0]));
        }
        assert(b =~= a);
    } else {
        assert(a.contains(a[0]));
        let j = choose|j: int| 0 <= j < b.len() && b[j] == a[0];
        assert(b.contains(b[0]));
        let i = choose|i: int| 0 <= i < a.len() && a[i] == b[0];
        if j > 0 {
            assert(ranks_before(items, query, b[0], b[j]));
            if i > 0 {
                assert(ranks_before(items, query, a[0], a[i]));
            }
        }
        assert(a[0] == b[0]);
        let ta = a.drop_first();
        let tb = b.drop_first();
        assert forall|x: usize| ta.contains(x) <==> tb.contains(x) by {
            if ta.contains(x) {
                let p = choose|p: int| 0 <= p < ta.len() && ta[p] == x;
                assert(ranks_before(items, query, a[0], a[p + 1]));
                assert(a.contains(x));
                let q = choose|q: int| 0 <= q < b.len() && b[q] == x;
                assert(q != 0);
                assert(tb[q - 1] == x);
            }
            if tb.contains(x) {
                let p = choose|p: int| 0 <= p < tb.len() && tb[p] == x;
                assert(ranks_before(items, query, b[0], b[p + 1]));
                assert(b.contains(x));
                let q = choose|q: int| 0 <= q < a.len() && a[q] == x;
                assert(q != 0);
                assert(ta[q - 1] == x);
            }
        }
        assert forall|j: int, k: int| 0 <= j < k < ta.len() implies #[trigger] ranks_before(items, query, ta[j], ta[k]) by {
            assert(ranks_before(items, query, a[j + 1], a[k + 1]));
        }
        assert forall|j: int, k: int| 0 <= j < k < tb.len() implies #[trigger] ranks_before(items, query, tb[j], tb[k]) by {
            assert(ranks_before(items, query, b[j + 1], b[k + 1]));
        }
        lemma_rankings_equal(items, query, ta, tb);
        assert(a =~= seq![a[0]] + ta);
        assert(b =~= seq![b[0]] + tb);
    }
}

/// Filtering is deterministic: the same list and query admit one result only,
/// so running the filter twice gives the same output.
pub proof fn lemma_filter_deterministic(
    items: Seq<String>,
    query: Seq<char>,
    r1: Seq<usize>,
    r2: Seq<usize>,
)
    requires
        filter_result(items, query, r1),
        filter_result(items, query, r2),
    ensures
        r1 == r2,
{
    if query.len() > 0 {
        assert forall|x: usize| r1.contains(x) <==> r2.contains(x) by {
            if r1.contains(x) {
                let k = choose|k: int| 0 <= k < r1.len() && r1[k] == x;
                assert(r1[k] < items.len());
                assert(score_at(items, query, x as int).is_some());
            }
            if r2.contains(x) {
                let k = choose|k: int| 0 <= k < r2.len() && r2[k] == x;
                assert(r2[k] < items.len());
                assert(score_at(items, query, x as int).is_some());
            }
        }
        lemma_rankings_equal(items, query, r1, r2);
    }
}

/// Pairs of index and score, ordered best first.
spec fn pairs_ordered(ps: Seq<(usize, u32)>) -> bool {
    forall|j: int, k: int|
        0 <= j < k < ps.len() ==> (#[trigger] ps[j]).1 > (#[trigger] ps[k]).1 || (ps[j].1
            == ps[k].1 && ps[j].0 < ps[k].0)
}

/// Reusable fuzzy filter over a list of candidates.
pub struct FuzzyMatcher {
    matcher: Matcher,
}

impl FuzzyMatcher {
    pub fn new() -> (r: Self) {
        FuzzyMatcher { matcher: default_matcher() }
    }

    /// The indices of the items that match `query`, best first; every index
    /// in list order when `query` is empty. The query may hold at most
    /// `MAX_QUERY_CHARS` characters; for an ASCII query the case of its
    /// letters does not matter.
    pub fn filter(&mut self, items: &[String], query: &str) -> (r: Vec<usize>)
        requires
            query@.len() <= MAX_QUERY_CHARS,
        ensures
            filter_result(items@, query@, r@),
            forall|other: Seq<char>|
                #[trigger] ascii_same_text_ignoring_case(other, query@) ==> filter_result(
                    items@,
                    other,
                    r@,
                ),
    {
        if query.is_empty() {
            let mut all: Vec<usize> = Vec::new();
            let mut i: usize = 0;
            while i < items.len()
                invariant
                    i <= items@.len(),
                    all@ == identity(i as nat),
                decreases items@.len() - i,
            {
                all.push(i);
                i += 1;
                assert(all@ =~= identity(i as nat));
            }
            return all;
        }
        let ghost its = items@;
        let ghost q = query@;
        let mut ranked: Vec<(usize, u32)> = Vec::new();
        let mut i: usize = 0;
        while i < items.len()
            invariant
                i <= items@.len(),
                its == items@,
                q == query@,
                q.len() <= MAX_QUERY_CHARS,
                forall|other: Seq<char>, j: int|
                    0 <= j < i && #[trigger] ascii_same_text_ignoring_case(other, q) ==> #[trigger] score_at(
                        its,
                        other,
                        j,
                    ) == score_at(its, q, j),
                forall|k: int|
                    0 <= k < ranked@.len() ==> (#[trigger] ranked@[k]).0 < i && score_at(
                        its,
                        q,
                        ranked@[k].0 as int,
                    ) == Some(ranked@[k].1),
                forall|j: int|
                    0 <= j < i && (#[trigger] score_at(its, q, j)).is_some() ==> exists|k: int|
                        0 <= k < ranked@.len() && (#[trigger] ranked@[k]).0 == j,
                pairs_ordered(ranked@),
            decreases items@.len() - i,
        {
            let scored = score_candidate(&mut self.matcher, query, items[i].as_str());
            if let Some(s) = scored {
                let mut pos: usize = 0;
                while pos < ranked.len() && ranked[pos].1 >= s
                    invariant
                        pos <= ranked@.len(),
                        forall|k: int| 0 <= k < pos ==> (#[trigger] ranked@[k]).1 >= s,
                    decreases ranked@.len() - pos,
                {
                    pos += 1;
                }
                let ghost prev = ranked@;
                ranked.insert(pos, (i, s));
                assert(ranked@[pos as int] == (i, s));
                assert forall|k: int| 0 <= k < ranked@.len() implies (#[trigger] ranked@[k]).0 < i
                    + 1 && score_at(its, q, ranked@[k].0 as int) == Some(ranked@[k].1) by {
                    if k < pos {
                        assert(ranked@[k] == prev[k]);
                    } else if k > pos {
                        assert(ranked@[k] == prev[k - 1]);
                    }
                }
                assert forall|j: int|
                    0 <= j < i + 1 && (#[trigger] score_at(its, q, j)).is_some() implies exists|
                    k: int,
                |
                    0 <= k < ranked@.len() && (#[trigger] ranked@[k]).0 == j by {
                    if j == i {
                        assert(ranked@[pos as int].0 == j);
                    } else {
                        let k = choose|k: int| 0 <= k < prev.len() && (#[trigger] prev[k]).0 == j;
                        if k < pos {
                            assert(ranked@[k] == prev[k]);
                        } else {
                            assert(ranked@[k + 1] == prev[k]);
                        }
                    }
                }
                assert forall|j: int, k: int|
                    0 <= j < k < ranked@.len() implies (#[trigger] ranked@[j]).1 > (
                    #[trigger] ranked@[k]).1 || (ranked@[j].1 == ranked@[k].1 && ranked@[j].0
                    < ranked@[k].0) by {
                    if k < pos {
                        assert(ranked@[j] == prev[j] && ranked@[k] == prev[k]);
                    } else if k == pos {
                        assert(ranked@[j] == prev[j]);
                    } else if j > pos {
                        assert(ranked@[j] == prev[j - 1] && ranked@[k] == prev[k - 1]);
                    } else if j == pos {
                        assert(ranked@[k] == prev[k - 1]);
                        assert(prev[pos as int].1 < s);
                        if k - 1 > pos {
                            assert(prev[pos as int].1 >= prev[k - 1].1);
                        }
                    } else {
                        assert(ranked@[j] == prev[j] && ranked@[k] == prev[k - 1]);
                    }
                }
            }
            i += 1;
        }
        let mut r: Vec<usize> = Vec::new();
        let mut k: usize = 0;
        while k < ranked.len()
            invariant
                k <= ranked@.len(),
                r@.len() == k,
                forall|m: int| 0 <= m < k ==> #[trigger] r@[m] == ranked@[m].0,
            decreases ranked@.len() - k,
        {
            r.push(ranked[k].0);
            k += 1;
        }
        assert forall|j: int, m: int| 0 <= j < m < r@.len() implies #[trigger] ranks_before(
            its,
            q,
            r@[j],
            r@[m],
        ) by {
            assert(ranked@[j].0 == r@[j] && ranked@[m].0 == r@[m]);
            assert(pairs_ordered(ranked@));
            let a = ranked@[j];
            let b = ranked@[m];
            assert(a.1 > b.1 || (a.1 == b.1 && a.0 < b.0));
        }
        assert forall|i: int| 0 <= i < its.len() && (#[trigger] score_at(its, q, i)).is_some() implies r@.contains(
            i as usize,
        ) by {
            let k = choose|k: int| 0 <= k < ranked@.len() && (#[trigger] ranked@[k]).0 == i;
            assert(r@[k] == i as usize);
        }
        assert(is_ranking(its, q, r@));
        assert forall|other: Seq<char>| #[trigger] ascii_same_text_ignoring_case(other, q) implies filter_result(
            its,
            other,
            r@,
        ) by {
            assert(other.len() == q.len());
            assert forall|k: int| 0 <= k < r@.len() implies #[trigger] r@[k] < its.len() && score_at(
                its,
                other,
                r@[k] as int,
            ).is_some() by {
                assert(score_at(its, other, r@[k] as int) == score_at(its, q, r@[k] as int));
            }
            assert forall|j: int|
                0 <= j < its.len() && (#[trigger] score_at(its, other, j)).is_some() implies r@.contains(
                j as usize,
            ) by {
                assert(score_at(its, other, j) == score_at(its, q, j));
            }
            assert forall|j: int, k: int| 0 <= j < k < r@.len() implies #[trigger] ranks_before(
                its,
                other,
                r@[j],
                r@[k],
            ) by {
                assert(score_at(its, other, r@[j] as int) == score_at(its, q, r@[j] as int));
                assert(score_at(its, other, r@[k] as int) == score_at(its, q, r@[k] as int));
                assert(ranks_before(its, q, r@[j], r@[k]));
            }
        }
        r
    }
}

} // verus!
