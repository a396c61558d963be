//! fzf-style fuzzy file finder.
//!
//! Holds the candidate files of a project root (walked once by the caller),
//! then fuzzy-filters them as the user types, ranking matches by the skim
//! matcher's score (best first; ties keep the candidates' order). The display
//! path is relative to the root.
use vstd::prelude::*;

use fuzzy_matcher::skim::SkimMatcherV2;
use fuzzy_matcher::FuzzyMatcher;

use crate::paths::{path_le, path_strip_prefix, sort_paths, strip_prefix_of, views};
use crate::strings::{chars_of, eq_chars, push_char, string_of_range, trim_chars, trimmed};

verus! {

broadcast use vstd::seq_lib::group_to_multiset_ensures;

/// Heavy directories pruned from the walk regardless of ignore files.
pub open spec fn skip_dirs() -> Seq<Seq<char>> {
    seq![
        "target"@,
        "node_modules"@,
        "venv"@,
        ".venv"@,
        "envs"@,
        "__pycache__"@,
        "dist"@,
        "build"@,
        ".next"@,
    ]
}

/// Cap on the candidate list so very large trees stay responsive.
pub const MAX_CANDIDATES: usize = 50_000;

pub open spec fn min_nat(a: nat, b: nat) -> nat {
    if a <= b {
        a
    } else {
        b
    }
}

/// Cap on the number of results kept.
pub const MAX_MATCHES: usize = 200;

/// The skim matcher's score of `choice` against `pattern` (`None`: no match).
pub uninterp spec fn skim_score(choice: Seq<char>, pattern: Seq<char>) -> Option<i64>;

/// `SkimMatcherV2::default().fuzzy_match(choice, pattern)`.
#[verifier::external_body]
fn skim_match(choice: &str, pattern: &str) -> (r: Option<i64>)
    ensures
        r == skim_score(choice@, pattern@),
{
    SkimMatcherV2::default().fuzzy_match(choice, pattern)
}

pub open spec fn pair_le(a: (i128, usize), b: (i128, usize)) -> bool {
    a.0 < b.0 || (a.0 == b.0 && a.1 <= b.1)
}

/// `slice::sort` on pairs of integers: ascending in tuple order (first
/// component, then second), a permutation of the input.
#[verifier::external_body]
fn sort_pairs(v: &mut Vec<(i128, usize)>)
    ensures
        final(v)@.to_multiset() == old(v)@.to_multiset(),
        forall|i: int, j: int|
            0 <= i < j < final(v)@.len() ==> pair_le(
                #[trigger] final(v)@[i],
                #[trigger] final(v)@[j],
            ),
{
    v.sort()
}

/// `String::pop`: removes the last char, if any.
#[verifier::external_body]
fn pop_char(s: &mut String)
    ensures
        old(s)@.len() > 0 ==> final(s)@ == old(s)@.drop_last(),
        old(s)@.len() == 0 ==> final(s)@ == old(s)@,
{
    s.pop();
}

/// Is a walked entry with this name pruned?
pub fn is_skipped(name: Option<&str>) -> (r: bool)
    ensures
        r == match name {
            Some(n) => skip_dirs().contains(n@),
            None => false,
        },
{
    match name {
        None => false,
        Some(n) => {
            let cs = chars_of(n);
            let r = eq_chars(&cs, "target") || eq_chars(&cs, "node_modules") || eq_chars(&cs, "venv")
                || eq_chars(&cs, ".venv") || eq_chars(&cs, "envs") || eq_chars(&cs, "__pycache__")
                || eq_chars(&cs, "dist") || eq_chars(&cs, "build") || eq_chars(&cs, ".next");
            proof {
                let d = skip_dirs();
                assert(d[0] == "target"@ && d[1] == "node_modules"@ && d[2] == "venv"@ && d[3]
                    == ".venv"@ && d[4] == "envs"@ && d[5] == "__pycache__"@ && d[6] == "dist"@
                    && d[7] == "build"@ && d[8] == ".next"@);
                if d.contains(n@) {
                    let i = choose|i: int| 0 <= i < d.len() && d[i] == n@;
                    assert(0 <= i < 9);
                }
            }
            r
        },
    }
}

/// May the walk take one more candidate, having `count` already?
pub fn accepts_more(count: usize) -> (r: bool)
    ensures
        r == (count < MAX_CANDIDATES),
{
    count < MAX_CANDIDATES
}

/// The display path of `p`: relative to `root` when under it.
pub open spec fn rel_of(root: Seq<char>, p: Seq<char>) -> Seq<char> {
    match strip_prefix_of(p, root) {
        Some(r) => r,
        None => p,
    }
}

/// The abstract state of a finder.
pub struct FinderModel {
    pub query: Seq<char>,
    pub root: Seq<char>,
    pub candidates: Seq<Seq<char>>,
    pub matches: Seq<int>,
    pub selected: int,
}

impl FinderModel {
    /// Score of candidate `i` against the trimmed query.
    pub open spec fn score(self, i: int) -> Option<i64> {
        skim_score(rel_of(self.root, self.candidates[i]), trimmed(self.query))
    }

    pub open spec fn is_scored(self, i: int) -> bool {
        0 <= i < self.candidates.len() && self.score(i) is Some
    }

    /// Candidate `i` ranks before `j`: a higher score, or an equal score and
    /// an earlier place in the candidate list.
    pub open spec fn ranks_before(self, i: int, j: int) -> bool {
        let si = self.score(i).unwrap();
        let sj = self.score(j).unwrap();
        si > sj || (si == sj && i < j)
    }

    /// `ms` is what filtering gives: with an empty (trimmed) query the first
    /// candidates; otherwise the best-ranked matching candidates, best first,
    /// at most `MAX_MATCHES` of them.
    pub open spec fn filtered_as(self, ms: Seq<int>) -> bool {
        if trimmed(self.query).len() == 0 {
            ms == Seq::new(
                if self.candidates.len() < MAX_MATCHES {
                    self.candidates.len()
                } else {
                    MAX_MATCHES as nat
                },
                |i: int| i,
            )
        } else {
            &&& ms.len() <= MAX_MATCHES
            &&& forall|k: int| 0 <= k < ms.len() ==> self.is_scored(#[trigger] ms[k])
            &&& forall|k1: int, k2: int|
                0 <= k1 < k2 < ms.len() ==> self.ranks_before(#[trigger] ms[k1], #[trigger] ms[k2])
            &&& forall|i: int|
                #[trigger] self.is_scored(i) && !ms.contains(i) ==> ms.len() == MAX_MATCHES
                    && forall|k: int| 0 <= k < ms.len() ==> self.ranks_before(#[trigger] ms[k], i)
        }
    }

    pub open spec fn wf(self) -> bool {
        &&& self.candidates.len() <= MAX_CANDIDATES
        &&& self.matches.len() <= MAX_MATCHES
        &&& forall|k: int|
            0 <= k < self.matches.len() ==> 0 <= #[trigger] self.matches[k]
                < self.candidates.len()
        &&& self.selected >= 0
    }

    /// The state after re-filtering with the current query.
    pub open spec fn refiltered(self, next: FinderModel) -> bool {
        &&& next.query == self.query
        &&& next.root == self.root
        &&& next.candidates == self.candidates
        &&& self.filtered_as(next.matches)
        &&& next.filtered_as(next.matches)
        &&& next.selected == if self.selected < next.matches.len() - 1 {
            self.selected
        } else if next.matches.len() == 0 {
            0
        } else {
            next.matches.len() - 1
        }
    }
}

pub struct Finder {
    pub query: String,
    root: String,
    /// All candidate files.
    candidates: Vec<String>,
    /// Current filtered and ranked matches (indices into `candidates`).
    matches: Vec<usize>,
    pub selected: usize,
}

pub open spec fn idx_view(v: Seq<usize>) -> Seq<int> {
    v.map_values(|i: usize| i as int)
}

impl View for Finder {
    type V = FinderModel;

    closed spec fn view(&self) -> FinderModel {
        FinderModel {
            query: self.query@,
            root: self.root@,
            candidates: views(self.candidates@),
            matches: idx_view(self.matches@),
            selected: self.selected as int,
        }
    }
}

/// The ranking key of a scored candidate: ascending keys are best first.
spec fn key_of(m: FinderModel, i: int) -> (i128, usize) {
    ((-(m.score(i).unwrap() as int)) as i128, i as usize)
}

impl Finder {
    pub open spec fn wf(&self) -> bool {
        self@.wf()
    }

    /// A finder over the files found under `root` (as the walk gave them):
    /// the first `MAX_CANDIDATES` of them are kept, sorted in path order, and
    /// filtered with an empty query.
    pub fn new(root: String, found: Vec<String>) -> (f: Self)
        ensures
            f.wf(),
            f@.candidates.len() <= MAX_CANDIDATES,
            f@.candidates.to_multiset() == views(found@.take(min_nat(found@.len(), MAX_CANDIDATES as nat) as int)).to_multiset(),
            forall|i: int, j: int|
                0 <= i < j < f@.candidates.len() ==> path_le(
                    #[trigger] f@.candidates[i],
                    #[trigger] f@.candidates[j],
                ),
            (FinderModel {
                query: Seq::empty(),
                root: root@,
                candidates: f@.candidates,
                matches: Seq::empty(),
                selected: 0,
            }).refiltered(f@),
    {
        let mut candidates = found;
        candidates.truncate(MAX_CANDIDATES);
        proof {
            assert(candidates@ =~= found@.take(min_nat(found@.len(), MAX_CANDIDATES as nat) as int));
        }
        sort_paths(&mut candidates);
        proof {
            assert(candidates@.len() == views(candidates@).to_multiset().len());
        }
        let mut finder = Finder {
            query: String::new(),
            root,
            candidates,
            matches: Vec::new(),
            selected: 0,
        };
        proof {
            assert(finder@.matches =~= Seq::<int>::empty());
            assert(finder@ == (FinderModel {
                query: Seq::empty(),
                root: finder@.root,
                candidates: finder@.candidates,
                matches: Seq::empty(),
                selected: 0,
            }));
        }
        finder.refilter();
        finder
    }

    pub fn push(&mut self, ch: char)
        requires
            old(self).wf(),
        ensures
            final(self).wf(),
            (FinderModel { query: old(self)@.query.push(ch), ..old(self)@ }).refiltered(
                final(self)@,
            ),
    {
        push_char(&mut self.query, ch);
        self.refilter();
    }

    pub fn pop(&mut self)
        requires
            old(self).wf(),
        ensures
            final(self).wf(),
            (FinderModel {
                query: if old(self)@.query.len() > 0 {
                    old(self)@.query.drop_last()
                } else {
                    old(self)@.query
                },
                ..old(self)@
            }).refiltered(final(self)@),
    {
        pop_char(&mut self.query);
        self.refilter();
    }

    pub fn move_down(&mut self)
        requires
            old(self).wf(),
        ensures
            final(self).wf(),
            final(self)@ == (FinderModel {
                selected: if old(self)@.matches.len() == 0 {
                    old(self)@.selected
                } else if old(self)@.selected + 1 < old(self)@.matches.len() - 1 {
                    old(self)@.selected + 1
                } else {
                    old(self)@.matches.len() - 1
                },
                ..old(self)@
            }),
    {
        if self.matches.len() > 0 {
            let last = self.matches.len() - 1;
            self.selected = if self.selected < last {
                self.selected + 1
            } else {
                last
            };
        }
    }

    pub fn move_up(&mut self)
        requires
            old(self).wf(),
        ensures
            final(self).wf(),
            final(self)@ == (FinderModel {
                selected: if old(self)@.selected > 0 {
                    old(self)@.selected - 1
                } else {
                    0
                },
                ..old(self)@
            }),
    {
        self.selected = if self.selected > 0 {
            self.selected - 1
        } else {
            0
        };
    }

    /// The selected file, if the selection is on a match.
    pub fn selected_path(&self) -> (r: Option<&str>)
        requires
            self.wf(),
        ensures
            r is Some <==> self@.selected < self@.matches.len(),
            match r {
                Some(p) => p@ == self@.candidates[self@.matches[self@.selected]],
                None => true,
            },
    {
        if self.selected < self.matches.len() {
            let i = self.matches[self.selected];
            proof {
                assert(self@.matches[self.selected as int] == i as int);
            }
            Some(self.candidates[i].as_str())
        } else {
            None
        }
    }

    pub fn match_count(&self) -> (r: usize)
        ensures
            r == self@.matches.len(),
    {
        self.matches.len()
    }

    pub fn candidate_count(&self) -> (r: usize)
        ensures
            r == self@.candidates.len(),
            self.wf() ==> r <= MAX_CANDIDATES,
    {
        self.candidates.len()
    }

    /// Display paths (relative to the root) of the current matches.
    pub fn display_matches(&self) -> (r: Vec<String>)
        requires
            self.wf(),
        ensures
            r@.len() == self@.matches.len(),
            forall|k: int|
                0 <= k < r@.len() ==> (#[trigger] r@[k])@ == rel_of(
                    self@.root,
                    self@.candidates[self@.matches[k]],
                ),
    {
        let mut out: Vec<String> = Vec::new();
        let mut k: usize = 0;
        while k < self.matches.len()
            invariant
                self.wf(),
                k <= self.matches.len(),
                out@.len() == k,
                forall|j: int|
                    0 <= j < k ==> (#[trigger] out@[j])@ == rel_of(
                        self@.root,
                        self@.candidates[self@.matches[j]],
                    ),
            decreases self.matches.len() - k,
        {
            let i = self.matches[k];
            proof {
                assert(self@.matches[k as int] == i as int);
            }
            out.push(self.rel(i));
            k = k + 1;
        }
        out
    }

    /// The display path of candidate `i`.
    fn rel(&self, i: usize) -> (r: String)
        requires
            i < self.candidates.len(),
        ensures
            r@ == rel_of(self@.root, self@.candidates[i as int]),
    {
        let p = self.candidates[i].as_str();
        match path_strip_prefix(p, self.root.as_str()) {
            Some(r) => r,
            None => String::from_str(p),
        }
    }

    /// Recompute the matches for the current query and clamp the selection.
    fn refilter(&mut self)
        requires
            old(self).wf(),
        ensures
            final(self).wf(),
            old(self)@.refiltered(final(self)@),
    {
        let ghost m = self@;
        let n = self.candidates.len();
        let qc = chars_of(self.query.as_str());
        let (a, b) = trim_chars(&qc);
        let mut matches: Vec<usize> = Vec::new();
        if a == b {
            let limit = if n < MAX_MATCHES {
                n
            } else {
                MAX_MATCHES
            };
            let mut i: usize = 0;
            while i < limit
                invariant
                    limit <= n,
                    limit <= MAX_MATCHES,
                    i <= limit,
                    matches@.len() == i,
                    forall|k: int| 0 <= k < i ==> #[trigger] matches@[k] == k,
                decreases limit - i,
            {
                matches.push(i);
                i = i + 1;
            }
            proof {
                assert(idx_view(matches@) =~= Seq::new(limit as nat, |i: int| i));
            }
        } else {
            let q = string_of_range(&qc, a, b);
            let mut scored: Vec<(i128, usize)> = Vec::new();
            let mut i: usize = 0;
            while i < n
                invariant
                    n == self.candidates.len(),
                    self@ == m,
                    q@ == trimmed(m.query),
                    trimmed(m.query).len() > 0,
                    i <= n,
                    forall|t: int|
                        0 <= t < scored@.len() ==> m.is_scored((#[trigger] scored@[t]).1 as int)
                            && scored@[t] == key_of(m, scored@[t].1 as int) && scored@[t].1 < i,
                    forall|t1: int, t2: int|
                        0 <= t1 < t2 < scored@.len() ==> (#[trigger] scored@[t1]).1 < (
                        #[trigger] scored@[t2]).1,
                    forall|j: int|
                        0 <= j < i && #[trigger] m.is_scored(j) ==> scored@.contains(
                            key_of(m, j),
                        ),
                decreases n - i,
            {
                let rel = self.rel(i);
                match skim_match(rel.as_str(), q.as_str()) {
                    Some(sc) => {
                        let ghost before = scored@;
                        scored.push((-(sc as i128), i));
                        proof {
                            assert(m.is_scored(i as int));
                            assert(scored@.last() == key_of(m, i as int));
                            assert forall|j: int|
                                0 <= j < i + 1 && #[trigger] m.is_scored(j) implies scored@.contains(
                                key_of(m, j),
                            ) by {
                                if j < i {
                                    let t = choose|t: int|
                                        0 <= t < before.len() && before[t] == key_of(m, j);
                                    assert(scored@[t] == key_of(m, j));
                                } else {
                                    assert(scored@[before.len() as int] == key_of(m, j));
                                }
                            }
                        }
                    },
                    None => {
                        proof {
                            assert(!m.is_scored(i as int));
                        }
                    },
                }
                i = i + 1;
            }
            let ghost unsorted = scored@;
            proof {
                assert(unsorted.no_duplicates()) by {
                    assert forall|t1: int, t2: int|
                        0 <= t1 < unsorted.len() && 0 <= t2 < unsorted.len() && t1 != t2 implies unsorted[t1]
                        != unsorted[t2] by {
                        if t1 < t2 {
                            assert(unsorted[t1].1 < unsorted[t2].1);
                        } else {
                            assert(unsorted[t2].1 < unsorted[t1].1);
                        }
                    }
                }
                unsorted.lemma_multiset_has_no_duplicates();
            }
            sort_pairs(&mut scored);
            let ghost sv = scored@;
            proof {
                assert forall|t: int| 0 <= t < sv.len() implies #[trigger] unsorted.contains(
                    sv[t],
                ) by {
                    assert(sv.to_multiset().count(sv[t]) > 0);
                }
                sv.lemma_multiset_has_no_duplicates_conv();
            }
            let limit = if scored.len() < MAX_MATCHES {
                scored.len()
            } else {
                MAX_MATCHES
            };
            let mut k: usize = 0;
            while k < limit
                invariant
                    limit <= scored.len(),
                    limit <= MAX_MATCHES,
                    scored@ == sv,
                    k <= limit,
                    matches@.len() == k,
                    forall|t: int| 0 <= t < k ==> #[trigger] matches@[t] == sv[t].1,
                decreases limit - k,
            {
                matches.push(scored[k].1);
                k = k + 1;
            }
            proof {
                let ms = idx_view(matches@);
                // Every sorted entry is the key of a scored candidate.
                assert forall|t: int| 0 <= t < sv.len() implies m.is_scored(
                    (#[trigger] sv[t]).1 as int,
                ) && sv[t] == key_of(m, sv[t].1 as int) && sv[t].1 < n by {
                    assert(unsorted.contains(sv[t]));
                    let u = choose|u: int| 0 <= u < unsorted.len() && unsorted[u] == sv[t];
                    assert(unsorted[u] == sv[t]);
                }
                // Distinct keys sort strictly.
                assert forall|t1: int, t2: int|
                    0 <= t1 < t2 < sv.len() implies m.ranks_before(
                    (#[trigger] sv[t1]).1 as int,
                    (#[trigger] sv[t2]).1 as int,
                ) by {
                    assert(pair_le(sv[t1], sv[t2]));
                    assert(sv[t1] != sv[t2]);
                    assert(sv[t1] == key_of(m, sv[t1].1 as int));
                    assert(sv[t2] == key_of(m, sv[t2].1 as int));
                }
                assert forall|k1: int| 0 <= k1 < ms.len() implies m.is_scored(#[trigger] ms[k1]) by {
                    assert(ms[k1] == sv[k1].1 as int);
                    assert(m.is_scored(sv[k1].1 as int));
                }
                assert forall|k1: int, k2: int|
                    0 <= k1 < k2 < ms.len() implies m.ranks_before(
                    #[trigger] ms[k1],
                    #[trigger] ms[k2],
                ) by {
                    assert(ms[k1] == sv[k1].1 as int);
                    assert(ms[k2] == sv[k2].1 as int);
                    assert(m.ranks_before(sv[k1].1 as int, sv[k2].1 as int));
                }
                assert forall|j: int| #[trigger] m.is_scored(j) && !ms.contains(j) implies ms.len()
                    == MAX_MATCHES && forall|k1: int|
                    0 <= k1 < ms.len() ==> m.ranks_before(#[trigger] ms[k1], j) by {
                    assert(unsorted.contains(key_of(m, j)));
                    assert(unsorted.to_multiset().count(key_of(m, j)) > 0);
                    assert(sv.to_multiset().count(key_of(m, j)) > 0);
                    assert(sv.contains(key_of(m, j)));
                    let p = choose|p: int| 0 <= p < sv.len() && sv[p] == key_of(m, j);
                    if p < limit {
                        assert(ms[p] == sv[p].1 as int);
                        assert(ms[p] == j);
                        assert(ms.contains(j));
                    }
                    assert(p >= limit);
                    assert(limit == MAX_MATCHES);
                    assert forall|k1: int| 0 <= k1 < ms.len() implies m.ranks_before(
                        #[trigger] ms[k1],
                        j,
                    ) by {
                        assert(ms[k1] == sv[k1].1 as int);
                        assert(m.ranks_before(sv[k1].1 as int, sv[p].1 as int));
                    }
                }
            }
        }
        self.matches = matches;
        let len = self.matches.len();
        if len == 0 {
            self.selected = 0;
        } else if self.selected >= len - 1 {
            self.selected = len - 1;
        }
        proof {
            assert(self@.matches.len() == len);
            lemma_filter_same(m, self@, self@.matches);
        }
    }
}

// ─── Laws ───────────────────────────────────────────────────────────────

/// The finder never keeps more than `MAX_MATCHES` results, and with a
/// non-empty query every result matches it.
pub proof fn law_matches_bounded(m: FinderModel, ms: Seq<int>)
    requires
        m.filtered_as(ms),
    ensures
        ms.len() <= MAX_MATCHES,
        trimmed(m.query).len() > 0 ==> forall|k: int| 0 <= k < ms.len() ==> m.is_scored(#[trigger] ms[k]),
{
}

/// Results are ordered best score first.
pub proof fn law_best_first(m: FinderModel, ms: Seq<int>, k1: int, k2: int)
    requires
        m.filtered_as(ms),
        trimmed(m.query).len() > 0,
        0 <= k1 < k2 < ms.len(),
    ensures
        m.score(ms[k1]).unwrap() >= m.score(ms[k2]).unwrap(),
{
    assert(m.ranks_before(ms[k1], ms[k2]));
}

/// `ranks_before` is a strict total order on the scored candidates.
proof fn lemma_ranks_total(m: FinderModel, i: int, j: int)
    requires
        m.is_scored(i),
        m.is_scored(j),
    ensures
        !m.ranks_before(i, i),
        m.ranks_before(i, j) ==> !m.ranks_before(j, i),
        i != j ==> m.ranks_before(i, j) || m.ranks_before(j, i),
{
}

/// Filtering is deterministic: for the same query, root and candidates
/// there is exactly one list of matches.
pub proof fn law_filter_unique(m: FinderModel, ms1: Seq<int>, ms2: Seq<int>)
    requires
        m.filtered_as(ms1),
        m.filtered_as(ms2),
    ensures
        ms1 == ms2,
{
    if trimmed(m.query).len() > 0 {
        lemma_filter_prefix(m, ms1, ms2);
        lemma_filter_prefix(m, ms2, ms1);
        assert(ms1 =~= ms2);
    }
}

/// Two filter results agree on their common length, and neither is longer.
proof fn lemma_filter_prefix(m: FinderModel, ms1: Seq<int>, ms2: Seq<int>)
    requires
        trimmed(m.query).len() > 0,
        m.filtered_as(ms1),
        m.filtered_as(ms2),
    ensures
        ms1.len() <= ms2.len(),
        forall|k: int| 0 <= k < ms1.len() ==> ms1[k] == ms2[k],
{
    assert forall|k: int| 0 <= k < ms1.len() && k < ms2.len() implies ms1[k] == ms2[k] by {
        lemma_filter_at(m, ms1, ms2, k);
    }
    if ms1.len() > ms2.len() {
        let k = ms2.len() as int;
        let c = ms1[k];
        assert(m.is_scored(c));
        if ms2.contains(c) {
            let p = choose|p: int| 0 <= p < ms2.len() && ms2[p] == c;
            assert(ms1[p] == ms2[p]);
            assert(m.ranks_before(ms1[p], ms1[k]));
            lemma_ranks_total(m, c, c);
        } else {
            assert(ms2.len() == MAX_MATCHES);
        }
    }
}

/// Position `k` of two filter results holds the same candidate.
proof fn lemma_filter_at(m: FinderModel, ms1: Seq<int>, ms2: Seq<int>, k: int)
    requires
        trimmed(m.query).len() > 0,
        m.filtered_as(ms1),
        m.filtered_as(ms2),
        0 <= k < ms1.len(),
        k < ms2.len(),
    ensures
        ms1[k] == ms2[k],
    decreases k,
{
    if k > 0 {
        assert forall|j: int| 0 <= j < k implies ms1[j] == ms2[j] by {
            lemma_filter_at(m, ms1, ms2, j);
        }
    }
    let a = ms1[k];
    let b = ms2[k];
    assert(m.is_scored(a) && m.is_scored(b));
    if a != b {
        lemma_ranks_total(m, a, b);
        lemma_ranked_is_listed(m, ms1, ms2, k, a, b);
        lemma_ranked_is_listed(m, ms2, ms1, k, b, a);
    }
}

/// With equal prefixes before `k`, the candidate at `k` of one result cannot
/// rank before the candidate at `k` of the other.
proof fn lemma_ranked_is_listed(m: FinderModel, ms1: Seq<int>, ms2: Seq<int>, k: int, a: int, b: int)
    requires
        trimmed(m.query).len() > 0,
        m.filtered_as(ms1),
        m.filtered_as(ms2),
        0 <= k < ms1.len(),
        k < ms2.len(),
        forall|j: int| 0 <= j < k ==> ms1[j] == ms2[j],
        a == ms1[k],
        b == ms2[k],
    ensures
        !m.ranks_before(a, b),
{
    assert(m.is_scored(a) && m.is_scored(b));
    if m.ranks_before(a, b) {
        if ms2.contains(a) {
            let p = choose|p: int| 0 <= p < ms2.len() && ms2[p] == a;
            if p < k {
                assert(ms1[p] == a);
                assert(m.ranks_before(ms1[p], ms1[k]));
                lemma_ranks_total(m, a, a);
            } else if p > k {
                assert(m.ranks_before(ms2[k], ms2[p]));
                lemma_ranks_total(m, a, b);
            } else {
                lemma_ranks_total(m, a, a);
            }
        } else {
            assert(m.ranks_before(ms2[k], a));
            lemma_ranks_total(m, a, b);
        }
    }
}

/// Filtering reads only the query, the root and the candidates.
proof fn lemma_filter_same(a: FinderModel, b: FinderModel, ms: Seq<int>)
    requires
        a.query == b.query,
        a.root == b.root,
        a.candidates == b.candidates,
        a.filtered_as(ms),
    ensures
        b.filtered_as(ms),
{
    assert forall|i: int| #[trigger] b.is_scored(i) == a.is_scored(i) && b.score(i) == a.score(i) by {}
    assert forall|i: int, j: int| #[trigger] b.ranks_before(i, j) == a.ranks_before(i, j) by {}
}

/// Typing a char and deleting it again restores the query and the matches
/// of a settled finder (one whose matches are those of its query); the
/// selection never moves down.
pub proof fn law_pop_undoes_push(m: FinderModel, ch: char, m1: FinderModel, m2: FinderModel)
    requires
        m.wf(),
        m.filtered_as(m.matches),
        (FinderModel { query: m.query.push(ch), ..m }).refiltered(m1),
        (FinderModel { query: m1.query.drop_last(), ..m1 }).refiltered(m2),
    ensures
        m2.query == m.query,
        m2.root == m.root,
        m2.candidates == m.candidates,
        m2.matches == m.matches,
        m2.selected <= m.selected,
{
    assert(m.query.push(ch).drop_last() =~= m.query);
    let mq = FinderModel { query: m1.query.drop_last(), ..m1 };
    assert(mq.query == m.query && mq.root == m.root && mq.candidates == m.candidates);
    lemma_filter_same(mq, m, m2.matches);
    law_filter_unique(m, m.matches, m2.matches);
}

} // verus!
