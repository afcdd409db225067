//! The resolution engine: scores the entries found under each search root in
//! turn and keeps the best of the first root that yields any match.
use vstd::prelude::*;
use vstd::string::*;
use crate::error::Error;
use crate::score::{entry_extension, entry_score, score_entry, split_name, split_path, Entry, Query};
use crate::text::{eq_ignore_ascii_case, eq_ignore_case, file_name_of};

verus! {

/// Entries scoring at most this are not matches.
pub const SCORE_THRESHOLD: usize = 1;

/// Which entries are scored at all.
pub enum EntryFilter {
    /// Every entry.
    AcceptAll,
    /// Directories, and files whose extension (empty when they have none)
    /// equals one of these up to ASCII case.
    Extensions(Vec<String>),
}

/// An entry that matched, with its score.
pub struct Candidate {
    pub path: String,
    pub score: usize,
}

pub open spec fn accepts(f: EntryFilter, e: Entry) -> bool {
    match f {
        EntryFilter::AcceptAll => true,
        EntryFilter::Extensions(l) => e.is_dir || exists|i: int|
            0 <= i < l@.len() && eq_ignore_case(#[trigger] l@[i]@, entry_extension(file_name_of(e.path@))),
    }
}

/// The matches among `es`, in walk order: the accepted entries scoring above
/// the threshold, each with its score.
pub open spec fn candidates(q: Query, f: EntryFilter, es: Seq<Entry>) -> Seq<(Seq<char>, nat)>
    decreases es.len(),
{
    if es.len() == 0 {
        Seq::empty()
    } else {
        let prev = candidates(q, f, es.drop_last());
        let e = es.last();
        if accepts(f, e) && entry_score(q, e) > SCORE_THRESHOLD {
            prev.push((e.path@, entry_score(q, e)))
        } else {
            prev
        }
    }
}

/// The highest score among `cs`, 0 when there is none.
pub open spec fn max_score(cs: Seq<(Seq<char>, nat)>) -> nat
    decreases cs.len(),
{
    if cs.len() == 0 {
        0
    } else {
        let m = max_score(cs.drop_last());
        if cs.last().1 > m {
            cs.last().1
        } else {
            m
        }
    }
}

/// The paths of `cs` whose score is `m`, in their order.
pub open spec fn with_score(cs: Seq<(Seq<char>, nat)>, m: nat) -> Seq<Seq<char>>
    decreases cs.len(),
{
    if cs.len() == 0 {
        Seq::empty()
    } else {
        let prev = with_score(cs.drop_last(), m);
        if cs.last().1 == m {
            prev.push(cs.last().0)
        } else {
            prev
        }
    }
}

/// The candidates that share the top score, in walk order.
pub open spec fn best(cs: Seq<(Seq<char>, nat)>) -> Seq<Seq<char>> {
    with_score(cs, max_score(cs))
}

/// The candidates of the first root that has any; `None` when no root has.
pub open spec fn first_match(q: Query, f: EntryFilter, roots: Seq<Vec<Entry>>) -> Option<Seq<(Seq<char>, nat)>>
    decreases roots.len(),
{
    if roots.len() == 0 {
        None
    } else if candidates(q, f, roots[0]@).len() > 0 {
        Some(candidates(q, f, roots[0]@))
    } else {
        first_match(q, f, roots.drop_first())
    }
}

pub open spec fn candidates_view(cs: Seq<Candidate>) -> Seq<(Seq<char>, nat)> {
    cs.map_values(|c: Candidate| (c.path@, c.score as nat))
}

pub open spec fn paths_view(ps: Seq<String>) -> Seq<Seq<char>> {
    ps.map_values(|p: String| p@)
}

pub proof fn lemma_max_score_attained(cs: Seq<(Seq<char>, nat)>)
    requires
        cs.len() > 0,
    ensures
        exists|i: int| 0 <= i < cs.len() && cs[i].1 == max_score(cs),
    decreases cs.len(),
{
    if cs.last().1 > max_score(cs.drop_last()) || cs.len() == 1 {
        assert(cs[cs.len() - 1].1 == max_score(cs));
    } else {
        lemma_max_score_attained(cs.drop_last());
        let i = choose|i: int| 0 <= i < cs.drop_last().len() && cs.drop_last()[i].1 == max_score(cs.drop_last());
        assert(cs[i].1 == max_score(cs));
    }
}

/// Every candidate with score `m` is among the paths that `m` selects.
pub proof fn lemma_with_score_contains(cs: Seq<(Seq<char>, nat)>, m: nat, i: int)
    requires
        0 <= i < cs.len(),
        cs[i].1 == m,
    ensures
        with_score(cs, m).contains(cs[i].0),
    decreases cs.len(),
{
    if i < cs.len() - 1 {
        lemma_with_score_contains(cs.drop_last(), m, i);
        let prev = with_score(cs.drop_last(), m);
        let k = choose|k: int| 0 <= k < prev.len() && prev[k] == cs[i].0;
        if cs.last().1 == m {
            assert(prev.push(cs.last().0)[k] == cs[i].0);
        }
    } else {
        let prev = with_score(cs.drop_last(), m);
        assert(prev.push(cs.last().0)[prev.len() as int] == cs[i].0);
    }
}

/// Interactive mode drops no tie: every candidate that reaches the top
/// score is offered.
pub proof fn lemma_best_keeps_ties(cs: Seq<(Seq<char>, nat)>, i: int)
    requires
        0 <= i < cs.len(),
        cs[i].1 == max_score(cs),
    ensures
        best(cs).contains(cs[i].0),
{
    lemma_with_score_contains(cs, max_score(cs), i);
}

/// A score that some candidate has selects at least one path.
pub proof fn lemma_with_score_nonempty(cs: Seq<(Seq<char>, nat)>, i: int)
    requires
        0 <= i < cs.len(),
    ensures
        with_score(cs, cs[i].1).len() > 0,
    decreases cs.len(),
{
    if i < cs.len() - 1 {
        lemma_with_score_nonempty(cs.drop_last(), i);
    }
}

/// Whether an entry passes the filter.
pub fn filter_accepts(f: &EntryFilter, e: &Entry) -> (r: bool)
    ensures
        r == accepts(*f, *e),
{
    match f {
        EntryFilter::AcceptAll => true,
        EntryFilter::Extensions(l) => {
            if e.is_dir {
                return true;
            }
            let (_dir, name) = split_path(e.path.as_str());
            let (_stem, ext) = split_name(name.as_str());
            let ext_text = match ext {
                Some(x) => x,
                None => String::new(),
            };
            assert(ext_text@ == entry_extension(file_name_of(e.path@)));
            let mut i: usize = 0;
            while i < l.len()
                invariant
                    i <= l@.len(),
                    ext_text@ == entry_extension(file_name_of(e.path@)),
                    accepts(*f, *e) == exists|j: int|
                        0 <= j < l@.len() && eq_ignore_case(#[trigger] l@[j]@, ext_text@),
                    forall|j: int| 0 <= j < i ==> !eq_ignore_case(#[trigger] l@[j]@, ext_text@),
                decreases l@.len() - i,
            {
                if eq_ignore_ascii_case(l[i].as_str(), ext_text.as_str()) {
                    assert(eq_ignore_case(l@[i as int]@, entry_extension(file_name_of(e.path@))));
                    return true;
                }
                i = i + 1;
            }
            false
        },
    }
}

/// The matches among the entries of one root, in walk order.
pub fn collect_candidates(q: &Query, f: &EntryFilter, entries: &Vec<Entry>) -> (r: Vec<Candidate>)
    ensures
        candidates_view(r@) == candidates(*q, *f, entries@),
{
    let mut out: Vec<Candidate> = Vec::new();
    let mut i: usize = 0;
    while i < entries.len()
        invariant
            i <= entries@.len(),
            candidates_view(out@) == candidates(*q, *f, entries@.subrange(0, i as int)),
        decreases entries@.len() - i,
    {
        let e = &entries[i];
        assert(entries@.subrange(0, i + 1).drop_last() =~= entries@.subrange(0, i as int));
        if filter_accepts(f, e) {
            let s = score_entry(q, e);
            if s > SCORE_THRESHOLD {
                out.push(Candidate { path: e.path.clone(), score: s });
                assert(candidates_view(out@) =~= candidates(*q, *f, entries@.subrange(0, i + 1)));
            }
        }
        i = i + 1;
    }
    assert(entries@.subrange(0, entries@.len() as int) =~= entries@);
    out
}

/// The top score among the candidates.
pub fn top_score(cs: &Vec<Candidate>) -> (r: usize)
    ensures
        r == max_score(candidates_view(cs@)),
{
    let mut m: usize = 0;
    let mut i: usize = 0;
    while i < cs.len()
        invariant
            i <= cs@.len(),
            m == max_score(candidates_view(cs@.subrange(0, i as int))),
        decreases cs@.len() - i,
    {
        assert(candidates_view(cs@.subrange(0, i + 1)).drop_last() =~= candidates_view(cs@.subrange(0, i as int)));
        if cs[i].score > m {
            m = cs[i].score;
        }
        i = i + 1;
    }
    assert(cs@.subrange(0, cs@.len() as int) =~= cs@);
    m
}

/// The paths of the candidates that share the top score, in walk order.
pub fn best_candidates(cs: &Vec<Candidate>) -> (r: Vec<String>)
    ensures
        paths_view(r@) == best(candidates_view(cs@)),
{
    let m = top_score(cs);
    let mut out: Vec<String> = Vec::new();
    let mut i: usize = 0;
    while i < cs.len()
        invariant
            i <= cs@.len(),
            m == max_score(candidates_view(cs@)),
            paths_view(out@) == with_score(candidates_view(cs@.subrange(0, i as int)), m as nat),
        decreases cs@.len() - i,
    {
        assert(candidates_view(cs@.subrange(0, i + 1)).drop_last() =~= candidates_view(cs@.subrange(0, i as int)));
        if cs[i].score == m {
            out.push(cs[i].path.clone());
            assert(paths_view(out@) =~= with_score(candidates_view(cs@.subrange(0, i + 1)), m as nat));
        }
        i = i + 1;
    }
    assert(cs@.subrange(0, cs@.len() as int) =~= cs@);
    out
}

/// Interactive mode: every candidate sharing the top score in the first root
/// that has any match, in walk order, for the caller to choose among.
pub fn resolve_all(q: &Query, f: &EntryFilter, roots: &Vec<Vec<Entry>>) -> (r: Result<Vec<String>, Error>)
    ensures
        match first_match(*q, *f, roots@) {
            None => r is Err && r->Err_0 is NotFound && r->Err_0->NotFound_0@ == q.text@,
            Some(cs) => r is Ok && paths_view(r->Ok_0@) == best(cs),
        },
{
    let mut i: usize = 0;
    assert(roots@.subrange(0, roots@.len() as int) =~= roots@);
    while i < roots.len()
        invariant
            i <= roots@.len(),
            first_match(*q, *f, roots@) == first_match(*q, *f, roots@.subrange(i as int, roots@.len() as int)),
        decreases roots@.len() - i,
    {
        let cs = collect_candidates(q, f, &roots[i]);
        assert(roots@.subrange(i as int, roots@.len() as int).drop_first() =~= roots@.subrange(i + 1, roots@.len() as int));
        if cs.len() > 0 {
            return Ok(best_candidates(&cs));
        }
        i = i + 1;
    }
    Err(Error::NotFound(q.text.clone()))
}

/// What automatic mode returns for `q` over `roots`.
pub open spec fn best_outcome(q: Query, f: EntryFilter, roots: Seq<Vec<Entry>>, r: Result<String, Error>) -> bool {
    match first_match(q, f, roots) {
        None => r is Err && r->Err_0 is NotFound && r->Err_0->NotFound_0@ == q.text@,
        Some(cs) => r is Ok && best(cs).len() > 0 && r->Ok_0@ == best(cs)[0],
    }
}

/// Automatic mode: the first of the candidates sharing the top score in the
/// first root that has any match.
pub fn resolve_best(q: &Query, f: &EntryFilter, roots: &Vec<Vec<Entry>>) -> (r: Result<String, Error>)
    ensures
        best_outcome(*q, *f, roots@, r),
{
    let all = resolve_all(q, f, roots);
    match all {
        Err(e) => Err(e),
        Ok(mut ps) => {
            proof {
                let cs = first_match(*q, *f, roots@)->Some_0;
                lemma_first_match_nonempty(*q, *f, roots@);
                lemma_max_score_attained(cs);
                let k = choose|k: int| 0 <= k < cs.len() && cs[k].1 == max_score(cs);
                lemma_with_score_nonempty(cs, k);
            }
            Ok(ps.remove(0))
        },
    }
}

/// Where to look for a query: a relative query is looked for under the given
/// roots as it is; an absolute one under its own directory alone, by its stem.
pub fn plan_search(q: Query, roots: Vec<String>) -> (r: (Query, Vec<String>))
    ensures
        q.absolute ==> {
            &&& r.0.text@ == q.text@
            &&& r.0.dir@.len() == 0
            &&& r.0.stem@ == q.stem@
            &&& r.0.extension is None
            &&& !r.0.absolute
            &&& paths_view(r.1@) == seq![q.dir@]
        },
        !q.absolute ==> r.0 == q && r.1 == roots,
{
    if q.absolute {
        let dir = q.dir;
        let degenerate = Query { text: q.text, dir: String::new(), stem: q.stem, extension: None, absolute: false };
        let mut only: Vec<String> = Vec::new();
        only.push(dir);
        assert(paths_view(only@) =~= seq![q.dir@]);
        (degenerate, only)
    } else {
        (q, roots)
    }
}

/// With no roots, or with no accepted entry scoring above the threshold in
/// any root, no root has a match, so both modes fail with `NotFound`.
pub proof fn lemma_no_match_not_found(q: Query, f: EntryFilter, roots: Seq<Vec<Entry>>)
    requires
        forall|i: int, j: int|
            0 <= i < roots.len() && 0 <= j < roots[i]@.len() ==> !(accepts(f, roots[i]@[j])
                && entry_score(q, roots[i]@[j]) > 1),
    ensures
        first_match(q, f, roots) is None,
    decreases roots.len(),
{
    if roots.len() > 0 {
        lemma_no_candidates(q, f, roots[0]@);
        assert forall|i: int, j: int|
            0 <= i < roots.drop_first().len() && 0 <= j < roots.drop_first()[i]@.len() implies !(accepts(
                f,
                roots.drop_first()[i]@[j],
            ) && entry_score(q, roots.drop_first()[i]@[j]) > 1) by {
            assert(roots.drop_first()[i] == roots[i + 1]);
        }
        lemma_no_match_not_found(q, f, roots.drop_first());
    }
}

/// Entries none of which is accepted with a score above the threshold have
/// no candidates.
pub proof fn lemma_no_candidates(q: Query, f: EntryFilter, es: Seq<Entry>)
    requires
        forall|j: int| 0 <= j < es.len() ==> !(accepts(f, es[j]) && entry_score(q, es[j]) > 1),
    ensures
        candidates(q, f, es).len() == 0,
    decreases es.len(),
{
    if es.len() > 0 {
        assert forall|j: int| 0 <= j < es.drop_last().len() implies !(accepts(f, es.drop_last()[j])
            && entry_score(q, es.drop_last()[j]) > 1) by {
            assert(es.drop_last()[j] == es[j]);
        }
        lemma_no_candidates(q, f, es.drop_last());
        assert(!(accepts(f, es[es.len() - 1]) && entry_score(q, es[es.len() - 1]) > 1));
    }
}

/// Automatic mode is deterministic: two runs over the same roots either both
/// fail with `NotFound` or both return the same path.
pub proof fn lemma_best_idempotent(
    q: Query,
    f: EntryFilter,
    roots: Seq<Vec<Entry>>,
    r1: Result<String, Error>,
    r2: Result<String, Error>,
)
    requires
        best_outcome(q, f, roots, r1),
        best_outcome(q, f, roots, r2),
    ensures
        r1 is Ok <==> r2 is Ok,
        r1 is Ok ==> r1->Ok_0@ == r2->Ok_0@,
        r1 is Err ==> r1->Err_0 is NotFound && r2->Err_0 is NotFound && r1->Err_0->NotFound_0@
            == r2->Err_0->NotFound_0@,
{
}

pub proof fn lemma_first_match_nonempty(q: Query, f: EntryFilter, roots: Seq<Vec<Entry>>)
    ensures
        first_match(q, f, roots) is Some ==> first_match(q, f, roots)->Some_0.len() > 0,
    decreases roots.len(),
{
    if roots.len() > 0 && candidates(q, f, roots[0]@).len() == 0 {
        lemma_first_match_nonempty(q, f, roots.drop_first());
    }
}

} // verus!
