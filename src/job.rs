//! One unit of render work: a recorded demo and the video it is dumped to.
use vstd::prelude::*;
use vstd::string::*;
use crate::error::Error;
use crate::score::{base_name_present, split_name, split_path};
use crate::text::{file_name_of, has_base_name, stem_of};

verus! {

/// A render job: its display name, the demo it plays and the video it writes.
#[derive(Debug, Clone, PartialEq, Eq)]
pub struct Job {
    pub name: String,
    pub source: String,
    pub destination: String,
}

/// The suffix of every rendered video.
pub open spec fn video_suffix() -> Seq<char> {
    seq!['.', 'm', 'p', '4']
}

/// `name` placed inside the directory `dir`.
pub open spec fn join_path(dir: Seq<char>, name: Seq<char>) -> Seq<char> {
    if dir.len() == 0 || dir.last() == '/' {
        dir + name
    } else {
        dir.push('/') + name
    }
}

/// `j` is the job that renders the demo at `source` into `dest_dir`.
pub open spec fn job_for(j: Job, source: Seq<char>, dest_dir: Seq<char>) -> bool {
    let stem = stem_of(file_name_of(source));
    &&& has_base_name(file_name_of(source))
    &&& j.name@ == stem
    &&& j.source@ == source
    &&& j.destination@ == join_path(dest_dir, stem + video_suffix())
}

/// Places `name` inside the directory `dir`.
pub fn join(dir: &str, name: &str) -> (r: String)
    ensures
        r@ == join_path(dir@, name@),
{
    let mut out = String::from_str(dir);
    let n = dir.unicode_len();
    if n > 0 && dir.get_char(n - 1) != '/' {
        out.append("/");
        proof {
            reveal_strlit("/");
        }
        assert(dir@.push('/') =~= dir@ + "/"@);
    }
    out.append(name);
    out
}

/// The job that renders the demo at `source` into `dest_dir`: it is named
/// after the demo's stem, and its video is that stem with the video suffix.
/// Fails when `source` has no base name.
pub fn make_job(source: &str, dest_dir: &str) -> (r: Result<Job, Error>)
    ensures
        match r {
            Ok(j) => job_for(j, source@, dest_dir@),
            Err(e) => !has_base_name(file_name_of(source@)) && e is NoBaseName && e->NoBaseName_0@
                == source@,
        },
{
    let (_dir, name) = split_path(source);
    if !base_name_present(name.as_str()) {
        return Err(Error::NoBaseName(String::from_str(source)));
    }
    let (stem, _ext) = split_name(name.as_str());
    let mut video = String::from_str(stem.as_str());
    video.append(".mp4");
    proof {
        reveal_strlit(".mp4");
    }
    assert(video@ =~= stem@ + video_suffix());
    let destination = join(dest_dir, video.as_str());
    Ok(Job { name: stem, source: String::from_str(source), destination })
}

} // verus!

verus! {

/// The demo at position `k` cannot become a job: it failed to resolve, or
/// its path has no base name.
pub open spec fn fails_at(resolved: Seq<Result<String, Error>>, k: int) -> bool {
    match resolved[k] {
        Err(_) => true,
        Ok(p) => !has_base_name(file_name_of(p@)),
    }
}

/// `k` is the first position that cannot become a job.
pub open spec fn first_failure(resolved: Seq<Result<String, Error>>, k: int) -> bool {
    &&& 0 <= k < resolved.len()
    &&& fails_at(resolved, k)
    &&& forall|i: int| 0 <= i < k ==> !fails_at(resolved, i)
}

/// What the interrupt handler sends over the job channel for the demos the
/// operator asked for, each resolved or not: a job for each of them, in
/// order, when all can become jobs; otherwise only the first failure.
pub fn jobs_from_resolved(resolved: Vec<Result<String, Error>>, dest_dir: &str) -> (r: Vec<
    Result<Job, Error>,
>)
    ensures
        (forall|i: int| 0 <= i < resolved@.len() ==> !fails_at(resolved@, i)) ==> {
            &&& r@.len() == resolved@.len()
            &&& forall|i: int|
                0 <= i < r@.len() ==> (#[trigger] r@[i]) is Ok && job_for(
                    r@[i]->Ok_0,
                    resolved@[i]->Ok_0@,
                    dest_dir@,
                )
        },
        forall|k: int|
            first_failure(resolved@, k) ==> {
                &&& r@.len() == 1
                &&& r@[0] is Err
                &&& resolved@[k] is Err ==> r@[0]->Err_0 == resolved@[k]->Err_0
                &&& resolved@[k] is Ok ==> r@[0]->Err_0 is NoBaseName && r@[0]->Err_0->NoBaseName_0@
                    == resolved@[k]->Ok_0@
            },
{
    let mut rest = resolved;
    let ghost orig = rest@;
    let ghost mut taken: int = 0;
    let mut out: Vec<Result<Job, Error>> = Vec::new();
    while rest.len() > 0
        invariant
            orig == resolved@,
            0 <= taken <= orig.len(),
            rest@ == orig.subrange(taken, orig.len() as int),
            out@.len() == taken,
            forall|i: int| 0 <= i < taken ==> !fails_at(orig, i),
            forall|i: int|
                0 <= i < taken ==> (#[trigger] out@[i]) is Ok && job_for(
                    out@[i]->Ok_0,
                    orig[i]->Ok_0@,
                    dest_dir@,
                ),
        decreases rest@.len(),
    {
        let item = rest.remove(0);
        assert(orig[taken] == item);
        match item {
            Err(e) => {
                assert(first_failure(orig, taken));
                let mut only: Vec<Result<Job, Error>> = Vec::new();
                only.push(Err(e));
                proof {
                    assert forall|k: int| first_failure(orig, k) implies k == taken by {
                        if k < taken {
                            assert(!fails_at(orig, k));
                        }
                        if k > taken {
                            assert(!fails_at(orig, taken));
                        }
                    }
                }
                return only;
            },
            Ok(p) => match make_job(p.as_str(), dest_dir) {
                Err(e) => {
                    assert(orig[taken]->Ok_0 == p);
                    assert(fails_at(orig, taken));
                    assert(first_failure(orig, taken));
                    assert(e is NoBaseName && e->NoBaseName_0@ == orig[taken]->Ok_0@);
                    let mut only: Vec<Result<Job, Error>> = Vec::new();
                    only.push(Err(e));
                    proof {
                        assert forall|k: int| first_failure(orig, k) implies k == taken by {
                            if k < taken {
                                assert(!fails_at(orig, k));
                            }
                            if k > taken {
                                assert(!fails_at(orig, taken));
                            }
                        }
                    }
                    return only;
                },
                Ok(j) => {
                    out.push(Ok(j));
                },
            },
        }
        proof {
            taken = taken + 1;
        }
        assert(rest@ =~= orig.subrange(taken, orig.len() as int));
    }
    assert(taken == orig.len());
    out
}

} // verus!
