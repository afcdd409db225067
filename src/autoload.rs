//! Which patch files to load on every run: those always loaded, those tied
//! to the engine, and those tied to the main game data.
use vstd::prelude::*;
use vstd::string::*;
use crate::error::Error;
use crate::score::{base_name_present, split_name, split_path};
use crate::text::{file_name_of, has_base_name, stem_of, text_eq, texts};

verus! {

pub type ListsView = Seq<(Seq<char>, Seq<Seq<char>>)>;

pub open spec fn lists_view(v: Seq<(String, Vec<String>)>) -> ListsView {
    v.map_values(|p: (String, Vec<String>)| (p.0@, texts(p.1@)))
}

/// The list filed under `key`: the first one with that key, empty when
/// there is none.
pub open spec fn list_for(lists: ListsView, key: Seq<char>) -> Seq<Seq<char>>
    decreases lists.len(),
{
    if lists.len() == 0 {
        Seq::empty()
    } else if lists[0].0 == key {
        lists[0].1
    } else {
        list_for(lists.drop_first(), key)
    }
}

/// Copies of the list filed under `key` in `lists`.
pub fn find_list(lists: &Vec<(String, Vec<String>)>, key: &str) -> (r: Vec<String>)
    ensures
        texts(r@) == list_for(lists_view(lists@), key@),
{
    let ghost lv = lists_view(lists@);
    let mut i: usize = 0;
    assert(lv.subrange(0, lv.len() as int) =~= lv);
    while i < lists.len()
        invariant
            i <= lists@.len(),
            lv == lists_view(lists@),
            list_for(lv, key@) == list_for(lv.subrange(i as int, lv.len() as int), key@),
        decreases lists@.len() - i,
    {
        assert(lv.subrange(i as int, lv.len() as int).drop_first() =~= lv.subrange(i + 1, lv.len() as int));
        assert(lv.subrange(i as int, lv.len() as int)[0] == lv[i as int]);
        if text_eq(lists[i].0.as_str(), key) {
            let list = &lists[i].1;
            let mut out: Vec<String> = Vec::new();
            let mut k: usize = 0;
            while k < list.len()
                invariant
                    k <= list@.len(),
                    out@.len() == k,
                    texts(out@) =~= texts(list@.subrange(0, k as int)),
                decreases list@.len() - k,
            {
                let ghost prev = out@;
                out.push(String::from_str(list[k].as_str()));
                assert(texts(out@) =~= texts(prev).push(list@[k as int]@));
                assert(list@.subrange(0, k + 1) =~= list@.subrange(0, k as int).push(list@[k as int]));
                k = k + 1;
            }
            assert(list@.subrange(0, list@.len() as int) =~= list@);
            return out;
        }
        i = i + 1;
    }
    Vec::new()
}

/// The names to load, in order: the universal ones, those filed under the
/// stem of the engine's binary, and those filed under the main game data's
/// name. Fails when the engine's path has no base name.
pub fn autoload_names(
    universal: Vec<String>,
    by_engine: &Vec<(String, Vec<String>)>,
    by_iwad: &Vec<(String, Vec<String>)>,
    engine: &str,
    iwad: &str,
) -> (r: Result<Vec<String>, Error>)
    ensures
        has_base_name(file_name_of(engine@)) ==> r is Ok && texts(r->Ok_0@) == texts(universal@) + list_for(
            lists_view(by_engine@),
            stem_of(file_name_of(engine@)),
        ) + list_for(lists_view(by_iwad@), iwad@),
        !has_base_name(file_name_of(engine@)) ==> r is Err && r->Err_0 is NoBaseName
            && r->Err_0->NoBaseName_0@ == engine@,
{
    let (_dir, name) = split_path(engine);
    if !base_name_present(name.as_str()) {
        return Err(Error::NoBaseName(String::from_str(engine)));
    }
    let (stem, _ext) = split_name(name.as_str());
    let mut out = universal;
    let mut engine_list = find_list(by_engine, stem.as_str());
    let mut iwad_list = find_list(by_iwad, iwad);
    let ghost a = texts(out@);
    let ghost b = texts(engine_list@);
    let ghost c = texts(iwad_list@);
    out.append(&mut engine_list);
    assert(texts(out@) =~= a + b);
    out.append(&mut iwad_list);
    assert(texts(out@) =~= a + b + c);
    Ok(out)
}

} // verus!
