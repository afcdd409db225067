//! Queries, directory entries, and the score of an entry against a query.
use vstd::prelude::*;
use vstd::string::*;
use crate::error::Error;
use crate::text::{
    dir_of, eq_ignore_ascii_case, eq_ignore_case, extension_of, file_name_of, has_base_name,
    lemma_last_index_of_bounds, rfind_char, stem_of, substring, text_eq,
};

verus! {

/// A requested name: the directories it names before its base name, the
/// stem and the optional extension of that base name, and whether it was
/// written as an absolute path.
pub struct Query {
    pub text: String,
    pub dir: String,
    pub stem: String,
    pub extension: Option<String>,
    pub absolute: bool,
}

/// One entry found under a search root: its full path and whether it is a
/// directory.
pub struct Entry {
    pub path: String,
    pub is_dir: bool,
}

pub open spec fn opt_view(o: Option<String>) -> Option<Seq<char>> {
    match o {
        Some(s) => Some(s@),
        None => None,
    }
}

/// The extension of an entry's file name, empty when it has none.
pub open spec fn entry_extension(n: Seq<char>) -> Seq<char> {
    match extension_of(n) {
        Some(x) => x,
        None => Seq::empty(),
    }
}

/// A query without an extension is compatible with any entry; otherwise the
/// extensions must agree up to ASCII case.
pub open spec fn extensions_match(q_ext: Option<Seq<char>>, e_ext: Seq<char>) -> bool {
    match q_ext {
        None => true,
        Some(x) => eq_ignore_case(x, e_ext),
    }
}

/// The directories that the query names end the entry's directory, on a
/// component boundary. A query that names none matches every entry.
pub open spec fn ancestors_match(q_dir: Seq<char>, e_dir: Seq<char>) -> bool {
    q_dir.len() == 0 || (q_dir.len() <= e_dir.len() && e_dir.subrange(
        e_dir.len() - q_dir.len(),
        e_dir.len() as int,
    ) == q_dir && (e_dir.len() == q_dir.len() || e_dir[e_dir.len() - q_dir.len() - 1] == '/'))
}

/// The cumulative bonuses, before directories are halved.
pub open spec fn raw_score(stems_eq: bool, stems_case_eq: bool, ext_match: bool, anc_match: bool) -> nat {
    (if stems_eq { 2nat } else { 0nat }) + (if stems_case_eq { 5nat } else { 0nat }) + (if ext_match {
        1nat + (if stems_eq { 10nat } else { 0nat }) + (if stems_case_eq { 5nat } else { 0nat })
    } else {
        0nat
    }) + (if stems_eq && anc_match { 20nat } else { 0nat })
}

/// The score of the entry at path `p` against a query with directories
/// `q_dir`, stem `q_stem` and extension `q_ext`. An entry without a base
/// name scores nothing; a directory scores half of what a file would.
pub open spec fn score_of(
    q_dir: Seq<char>,
    q_stem: Seq<char>,
    q_ext: Option<Seq<char>>,
    p: Seq<char>,
    is_dir: bool,
) -> nat {
    let n = file_name_of(p);
    if !has_base_name(n) {
        0
    } else {
        let t = raw_score(
            eq_ignore_case(stem_of(n), q_stem),
            stem_of(n) == q_stem,
            extensions_match(q_ext, entry_extension(n)),
            ancestors_match(q_dir, dir_of(p)),
        );
        if is_dir {
            t / 2
        } else {
            t
        }
    }
}

pub open spec fn entry_score(q: Query, e: Entry) -> nat {
    score_of(q.dir@, q.stem@, opt_view(q.extension), e.path@, e.is_dir)
}

/// Splits a path into its directory part and its file name.
pub fn split_path(p: &str) -> (r: (String, String))
    ensures
        r.0@ == dir_of(p@),
        r.1@ == file_name_of(p@),
{
    proof {
        lemma_last_index_of_bounds(p@, '/');
    }
    let n = p.unicode_len();
    match rfind_char(p, '/') {
        None => (String::new(), substring(p, 0, n)),
        Some(k) => {
            let name = substring(p, k + 1, n);
            if k == 0 {
                let root = String::from_str("/");
                proof {
                    reveal_strlit("/");
                }
                assert(root@ =~= seq!['/']);
                (root, name)
            } else {
                (substring(p, 0, k), name)
            }
        },
    }
}

/// Splits a file name into its stem and its extension.
pub fn split_name(n: &str) -> (r: (String, Option<String>))
    ensures
        r.0@ == stem_of(n@),
        opt_view(r.1) == extension_of(n@),
{
    proof {
        lemma_last_index_of_bounds(n@, '.');
    }
    let len = n.unicode_len();
    match rfind_char(n, '.') {
        Some(d) if d > 0 => (substring(n, 0, d), Some(substring(n, d + 1, len))),
        _ => {
            let whole = substring(n, 0, len);
            assert(n@.subrange(0, len as int) =~= n@);
            (whole, None)
        },
    }
}

/// Whether a file name has a base name.
pub fn base_name_present(n: &str) -> (r: bool)
    ensures
        r == has_base_name(n@),
{
    let len = n.unicode_len();
    if len == 0 {
        return false;
    }
    if len == 2 && n.get_char(0) == '.' && n.get_char(1) == '.' {
        assert(n@ =~= seq!['.', '.']);
        return false;
    }
    proof {
        if n@ == seq!['.', '.'] {
            assert(n@[0] == '.' && n@[1] == '.');
        }
    }
    true
}

/// Whether the directories `q_dir` end the directory `e_dir` on a
/// component boundary.
pub fn dirs_match(q_dir: &str, e_dir: &str) -> (r: bool)
    ensures
        r == ancestors_match(q_dir@, e_dir@),
{
    let ql = q_dir.unicode_len();
    let el = e_dir.unicode_len();
    if ql == 0 {
        return true;
    }
    if ql > el {
        return false;
    }
    let tail = e_dir.substring_char(el - ql, el);
    if !text_eq(tail, q_dir) {
        return false;
    }
    el == ql || e_dir.get_char(el - ql - 1) == '/'
}

impl Query {
    /// Reads a requested name. Fails when the text after its last `/` is
    /// empty or `..`.
    pub fn parse(text: &str) -> (r: Result<Query, Error>)
        ensures
            match r {
                Ok(q) => {
                    &&& has_base_name(file_name_of(text@))
                    &&& q.text@ == text@
                    &&& q.dir@ == dir_of(text@)
                    &&& q.stem@ == stem_of(file_name_of(text@))
                    &&& opt_view(q.extension) == extension_of(file_name_of(text@))
                    &&& q.absolute == (text@.len() > 0 && text@[0] == '/')
                },
                Err(e) => !has_base_name(file_name_of(text@)) && e is NoBaseName && e->NoBaseName_0@
                    == text@,
            },
    {
        let (dir, name) = split_path(text);
        if !base_name_present(name.as_str()) {
            return Err(Error::NoBaseName(String::from_str(text)));
        }
        let (stem, extension) = split_name(name.as_str());
        let absolute = text.unicode_len() > 0 && text.get_char(0) == '/';
        Ok(Query { text: String::from_str(text), dir, stem, extension, absolute })
    }
}

/// The score of an entry against a query.
pub fn score_entry(q: &Query, e: &Entry) -> (r: usize)
    ensures
        r == entry_score(*q, *e),
{
    let (dir, name) = split_path(e.path.as_str());
    if !base_name_present(name.as_str()) {
        return 0;
    }
    let (stem, ext) = split_name(name.as_str());
    let stems_eq = eq_ignore_ascii_case(stem.as_str(), q.stem.as_str());
    let stems_case_eq = text_eq(stem.as_str(), q.stem.as_str());
    let extensions_match = match &q.extension {
        None => true,
        Some(x) => match &ext {
            Some(y) => eq_ignore_ascii_case(x.as_str(), y.as_str()),
            None => x.unicode_len() == 0,
        },
    };
    let anc = dirs_match(q.dir.as_str(), dir.as_str());
    let mut score: usize = 0;
    if stems_eq {
        score = score + 2;
    }
    if stems_case_eq {
        score = score + 5;
    }
    if extensions_match {
        score = score + 1;
        if stems_eq {
            score = score + 10;
        }
        if stems_case_eq {
            score = score + 5;
        }
    }
    if stems_eq && anc {
        score = score + 20;
    }
    if e.is_dir {
        score = score / 2;
    }
    score
}

} // verus!

verus! {

/// A query without an extension is compatible with every entry, and it
/// never scores an entry lower than the same query with an extension does.
pub proof fn lemma_extensionless_not_down_ranked(
    q_dir: Seq<char>,
    q_stem: Seq<char>,
    q_ext: Seq<char>,
    p: Seq<char>,
    is_dir: bool,
)
    ensures
        forall|e: Seq<char>| #[trigger] extensions_match(None, e),
        score_of(q_dir, q_stem, None, p, is_dir) >= score_of(q_dir, q_stem, Some(q_ext), p, is_dir),
{
    let n = file_name_of(p);
    if has_base_name(n) {
        let with = raw_score(
            eq_ignore_case(stem_of(n), q_stem),
            stem_of(n) == q_stem,
            extensions_match(Some(q_ext), entry_extension(n)),
            ancestors_match(q_dir, dir_of(p)),
        );
        let without = raw_score(
            eq_ignore_case(stem_of(n), q_stem),
            stem_of(n) == q_stem,
            true,
            ancestors_match(q_dir, dir_of(p)),
        );
        assert(without >= with);
        if is_dir {
            assert(without / 2 >= with / 2) by (nonlinear_arith)
                requires
                    without >= with,
            ;
        }
    }
}

/// A file whose stem equals the query's up to case scores at least 2; one
/// whose stem equals it exactly scores at least 7.
pub proof fn lemma_stem_match_floor(
    q_dir: Seq<char>,
    q_stem: Seq<char>,
    q_ext: Option<Seq<char>>,
    p: Seq<char>,
)
    requires
        has_base_name(file_name_of(p)),
    ensures
        eq_ignore_case(stem_of(file_name_of(p)), q_stem) ==> score_of(q_dir, q_stem, q_ext, p, false) >= 2,
        stem_of(file_name_of(p)) == q_stem ==> score_of(q_dir, q_stem, q_ext, p, false) >= 7,
{
    let s = stem_of(file_name_of(p));
    if s == q_stem {
        assert(eq_ignore_case(s, q_stem));
    }
}

/// A directory scores exactly half (rounded down) of what a file with the
/// same path scores against the same query.
pub proof fn lemma_directory_halved(
    q_dir: Seq<char>,
    q_stem: Seq<char>,
    q_ext: Option<Seq<char>>,
    p: Seq<char>,
)
    ensures
        score_of(q_dir, q_stem, q_ext, p, true) == score_of(q_dir, q_stem, q_ext, p, false) / 2,
{
}

} // verus!
