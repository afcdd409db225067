//! The patch files loaded on top of the main game data: level and resource
//! archives, and the behaviour patches that are passed separately.
use vstd::prelude::*;
use crate::score::{entry_extension, split_name, split_path};
use crate::text::{eq_ignore_ascii_case, eq_ignore_case, file_name_of};

verus! {

/// Which engine flag a patch file goes under.
#[derive(Debug, Clone, Copy, PartialEq, Eq, Structural)]
pub enum PwadKind {
    /// A level or resource archive, loaded as a file.
    Wad,
    /// A behaviour patch.
    Deh,
}

/// The kind of a patch file with extension `e` (empty when it has none), by
/// ASCII case-insensitive comparison; `None` for an extension of neither kind.
pub open spec fn kind_of_extension(e: Seq<char>) -> Option<PwadKind> {
    if e.len() == 0 || eq_ignore_case(e, "wad"@) || eq_ignore_case(e, "pk3"@) || eq_ignore_case(e, "zip"@)
        || eq_ignore_case(e, "pk7"@) || eq_ignore_case(e, "pke"@) {
        Some(PwadKind::Wad)
    } else if eq_ignore_case(e, "deh"@) || eq_ignore_case(e, "bex"@) {
        Some(PwadKind::Deh)
    } else {
        None
    }
}

/// The kind of the patch file at `path`.
pub fn pwad_kind(path: &str) -> (r: Option<PwadKind>)
    ensures
        r == kind_of_extension(entry_extension(file_name_of(path@))),
{
    let (_dir, name) = split_path(path);
    let (_stem, ext) = split_name(name.as_str());
    let e = match ext {
        Some(x) => x,
        None => String::new(),
    };
    let s = e.as_str();
    if s.unicode_len() == 0 || eq_ignore_ascii_case(s, "wad") || eq_ignore_ascii_case(s, "pk3")
        || eq_ignore_ascii_case(s, "zip") || eq_ignore_ascii_case(s, "pk7") || eq_ignore_ascii_case(
        s,
        "pke",
    ) {
        Some(PwadKind::Wad)
    } else if eq_ignore_ascii_case(s, "deh") || eq_ignore_ascii_case(s, "bex") {
        Some(PwadKind::Deh)
    } else {
        None
    }
}

/// The archives and the behaviour patches to load, each in order.
pub struct Pwads {
    wads: Vec<String>,
    dehs: Vec<String>,
}

impl Pwads {
    pub closed spec fn spec_wads(&self) -> Seq<String> {
        self.wads@
    }

    pub closed spec fn spec_dehs(&self) -> Seq<String> {
        self.dehs@
    }

    /// Nothing to load.
    pub fn new() -> (r: Self)
        ensures
            r.spec_wads() == Seq::<String>::empty(),
            r.spec_dehs() == Seq::<String>::empty(),
    {
        Pwads { wads: Vec::new(), dehs: Vec::new() }
    }

    /// Appends archives, in order.
    pub fn add_wads(&mut self, wads: Vec<String>)
        ensures
            final(self).spec_wads() == old(self).spec_wads() + wads@,
            final(self).spec_dehs() == old(self).spec_dehs(),
    {
        let mut wads = wads;
        self.wads.append(&mut wads);
    }

    /// Appends one archive.
    pub fn add_wad(&mut self, wad: String)
        ensures
            final(self).spec_wads() == old(self).spec_wads().push(wad),
            final(self).spec_dehs() == old(self).spec_dehs(),
    {
        self.wads.push(wad);
    }

    /// Appends behaviour patches, in order.
    pub fn add_dehs(&mut self, dehs: Vec<String>)
        ensures
            final(self).spec_dehs() == old(self).spec_dehs() + dehs@,
            final(self).spec_wads() == old(self).spec_wads(),
    {
        let mut dehs = dehs;
        self.dehs.append(&mut dehs);
    }

    /// Appends one behaviour patch.
    pub fn add_deh(&mut self, deh: String)
        ensures
            final(self).spec_dehs() == old(self).spec_dehs().push(deh),
            final(self).spec_wads() == old(self).spec_wads(),
    {
        self.dehs.push(deh);
    }

    /// Appends `path` to the archives or to the behaviour patches, as its
    /// extension says; an extension of neither kind adds nothing and is
    /// reported as `false`.
    pub fn add_by_kind(&mut self, path: String) -> (r: bool)
        ensures
            r == (kind_of_extension(entry_extension(file_name_of(path@))) is Some),
            kind_of_extension(entry_extension(file_name_of(path@))) == Some(PwadKind::Wad) ==> {
                &&& final(self).spec_wads() == old(self).spec_wads().push(path)
                &&& final(self).spec_dehs() == old(self).spec_dehs()
            },
            kind_of_extension(entry_extension(file_name_of(path@))) == Some(PwadKind::Deh) ==> {
                &&& final(self).spec_dehs() == old(self).spec_dehs().push(path)
                &&& final(self).spec_wads() == old(self).spec_wads()
            },
            kind_of_extension(entry_extension(file_name_of(path@))) is None ==> {
                &&& final(self).spec_wads() == old(self).spec_wads()
                &&& final(self).spec_dehs() == old(self).spec_dehs()
            },
    {
        match pwad_kind(path.as_str()) {
            Some(PwadKind::Wad) => {
                self.add_wad(path);
                true
            },
            Some(PwadKind::Deh) => {
                self.add_deh(path);
                true
            },
            None => false,
        }
    }

    /// The archives, in order.
    pub fn wads(&self) -> (r: &[String])
        ensures
            r@ == self.spec_wads(),
    {
        self.wads.as_slice()
    }

    /// The behaviour patches, in order.
    pub fn dehs(&self) -> (r: &[String])
        ensures
            r@ == self.spec_dehs(),
    {
        self.dehs.as_slice()
    }
}

} // verus!
