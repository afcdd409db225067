//! The engines the operator has configured, each reachable by its name and
//! by any of its aliases.
use vstd::prelude::*;
use vstd::std_specs::hash::{contains_borrowed_key, maps_borrowed_key_to_value};
use vstd::string::*;
use crate::alias_map::keys_behave;
use crate::error::Error;
use crate::text::{text_eq, texts};
use std::collections::HashMap;

verus! {

/// The compatibility family of an engine.
#[allow(clippy::upper_case_acronyms)]
#[derive(Debug, Clone, Copy, PartialEq, Eq, Structural)]
pub enum DoomEngineKind {
    Vanilla,
    Boom,
    MBF,
    Eternity,
    ZDoom,
}

/// One configured engine.
#[derive(Debug, Clone)]
pub struct DoomEngine {
    pub aliases: Vec<String>,
    pub binary: String,
    pub kind: DoomEngineKind,
    pub supports_widescreen_assets: bool,
    pub required_args: Vec<String>,
}

impl Default for DoomEngine {
    /// A vanilla engine without aliases or extra arguments that runs
    /// `/bin/true`.
    fn default() -> (r: Self)
        ensures
            r.aliases@.len() == 0,
            r.binary@ == "/bin/true"@,
            r.kind == DoomEngineKind::Vanilla,
            !r.supports_widescreen_assets,
            r.required_args@.len() == 0,
    {
        DoomEngine {
            aliases: Vec::new(),
            binary: String::from_str("/bin/true"),
            kind: DoomEngineKind::Vanilla,
            supports_widescreen_assets: false,
            required_args: Vec::new(),
        }
    }
}

/// The engines, and the position of the engine that each name or alias
/// selects.
pub struct KnownEngines {
    alias_map: HashMap<String, usize>,
    engines: Vec<DoomEngine>,
}

/// `m` with each of `aliases` made to select position `i`, later ones last.
pub open spec fn with_aliases(m: Map<String, usize>, aliases: Seq<String>, i: usize) -> Map<String, usize>
    decreases aliases.len(),
{
    if aliases.len() == 0 {
        m
    } else {
        with_aliases(m, aliases.drop_last(), i).insert(aliases.last(), i)
    }
}

/// The selection built from `list` in order: each engine's name, then its
/// aliases, select its position; a later engine takes over a name it repeats.
pub open spec fn selection(list: Seq<(String, DoomEngine)>) -> Map<String, usize>
    decreases list.len(),
{
    if list.len() == 0 {
        Map::empty()
    } else {
        let i = (list.len() - 1) as usize;
        with_aliases(selection(list.drop_last()).insert(list.last().0, i), list.last().1.aliases@, i)
    }
}

pub proof fn lemma_with_aliases_bounded(m: Map<String, usize>, aliases: Seq<String>, i: usize, n: usize)
    requires
        i < n,
        forall|k: String| #[trigger] m.contains_key(k) ==> m[k] < n,
    ensures
        forall|k: String| #[trigger] with_aliases(m, aliases, i).contains_key(k) ==> with_aliases(m, aliases, i)[k] < n,
    decreases aliases.len(),
{
    if aliases.len() > 0 {
        lemma_with_aliases_bounded(m, aliases.drop_last(), i, n);
        let prev = with_aliases(m, aliases.drop_last(), i);
        assert forall|k: String| #[trigger] with_aliases(m, aliases, i).contains_key(k) implies with_aliases(
            m,
            aliases,
            i,
        )[k] < n by {
            if k != aliases.last() {
                assert(prev.contains_key(k));
            }
        }
    }
}

pub proof fn lemma_selection_bounded(list: Seq<(String, DoomEngine)>)
    requires
        list.len() <= usize::MAX,
    ensures
        forall|k: String| #[trigger] selection(list).contains_key(k) ==> selection(list)[k] < list.len(),
    decreases list.len(),
{
    if list.len() > 0 {
        let i = (list.len() - 1) as usize;
        lemma_selection_bounded(list.drop_last());
        let m = selection(list.drop_last()).insert(list.last().0, i);
        assert forall|k: String| #[trigger] m.contains_key(k) implies m[k] < list.len() by {
            if k != list.last().0 {
                assert(selection(list.drop_last()).contains_key(k));
            }
        }
        lemma_with_aliases_bounded(m, list.last().1.aliases@, i, list.len() as usize);
    }
}

impl KnownEngines {
    /// Which position each name or alias selects.
    pub closed spec fn spec_selection(&self) -> Map<String, usize> {
        self.alias_map@
    }

    /// The engines, in the order they were given.
    pub closed spec fn spec_engines(&self) -> Seq<DoomEngine> {
        self.engines@
    }

    /// Every name selects an engine.
    pub closed spec fn wf(&self) -> bool {
        forall|k: String| #[trigger] self.alias_map@.contains_key(k) ==> self.alias_map@[k]
            < self.engines@.len()
    }

    /// The engines of `engine_list`, in order, each selected by its name and
    /// by its aliases.
    pub fn new(engine_list: Vec<(String, DoomEngine)>) -> (r: Self)
        ensures
            r.spec_engines() == engine_list@.map_values(|p: (String, DoomEngine)| p.1),
            keys_behave::<String>() ==> r.wf() && r.spec_selection() == selection(engine_list@),
    {
        let mut rest = engine_list;
        let ghost orig = rest@;
        let mut alias_map: HashMap<String, usize> = HashMap::new();
        let mut engines: Vec<DoomEngine> = Vec::new();
        while rest.len() > 0
            invariant
                orig == engine_list@,
                engines@.len() <= orig.len(),
                rest@ == orig.subrange(engines@.len() as int, orig.len() as int),
                engines@ == orig.subrange(0, engines@.len() as int).map_values(|p: (String, DoomEngine)| p.1),
                keys_behave::<String>() ==> alias_map@ == selection(orig.subrange(0, engines@.len() as int)),
            decreases rest@.len(),
        {
            let ghost n = engines@.len() as int;
            let (name, eng) = rest.remove(0);
            assert(orig[n] == (name, eng));
            let i = engines.len();
            alias_map.insert(name, i);
            let mut k: usize = 0;
            let ghost base = selection(orig.subrange(0, n)).insert(orig[n].0, i);
            while k < eng.aliases.len()
                invariant
                    k <= eng.aliases@.len(),
                    keys_behave::<String>() ==> alias_map@ == with_aliases(base, eng.aliases@.subrange(0, k as int), i),
                decreases eng.aliases@.len() - k,
            {
                assert(eng.aliases@.subrange(0, k + 1).drop_last() =~= eng.aliases@.subrange(0, k as int));
                alias_map.insert(eng.aliases[k].clone(), i);
                k = k + 1;
            }
            assert(eng.aliases@.subrange(0, eng.aliases@.len() as int) =~= eng.aliases@);
            engines.push(eng);
            assert(orig.subrange(0, n + 1).drop_last() =~= orig.subrange(0, n));
            assert(engines@ =~= orig.subrange(0, n + 1).map_values(|p: (String, DoomEngine)| p.1));
            assert(rest@ =~= orig.subrange(n + 1, orig.len() as int));
        }
        assert(orig.subrange(0, orig.len() as int) =~= orig);
        let total = engines.len();
        assert(total == orig.len());
        proof {
            lemma_selection_bounded(orig);
        }
        KnownEngines { alias_map, engines }
    }

    /// The first engine given, if any.
    pub fn first(&self) -> (r: Option<&DoomEngine>)
        ensures
            match r {
                Some(e) => self.spec_engines().len() > 0 && *e == self.spec_engines()[0],
                None => self.spec_engines().len() == 0,
            },
    {
        if self.engines.len() == 0 {
            None
        } else {
            Some(&self.engines[0])
        }
    }

    /// The engine that `name` selects, if any.
    pub fn get(&self, name: &str) -> (r: Option<&DoomEngine>)
        ensures
            keys_behave::<String>() ==> match r {
                Some(e) => exists|i: usize|
                    maps_borrowed_key_to_value(self.spec_selection(), name, i) && i < self.spec_engines().len()
                        && *e == self.spec_engines()[i as int],
                None => !contains_borrowed_key(self.spec_selection(), name) || exists|i: usize|
                    maps_borrowed_key_to_value(self.spec_selection(), name, i) && i >= self.spec_engines().len(),
            },
    {
        match self.alias_map.get(name) {
            Some(i) => {
                let index = *i;
                if index < self.engines.len() {
                    let e = &self.engines[index];
                    assert(*e == self.spec_engines()[index as int]);
                    proof {
                        if keys_behave::<String>() {
                            assert(maps_borrowed_key_to_value(self.spec_selection(), name, index));
                        }
                    }
                    Some(e)
                } else {
                    proof {
                        if keys_behave::<String>() {
                            assert(maps_borrowed_key_to_value(self.spec_selection(), name, index));
                        }
                    }
                    None
                }
            },
            None => {
                assert(keys_behave::<String>() ==> !contains_borrowed_key(self.spec_selection(), name));
                None
            },
        }
    }

    /// The aliases of every engine, engine by engine, in order.
    pub fn iter(&self) -> (r: Vec<&str>)
        ensures
            r@.map_values(|s: &str| s@) == all_aliases(self.spec_engines()),
    {
        let mut out: Vec<&str> = Vec::new();
        let mut i: usize = 0;
        while i < self.engines.len()
            invariant
                i <= self.engines@.len(),
                out@.map_values(|s: &str| s@) =~= all_aliases(self.engines@.subrange(0, i as int)),
            decreases self.engines@.len() - i,
        {
            let e = &self.engines[i];
            let mut k: usize = 0;
            let ghost before = out@.map_values(|s: &str| s@);
            while k < e.aliases.len()
                invariant
                    k <= e.aliases@.len(),
                    out@.len() == before.len() + k,
                    out@.map_values(|s: &str| s@) =~= before + e.aliases@.subrange(0, k as int).map_values(
                        |a: String| a@,
                    ),
                decreases e.aliases@.len() - k,
            {
                let ghost prev = out@;
                out.push(e.aliases[k].as_str());
                assert(out@.map_values(|s: &str| s@) =~= prev.map_values(|s: &str| s@).push(e.aliases@[k as int]@));
                assert(e.aliases@.subrange(0, k + 1).map_values(|a: String| a@) =~= e.aliases@.subrange(
                    0,
                    k as int,
                ).map_values(|a: String| a@).push(e.aliases@[k as int]@));
                k = k + 1;
            }
            assert(e.aliases@.subrange(0, e.aliases@.len() as int) =~= e.aliases@);
            assert(self.engines@.subrange(0, i + 1).drop_last() =~= self.engines@.subrange(0, i as int));
            i = i + 1;
        }
        assert(self.engines@.subrange(0, self.engines@.len() as int) =~= self.engines@);
        out
    }
}

/// The aliases of `es`, engine by engine.
pub open spec fn all_aliases(es: Seq<DoomEngine>) -> Seq<Seq<char>>
    decreases es.len(),
{
    if es.len() == 0 {
        Seq::empty()
    } else {
        all_aliases(es.drop_last()) + es.last().aliases@.map_values(|a: String| a@)
    }
}

} // verus!

verus! {

/// One setting inside an engine's block: its name and its values as text.
pub struct EngineSetting {
    pub name: String,
    pub values: Vec<String>,
}

/// One engine's block: the engine's name and its settings, in order.
pub struct EngineBlock {
    pub name: String,
    pub settings: Vec<EngineSetting>,
}

/// An engine as text: aliases, binary, kind, widescreen support, and the
/// arguments it always takes.
pub type EngineView = (Seq<Seq<char>>, Seq<char>, DoomEngineKind, bool, Seq<Seq<char>>);

pub type SettingView = (Seq<char>, Seq<Seq<char>>);

pub type BlockView = (Seq<char>, Seq<SettingView>);

pub open spec fn setting_view(s: EngineSetting) -> SettingView {
    (s.name@, texts(s.values@))
}

pub open spec fn block_view(b: EngineBlock) -> BlockView {
    (b.name@, b.settings@.map_values(|s: EngineSetting| setting_view(s)))
}

pub open spec fn blocks_view(bs: Seq<EngineBlock>) -> Seq<BlockView> {
    bs.map_values(|b: EngineBlock| block_view(b))
}

pub open spec fn engine_view(d: DoomEngine) -> EngineView {
    (texts(d.aliases@), d.binary@, d.kind, d.supports_widescreen_assets, texts(d.required_args@))
}

pub open spec fn default_engine_view() -> EngineView {
    (Seq::empty(), "/bin/true"@, DoomEngineKind::Vanilla, false, Seq::empty())
}

/// The kind a name spells, exactly.
pub open spec fn kind_named(s: Seq<char>) -> Option<DoomEngineKind> {
    if s == "Vanilla"@ {
        Some(DoomEngineKind::Vanilla)
    } else if s == "MBF"@ {
        Some(DoomEngineKind::MBF)
    } else if s == "Boom"@ {
        Some(DoomEngineKind::Boom)
    } else if s == "ZDoom"@ {
        Some(DoomEngineKind::ZDoom)
    } else if s == "Eternity"@ {
        Some(DoomEngineKind::Eternity)
    } else {
        None
    }
}

/// `e` after one setting: aliases are added to, the binary, kind and
/// widescreen support take the first value, required arguments are
/// replaced, and other names are ignored. `None` when a setting that takes
/// its first value has none, or the kind is unknown.
pub open spec fn apply_setting(e: EngineView, s: SettingView) -> Option<EngineView> {
    let (name, values) = s;
    if name == "aliases"@ {
        Some((e.0 + values, e.1, e.2, e.3, e.4))
    } else if name == "binary"@ {
        if values.len() == 0 {
            None
        } else {
            Some((e.0, values[0], e.2, e.3, e.4))
        }
    } else if name == "kind"@ {
        if values.len() == 0 {
            None
        } else {
            match kind_named(values[0]) {
                Some(k) => Some((e.0, e.1, k, e.3, e.4)),
                None => None,
            }
        }
    } else if name == "supports_widescreen_assets"@ {
        if values.len() == 0 {
            None
        } else {
            Some((e.0, e.1, e.2, values[0] == "true"@, e.4))
        }
    } else if name == "required_args"@ {
        Some((e.0, e.1, e.2, e.3, values))
    } else {
        Some(e)
    }
}

/// The engine that `settings` describe, starting from the default engine.
pub open spec fn apply_settings(settings: Seq<SettingView>) -> Option<EngineView>
    decreases settings.len(),
{
    if settings.len() == 0 {
        Some(default_engine_view())
    } else {
        match apply_settings(settings.drop_last()) {
            None => None,
            Some(e) => apply_setting(e, settings.last()),
        }
    }
}

pub proof fn lemma_apply_settings_fails_on(settings: Seq<SettingView>, k: int)
    requires
        0 <= k <= settings.len(),
        apply_settings(settings.subrange(0, k)) is None,
    ensures
        apply_settings(settings) is None,
    decreases settings.len() - k,
{
    if k < settings.len() {
        assert(settings.subrange(0, k + 1).drop_last() =~= settings.subrange(0, k));
        lemma_apply_settings_fails_on(settings, k + 1);
    } else {
        assert(settings.subrange(0, k) =~= settings);
    }
}

/// The kind that `s` spells, exactly.
pub fn parse_kind(s: &str) -> (r: Option<DoomEngineKind>)
    ensures
        r == kind_named(s@),
{
    if text_eq(s, "Vanilla") {
        Some(DoomEngineKind::Vanilla)
    } else if text_eq(s, "MBF") {
        Some(DoomEngineKind::MBF)
    } else if text_eq(s, "Boom") {
        Some(DoomEngineKind::Boom)
    } else if text_eq(s, "ZDoom") {
        Some(DoomEngineKind::ZDoom)
    } else if text_eq(s, "Eternity") {
        Some(DoomEngineKind::Eternity)
    } else {
        None
    }
}

/// Copies of `v`'s texts.
fn copy_texts(v: &Vec<String>) -> (r: Vec<String>)
    ensures
        texts(r@) == texts(v@),
{
    let mut out: Vec<String> = Vec::new();
    let mut i: usize = 0;
    while i < v.len()
        invariant
            i <= v@.len(),
            out@.len() == i,
            texts(out@) =~= texts(v@.subrange(0, i as int)),
        decreases v@.len() - i,
    {
        let ghost prev = out@;
        out.push(String::from_str(v[i].as_str()));
        assert(texts(out@) =~= texts(prev).push(v@[i as int]@));
        assert(v@.subrange(0, i + 1) =~= v@.subrange(0, i as int).push(v@[i as int]));
        i = i + 1;
    }
    assert(v@.subrange(0, v@.len() as int) =~= v@);
    out
}

/// Applies one setting to `engine`; `false` when the setting is invalid, in
/// which case `engine` is left as it was.
fn apply_one(engine: &mut DoomEngine, s: &EngineSetting) -> (r: bool)
    ensures
        r == (apply_setting(engine_view(*old(engine)), setting_view(*s)) is Some),
        r ==> Some(engine_view(*final(engine))) == apply_setting(engine_view(*old(engine)), setting_view(*s)),
{
    let name = s.name.as_str();
    if text_eq(name, "aliases") {
        let ghost before = texts(engine.aliases@);
        let mut i: usize = 0;
        while i < s.values.len()
            invariant
                i <= s.values@.len(),
                engine.aliases@.len() == before.len() + i,
                texts(engine.aliases@) =~= before + texts(s.values@.subrange(0, i as int)),
                engine.binary == old(engine).binary,
                engine.kind == old(engine).kind,
                engine.supports_widescreen_assets == old(engine).supports_widescreen_assets,
                engine.required_args == old(engine).required_args,
                before == texts(old(engine).aliases@),
            decreases s.values@.len() - i,
        {
            let ghost prev = engine.aliases@;
            engine.aliases.push(String::from_str(s.values[i].as_str()));
            assert(texts(engine.aliases@) =~= texts(prev).push(s.values@[i as int]@));
            assert(s.values@.subrange(0, i + 1) =~= s.values@.subrange(0, i as int).push(s.values@[i as int]));
            i = i + 1;
        }
        assert(s.values@.subrange(0, s.values@.len() as int) =~= s.values@);
        true
    } else if text_eq(name, "binary") {
        if s.values.len() == 0 {
            return false;
        }
        engine.binary = String::from_str(s.values[0].as_str());
        true
    } else if text_eq(name, "kind") {
        if s.values.len() == 0 {
            return false;
        }
        match parse_kind(s.values[0].as_str()) {
            Some(k) => {
                engine.kind = k;
                true
            },
            None => false,
        }
    } else if text_eq(name, "supports_widescreen_assets") {
        if s.values.len() == 0 {
            return false;
        }
        engine.supports_widescreen_assets = text_eq(s.values[0].as_str(), "true");
        true
    } else if text_eq(name, "required_args") {
        engine.required_args = copy_texts(&s.values);
        true
    } else {
        true
    }
}

/// The engine that `settings` describe, starting from the default engine.
/// Fails, naming the setting, when one lacks the value it takes or names an
/// unknown kind.
pub fn engine_from_settings(settings: &Vec<EngineSetting>) -> (r: Result<DoomEngine, Error>)
    ensures
        match apply_settings(settings@.map_values(|s: EngineSetting| setting_view(s))) {
            Some(e) => r is Ok && engine_view(r->Ok_0) == e,
            None => r is Err && r->Err_0 is BadEngineSetting,
        },
{
    let ghost sv = settings@.map_values(|s: EngineSetting| setting_view(s));
    let mut engine = DoomEngine::default();
    assert(engine_view(engine) =~= default_engine_view());
    let mut i: usize = 0;
    while i < settings.len()
        invariant
            i <= settings@.len(),
            sv == settings@.map_values(|s: EngineSetting| setting_view(s)),
            apply_settings(sv.subrange(0, i as int)) == Some(engine_view(engine)),
        decreases settings@.len() - i,
    {
        assert(sv.subrange(0, i + 1).drop_last() =~= sv.subrange(0, i as int));
        assert(sv.subrange(0, i + 1).last() == setting_view(settings@[i as int]));
        if !apply_one(&mut engine, &settings[i]) {
            proof {
                lemma_apply_settings_fails_on(sv, i + 1);
            }
            return Err(Error::BadEngineSetting(String::from_str(settings[i].name.as_str())));
        }
        i = i + 1;
    }
    assert(sv.subrange(0, sv.len() as int) =~= sv);
    Ok(engine)
}

} // verus!

verus! {

/// Every block describes a valid engine.
pub open spec fn all_valid(bs: Seq<BlockView>) -> bool {
    forall|i: int| 0 <= i < bs.len() ==> (#[trigger] apply_settings(bs[i].1)) is Some
}

/// Each block's name paired with the engine at the same position.
pub open spec fn named(bs: Seq<EngineBlock>, es: Seq<DoomEngine>) -> Seq<(String, DoomEngine)> {
    Seq::new(bs.len(), |i: int| (bs[i].name, es[i]))
}

/// The engines that `blocks` describe, in order, each selected by its
/// block's name and by its aliases. Fails when a block holds an invalid
/// setting.
pub fn engines_from_blocks(blocks: Vec<EngineBlock>) -> (r: Result<KnownEngines, Error>)
    ensures
        all_valid(blocks_view(blocks@)) ==> {
            &&& r is Ok
            &&& r->Ok_0.spec_engines().len() == blocks@.len()
            &&& forall|i: int|
                0 <= i < blocks@.len() ==> Some(engine_view(#[trigger] r->Ok_0.spec_engines()[i]))
                    == apply_settings(blocks_view(blocks@)[i].1)
            &&& keys_behave::<String>() ==> r->Ok_0.wf() && r->Ok_0.spec_selection() == selection(
                named(blocks@, r->Ok_0.spec_engines()),
            )
        },
        !all_valid(blocks_view(blocks@)) ==> r is Err && r->Err_0 is BadEngineSetting,
{
    let mut rest = blocks;
    let ghost orig = rest@;
    let mut list: Vec<(String, DoomEngine)> = Vec::new();
    while rest.len() > 0
        invariant
            orig == blocks@,
            list@.len() <= orig.len(),
            rest@ == orig.subrange(list@.len() as int, orig.len() as int),
            forall|i: int| 0 <= i < list@.len() ==> (#[trigger] list@[i]).0 == orig[i].name,
            forall|i: int|
                0 <= i < list@.len() ==> Some(engine_view((#[trigger] list@[i]).1)) == apply_settings(
                    blocks_view(orig)[i].1,
                ),
        decreases rest@.len(),
    {
        let ghost n = list@.len() as int;
        let block = rest.remove(0);
        assert(orig[n] == block);
        assert(blocks_view(orig)[n].1 == block.settings@.map_values(|s: EngineSetting| setting_view(s)));
        match engine_from_settings(&block.settings) {
            Err(e) => {
                assert(!all_valid(blocks_view(orig)));
                return Err(e);
            },
            Ok(engine) => {
                list.push((block.name, engine));
            },
        }
        assert(rest@ =~= orig.subrange(n + 1, orig.len() as int));
    }
    let ghost pairs = list@;
    let known = KnownEngines::new(list);
    assert(known.spec_engines() == pairs.map_values(|p: (String, DoomEngine)| p.1));
    assert(named(orig, known.spec_engines()) =~= pairs);
    assert forall|i: int| 0 <= i < orig.len() implies (#[trigger] apply_settings(blocks_view(orig)[i].1)) is Some by {
        assert(pairs[i].1 == known.spec_engines()[i]);
    }
    Ok(known)
}

/// What the document parser reads from a text: its top-level nodes, each
/// with the names and values of its child nodes; `None` when the text is
/// not a valid document.
pub uninterp spec fn kdl_document(text: Seq<char>) -> Option<Seq<BlockView>>;

/// Relies on kdl::parse_document: it reads a text into its top-level nodes
/// (name, children, each child's values), as a function of the text alone,
/// or fails with an error whose message is kept.
#[verifier::external_body]
fn parse_engine_file(text: &str) -> (r: Result<Vec<EngineBlock>, String>)
    ensures
        match r {
            Ok(bs) => kdl_document(text@) == Some(blocks_view(bs@)),
            Err(_) => kdl_document(text@) is None,
        },
{
    kdl::parse_document(text).map_err(|e| e.to_string()).map(|nodes| nodes.into_iter().map(|n| EngineBlock {
        name: n.name,
        settings: n.children.into_iter().map(|c| EngineSetting {
            name: c.name,
            values: c.values.into_iter().map(|v| match v {
                kdl::KdlValue::String(s) => s,
                other => other.to_string(),
            }).collect(),
        }).collect(),
    }).collect())
}

/// The engines that an engines file holds: one block per engine, each
/// setting a child node. Fails when the text is not a valid document, or
/// when a block holds an invalid setting.
pub fn read_known_engines(text: &str) -> (r: Result<KnownEngines, Error>)
    ensures
        match kdl_document(text@) {
            None => r is Err && r->Err_0 is BadEngineFile,
            Some(bs) => {
                &&& all_valid(bs) ==> r is Ok && r->Ok_0.spec_engines().len() == bs.len() && forall|i: int|
                    0 <= i < bs.len() ==> Some(engine_view(#[trigger] r->Ok_0.spec_engines()[i]))
                        == apply_settings(bs[i].1)
                &&& !all_valid(bs) ==> r is Err && r->Err_0 is BadEngineSetting
            },
        },
{
    match parse_engine_file(text) {
        Err(message) => Err(Error::BadEngineFile(message)),
        Ok(blocks) => engines_from_blocks(blocks),
    }
}

} // verus!
