use doom_launch::engine::{DoomEngine, DoomEngineKind, KnownEngines};

fn engine(binary: &str, aliases: &[&str], kind: DoomEngineKind) -> DoomEngine {
    let mut e = DoomEngine::default();
    e.binary = binary.to_string();
    e.aliases = aliases.iter().map(|a| a.to_string()).collect();
    e.kind = kind;
    e
}

#[test]
fn default_engine_is_vanilla_true() {
    let e = DoomEngine::default();
    assert_eq!(e.binary, "/bin/true");
    assert_eq!(e.kind, DoomEngineKind::Vanilla);
    assert!(e.aliases.is_empty());
    assert!(e.required_args.is_empty());
    assert!(!e.supports_widescreen_assets);
}

#[test]
fn engines_found_by_name_and_alias() {
    let known = KnownEngines::new(vec![
        ("prboom".to_string(), engine("/usr/bin/prboom-plus", &["pb", "boom"], DoomEngineKind::Boom)),
        ("crispy".to_string(), engine("/usr/bin/crispy-doom", &["cr"], DoomEngineKind::Vanilla)),
    ]);
    assert_eq!(known.get("prboom").unwrap().binary, "/usr/bin/prboom-plus");
    assert_eq!(known.get("boom").unwrap().kind, DoomEngineKind::Boom);
    assert_eq!(known.get("cr").unwrap().binary, "/usr/bin/crispy-doom");
    assert!(known.get("zdoom").is_none());
    assert_eq!(known.iter(), vec!["pb", "boom", "cr"]);
}

#[test]
fn later_engine_takes_over_repeated_alias() {
    let known = KnownEngines::new(vec![
        ("a".to_string(), engine("/a", &["x"], DoomEngineKind::MBF)),
        ("b".to_string(), engine("/b", &["x"], DoomEngineKind::ZDoom)),
    ]);
    assert_eq!(known.get("x").unwrap().binary, "/b");
    assert_eq!(known.get("a").unwrap().kind, DoomEngineKind::MBF);
}
