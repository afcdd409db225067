use doom_launch::autoload::autoload_names;
use doom_launch::engine::{
    engine_from_settings, engines_from_blocks, parse_kind, read_known_engines, DoomEngineKind,
    EngineBlock, EngineSetting,
};
use doom_launch::error::Error;

fn setting(name: &str, values: &[&str]) -> EngineSetting {
    EngineSetting { name: name.to_string(), values: values.iter().map(|v| v.to_string()).collect() }
}

fn strings(v: &[&str]) -> Vec<String> {
    v.iter().map(|s| s.to_string()).collect()
}

#[test]
fn kinds_are_spelled_exactly() {
    assert_eq!(parse_kind("MBF"), Some(DoomEngineKind::MBF));
    assert_eq!(parse_kind("ZDoom"), Some(DoomEngineKind::ZDoom));
    assert_eq!(parse_kind("mbf"), None);
}

#[test]
fn settings_build_an_engine() {
    let e = engine_from_settings(&vec![
        setting("aliases", &["pb"]),
        setting("binary", &["/usr/bin/prboom-plus", "ignored"]),
        setting("kind", &["Boom"]),
        setting("aliases", &["boom"]),
        setting("supports_widescreen_assets", &["true"]),
        setting("required_args", &["-nomusic", "-nosound"]),
        setting("colour", &["red"]),
    ])
    .unwrap();
    assert_eq!(e.aliases, strings(&["pb", "boom"]));
    assert_eq!(e.binary, "/usr/bin/prboom-plus");
    assert_eq!(e.kind, DoomEngineKind::Boom);
    assert!(e.supports_widescreen_assets);
    assert_eq!(e.required_args, strings(&["-nomusic", "-nosound"]));
}

#[test]
fn invalid_settings_are_named() {
    assert_eq!(
        engine_from_settings(&vec![setting("kind", &["Doomsday"])]).err(),
        Some(Error::BadEngineSetting("kind".to_string()))
    );
    assert_eq!(
        engine_from_settings(&vec![setting("binary", &[])]).err(),
        Some(Error::BadEngineSetting("binary".to_string()))
    );
    let e = engine_from_settings(&vec![setting("supports_widescreen_assets", &["yes"])]).unwrap();
    assert!(!e.supports_widescreen_assets);
    assert_eq!(e.binary, "/bin/true");
}

#[test]
fn blocks_become_known_engines() {
    let known = engines_from_blocks(vec![
        EngineBlock { name: "crispy".to_string(), settings: vec![setting("aliases", &["cr"]), setting("binary", &["/c"])] },
        EngineBlock { name: "eternity".to_string(), settings: vec![setting("kind", &["Eternity"])] },
    ])
    .ok()
    .unwrap();
    assert_eq!(known.get("cr").unwrap().binary, "/c");
    assert_eq!(known.get("eternity").unwrap().kind, DoomEngineKind::Eternity);
    let bad = engines_from_blocks(vec![EngineBlock { name: "x".to_string(), settings: vec![setting("kind", &[])] }]);
    assert!(matches!(bad, Err(Error::BadEngineSetting(_))));
}

#[test]
fn engines_file_is_read() {
    let text = "crispy {\n    aliases \"cr\" \"crispy-doom\"\n    binary \"/usr/bin/crispy-doom\"\n    kind \"Vanilla\"\n    supports_widescreen_assets \"false\"\n    required_args\n}\n";
    let known = read_known_engines(text).ok().unwrap();
    let e = known.get("crispy-doom").unwrap();
    assert_eq!(e.binary, "/usr/bin/crispy-doom");
    assert_eq!(e.kind, DoomEngineKind::Vanilla);
    assert!(e.required_args.is_empty());
    assert_eq!(known.iter(), vec!["cr", "crispy-doom"]);
}

#[test]
fn malformed_engines_file_fails() {
    assert!(matches!(read_known_engines("crispy {"), Err(Error::BadEngineFile(_))));
    assert!(matches!(read_known_engines("a {\n kind \"Nope\"\n}\n"), Err(Error::BadEngineSetting(_))));
}

#[test]
fn autoload_lists_are_chosen_by_engine_and_iwad() {
    let by_engine = vec![
        ("prboom-plus".to_string(), strings(&["bar.pk3"])),
        ("crispy".to_string(), strings(&["c.wad"])),
    ];
    let by_iwad = vec![("doom2.wad".to_string(), strings(&["foo.wad", "x.deh"]))];
    let names = autoload_names(strings(&["always.wad"]), &by_engine, &by_iwad, "/usr/bin/prboom-plus", "doom2.wad").unwrap();
    assert_eq!(names, strings(&["always.wad", "bar.pk3", "foo.wad", "x.deh"]));
    let names = autoload_names(Vec::new(), &by_engine, &by_iwad, "/opt/zdoom.exe", "tnt.wad").unwrap();
    assert!(names.is_empty());
    assert_eq!(
        autoload_names(Vec::new(), &by_engine, &by_iwad, "/usr/bin/", "doom2.wad"),
        Err(Error::NoBaseName("/usr/bin/".to_string()))
    );
}
