use doom_launch::pwads::{pwad_kind, PwadKind, Pwads};

#[test]
fn pwad_kinds_by_extension() {
    assert_eq!(pwad_kind("/p/scythe.WAD"), Some(PwadKind::Wad));
    assert_eq!(pwad_kind("/p/mod.pk3"), Some(PwadKind::Wad));
    assert_eq!(pwad_kind("/p/maps"), Some(PwadKind::Wad));
    assert_eq!(pwad_kind("/p/fix.deh"), Some(PwadKind::Deh));
    assert_eq!(pwad_kind("/p/fix.BEX"), Some(PwadKind::Deh));
    assert_eq!(pwad_kind("/p/readme.txt"), None);
}

#[test]
fn pwads_kept_in_order_by_kind() {
    let mut p = Pwads::new();
    assert!(p.add_by_kind("/p/a.wad".to_string()));
    assert!(p.add_by_kind("/p/a.deh".to_string()));
    assert!(!p.add_by_kind("/p/a.txt".to_string()));
    p.add_wads(vec!["/p/b.zip".to_string(), "/p/c.pk3".to_string()]);
    p.add_wad("/p/d.wad".to_string());
    p.add_dehs(vec!["/p/b.bex".to_string()]);
    p.add_deh("/p/c.deh".to_string());
    assert_eq!(p.wads(), ["/p/a.wad", "/p/b.zip", "/p/c.pk3", "/p/d.wad"]);
    assert_eq!(p.dehs(), ["/p/a.deh", "/p/b.bex", "/p/c.deh"]);
}
