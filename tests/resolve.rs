use doom_launch::error::Error;
use doom_launch::score::{score_entry, Entry, Query};
use doom_launch::search::{plan_search, resolve_all, resolve_best, EntryFilter};

fn entry(path: &str, is_dir: bool) -> Entry {
    Entry { path: path.to_string(), is_dir }
}

fn q(text: &str) -> Query {
    Query::parse(text).unwrap()
}

#[test]
fn query_parts() {
    let query = q("iwad/doom2.wad");
    assert_eq!(query.dir, "iwad");
    assert_eq!(query.stem, "doom2");
    assert_eq!(query.extension, Some("wad".to_string()));
    assert!(!query.absolute);
    let abs = q("/games/iwad/DOOM2.WAD");
    assert!(abs.absolute);
    assert_eq!(abs.dir, "/games/iwad");
    let dotted = q(".hidden");
    assert_eq!(dotted.stem, ".hidden");
    assert_eq!(dotted.extension, None);
}

#[test]
fn query_without_base_name_fails() {
    assert_eq!(Query::parse("").err(), Some(Error::NoBaseName(String::new())));
    assert_eq!(Query::parse("iwad/").err(), Some(Error::NoBaseName("iwad/".to_string())));
    assert_eq!(Query::parse("a/..").err(), Some(Error::NoBaseName("a/..".to_string())));
}

#[test]
fn score_exact_values() {
    // case-insensitive stem, extension-less query, no directories named: 2 + 1 + 10 + 20
    assert_eq!(score_entry(&q("doom2"), &entry("/iwad/DOOM2.WAD", false)), 33);
    // exact case and matching extension: 2 + 5 + 1 + 10 + 5 + 20
    assert_eq!(score_entry(&q("DOOM2.wad"), &entry("/iwad/DOOM2.WAD", false)), 43);
    // stem differs, extension matches: 1
    assert_eq!(score_entry(&q("doom.wad"), &entry("/iwad/DOOM2.WAD", false)), 1);
    // stem matches, extension differs: 2 + 20
    assert_eq!(score_entry(&q("doom2.deh"), &entry("/iwad/DOOM2.WAD", false)), 22);
    // directories named by the query but not around the entry: 2 + 1 + 10
    assert_eq!(score_entry(&q("pwad/doom2"), &entry("/iwad/DOOM2.WAD", false)), 13);
    assert_eq!(score_entry(&q("iwad/doom2"), &entry("/x/iwad/DOOM2.WAD", false)), 33);
    assert_eq!(score_entry(&q("wad/doom2"), &entry("/x/iwad/DOOM2.WAD", false)), 13);
}

#[test]
fn extensionless_query_not_down_ranked() {
    let e = entry("/pwads/scythe.wad", false);
    let without = score_entry(&q("scythe"), &e);
    assert!(without >= score_entry(&q("scythe.wad"), &e));
    assert!(without >= score_entry(&q("scythe.zip"), &e));
    assert!(score_entry(&q("scythe"), &entry("/pwads/scythe.pk3", false)) > 1);
}

#[test]
fn stem_match_floors() {
    assert!(score_entry(&q("SCYTHE.zip"), &entry("/p/scythe.wad", false)) >= 2);
    assert!(score_entry(&q("scythe.zip"), &entry("/p/scythe.wad", false)) >= 7);
}

#[test]
fn directory_scores_half_of_file() {
    let query = q("maps");
    let file = score_entry(&query, &entry("/pwads/maps", false));
    let dir = score_entry(&query, &entry("/pwads/maps", true));
    assert_eq!(file, 43);
    assert_eq!(dir, 21);
    assert_eq!(dir, file / 2);
    let odd = q("MAPS.wad");
    let file = score_entry(&odd, &entry("/pwads/maps", false));
    assert_eq!(file, 22);
    assert_eq!(score_entry(&odd, &entry("/pwads/maps", true)), 11);
}

#[test]
fn not_found_without_roots() {
    let roots: Vec<Vec<Entry>> = Vec::new();
    let r = resolve_best(&q("doom2"), &EntryFilter::AcceptAll, &roots);
    assert_eq!(r, Err(Error::NotFound("doom2".to_string())));
    let r = resolve_all(&q("doom2"), &EntryFilter::AcceptAll, &roots);
    assert_eq!(r, Err(Error::NotFound("doom2".to_string())));
}

#[test]
fn not_found_without_matches() {
    let roots = vec![
        vec![entry("/iwad", true), entry("/iwad/plutonia.wad", false)],
        vec![entry("/pwad/doom.wad", false)],
    ];
    let r = resolve_all(&q("doom2"), &EntryFilter::AcceptAll, &roots);
    assert_eq!(r, Err(Error::NotFound("doom2".to_string())));
}

#[test]
fn automatic_mode_is_repeatable() {
    let roots = vec![vec![
        entry("/iwad", true),
        entry("/iwad/doom2.wad", false),
        entry("/iwad/DOOM2.WAD", false),
    ]];
    let first = resolve_best(&q("DOOM2"), &EntryFilter::AcceptAll, &roots);
    let second = resolve_best(&q("DOOM2"), &EntryFilter::AcceptAll, &roots);
    assert_eq!(first, Ok("/iwad/DOOM2.WAD".to_string()));
    assert_eq!(first, second);
}

#[test]
fn automatic_finds_case_insensitive_iwad() {
    let roots = vec![vec![entry("/iwad", true), entry("/iwad/DOOM2.WAD", false)]];
    let r = resolve_best(&q("doom2"), &EntryFilter::AcceptAll, &roots);
    assert_eq!(r, Ok("/iwad/DOOM2.WAD".to_string()));
}

#[test]
fn interactive_returns_all_tied() {
    let roots = vec![vec![
        entry("/", true),
        entry("/a", true),
        entry("/a/boss.wad", false),
        entry("/b", true),
        entry("/b/boss.wad", false),
        entry("/b/boss2.wad", false),
    ]];
    let r = resolve_all(&q("boss"), &EntryFilter::AcceptAll, &roots);
    assert_eq!(r, Ok(vec!["/a/boss.wad".to_string(), "/b/boss.wad".to_string()]));
    let best = resolve_best(&q("boss"), &EntryFilter::AcceptAll, &roots);
    assert_eq!(best, Ok("/a/boss.wad".to_string()));
}

#[test]
fn first_root_with_a_match_wins() {
    let roots = vec![
        vec![entry("/one/other.wad", false)],
        vec![entry("/two/boss.wad", false)],
        vec![entry("/three/BOSS.wad", false)],
    ];
    let r = resolve_all(&q("BOSS"), &EntryFilter::AcceptAll, &roots);
    assert_eq!(r, Ok(vec!["/two/boss.wad".to_string()]));
}

#[test]
fn file_beats_directory_of_same_name() {
    let roots = vec![vec![entry("/p/scythe", true), entry("/p/scythe.wad", false)]];
    let r = resolve_all(&q("scythe"), &EntryFilter::AcceptAll, &roots);
    assert_eq!(r, Ok(vec!["/p/scythe.wad".to_string()]));
}

#[test]
fn extension_filter_skips_other_files() {
    let filter = EntryFilter::Extensions(vec!["wad".to_string(), "deh".to_string()]);
    let roots = vec![vec![
        entry("/p/boss.txt", false),
        entry("/p/boss", false),
        entry("/p/BOSS.DEH", false),
    ]];
    let r = resolve_all(&q("boss"), &filter, &roots);
    assert_eq!(r, Ok(vec!["/p/BOSS.DEH".to_string()]));
    let none = vec![vec![entry("/p/boss.txt", false)]];
    assert_eq!(resolve_all(&q("boss"), &filter, &none), Err(Error::NotFound("boss".to_string())));
}

#[test]
fn absolute_query_searches_its_own_directory() {
    let (plan, roots) = plan_search(q("/demos/run/e1m1.lmp"), vec!["/ignored".to_string()]);
    assert_eq!(roots, vec!["/demos/run".to_string()]);
    assert_eq!(plan.stem, "e1m1");
    assert_eq!(plan.extension, None);
    assert!(!plan.absolute);
    let (plan, roots) = plan_search(q("/e1m1.lmp"), vec![]);
    assert_eq!(roots, vec!["/".to_string()]);
    assert_eq!(plan.text, "/e1m1.lmp");
    let (plan, roots) = plan_search(q("demo/e1m1"), vec!["/a".to_string(), "/b".to_string()]);
    assert_eq!(roots, vec!["/a".to_string(), "/b".to_string()]);
    assert_eq!(plan.dir, "demo");
}
