use std::path::PathBuf;

use cache_sweep::collect::{count_readable, TreeCollector, WalkItem};
use cache_sweep::target::{fallback_target, target_folder, temp_candidate, TargetError};
use walkdir::WalkDir;

#[test]
fn unreadable_root_gives_no_entries() {
    let items: Vec<WalkItem> = WalkDir::new("/no/such/directory/for/this/walk").into_iter().collect();
    assert_eq!(items.len(), 1);
    assert_eq!(count_readable(&items), 0);
    let mut c = TreeCollector::new();
    for item in items {
        assert!(!c.accept(item));
    }
    assert_eq!(c.len(), 0);
    assert_eq!(c.unreadable_count(), 1);
    assert!(c.into_entries().is_empty());
}

#[test]
fn readable_walk_keeps_every_entry_in_order() {
    let root = PathBuf::from("tests");
    let items: Vec<WalkItem> = WalkDir::new(&root).min_depth(1).into_iter().collect();
    let expected: Vec<PathBuf> = WalkDir::new(&root)
        .min_depth(1)
        .into_iter()
        .map(|e| e.unwrap().into_path())
        .collect();
    assert_eq!(count_readable(&items), items.len());
    let mut c = TreeCollector::new();
    for item in items {
        assert!(c.accept(item));
    }
    assert_eq!(c.len(), expected.len());
    let entries = c.into_entries();
    assert!(!entries.is_empty());
    assert!(entries.iter().all(|p| *p != root && p.starts_with(&root)));
    assert_eq!(entries, expected);
}

#[test]
fn temp_candidate_appends_cache_path() {
    let p = temp_candidate(&PathBuf::from("/tmp"));
    assert_eq!(p, PathBuf::from("/tmp/nexon/MapleStory Worlds"));
}

#[test]
fn found_temp_candidate_is_the_target() {
    let hit = PathBuf::from("/tmp/nexon/MapleStory Worlds");
    assert_eq!(target_folder(Some(hit.clone())), Ok(hit));
}

#[test]
fn home_fallback_path() {
    let r = fallback_target(Some(PathBuf::from("/home/u")));
    assert_eq!(r, Ok(PathBuf::from("/home/u/AppData/Local/Temp/nexon/MapleStory Worlds")));
}

#[test]
fn no_home_is_an_error() {
    assert_eq!(fallback_target(None), Err(TargetError::NoHomeDir));
}
