use radio_pipeline::scanner::{Catalog, ChangeKind, FaultKind, Position, TrackId};

fn id(path: &str) -> TrackId {
    TrackId::new(path.as_bytes().to_vec())
}

fn paths(catalog: &Catalog) -> Vec<String> {
    catalog
        .snapshot()
        .iter()
        .map(|t| String::from_utf8(t.as_bytes().clone()).unwrap())
        .collect()
}

#[test]
fn track_id_keeps_its_bytes() {
    let track = id("music/a.flac");
    assert_eq!(track.as_bytes().as_slice(), b"music/a.flac");
    let copy = track.clone();
    assert_eq!(copy.as_bytes(), track.as_bytes());
}

#[test]
fn position_is_lexicographic() {
    assert_eq!(id("a").position(&id("b")), Position::Before);
    assert_eq!(id("b").position(&id("a")), Position::After);
    assert_eq!(id("abc").position(&id("abc")), Position::Same);
    assert_eq!(id("ab").position(&id("abc")), Position::Before);
    assert_eq!(id("abc").position(&id("ab")), Position::After);
    assert_eq!(id("").position(&id("")), Position::Same);
    assert_eq!(id("").position(&id("a")), Position::Before);
    assert_eq!(id("a/z").position(&id("a0")), Position::Before);
}

#[test]
fn position_compares_bytes_as_unsigned() {
    let low = TrackId::new(vec![0x7f]);
    let high = TrackId::new(vec![0x80]);
    assert_eq!(low.position(&high), Position::Before);
    assert_eq!(high.position(&low), Position::After);
}

#[test]
fn new_catalog_is_empty() {
    let catalog = Catalog::new();
    assert_eq!(catalog.len(), 0);
    assert!(catalog.snapshot().is_empty());
    assert!(!catalog.contains(&id("a")));
}

#[test]
fn insert_keeps_ascending_order() {
    let mut catalog = Catalog::new();
    assert!(catalog.insert(id("m")));
    assert!(catalog.insert(id("z")));
    assert!(catalog.insert(id("a")));
    assert!(catalog.insert(id("mm")));
    assert_eq!(paths(&catalog), vec!["a", "m", "mm", "z"]);
    assert_eq!(catalog.len(), 4);
}

#[test]
fn insert_of_a_member_changes_nothing() {
    let mut catalog = Catalog::new();
    assert!(catalog.insert(id("a")));
    assert!(catalog.insert(id("b")));
    assert!(!catalog.insert(id("a")));
    assert!(!catalog.insert(id("b")));
    assert_eq!(paths(&catalog), vec!["a", "b"]);
}

#[test]
fn remove_takes_out_only_the_member() {
    let mut catalog = Catalog::new();
    for p in ["c", "a", "b", "d"] {
        catalog.insert(id(p));
    }
    assert!(catalog.remove(&id("b")));
    assert_eq!(paths(&catalog), vec!["a", "c", "d"]);
    assert!(!catalog.remove(&id("b")));
    assert!(!catalog.remove(&id("zz")));
    assert_eq!(paths(&catalog), vec!["a", "c", "d"]);
    assert!(catalog.remove(&id("a")));
    assert!(catalog.remove(&id("d")));
    assert!(catalog.remove(&id("c")));
    assert_eq!(catalog.len(), 0);
}

#[test]
fn contains_finds_members_only() {
    let mut catalog = Catalog::new();
    for p in ["song44k.wav", "song22k.wav", "corrupt.bin"] {
        catalog.insert(id(p));
    }
    assert!(catalog.contains(&id("song44k.wav")));
    assert!(catalog.contains(&id("corrupt.bin")));
    assert!(!catalog.contains(&id("song")));
    assert!(!catalog.contains(&id("song44k.wav2")));
    assert!(!catalog.contains(&id("")));
}

#[test]
fn replace_takes_the_scan_as_a_set() {
    let mut catalog = Catalog::new();
    catalog.insert(id("old"));
    catalog.replace(vec![id("b"), id("a"), id("b"), id("c"), id("a")]);
    assert_eq!(paths(&catalog), vec!["a", "b", "c"]);
    catalog.replace(Vec::new());
    assert_eq!(catalog.len(), 0);
}

#[test]
fn snapshot_is_a_copy() {
    let mut catalog = Catalog::new();
    catalog.insert(id("a"));
    let before = catalog.snapshot();
    catalog.insert(id("b"));
    catalog.remove(&id("a"));
    assert_eq!(before.len(), 1);
    assert_eq!(before[0].as_bytes().as_slice(), b"a");
    assert_eq!(paths(&catalog), vec!["b"]);
}

#[test]
fn created_file_joins_the_catalog() {
    let mut catalog = Catalog::new();
    assert!(!catalog.apply_change(id("new.mp3"), ChangeKind::Create));
    assert_eq!(paths(&catalog), vec!["new.mp3"]);
    assert!(!catalog.apply_change(id("new.mp3"), ChangeKind::Create));
    assert_eq!(catalog.len(), 1);
}

#[test]
fn removed_file_leaves_the_catalog() {
    let mut catalog = Catalog::new();
    catalog.insert(id("a"));
    catalog.insert(id("b"));
    assert!(!catalog.apply_change(id("a"), ChangeKind::Remove));
    assert_eq!(paths(&catalog), vec!["b"]);
    assert!(!catalog.apply_change(id("missing"), ChangeKind::Remove));
    assert_eq!(paths(&catalog), vec!["b"]);
}

#[test]
fn other_changes_leave_the_catalog_alone() {
    let mut catalog = Catalog::new();
    catalog.insert(id("a"));
    for kind in [ChangeKind::Any, ChangeKind::Access, ChangeKind::Modify] {
        assert!(!catalog.apply_change(id("a"), kind));
        assert!(!catalog.apply_change(id("x"), kind));
        assert_eq!(paths(&catalog), vec!["a"]);
    }
}

#[test]
fn unknown_change_asks_for_a_rescan() {
    let mut catalog = Catalog::new();
    catalog.insert(id("a"));
    assert!(catalog.apply_change(id("x"), ChangeKind::Other));
    assert_eq!(paths(&catalog), vec!["a"]);
}

#[test]
fn paths_not_found_leave_the_catalog() {
    let mut catalog = Catalog::new();
    for p in ["a", "b", "c", "d"] {
        catalog.insert(id(p));
    }
    catalog.apply_fault(FaultKind::PathNotFound, vec![id("b"), id("zz"), id("d"), id("b")]);
    assert_eq!(paths(&catalog), vec!["a", "c"]);
    catalog.apply_fault(FaultKind::PathNotFound, Vec::new());
    assert_eq!(paths(&catalog), vec!["a", "c"]);
}

#[test]
fn other_faults_leave_the_catalog_alone() {
    let mut catalog = Catalog::new();
    catalog.insert(id("a"));
    for kind in [
        FaultKind::Generic,
        FaultKind::Io,
        FaultKind::WatchNotFound,
        FaultKind::InvalidConfig,
        FaultKind::MaxFilesWatch,
    ] {
        catalog.apply_fault(kind, vec![id("a")]);
        assert_eq!(paths(&catalog), vec!["a"]);
    }
}

#[test]
fn many_inserts_stay_sorted_and_distinct() {
    let mut catalog = Catalog::new();
    let mut expected: Vec<Vec<u8>> = Vec::new();
    let mut x: u32 = 12345;
    for _ in 0..300 {
        x = x.wrapping_mul(1103515245).wrapping_add(12345);
        let bytes = vec![(x >> 16) as u8 % 7, (x >> 8) as u8 % 5];
        let fresh = !expected.contains(&bytes);
        assert_eq!(catalog.insert(TrackId::new(bytes.clone())), fresh);
        if fresh {
            expected.push(bytes);
        }
    }
    expected.sort();
    let got: Vec<Vec<u8>> = catalog.snapshot().iter().map(|t| t.as_bytes().clone()).collect();
    assert_eq!(got, expected);
}
