use radio_pipeline::playlist::{Playlist, PlaylistStep};
use radio_pipeline::scanner::{Catalog, TrackId};

fn drain(playlist: &mut Playlist<u32>) -> Vec<u32> {
    let mut out = Vec::new();
    while let Some(t) = playlist.pop() {
        out.push(t);
    }
    out
}

#[test]
fn new_playlist_asks_for_a_snapshot() {
    let mut playlist: Playlist<u32> = Playlist::new();
    assert_eq!(playlist.remaining(), 0);
    assert!(playlist.pop().is_none());
    assert!(matches!(playlist.poll_next(None), PlaylistStep::NeedSnapshot));
}

#[test]
fn cycle_emits_every_track_exactly_once() {
    let mut playlist: Playlist<u32> = Playlist::new();
    let snapshot: Vec<u32> = (0..50).collect();
    playlist.refill(snapshot.clone());
    assert_eq!(playlist.remaining(), 50);
    let mut emitted = drain(&mut playlist);
    assert_eq!(emitted.len(), 50);
    emitted.sort();
    assert_eq!(emitted, snapshot);
    assert!(playlist.pop().is_none());
}

#[test]
fn poll_next_runs_a_whole_cycle_then_asks_again() {
    let mut playlist: Playlist<u32> = Playlist::new();
    let mut emitted = Vec::new();
    match playlist.poll_next(Some(vec![7, 8, 9])) {
        PlaylistStep::Track(t) => emitted.push(t),
        _ => panic!("a track was due"),
    }
    loop {
        match playlist.poll_next(None) {
            PlaylistStep::Track(t) => emitted.push(t),
            PlaylistStep::NeedSnapshot => break,
            PlaylistStep::Suspend => panic!("no snapshot was handed in"),
        }
    }
    emitted.sort();
    assert_eq!(emitted, vec![7, 8, 9]);
}

#[test]
fn empty_catalog_yields_nothing_and_suspends() {
    let mut playlist: Playlist<u32> = Playlist::new();
    assert!(matches!(playlist.poll_next(Some(Vec::new())), PlaylistStep::Suspend));
    assert_eq!(playlist.remaining(), 0);
    assert!(matches!(playlist.poll_next(None), PlaylistStep::NeedSnapshot));
    assert!(matches!(playlist.poll_next(Some(Vec::new())), PlaylistStep::Suspend));
}

#[test]
fn single_track_catalog_repeats_the_track_each_cycle() {
    let mut playlist: Playlist<u32> = Playlist::new();
    for _ in 0..3 {
        assert!(matches!(playlist.poll_next(Some(vec![42])), PlaylistStep::Track(42)));
        assert!(matches!(playlist.poll_next(None), PlaylistStep::NeedSnapshot));
    }
}

#[test]
fn refill_keeps_what_was_left() {
    let mut playlist: Playlist<u32> = Playlist::new();
    playlist.refill(vec![1, 2]);
    playlist.refill(vec![2, 3]);
    let mut emitted = drain(&mut playlist);
    emitted.sort();
    assert_eq!(emitted, vec![1, 2, 2, 3]);
}

#[test]
fn shuffle_changes_the_order() {
    let snapshot: Vec<u32> = (0..200).collect();
    let mut playlist: Playlist<u32> = Playlist::new();
    playlist.refill(snapshot.clone());
    let emitted = drain(&mut playlist);
    let mut reversed = snapshot.clone();
    reversed.reverse();
    assert_ne!(emitted, reversed);
    assert_ne!(emitted, snapshot);
    let mut sorted = emitted.clone();
    sorted.sort();
    assert_eq!(sorted, snapshot);
}

#[test]
fn cycles_differ_from_each_other() {
    let snapshot: Vec<u32> = (0..200).collect();
    let mut playlist: Playlist<u32> = Playlist::new();
    playlist.refill(snapshot.clone());
    let first = drain(&mut playlist);
    playlist.refill(snapshot.clone());
    let second = drain(&mut playlist);
    assert_ne!(first, second);
}

#[test]
fn removed_track_is_not_in_the_next_cycle() {
    let mut catalog = Catalog::new();
    for p in ["a.mp3", "b.mp3", "c.mp3"] {
        catalog.insert(TrackId::new(p.as_bytes().to_vec()));
    }
    let mut playlist: Playlist<TrackId> = Playlist::new();
    playlist.refill(catalog.snapshot());
    let playing = playlist.pop().unwrap();
    // The track that plays leaves the catalog; what was drawn stays drawn.
    assert!(catalog.remove(&playing));
    let mut rest = Vec::new();
    while let Some(t) = playlist.pop() {
        rest.push(t.as_bytes().clone());
    }
    assert_eq!(rest.len(), 2);
    playlist.refill(catalog.snapshot());
    let mut next = Vec::new();
    while let Some(t) = playlist.pop() {
        next.push(t.as_bytes().clone());
    }
    next.sort();
    let mut expected: Vec<Vec<u8>> = catalog.snapshot().iter().map(|t| t.as_bytes().clone()).collect();
    expected.sort();
    assert_eq!(next, expected);
    assert_eq!(next.len(), 2);
    assert!(!next.contains(playing.as_bytes()));
}
