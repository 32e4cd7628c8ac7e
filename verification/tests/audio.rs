use dermixen_app::audio::{AudioCache, TRACKS_KEPT, Wanted, keylock_note, to_be_read};
use dermixen_app::units::ContentHash;
use std::sync::Arc;

/// A hash whose first byte is `byte`, to tell tracks apart in the tests.
fn hash(byte: u8) -> ContentHash {
    let mut bytes = [0u8; 32];
    bytes[0] = byte;
    ContentHash(bytes)
}

/// Some audio to keep, whose contents do not matter here.
fn audio() -> Arc<Vec<[f32; 2]>> {
    Arc::new(vec![[0.0, 0.0]; 8])
}

#[test]
fn the_track_used_longest_ago_is_let_go_first() {
    let mut cache = AudioCache::default();
    for byte in 0..=TRACKS_KEPT as u8 {
        cache.keep(hash(byte), audio());
    }
    assert!(
        cache.heard(hash(0)).is_none(),
        "the first track kept should have been let go"
    );
    assert!(
        cache.heard(hash(TRACKS_KEPT as u8)).is_some(),
        "the track kept last should still be there"
    );
}

#[test]
fn hearing_a_track_keeps_it_from_being_let_go() {
    let mut cache = AudioCache::default();
    for byte in 0..TRACKS_KEPT as u8 {
        cache.keep(hash(byte), audio());
    }
    assert!(cache.heard(hash(0)).is_some());
    cache.keep(hash(9), audio());
    assert!(
        cache.heard(hash(0)).is_some(),
        "the track heard again should have outlived the one after it"
    );
    assert!(
        cache.heard(hash(1)).is_none(),
        "the track used longest ago should have been let go"
    );
}

#[test]
fn a_full_store_has_no_room_for_a_track_read_ahead() {
    let mut cache = AudioCache::default();
    for byte in 0..TRACKS_KEPT as u8 {
        cache.keep(hash(byte), audio());
    }
    cache.read_ahead(hash(9), audio());
    assert!(
        cache.heard(hash(9)).is_none(),
        "a full store should have no room for a track read ahead"
    );
    for byte in 0..TRACKS_KEPT as u8 {
        assert!(cache.heard(hash(byte)).is_some());
    }
}

#[test]
fn a_track_read_ahead_is_let_go_before_a_track_the_render_asked_for() {
    let mut cache = AudioCache::default();
    cache.keep(hash(0), audio());
    for byte in 1..TRACKS_KEPT as u8 {
        cache.read_ahead(hash(byte), audio());
    }
    cache.keep(hash(9), audio());
    assert!(
        cache.heard(hash(0)).is_some(),
        "the track the render asked for should have outlived the read-ahead ones"
    );
    assert!(
        cache.heard(hash(TRACKS_KEPT as u8 - 1)).is_none(),
        "the last track read ahead should have been let go"
    );
}

#[test]
fn a_track_read_ahead_that_the_render_asks_for_is_kept_like_any_other() {
    let mut cache = AudioCache::default();
    for byte in 0..TRACKS_KEPT as u8 {
        cache.read_ahead(hash(byte), audio());
    }
    assert!(cache.heard(hash(0)).is_some());
    cache.keep(hash(9), audio());
    assert!(
        cache.heard(hash(0)).is_some(),
        "a track the render asked for should not be let go for a read-ahead one"
    );
    assert!(
        cache.heard(hash(TRACKS_KEPT as u8 - 1)).is_none(),
        "the last track still only read ahead should have been let go"
    );
}

#[test]
fn a_file_at_two_positions_of_the_playlist_is_read_once() {
    let file = "/tmp/a folder to work in/lsd.wav".to_owned();
    let track = Wanted {
        hash: ContentHash([7; 32]),
        path: file.clone(),
    };
    let again = Wanted {
        hash: ContentHash([7; 32]),
        path: file.clone(),
    };
    let tracks = vec![track, again];
    let mut handed = Vec::new();
    let wanted = to_be_read(&tracks, &Vec::new(), &mut handed);
    assert_eq!(wanted.len(), 1, "{wanted:?}");
    assert_eq!(handed, vec![ContentHash([7; 32])]);
}

#[test]
fn a_track_with_no_file_is_not_read_and_one_handed_before_is_not_read_again() {
    let tracks = vec![
        Wanted {
            hash: hash(1),
            path: "a.wav".to_owned(),
        },
        Wanted {
            hash: hash(2),
            path: "b.wav".to_owned(),
        },
        Wanted {
            hash: hash(3),
            path: "c.wav".to_owned(),
        },
    ];
    let mut handed = vec![hash(3)];
    let wanted = to_be_read(&tracks, &vec![hash(1)], &mut handed);
    assert_eq!(wanted.len(), 1);
    assert_eq!(wanted[0].path, "b.wav");
    assert_eq!(handed, vec![hash(3), hash(2)]);
}

#[test]
fn a_track_kept_again_is_kept_once_and_first() {
    let mut cache = AudioCache::default();
    cache.keep(hash(1), 10u32);
    cache.keep(hash(2), 20u32);
    cache.keep(hash(1), 30u32);
    assert_eq!(cache.heard(hash(1)), Some(30));
    assert_eq!(cache.heard(hash(2)), Some(20));
    cache.read_ahead(hash(2), 99u32);
    assert_eq!(cache.heard(hash(2)), Some(20));
}

#[test]
fn this_build_says_why_keylock_moves_the_pitch() {
    assert_eq!(
        keylock_note().as_deref(),
        Some(
            "This build has no pitch-preserving stretcher, so tracks with keylock are resampled \
             and their pitch moves with their speed"
        )
    );
}
