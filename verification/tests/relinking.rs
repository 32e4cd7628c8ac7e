use dermixen_app::relinking::{
    NoFile, Outcome, any_path_changed, join_all, relink_failure, relinking_of,
};
use dermixen_app::audio::{Wanted, to_be_read};
use dermixen_app::units::ContentHash;

#[test]
fn every_lane_label_names_what_is_wrong_with_the_file() {
    assert_eq!(NoFile::Missing.label(), "  \u{b7}  the file is missing");
    assert_eq!(NoFile::Changed.label(), "  \u{b7}  the file has changed");
    assert_eq!(NoFile::Unreadable.label(), "  \u{b7}  the file cannot be read");
}

#[test]
fn a_mix_whose_files_are_all_in_place_says_nothing() {
    let said = relinking_of(&vec![Outcome::Kept, Outcome::Kept], true, true);
    assert!(!said.relinked);
    assert!(said.no_file.is_empty());
    assert_eq!(said.message, "");
}

#[test]
fn a_relinked_track_is_named_and_a_missing_one_is_noted_with_advice() {
    let outcomes = vec![
        Outcome::Relinked {
            name: "lsd.wav".to_owned(),
        },
        Outcome::Missing {
            hash: ContentHash([7; 32]),
            name: "mahadeva.wav".to_owned(),
            note: NoFile::Missing,
            reason: None,
        },
    ];
    let said = relinking_of(&outcomes, true, true);
    assert!(said.relinked);
    assert_eq!(said.no_file, vec![(ContentHash([7; 32]), NoFile::Missing)]);
    assert_eq!(
        said.message,
        "The window relinked 1 track from the library: lsd.wav. The file of 1 track is \
         missing: mahadeva.wav. The library contains no other file with the same bytes. Run \
         `dermixen mix relink` with the folders to search."
    );
}

#[test]
fn a_file_that_cannot_be_read_gives_its_reason_and_no_advice() {
    let outcomes = vec![
        Outcome::Missing {
            hash: ContentHash([1; 32]),
            name: "a.wav".to_owned(),
            note: NoFile::Unreadable,
            reason: Some("permission denied".to_owned()),
        },
        Outcome::Missing {
            hash: ContentHash([2; 32]),
            name: "b.wav".to_owned(),
            note: NoFile::Unreadable,
            reason: None,
        },
    ];
    let said = relinking_of(&outcomes, false, false);
    assert!(!said.relinked);
    assert_eq!(
        said.message,
        "The file of 2 tracks could not be read: a.wav (permission denied), b.wav (no reason \
         given)."
    );
}

#[test]
fn with_no_library_a_changed_file_is_noted_and_the_command_named() {
    let outcomes = vec![Outcome::Missing {
        hash: ContentHash([3; 32]),
        name: "lsd.wav".to_owned(),
        note: NoFile::Changed,
        reason: None,
    }];
    assert_eq!(
        relinking_of(&outcomes, false, false).message,
        "The file of 1 track has changed: lsd.wav. There is no library to look in. Run \
         `dermixen mix relink` with the folders to search."
    );
    assert_eq!(
        relinking_of(&outcomes, false, true).message,
        "The file of 1 track has changed: lsd.wav. The library file could not be opened, so \
         there was nowhere to look. Run `dermixen mix relink` with the folders to search."
    );
}

#[test]
fn a_failure_partway_names_the_library_file() {
    assert_eq!(
        relink_failure(Some("/lib.sqlite"), "database is locked"),
        "Not every track was looked for: the library file at /lib.sqlite could not be read: \
         database is locked"
    );
    assert_eq!(
        relink_failure(None, "gone"),
        "Not every track was looked for: the library could not be read: gone"
    );
}

#[test]
fn texts_are_joined_with_the_separator_between_each_two() {
    assert_eq!(join_all(&vec![], ", "), "");
    assert_eq!(join_all(&vec!["a".to_owned()], ", "), "a");
    assert_eq!(
        join_all(&vec!["a".to_owned(), "b".to_owned(), "c".to_owned()], ", "),
        "a, b, c"
    );
}

#[test]
fn a_path_changed_partway_is_a_change_to_keep() {
    let before = vec!["a".to_owned(), "b".to_owned()];
    assert!(!any_path_changed(&before, &before.clone()));
    assert!(any_path_changed(&before, &vec!["a".to_owned(), "c".to_owned()]));
}

/// The hashes of the tracks noted as having no file, for the reading thread.
fn hashes(noted: &[(ContentHash, NoFile)]) -> Vec<ContentHash> {
    noted.iter().map(|(hash, _)| *hash).collect()
}

fn missing(byte: u8, name: &str, note: NoFile, reason: Option<&str>) -> Outcome {
    Outcome::Missing {
        hash: ContentHash([byte; 32]),
        name: name.to_owned(),
        note,
        reason: reason.map(str::to_owned),
    }
}

#[test]
fn two_tracks_that_share_a_missing_file_are_noted_once() {
    let outcomes = vec![
        missing(7, "lsd.wav", NoFile::Missing, None),
        missing(7, "lsd.wav", NoFile::Missing, None),
    ];
    let said = relinking_of(&outcomes, true, true);
    assert_eq!(said.no_file, vec![(ContentHash([7; 32]), NoFile::Missing)]);
    assert_eq!(
        said.message,
        "The file of 2 tracks is missing: lsd.wav, lsd.wav. The library contains no other file \
         with the same bytes. Run `dermixen mix relink` with the folders to search."
    );
}

#[test]
fn where_two_tracks_share_a_hash_the_later_note_stands() {
    let outcomes = vec![
        missing(7, "a.wav", NoFile::Missing, None),
        missing(8, "b.wav", NoFile::Changed, None),
        missing(7, "c.wav", NoFile::Unreadable, Some("denied")),
    ];
    let said = relinking_of(&outcomes, true, true);
    assert_eq!(said.no_file.len(), 2);
    assert!(said.no_file.contains(&(ContentHash([7; 32]), NoFile::Unreadable)));
    assert!(said.no_file.contains(&(ContentHash([8; 32]), NoFile::Changed)));
}

#[test]
fn a_track_whose_file_moved_is_pointed_at_the_file_the_index_holds() {
    let relinking = relinking_of(
        &vec![Outcome::Relinked {
            name: "lsd.wav".to_owned(),
        }],
        true,
        true,
    );
    assert!(relinking.relinked, "the track should have been relinked");
    assert!(relinking.no_file.is_empty());
    assert!(relinking.message.contains("lsd.wav"), "{}", relinking.message);
}

#[test]
fn a_track_the_index_cannot_place_keeps_its_path_and_is_named() {
    let relinking = relinking_of(&vec![missing(7, "mahadeva.wav", NoFile::Missing, None)], true, true);
    assert!(!relinking.relinked);
    assert_eq!(relinking.no_file, vec![(ContentHash([7; 32]), NoFile::Missing)]);
    assert!(
        relinking.message.contains("mahadeva.wav")
            && relinking.message.contains("is missing")
            && relinking.message.contains("dermixen mix relink"),
        "{}",
        relinking.message
    );
}

#[test]
fn a_file_of_other_bytes_at_the_path_is_reported_as_changed() {
    let relinking = relinking_of(&vec![missing(7, "mahadeva.wav", NoFile::Changed, None)], true, true);
    assert_eq!(relinking.no_file, vec![(ContentHash([7; 32]), NoFile::Changed)]);
    assert!(
        relinking.message.contains("mahadeva.wav")
            && relinking.message.contains("has changed")
            && relinking.message.contains("dermixen mix relink"),
        "{}",
        relinking.message
    );
}

#[test]
fn a_file_that_cannot_be_read_says_so_rather_than_that_it_changed() {
    let relinking = relinking_of(
        &vec![missing(7, "mahadeva.wav", NoFile::Unreadable, Some("Permission denied (os error 13)"))],
        true,
        true,
    );
    assert_eq!(relinking.no_file, vec![(ContentHash([7; 32]), NoFile::Unreadable)]);
    assert!(
        relinking.message.contains("mahadeva.wav")
            && relinking.message.contains("could not be read"),
        "{}",
        relinking.message
    );
    assert!(!relinking.message.contains("dermixen mix relink"), "{}", relinking.message);
}

#[test]
fn a_track_whose_file_is_where_the_document_says_is_left_alone() {
    let relinking = relinking_of(&vec![Outcome::Kept], true, true);
    assert!(!relinking.relinked);
    assert!(relinking.no_file.is_empty());
    assert!(relinking.message.is_empty(), "{}", relinking.message);
}

#[test]
fn with_no_index_a_track_with_no_file_is_still_noted_and_the_command_named() {
    let relinking = relinking_of(&vec![missing(7, "lsd.wav", NoFile::Missing, None)], false, false);
    assert!(!relinking.relinked);
    assert_eq!(relinking.no_file, vec![(ContentHash([7; 32]), NoFile::Missing)]);
    assert!(
        relinking.message.contains("lsd.wav")
            && relinking.message.contains("There is no library to look in")
            && relinking.message.contains("dermixen mix relink"),
        "{}",
        relinking.message
    );
}

#[test]
fn a_restored_document_is_relinked_as_the_opened_one_was() {
    let found = || Wanted {
        hash: ContentHash([7; 32]),
        path: "/music/lsd.wav".to_owned(),
    };
    let outcome = || Outcome::Relinked {
        name: "lsd.wav".to_owned(),
    };

    let opening = relinking_of(&vec![outcome()], true, true);
    let mut handed = Vec::new();
    let wanted = to_be_read(&vec![found()], &hashes(&opening.no_file), &mut handed);
    assert_eq!(wanted.len(), 1, "{wanted:?}");
    assert_eq!(wanted[0].path, "/music/lsd.wav");

    let restoring = relinking_of(&vec![outcome()], true, true);
    assert!(restoring.relinked);
    assert!(restoring.no_file.is_empty());
    assert!(
        to_be_read(&vec![found()], &hashes(&restoring.no_file), &mut handed).is_empty(),
        "a track already read should not be read again"
    );
}

#[test]
fn a_track_the_restored_document_gives_a_file_loses_its_note_and_is_read() {
    let track = || Wanted {
        hash: ContentHash([7; 32]),
        path: "/music/mahadeva.wav".to_owned(),
    };

    let opening = relinking_of(&vec![missing(7, "mahadeva.wav", NoFile::Missing, None)], true, true);
    assert_eq!(opening.no_file, vec![(ContentHash([7; 32]), NoFile::Missing)]);
    let mut handed = Vec::new();
    assert!(to_be_read(&vec![track()], &hashes(&opening.no_file), &mut handed).is_empty());
    assert!(handed.is_empty(), "{handed:?}");

    let restoring = relinking_of(&vec![Outcome::Kept], true, true);
    assert!(restoring.no_file.is_empty());
    let wanted = to_be_read(&vec![track()], &hashes(&restoring.no_file), &mut handed);
    assert_eq!(wanted.len(), 1, "{wanted:?}");
    assert_eq!(wanted[0].path, "/music/mahadeva.wav");
}
