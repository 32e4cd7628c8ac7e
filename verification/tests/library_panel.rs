use dermixen_app::library::{
    Camelot, Column, Filters, LibraryPanel, LibraryRow, Letter, Sort, TrackRecord,
};
use dermixen_app::units::{ContentHash, Samples};

fn record(byte: u8, artist: Option<&str>, title: Option<&str>, path: &str) -> TrackRecord {
    TrackRecord {
        hash: ContentHash([byte; 32]),
        path: path.to_owned(),
        artist: artist.map(str::to_owned),
        title: title.map(str::to_owned),
        year: None,
        year_is_approximate: false,
        guessed: false,
        release_title: None,
        label: None,
        catalog_number: None,
        track_number: None,
        bpm_rank: 140,
        bpm_text: "140.0".to_owned(),
        length: Samples(0),
        length_text: "0:00.0".to_owned(),
        key: None,
    }
}

fn never(_: Camelot, _: Camelot) -> bool {
    false
}

fn artists(panel: &LibraryPanel) -> Vec<Option<String>> {
    panel.rows(&never).into_iter().map(|row| row.artist).collect()
}

fn library() -> Vec<TrackRecord> {
    let mut goa = record(1, Some("Astral Projection"), Some("Mahadeva"), "/m/b.mp3");
    goa.year = Some(1996);
    goa.bpm_rank = 145;
    goa.key = Some(Camelot {
        number: 8,
        letter: Letter::A,
    });
    let mut infected = record(2, Some("infected mushroom"), Some("Bust a Move"), "/m/a.mp3");
    infected.year = Some(2003);
    infected.key = Some(Camelot {
        number: 3,
        letter: Letter::B,
    });
    let unknown = record(3, None, None, "/m/Unknown Artist/track.mp3");
    let mut third = record(4, Some("Astral Projection"), Some("Kabalah"), "/m/c.mp3");
    third.key = Some(Camelot {
        number: 12,
        letter: Letter::A,
    });
    third.year = Some(1999);
    vec![goa, infected, unknown, third]
}

#[test]
fn the_panel_starts_sorted_by_artist_with_ties_by_title_and_missing_last() {
    let panel = LibraryPanel::new(library());
    assert_eq!(
        panel.sort(),
        Sort {
            column: Column::Artist,
            descending: false
        }
    );
    let rows = panel.rows(&never);
    let titles: Vec<Option<String>> = rows.iter().map(|row| row.title.clone()).collect();
    assert_eq!(
        titles,
        vec![
            Some("Kabalah".to_owned()),
            Some("Mahadeva".to_owned()),
            Some("Bust a Move".to_owned()),
            None
        ]
    );
}

#[test]
fn the_sorted_heading_reverses_and_missing_values_stay_last() {
    let mut panel = LibraryPanel::new(library());
    panel.click_heading(Column::Artist);
    assert_eq!(
        artists(&panel),
        vec![
            Some("infected mushroom".to_owned()),
            Some("Astral Projection".to_owned()),
            Some("Astral Projection".to_owned()),
            None
        ]
    );
    panel.click_heading(Column::Year);
    let years: Vec<Option<u16>> = panel.rows(&never).iter().map(|row| row.year).collect();
    assert_eq!(years, vec![Some(1996), Some(1999), Some(2003), None]);
}

#[test]
fn keys_sort_around_the_wheel() {
    let mut panel = LibraryPanel::new(library());
    panel.click_heading(Column::Key);
    let keys: Vec<String> = panel
        .rows(&never)
        .iter()
        .map(|row| row.cell(Column::Key))
        .collect();
    assert_eq!(keys, vec!["3B", "8A", "12A", "no key"]);
}

#[test]
fn a_search_needs_every_word_and_the_selection_outlives_it() {
    let mut panel = LibraryPanel::new(library());
    panel.select(1);
    assert_eq!(panel.selected(), Some(1));
    panel.set_search("astral KABALAH");
    assert_eq!(panel.rows(&never).len(), 1);
    assert_eq!(panel.selected(), None);
    panel.set_search("  ");
    assert_eq!(panel.rows(&never).len(), 4);
    assert_eq!(panel.selected(), Some(1));
    assert_eq!(panel.search(), "  ");
}

#[test]
fn placeholders_are_not_searched_but_a_path_holding_them_is() {
    let mut panel = LibraryPanel::new(library());
    panel.set_search("no key");
    assert!(panel.rows(&never).is_empty());
    panel.set_search("unknown");
    let rows = panel.rows(&never);
    assert_eq!(rows.len(), 1);
    assert_eq!(rows[0].cell(Column::Artist), "Unknown");
    assert_eq!(rows[0].cell(Column::Title), "track.mp3");
    panel.set_search("1996 8a 140.0");
    assert_eq!(panel.rows(&never).len(), 1);
}

#[test]
fn filters_narrow_by_every_condition_given() {
    let mut panel = LibraryPanel::new(library());
    let mut filters = Filters::default();
    filters.artist = " astral ".to_owned();
    filters.year_from = Some(1997);
    panel.set_filters(filters);
    let rows = panel.rows(&never);
    assert_eq!(rows.len(), 1);
    assert_eq!(rows[0].title.as_deref(), Some("Kabalah"));

    let mut keys = Filters::default();
    keys.keys = vec![Camelot {
        number: 3,
        letter: Letter::B,
    }];
    panel.set_filters(keys);
    assert_eq!(panel.rows(&never).len(), 1);

    let mut tempo = Filters::default();
    tempo.bpm_from = Some(141);
    panel.set_filters(tempo);
    assert_eq!(panel.rows(&never).len(), 1);
    assert_eq!(panel.filters().bpm_from, Some(141));
}

#[test]
fn a_track_the_library_no_longer_holds_is_selected_no_more() {
    let mut panel = LibraryPanel::new(library());
    panel.select(0);
    assert_eq!(
        panel.reference(),
        Some(Camelot {
            number: 12,
            letter: Letter::A
        })
    );
    let mut fewer = library();
    fewer.remove(3);
    panel.set_records(fewer);
    assert_eq!(panel.selected(), None);
    assert_eq!(panel.reference(), None);
    panel.select(0);
    panel.set_records(library());
    assert_eq!(panel.selected(), Some(1));
}

#[test]
fn rows_are_marked_for_the_mix_the_selection_and_the_reference_key() {
    let mut panel = LibraryPanel::new(library());
    panel.set_mix(vec![ContentHash([2; 32])]);
    panel.select(1);
    let same_letter = |a: Camelot, b: Camelot| a.letter == b.letter;
    let rows: Vec<LibraryRow> = panel.rows(&same_letter);
    assert!(rows[2].in_mix);
    assert!(!rows[0].in_mix);
    assert!(rows[1].selected);
    assert!(rows[0].compatible);
    assert!(!rows[2].compatible);
    assert!(!rows[3].compatible);
}

#[test]
fn cells_write_every_column() {
    let mut goa = record(1, Some("Astral Projection"), None, "/m/b.mp3");
    goa.year = Some(1996);
    goa.year_is_approximate = true;
    goa.track_number = Some(3);
    goa.label = Some("TIP".to_owned());
    let panel = LibraryPanel::new(vec![goa]);
    let row = &panel.rows(&never)[0];
    assert_eq!(row.cell(Column::Title), "b.mp3");
    assert_eq!(row.cell(Column::Year), "about 1996");
    assert_eq!(row.year_text(), "about 1996");
    assert_eq!(row.cell(Column::Bpm), "140.0");
    assert_eq!(row.cell(Column::TrackNumber), "3");
    assert_eq!(row.cell(Column::Label), "TIP");
    assert_eq!(row.cell(Column::Release), "");
    assert_eq!(row.cell(Column::Duration), "0:00.0");
}

#[test]
fn paths_tie_break_component_by_component() {
    let a = record(1, Some("A"), Some("T"), "/m/a/b.mp3");
    let b = record(2, Some("A"), Some("T"), "/m/a.b.mp3");
    let panel = LibraryPanel::new(vec![b, a]);
    let paths: Vec<String> = panel.rows(&never).iter().map(|row| row.path.clone()).collect();
    assert_eq!(paths, vec!["/m/a/b.mp3", "/m/a.b.mp3"]);
}

#[test]
fn the_reference_key_can_be_set_apart_from_the_selection() {
    let mut panel = LibraryPanel::new(library());
    let same_letter = |a: Camelot, b: Camelot| a.letter == b.letter;
    let reference = Camelot {
        number: 3,
        letter: Letter::B,
    };
    panel.set_reference(Some(reference));
    assert_eq!(panel.reference(), Some(reference));
    assert_eq!(panel.selected(), None);
    let marked: Vec<bool> = panel.rows(&same_letter).iter().map(|row| row.compatible).collect();
    assert_eq!(marked, vec![false, false, true, false]);
    panel.set_reference(None);
    assert!(panel.rows(&same_letter).iter().all(|row| !row.compatible));
}
