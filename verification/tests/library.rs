use dermixen_app::library::{
    Column, Sort, a_condition, clicked, contains, heading_text, skipped_note,
};

#[test]
fn no_skipped_row_says_nothing_and_one_or_more_are_counted() {
    assert_eq!(skipped_note(0), "");
    assert_eq!(
        skipped_note(1),
        "1 row of the library could not be read, so the panel leaves it out. Library > Scan \
         music folder replaces it."
    );
    assert_eq!(
        skipped_note(3),
        "3 rows of the library could not be read, so the panel leaves them out. Library > \
         Scan music folder replaces them."
    );
}

#[test]
fn every_column_has_its_heading() {
    let headings: Vec<&str> = Column::ALL.iter().map(|column| column.heading()).collect();
    assert_eq!(
        headings,
        vec![
            "Artist",
            "Title",
            "Year",
            "BPM",
            "Key",
            "Label",
            "Catalog no.",
            "Release",
            "Track no.",
            "Duration"
        ]
    );
}

#[test]
fn a_heading_shows_which_way_the_sort_runs() {
    let up = Sort {
        column: Column::Bpm,
        descending: false,
    };
    assert_eq!(heading_text(Column::Bpm, up), "BPM \u{23f6}");
    let down = Sort {
        column: Column::Bpm,
        descending: true,
    };
    assert_eq!(heading_text(Column::Title, down), "Title \u{23f7}");
}

#[test]
fn clicking_the_sorted_heading_reverses_and_another_sorts_ascending() {
    let start = Sort {
        column: Column::Artist,
        descending: false,
    };
    let reversed = clicked(start, Column::Artist);
    assert_eq!(
        reversed,
        Sort {
            column: Column::Artist,
            descending: true
        }
    );
    assert_eq!(clicked(reversed, Column::Artist), start);
    assert_eq!(
        clicked(reversed, Column::Year),
        Sort {
            column: Column::Year,
            descending: false
        }
    );
}

#[test]
fn text_of_only_spaces_places_no_condition() {
    assert!(!a_condition(""));
    assert!(!a_condition("  \t "));
    assert!(a_condition(" goa "));
}

#[test]
fn a_field_contains_the_trimmed_text_without_regard_to_case() {
    let artist = "Astral Projection".to_owned();
    assert!(contains(Some(&artist), "  astral "));
    assert!(contains(Some(&artist), "PROJ"));
    assert!(!contains(Some(&artist), "infected"));
    assert!(!contains(None, "astral"));
}
