use dermixen_app::autosave::{
    autosave_path, beside, temporary_path, untitled_autosave_file, untitled_autosave_path,
};
use dermixen_app::paths::{file_name, join, path_file_name};
use dermixen_app::status::{
    age_in_words, folder_count, path_field_text, path_setting,
};

#[test]
fn the_autosave_file_lies_beside_the_project_file() {
    assert_eq!(autosave_path("/music/set.dmx"), "/music/set.dmx.autosave");
    assert_eq!(temporary_path("/music/set.dmx"), "/music/set.dmx.part");
    assert_eq!(beside("a.tar", ".gz"), "a.tar.gz");
}

#[test]
fn the_untitled_autosave_file_lies_in_the_data_folder() {
    assert_eq!(
        untitled_autosave_path("/home/me/.local/share"),
        "/home/me/.local/share/dermixen/untitled.autosave"
    );
    assert_eq!(
        untitled_autosave_path("/data/"),
        "/data/dermixen/untitled.autosave"
    );
    if let Some(file) = untitled_autosave_file() {
        assert!(file.ends_with("dermixen/untitled.autosave"));
    }
}

#[test]
fn a_file_name_is_the_last_component_that_is_a_name() {
    assert_eq!(path_file_name("/music/goa/lsd.mp3").as_deref(), Some("lsd.mp3"));
    assert_eq!(path_file_name("foo.txt/.//").as_deref(), Some("foo.txt"));
    assert_eq!(path_file_name("foo.txt/.").as_deref(), Some("foo.txt"));
    assert_eq!(path_file_name("foo.txt/.."), None);
    assert_eq!(path_file_name("/"), None);
    assert_eq!(path_file_name(""), None);
    assert_eq!(path_file_name("."), None);
    assert_eq!(file_name("/music/.."), "/music/..");
}

#[test]
fn a_name_is_joined_below_a_folder_with_one_separator() {
    assert_eq!(join("/music", "a"), "/music/a");
    assert_eq!(join("/music/", "a"), "/music/a");
    assert_eq!(join("", "a"), "a");
}

#[test]
fn ages_are_counted_in_whole_units() {
    assert_eq!(age_in_words(Some(Some(59))), "less than a minute ago");
    assert_eq!(age_in_words(Some(Some(60))), "1 minute ago");
    assert_eq!(age_in_words(Some(Some(3599))), "59 minutes ago");
    assert_eq!(age_in_words(Some(Some(86_400 * 2))), "2 days ago");
    assert_eq!(
        age_in_words(Some(None)),
        "at a time in the future by this machine's clock"
    );
    assert_eq!(folder_count(1), "1 folder");
    assert_eq!(folder_count(0), "0 folders");
}

#[test]
fn a_path_field_shows_the_setting_and_its_text_sets_it() {
    assert_eq!(path_field_text(Some("/music")), "/music");
    assert_eq!(path_field_text(None), "");
    assert_eq!(path_setting("  /music  "), Some("/music".to_owned()));
    assert_eq!(path_setting("   "), None);
}

use dermixen_app::status::{
    library_file_note, library_variable_note, music_folder_note, take_path_field,
};

#[test]
fn reading_a_path_field_changes_the_setting_only_for_a_new_path() {
    let same = take_path_field("  /music ", Some("/music"));
    assert_eq!(same.setting.as_deref(), Some("/music"));
    assert_eq!(same.text, "/music");
    assert!(!same.changed);
    let cleared = take_path_field(" ", Some("/music"));
    assert_eq!(cleared.setting, None);
    assert!(cleared.changed);
    let unset = take_path_field("", None);
    assert!(!unset.changed);
    assert_eq!(
        music_folder_note("/music"),
        "The music folder is /music. Choose Library > Scan music folder to scan it."
    );
    assert_eq!(
        library_file_note("/lib.sqlite"),
        "The library file is /lib.sqlite, which takes effect the next time you open a mix or \
         start a new one."
    );
    assert_eq!(
        library_variable_note("/env.sqlite"),
        "The library file setting was written. DERMIXEN_LIBRARY_FILE names /env.sqlite, and the \
         setting is not read until that variable is unset."
    );
}
