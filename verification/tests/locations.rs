use dermixen_app::locations::{
    corrections_folder_from, library_location, library_location_from,
    library_setting_message, library_setting_message_from, music_folder_from,
    music_setting_message_from, NO_DATA_FOR_CORRECTIONS, NO_DATA_FOR_LIBRARY, NO_HOME,
};

#[test]
fn the_variable_names_the_library_file_outright() {
    assert_eq!(
        library_location_from(Some("/tmp/mine.sqlite"), None, None, Some("other.sqlite")),
        Ok("/tmp/mine.sqlite".to_owned())
    );
    assert_eq!(
        library_location(Some("/tmp/mine.sqlite"), Some("other.sqlite")),
        Ok("/tmp/mine.sqlite".to_owned())
    );
}

#[test]
fn an_empty_variable_is_passed_over() {
    assert_eq!(
        library_location_from(Some(""), Some("/home/alice/.local/share"), None, None),
        Ok("/home/alice/.local/share/dermixen/library.sqlite".to_owned())
    );
}

#[test]
fn the_setting_comes_before_the_default_file() {
    assert_eq!(
        library_location_from(None, Some("/data"), Some("/home/alice"), Some("music/lib.sqlite")),
        Ok("/home/alice/music/lib.sqlite".to_owned())
    );
    assert_eq!(
        library_location_from(None, Some("/data"), None, Some("/srv/lib.sqlite")),
        Ok("/srv/lib.sqlite".to_owned())
    );
    assert_eq!(
        library_location_from(None, Some("/data/"), None, None),
        Ok("/data/dermixen/library.sqlite".to_owned())
    );
}

#[test]
fn a_missing_folder_is_said_only_where_it_is_needed() {
    assert_eq!(
        library_location_from(None, None, Some("/home/alice"), Some("/srv/lib.sqlite")),
        Err(NO_DATA_FOR_LIBRARY.to_owned())
    );
    assert_eq!(
        library_location_from(None, Some("/data"), None, Some("lib.sqlite")),
        Err(NO_HOME.to_owned())
    );
    assert_eq!(
        library_location_from(None, Some("/data"), None, Some("")),
        Ok("/data/dermixen/library.sqlite".to_owned())
    );
}

#[test]
fn the_music_folder_lies_below_the_home_folder() {
    assert_eq!(
        music_folder_from(Some("/home/alice"), None),
        Ok("/home/alice/Music/Undefunktis".to_owned())
    );
    assert_eq!(
        music_folder_from(Some("/home/alice"), Some("Tunes")),
        Ok("/home/alice/Tunes".to_owned())
    );
    assert_eq!(
        music_folder_from(Some("/home/alice"), Some("/mnt/music")),
        Ok("/mnt/music".to_owned())
    );
    assert_eq!(music_folder_from(None, Some("/mnt/music")), Err(NO_HOME.to_owned()));
}

#[test]
fn corrections_go_below_the_data_folder() {
    assert_eq!(
        corrections_folder_from(Some("/home/alice/.local/share")),
        Ok("/home/alice/.local/share/dermixen/corrections".to_owned())
    );
    assert_eq!(corrections_folder_from(None), Err(NO_DATA_FOR_CORRECTIONS.to_owned()));
}

#[test]
fn a_written_library_setting_says_where_the_file_is() {
    assert_eq!(
        library_setting_message_from(None, Some("/data"), Some("/home/alice"), Some("lib.sqlite")),
        "The library file is /home/alice/lib.sqlite, which takes effect the next time you open a \
         mix or start a new one."
    );
    assert_eq!(
        library_setting_message_from(None, None, Some("/home/alice"), None),
        NO_DATA_FOR_LIBRARY
    );
}

#[test]
fn a_library_setting_under_the_variable_is_not_read() {
    let expected = "The library file setting was written. DERMIXEN_LIBRARY_FILE names /tmp/x.sqlite, \
                    and the setting is not read until that variable is unset.";
    assert_eq!(
        library_setting_message_from(Some("/tmp/x.sqlite"), None, None, Some("lib.sqlite")),
        expected
    );
    assert_eq!(library_setting_message(Some("/tmp/x.sqlite"), Some("lib.sqlite")), expected);
}

#[test]
fn a_written_music_setting_names_the_folder_and_the_scan() {
    assert_eq!(
        music_setting_message_from(Some("/home/alice"), Some("Tunes")),
        "The music folder is /home/alice/Tunes. Choose Library > Scan music folder to scan it."
    );
    assert_eq!(music_setting_message_from(None, None), NO_HOME);
}
