use dermixen_app::autosave::{verdict, Found, Verdict};

#[test]
fn a_missing_autosave_file_is_nothing_to_offer() {
    assert_eq!(verdict("/music/set.dmx.autosave", Found::Missing), Verdict::Nothing);
}

#[test]
fn an_autosave_of_the_same_document_is_removed() {
    assert_eq!(
        verdict("/music/set.dmx.autosave", Found::Mix { same: true }),
        Verdict::Remove
    );
}

#[test]
fn an_autosave_of_another_document_is_offered_back() {
    assert_eq!(
        verdict("/music/set.dmx.autosave", Found::Mix { same: false }),
        Verdict::Restore
    );
}

#[test]
fn an_autosave_that_cannot_be_read_is_reported_by_name() {
    assert_eq!(
        verdict(
            "/music/set.dmx.autosave",
            Found::Unreadable("permission denied".to_owned())
        ),
        Verdict::Report("cannot read /music/set.dmx.autosave: permission denied".to_owned())
    );
    assert_eq!(
        verdict(
            "/music/set.dmx.autosave",
            Found::NotAMix("expected value at line 1 column 1".to_owned())
        ),
        Verdict::Report(
            "/music/set.dmx.autosave contains unsaved changes that could not be read as a mix \
             document: expected value at line 1 column 1"
                .to_owned()
        )
    );
}
