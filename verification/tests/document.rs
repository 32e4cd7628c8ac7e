use dermixen_app::document::{Answer, Document, EDITED, Intent, Next, Step, UNTITLED};

#[test]
fn an_untitled_mix_is_named_untitled_and_has_nothing_to_save() {
    let document = Document::untitled();
    assert_eq!(document.name(), UNTITLED);
    assert_eq!(document.title(), "Dermixen \u{b7} Untitled");
    assert!(!document.is_unsaved());
    assert!(!document.asking());
    assert_eq!(document.path(), None);
}

#[test]
fn a_mix_with_a_file_is_named_by_the_file() {
    let mut document = Document::at("/music/sets/friday.dmx".to_owned());
    assert_eq!(document.name(), "friday.dmx");
    assert_eq!(document.path(), Some("/music/sets/friday.dmx"));
    document.edited();
    assert_eq!(document.title(), format!("Dermixen \u{b7} friday.dmx{EDITED}"));
}

#[test]
fn a_path_with_no_file_name_names_the_mix_by_the_whole_path() {
    let document = Document::at("/music/..".to_owned());
    assert_eq!(document.name(), "/music/..");
}

#[test]
fn a_request_with_nothing_unsaved_proceeds_at_once() {
    let mut document = Document::at("set.dmx".to_owned());
    assert_eq!(document.request(Intent::Quit), Step::Proceed(Intent::Quit));
    assert!(!document.asking());
}

#[test]
fn unsaved_changes_are_asked_about_and_cancel_keeps_them() {
    let mut document = Document::at("set.dmx".to_owned());
    document.edited();
    assert_eq!(document.request(Intent::New), Step::Ask(Intent::New));
    assert!(document.asking());
    assert_eq!(document.pending(), Some(&Intent::New));
    assert_eq!(document.answered(Answer::Cancel), Next::Stay);
    assert!(!document.asking());
    assert!(document.is_unsaved());
}

#[test]
fn discarding_proceeds_with_the_newest_request() {
    let mut document = Document::untitled();
    document.edited();
    document.request(Intent::New);
    document.request(Intent::Open("other.dmx".to_owned()));
    assert_eq!(
        document.answered(Answer::Discard),
        Next::Proceed(Intent::Open("other.dmx".to_owned()))
    );
    assert!(!document.asking());
}

#[test]
fn saving_hands_the_intent_back_once_the_save_succeeds() {
    let mut document = Document::untitled();
    document.edited();
    document.request(Intent::Quit);
    assert_eq!(document.answered(Answer::Save), Next::SaveThen(Intent::Quit));
    // The save has not happened yet, so the question stands.
    assert!(document.asking());
    assert_eq!(document.take_pending(), None);
    document.saved_as("/music/new.dmx".to_owned());
    assert_eq!(document.path(), Some("/music/new.dmx"));
    assert!(!document.is_unsaved());
    assert_eq!(document.take_pending(), Some(Intent::Quit));
    assert_eq!(document.take_pending(), None);
    assert!(!document.asking());
}

#[test]
fn a_save_the_question_did_not_ask_for_acts_on_nothing() {
    let mut document = Document::at("set.dmx".to_owned());
    document.edited();
    document.request(Intent::New);
    document.saved();
    assert!(document.asking());
    assert_eq!(document.take_pending(), None);
    assert_eq!(document.pending(), Some(&Intent::New));
}

#[test]
fn an_answer_with_no_question_is_stay() {
    let mut document = Document::untitled();
    assert_eq!(document.answered(Answer::Save), Next::Stay);
    assert!(!document.asking());
}

#[test]
fn the_question_and_the_save_dialog_name_the_mix() {
    let untitled = Document::untitled();
    assert_eq!(untitled.saving_name(), "Untitled.dmx");
    assert_eq!(untitled.question_heading(), "Save changes to Untitled?");
    assert_eq!(
        untitled.question_text(),
        "This mix has never been saved to a file."
    );
    let named = Document::at("/music/set.dmx".to_owned());
    assert_eq!(named.saving_name(), "set.dmx");
    assert_eq!(named.question_heading(), "Save changes to set.dmx?");
    assert_eq!(named.question_text(), "/music/set.dmx has unsaved changes.");
}
