use dermixen_app::launch::{launch, Launch, USAGE};

fn args(list: &[&str]) -> Vec<String> {
    list.iter().map(|arg| arg.to_string()).collect()
}

#[test]
fn no_argument_opens_an_untitled_mix() {
    assert_eq!(launch(&args(&[])), Launch::Open(None));
}

#[test]
fn one_argument_names_the_mix() {
    assert_eq!(
        launch(&args(&["/music/set.dmx"])),
        Launch::Open(Some("/music/set.dmx".to_owned()))
    );
}

#[test]
fn help_is_asked_for_by_the_first_argument() {
    assert_eq!(launch(&args(&["--help"])), Launch::Help);
    assert_eq!(launch(&args(&["-h", "extra"])), Launch::Help);
    assert_eq!(launch(&args(&["set.dmx", "--help"])), Launch::Misused);
}

#[test]
fn two_mixes_cannot_be_read() {
    assert_eq!(launch(&args(&["a.dmx", "b.dmx"])), Launch::Misused);
    assert_eq!(USAGE, "usage: dermixen-app [MIX]");
}
