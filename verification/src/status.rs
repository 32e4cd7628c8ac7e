//! What the window's status line and dialogs say in words: counts with the
//! noun that agrees with them, two messages made one, a message begun as a
//! sentence, how long ago a file was written, and the text of the settings
//! dialog's path fields.

use vstd::prelude::*;
use crate::text::{
    ascii_uppercase, chars_of, decimal, decimal_text, is_ascii_char, joined, owned, string_of,
    trim, trimmed, uppercase, uppercase_of,
};

verus! {

/// A count with the noun that agrees with it: `1` and the noun, or the
/// count and the noun with `s` added.
pub open spec fn counted(count: nat, noun: Seq<char>) -> Seq<char> {
    if count == 1 {
        seq!['1', ' '] + noun
    } else {
        decimal(count) + seq![' '] + noun + seq!['s']
    }
}

fn count_of(count: u64, noun: &str) -> (r: String)
    ensures
        r@ == counted(count as nat, noun@),
{
    let number = decimal_text(count);
    let spaced = joined(number.as_str(), " ");
    let named = joined(spaced.as_str(), noun);
    proof {
        reveal_strlit(" ");
        reveal_strlit("s");
        if count == 1 {
            assert(decimal(1) =~= seq!['1']);
        }
    }
    if count == 1 {
        assert(named@ =~= counted(count as nat, noun@));
        named
    } else {
        let r = joined(named.as_str(), "s");
        assert(r@ =~= counted(count as nat, noun@));
        r
    }
}

/// A count of folders with the noun that agrees with it.
pub fn folder_count(count: usize) -> (r: String)
    ensures
        r@ == counted(count as nat, "folder"@),
{
    count_of(count as u64, "folder")
}

/// A count of tracks with the noun that agrees with it, so that one track
/// and several read alike in a sentence.
pub fn track_count(count: usize) -> (r: String)
    ensures
        r@ == counted(count as nat, "track"@),
{
    count_of(count as u64, "track")
}

/// One message made of `first` and then `second`, or of whichever of the
/// two is not empty.
pub open spec fn both_said(first: Seq<char>, second: Seq<char>) -> Seq<char> {
    if first.len() == 0 {
        second
    } else if second.len() == 0 {
        first
    } else {
        first + seq![' '] + second
    }
}

/// One status line message made of `first` and then `second`, or of
/// whichever of the two is not empty, so that two things a person needs to
/// read on the same repaint are shown as two sentences of one message.
pub fn say_both(first: &str, second: &str) -> (r: String)
    ensures
        r@ == both_said(first@, second@),
{
    let f = chars_of(first);
    let s = chars_of(second);
    if f.len() == 0 {
        owned(second)
    } else if s.len() == 0 {
        owned(first)
    } else {
        let spaced = joined(first, " ");
        proof {
            reveal_strlit(" ");
        }
        joined(spaced.as_str(), second)
    }
}

/// `message` begun with a capital letter: its first character in uppercase,
/// and the rest exactly as it came.
pub open spec fn capitalized_of(message: Seq<char>) -> Seq<char> {
    if message.len() == 0 {
        message
    } else {
        uppercase_of(message[0]) + message.drop_first()
    }
}

/// A message that begins with a capital letter, for the status line, where
/// each message is a sentence of its own. The rest of the message is left
/// exactly as it came, so a path inside it reads as it is written.
pub fn capitalized(message: String) -> (r: String)
    ensures
        r@ == capitalized_of(message@),
        message@.len() > 0 && is_ascii_char(message@[0]) ==> r@ == seq![ascii_uppercase(message@[0])]
            + message@.drop_first(),
{
    let cs = chars_of(message.as_str());
    if cs.len() == 0 {
        return message;
    }
    let first = uppercase(cs[0]);
    let rest = string_of(&cs, 1, cs.len());
    assert(rest@ =~= message@.drop_first());
    joined(first.as_str(), rest.as_str())
}

/// What the status line says about a tempo field that will not read as a
/// tempo.
pub open spec fn not_a_tempo_of(typed: Seq<char>) -> Seq<char> {
    if typed.len() == 0 {
        "The tempo field is empty"@
    } else {
        typed + " is not a tempo"@
    }
}

/// What the status line says about a tempo field that will not read as a
/// tempo. An empty field is named as empty, since a message beginning with
/// nothing at all leaves the person with no subject.
pub fn not_a_tempo(typed: &str) -> (r: String)
    ensures
        r@ == not_a_tempo_of(typed@),
{
    let cs = chars_of(typed);
    if cs.len() == 0 {
        return owned("The tempo field is empty");
    }
    joined(typed, " is not a tempo")
}

/// The unit an age of `seconds` is counted in, and how many of it, for an
/// age of a minute or more.
pub open spec fn age_count(seconds: nat) -> (nat, Seq<char>) {
    if seconds < 3600 {
        (seconds / 60, "minute"@)
    } else if seconds < 86_400 {
        (seconds / 3600, "hour"@)
    } else {
        (seconds / 86_400, "day"@)
    }
}

/// An age of `seconds` in words: under a minute is less than a minute ago,
/// and anything longer is counted down to whole minutes, hours, or days.
pub open spec fn age_text(seconds: nat) -> Seq<char> {
    if seconds < 60 {
        "less than a minute ago"@
    } else {
        counted(age_count(seconds).0, age_count(seconds).1) + " ago"@
    }
}

/// What the age of a file says where the file system reported no moment.
pub const NO_MOMENT: &'static str = "at a time this machine cannot report";

/// What the age of a file says when the moment lies ahead of the clock.
pub const AHEAD_OF_THE_CLOCK: &'static str = "at a time in the future by this machine's clock";

/// How long ago a moment was in words, from its age in whole seconds as the
/// clock gives it: `None` for no moment reported, `Some(None)` for a moment
/// ahead of the clock.
pub open spec fn how_long_ago_of(age: Option<Option<u64>>) -> Seq<char> {
    match age {
        None => NO_MOMENT@,
        Some(None) => AHEAD_OF_THE_CLOCK@,
        Some(Some(seconds)) => age_text(seconds as nat),
    }
}

/// An age of `seconds` in words, as [`age_text`] says.
pub fn age_words(seconds: u64) -> (r: String)
    ensures
        r@ == age_text(seconds as nat),
{
    if seconds < 60 {
        return owned("less than a minute ago");
    }
    let (count, unit) = if seconds < 3600 {
        (seconds / 60, "minute")
    } else if seconds < 86_400 {
        (seconds / 3600, "hour")
    } else {
        (seconds / 86_400, "day")
    };
    let said = count_of(count, unit);
    joined(said.as_str(), " ago")
}

/// How long ago a moment was in words, from what the clock says of it, as
/// [`how_long_ago_of`] says.
pub fn age_in_words(age: Option<Option<u64>>) -> (r: String)
    ensures
        r@ == how_long_ago_of(age),
{
    match age {
        None => owned(NO_MOMENT),
        Some(None) => owned(AHEAD_OF_THE_CLOCK),
        Some(Some(seconds)) => age_words(seconds),
    }
}

#[verifier::external_type_specification]
#[verifier::external_body]
pub struct ExSystemTime(std::time::SystemTime);

/// How many whole seconds have passed since `moment`, or `None` when the
/// moment lies ahead of the clock.
///
/// Calls `SystemTime::elapsed`, which reads the clock, and takes the whole
/// seconds of the age it gives. Nothing is claimed of the answer, which
/// depends on when the call is made.
#[verifier::external_body]
fn seconds_since(moment: std::time::SystemTime) -> Option<u64> {
    moment.elapsed().ok().map(|age| age.as_secs())
}

/// How long ago a file was written, in words, from the moment the file
/// system reported for it, as the dialog that offers unsaved changes back
/// shows it for the autosave file and the project file.
pub fn how_long_ago(written: Option<std::time::SystemTime>) -> (r: String)
    ensures
        written is None ==> r@ == NO_MOMENT@,
        written is Some ==> exists|age: Option<u64>| r@ == how_long_ago_of(Some(age)),
{
    match written {
        None => owned(NO_MOMENT),
        Some(moment) => {
            let age = seconds_since(moment);
            age_in_words(Some(age))
        },
    }
}

/// The text a path field of the settings dialog shows for a setting: the
/// path as the settings file has it, and empty text where the setting is
/// unset.
pub fn path_field_text(setting: Option<&str>) -> (r: String)
    ensures
        match setting {
            Some(path) => r@ == path@,
            None => r@.len() == 0,
        },
{
    match setting {
        Some(path) => owned(path),
        None => String::new(),
    }
}

/// The setting the text of a path field stands for: the text with the
/// spaces around it removed, and no setting, which means the default, for
/// text that is empty or only spaces.
pub fn path_setting(text: &str) -> (r: Option<String>)
    ensures
        match r {
            Some(path) => path@ == trim(text@) && path@.len() > 0,
            None => trim(text@).len() == 0,
        },
{
    let trimmed_text = trimmed(text);
    let cs = chars_of(trimmed_text.as_str());
    if cs.len() == 0 {
        None
    } else {
        Some(trimmed_text)
    }
}


/// What reading a path field of the settings dialog does: the setting its
/// text stands for, the text the field shows afterwards, and whether the
/// setting differs from `current` and so is to be written.
pub struct PathField {
    /// The setting afterwards.
    pub setting: Option<String>,
    /// The text the field shows afterwards.
    pub text: String,
    /// Whether the setting changed.
    pub changed: bool,
}

/// The setting a path field's text stands for.
pub open spec fn path_setting_of(text: Seq<char>) -> Option<Seq<char>> {
    if trim(text).len() == 0 {
        None
    } else {
        Some(trim(text))
    }
}

/// Reads a path field's `text` against the setting `current`, as closing
/// the settings dialog does: text that names the path the setting already
/// has changes nothing, and the field goes back to showing the setting.
pub fn take_path_field(text: &str, current: Option<&str>) -> (r: PathField)
    ensures
        match r.setting {
            Some(p) => path_setting_of(text@) == Some(p@),
            None => path_setting_of(text@) is None,
        },
        match r.setting {
            Some(p) => r.text@ == p@,
            None => r.text@.len() == 0,
        },
        r.changed == (path_setting_of(text@) != match current {
            Some(c) => Some(c@),
            None => None::<Seq<char>>,
        }),
{
    let setting = path_setting(text);
    let shown = match &setting {
        Some(p) => owned(p.as_str()),
        None => String::new(),
    };
    let changed = match (&setting, current) {
        (Some(p), Some(c)) => {
            let same = crate::order::compare_text(p.as_str(), c) == crate::order::Order::Equal;
            proof {
                crate::order::lemma_text_order_total();
            }
            !same
        },
        (None, None) => false,
        _ => true,
    };
    PathField { setting, text: shown, changed }
}

/// What the status line says once a new music folder setting is written.
pub fn music_folder_note(folder: &str) -> (r: String)
    ensures
        r@ == "The music folder is "@ + folder@ + ". Choose Library > Scan music folder to scan it."@,
{
    let a = joined("The music folder is ", folder);
    let r = joined(a.as_str(), ". Choose Library > Scan music folder to scan it.");
    assert(r@ =~= "The music folder is "@ + folder@ + ". Choose Library > Scan music folder to scan it."@);
    r
}

/// What the status line says once a new library file setting is written.
pub fn library_file_note(file: &str) -> (r: String)
    ensures
        r@ == "The library file is "@ + file@
            + ", which takes effect the next time you open a mix or start a new one."@,
{
    let a = joined("The library file is ", file);
    let r = joined(a.as_str(), ", which takes effect the next time you open a mix or start a new one.");
    assert(r@ =~= "The library file is "@ + file@ + ", which takes effect the next time you open a mix or start a new one."@);
    r
}

/// The environment variable that names the library file.
pub const LIBRARY_VARIABLE: &'static str = "DERMIXEN_LIBRARY_FILE";

/// What the status line says once a library file setting is written while
/// the environment variable, which comes before it, names `named`.
pub fn library_variable_note(named: &str) -> (r: String)
    ensures
        r@ == "The library file setting was written. "@ + LIBRARY_VARIABLE@ + " names "@ + named@
            + ", and the setting is not read until that variable is unset."@,
{
    let a = joined("The library file setting was written. ", LIBRARY_VARIABLE);
    let b = joined(a.as_str(), " names ");
    let c = joined(b.as_str(), named);
    let r = joined(c.as_str(), ", and the setting is not read until that variable is unset.");
    assert(r@ =~= "The library file setting was written. "@ + LIBRARY_VARIABLE@ + " names "@ + named@ + ", and the setting is not read until that variable is unset."@);
    r
}

}
