//! Where the window keeps and finds its files: the library file, the music
//! folder it scans, and the folder the corrections a person makes are
//! written to. Each is worked out from the settings, the
//! `DERMIXEN_LIBRARY_FILE` environment variable and the user's data and home
//! folders; making the folders is left to the caller.

use vstd::prelude::*;
use crate::autosave::{data_folder, DATA_FOLDER};
use crate::paths::{join, joined_path};
use crate::status::{library_file_note, library_variable_note, music_folder_note, LIBRARY_VARIABLE};
use crate::text::{chars_of, owned};

verus! {

/// The folder below `dermixen` in the user's data folder that every anchor
/// move and grid fix is written to.
pub const CORRECTIONS_FOLDER: &'static str = "corrections";

/// The name of the library file the window opens when nothing names another.
pub const LIBRARY_FILE_NAME: &'static str = "library.sqlite";

/// The music folder below the user's home folder that is scanned when the
/// settings name no other.
pub const MUSIC_BELOW_HOME: &'static str = "Music/Undefunktis";

/// What the status line says when a path below the home folder is needed and
/// the user has no home folder.
pub const NO_HOME: &'static str = "There is no home folder for this user, so a path below the home folder cannot be worked out. Write music_folder and library_file as paths in full.";

/// What the status line says when the library file would lie in a data
/// folder the user does not have.
pub const NO_DATA_FOR_LIBRARY: &'static str = "There is no data folder for this user to keep the library file in, so name one with DERMIXEN_LIBRARY_FILE or with the library_file setting.";

/// What the status line says when a correction would be written to a data
/// folder the user does not have.
pub const NO_DATA_FOR_CORRECTIONS: &'static str = "There is no data folder for this user, so corrections cannot be written";

/// Text that is there at all: a setting or a variable set to empty text
/// counts as unset.
pub open spec fn given(text: Option<Seq<char>>) -> Option<Seq<char>> {
    match text {
        Some(t) if t.len() > 0 => Some(t),
        _ => None,
    }
}

/// Whether `path` is worked out below a folder rather than written in full.
pub open spec fn is_relative(path: Seq<char>) -> bool {
    !(path.len() > 0 && path[0] == '/')
}

/// The text of a path the caller may or may not have.
pub open spec fn opt_str(text: Option<&str>) -> Option<Seq<char>> {
    match text {
        Some(t) => Some(t@),
        None => None,
    }
}

/// Which library file the window opens, given the `DERMIXEN_LIBRARY_FILE`
/// variable `named`, the user's `data` and `home` folders and the
/// `library_file` setting: the variable, else the setting (worked out below
/// the home folder when it is relative), else `dermixen/library.sqlite` in
/// the data folder. The data folder is needed unless the variable names the
/// file, and the home folder only for a relative setting.
pub open spec fn library_location_of(
    named: Option<Seq<char>>,
    data: Option<Seq<char>>,
    home: Option<Seq<char>>,
    setting: Option<Seq<char>>,
) -> Result<Seq<char>, Seq<char>> {
    match given(named) {
        Some(file) => Ok(file),
        None => match data {
            None => Err(NO_DATA_FOR_LIBRARY@),
            Some(d) => match given(setting) {
                Some(s) => if is_relative(s) {
                    match home {
                        Some(h) => Ok(joined_path(h, s)),
                        None => Err(NO_HOME@),
                    }
                } else {
                    Ok(s)
                },
                None => Ok(joined_path(joined_path(d, DATA_FOLDER@), LIBRARY_FILE_NAME@)),
            },
        },
    }
}

/// The folder the window scans, given the user's `home` folder and the
/// `music_folder` setting: the setting, worked out below the home folder,
/// else `Music/Undefunktis` below the home folder.
pub open spec fn music_folder_of(home: Option<Seq<char>>, setting: Option<Seq<char>>) -> Result<
    Seq<char>,
    Seq<char>,
> {
    match home {
        None => Err(NO_HOME@),
        Some(h) => match given(setting) {
            Some(s) => Ok(joined_path(h, s)),
            None => Ok(joined_path(h, MUSIC_BELOW_HOME@)),
        },
    }
}

/// The folder corrections are written to, given the user's `data` folder:
/// `dermixen/corrections` in it.
pub open spec fn corrections_folder_of(data: Option<Seq<char>>) -> Result<Seq<char>, Seq<char>> {
    match data {
        None => Err(NO_DATA_FOR_CORRECTIONS@),
        Some(d) => Ok(joined_path(joined_path(d, DATA_FOLDER@), CORRECTIONS_FOLDER@)),
    }
}

/// The user's home folder, from `dirs::home_dir`, as text. The platform
/// decides whether there is one and where it is, so nothing is promised of
/// the answer.
#[verifier::external_body]
fn home_folder() -> Option<String> {
    dirs::home_dir().map(|folder| folder.to_string_lossy().into_owned())
}

/// Whether `path` is relative, as [`is_relative`] says.
fn relative(path: &str) -> (b: bool)
    ensures
        b == is_relative(path@),
{
    let cs = chars_of(path);
    !(cs.len() > 0 && cs[0] == '/')
}

/// Which library file the window opens, as [`library_location_of`] says,
/// given the variable, the folders and the setting as text.
pub fn library_location_from(
    named: Option<&str>,
    data: Option<&str>,
    home: Option<&str>,
    setting: Option<&str>,
) -> (r: Result<String, String>)
    ensures
        match r {
            Ok(file) => library_location_of(opt_str(named), opt_str(data), opt_str(home), opt_str(setting)) == Ok::<Seq<char>, Seq<char>>(file@),
            Err(message) => library_location_of(opt_str(named), opt_str(data), opt_str(home), opt_str(setting)) == Err::<Seq<char>, Seq<char>>(message@),
        },
{
    if let Some(file) = named {
        if !file.is_empty() {
            return Ok(owned(file));
        }
    }
    let d = match data {
        Some(d) => d,
        None => return Err(owned(NO_DATA_FOR_LIBRARY)),
    };
    if let Some(s) = setting {
        if !s.is_empty() {
            if relative(s) {
                return match home {
                    Some(h) => Ok(join(h, s)),
                    None => Err(owned(NO_HOME)),
                };
            } else {
                return Ok(owned(s));
            }
        }
    }
    let folder = join(d, DATA_FOLDER);
    Ok(join(folder.as_str(), LIBRARY_FILE_NAME))
}

/// Which library file the window opens, given the `DERMIXEN_LIBRARY_FILE`
/// variable `named` and the `library_file` setting, with the user's data
/// and home folders as this machine has them. The home folder is looked up
/// only for a relative setting. Whatever the machine answers, the result is
/// what [`library_location_of`] gives for some data and home folder, and a
/// variable set to something names the file outright.
pub fn library_location(named: Option<&str>, setting: Option<&str>) -> (r: Result<String, String>)
    ensures
        exists|data: Option<Seq<char>>, home: Option<Seq<char>>|
            #[trigger] library_location_of(opt_str(named), data, home, opt_str(setting)) == match r {
                Ok(file) => Ok::<Seq<char>, Seq<char>>(file@),
                Err(message) => Err::<Seq<char>, Seq<char>>(message@),
            },
        given(opt_str(named)) matches Some(file) ==> r matches Ok(f) && f@ == file,
{
    let (data, home) = folders_for(setting);
    library_location_from(named, as_str(&data), as_str(&home), setting)
}

/// The user's data folder, and the home folder where the `library_file`
/// setting is relative and so needs it, as this machine has them. The home
/// folder is not looked up for any other setting, and is then none.
fn folders_for(setting: Option<&str>) -> (r: (Option<String>, Option<String>))
    ensures
        !(given(opt_str(setting)) matches Some(s) && is_relative(s)) ==> r.1 is None,
{
    let data = data_folder();
    let needs_home = match setting {
        Some(s) => !s.is_empty() && relative(s),
        None => false,
    };
    let home = if needs_home { home_folder() } else { None };
    (data, home)
}

/// The text of a folder the caller may or may not have.
fn as_str(folder: &Option<String>) -> (r: Option<&str>)
    ensures
        opt_str(r) == match folder {
            Some(f) => Some(f@),
            None => None::<Seq<char>>,
        },
{
    match folder {
        Some(f) => Some(f.as_str()),
        None => None,
    }
}

/// The folder the window scans, as [`music_folder_of`] says, given the home
/// folder and the setting as text.
pub fn music_folder_from(home: Option<&str>, setting: Option<&str>) -> (r: Result<String, String>)
    ensures
        match r {
            Ok(folder) => music_folder_of(opt_str(home), opt_str(setting)) == Ok::<Seq<char>, Seq<char>>(folder@),
            Err(message) => music_folder_of(opt_str(home), opt_str(setting)) == Err::<Seq<char>, Seq<char>>(message@),
        },
{
    let h = match home {
        Some(h) => h,
        None => return Err(owned(NO_HOME)),
    };
    if let Some(s) = setting {
        if !s.is_empty() {
            return Ok(join(h, s));
        }
    }
    Ok(join(h, MUSIC_BELOW_HOME))
}

/// The folder the window scans, given the `music_folder` setting, with the
/// user's home folder as this machine has it: what [`music_folder_of`] gives
/// for some home folder.
pub fn music_folder(setting: Option<&str>) -> (r: Result<String, String>)
    ensures
        exists|home: Option<Seq<char>>|
            #[trigger] music_folder_of(home, opt_str(setting)) == match r {
                Ok(folder) => Ok::<Seq<char>, Seq<char>>(folder@),
                Err(message) => Err::<Seq<char>, Seq<char>>(message@),
            },
{
    let home = home_folder();
    music_folder_from(as_str(&home), setting)
}

/// The folder corrections are written to, as [`corrections_folder_of`]
/// says, given the data folder as text.
pub fn corrections_folder_from(data: Option<&str>) -> (r: Result<String, String>)
    ensures
        match r {
            Ok(folder) => corrections_folder_of(opt_str(data)) == Ok::<Seq<char>, Seq<char>>(folder@),
            Err(message) => corrections_folder_of(opt_str(data)) == Err::<Seq<char>, Seq<char>>(message@),
        },
{
    match data {
        Some(d) => {
            let folder = join(d, DATA_FOLDER);
            Ok(join(folder.as_str(), CORRECTIONS_FOLDER))
        },
        None => Err(owned(NO_DATA_FOR_CORRECTIONS)),
    }
}

/// The folder corrections are written to, with the user's data folder as
/// this machine has it: what [`corrections_folder_of`] gives for some data
/// folder.
pub fn corrections_folder() -> (r: Result<String, String>)
    ensures
        exists|data: Option<Seq<char>>|
            #[trigger] corrections_folder_of(data) == match r {
                Ok(folder) => Ok::<Seq<char>, Seq<char>>(folder@),
                Err(message) => Err::<Seq<char>, Seq<char>>(message@),
            },
{
    let data = data_folder();
    corrections_folder_from(as_str(&data))
}

/// What the status line says once a new `library_file` setting is written:
/// while the variable names a file, that the setting is not read until the
/// variable is unset; else which file the setting leads to and when it takes
/// effect, or why no file can be worked out.
pub open spec fn library_setting_message_of(
    named: Option<Seq<char>>,
    data: Option<Seq<char>>,
    home: Option<Seq<char>>,
    setting: Option<Seq<char>>,
) -> Seq<char> {
    match given(named) {
        Some(file) => "The library file setting was written. "@ + LIBRARY_VARIABLE@ + " names "@
            + file + ", and the setting is not read until that variable is unset."@,
        None => match library_location_of(None, data, home, setting) {
            Ok(file) => "The library file is "@ + file
                + ", which takes effect the next time you open a mix or start a new one."@,
            Err(problem) => problem,
        },
    }
}

/// What the status line says once a new `music_folder` setting is written:
/// the folder a scan reads and the menu item that scans it, or why no
/// folder can be worked out.
pub open spec fn music_setting_message_of(home: Option<Seq<char>>, setting: Option<Seq<char>>) -> Seq<
    char,
> {
    match music_folder_of(home, setting) {
        Ok(folder) => "The music folder is "@ + folder
            + ". Choose Library > Scan music folder to scan it."@,
        Err(problem) => problem,
    }
}

/// What the status line says once a new `library_file` setting is written,
/// as [`library_setting_message_of`] says, given the variable, the folders
/// and the setting as text.
pub fn library_setting_message_from(
    named: Option<&str>,
    data: Option<&str>,
    home: Option<&str>,
    setting: Option<&str>,
) -> (r: String)
    ensures
        r@ == library_setting_message_of(opt_str(named), opt_str(data), opt_str(home), opt_str(setting)),
{
    if let Some(file) = named {
        if !file.is_empty() {
            return library_variable_note(file);
        }
    }
    match library_location_from(None, data, home, setting) {
        Ok(file) => library_file_note(file.as_str()),
        Err(problem) => problem,
    }
}

/// What the status line says once a new `library_file` setting is written,
/// with the user's folders as this machine has them: what
/// [`library_setting_message_of`] gives for some data and home folder.
pub fn library_setting_message(named: Option<&str>, setting: Option<&str>) -> (r: String)
    ensures
        exists|data: Option<Seq<char>>, home: Option<Seq<char>>|
            #[trigger] library_setting_message_of(opt_str(named), data, home, opt_str(setting)) == r@,
{
    let (data, home) = folders_for(setting);
    let d = as_str(&data);
    let h = as_str(&home);
    let r = library_setting_message_from(named, d, h, setting);
    assert(library_setting_message_of(opt_str(named), opt_str(d), opt_str(h), opt_str(setting)) == r@);
    r
}

/// What the status line says once a new `music_folder` setting is written,
/// as [`music_setting_message_of`] says, given the home folder and the
/// setting as text.
pub fn music_setting_message_from(home: Option<&str>, setting: Option<&str>) -> (r: String)
    ensures
        r@ == music_setting_message_of(opt_str(home), opt_str(setting)),
{
    match music_folder_from(home, setting) {
        Ok(folder) => music_folder_note(folder.as_str()),
        Err(problem) => problem,
    }
}

/// What the status line says once a new `music_folder` setting is written,
/// with the user's home folder as this machine has it: what
/// [`music_setting_message_of`] gives for some home folder.
pub fn music_setting_message(setting: Option<&str>) -> (r: String)
    ensures
        exists|home: Option<Seq<char>>| #[trigger] music_setting_message_of(home, opt_str(setting)) == r@,
{
    let home = home_folder();
    let h = as_str(&home);
    let r = music_setting_message_from(h, setting);
    assert(music_setting_message_of(opt_str(h), opt_str(setting)) == r@);
    r
}

/// A `DERMIXEN_LIBRARY_FILE` variable set to empty text counts as unset.
pub proof fn an_empty_variable_counts_as_unset(
    data: Option<Seq<char>>,
    home: Option<Seq<char>>,
    setting: Option<Seq<char>>,
)
    ensures
        library_location_of(Some(Seq::empty()), data, home, setting) == library_location_of(
            None,
            data,
            home,
            setting,
        ),
{
}

/// The home folder matters to the library file only when the
/// `library_file` setting is a relative path: with no setting, or one
/// written in full, a user with no home folder gets the same file as any
/// other.
pub proof fn the_home_folder_matters_only_for_a_relative_library_setting(
    named: Option<Seq<char>>,
    data: Option<Seq<char>>,
    home: Option<Seq<char>>,
    setting: Option<Seq<char>>,
)
    requires
        !(given(setting) matches Some(s) && is_relative(s)),
    ensures
        library_location_of(named, data, home, setting) == library_location_of(
            named,
            data,
            None,
            setting,
        ),
{
}


}
