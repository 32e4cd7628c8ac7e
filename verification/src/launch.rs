//! What the `dermixen-app [MIX]` command line asks for: the usage, the
//! window on the one mix named, or the window on an untitled mix.

use vstd::prelude::*;
use crate::text::owned;

verus! {

/// How the command is used, printed when it is used any other way.
pub const USAGE: &'static str = "usage: dermixen-app [MIX]";

/// What the command line asks for.
#[derive(Debug, PartialEq, Eq)]
pub enum Launch {
    /// Print the usage on standard output and exit with zero.
    Help,
    /// The command line could not be read: print the usage on standard
    /// error and exit with two.
    Misused,
    /// Open the window on the mix named, or on an untitled empty mix.
    Open(Option<String>),
}

/// Whether `arg` asks for the usage.
pub open spec fn asks_for_help(arg: Seq<char>) -> bool {
    arg == "--help"@ || arg == "-h"@
}

/// What the arguments after the command's name ask for: a first argument of
/// `--help` or `-h` asks for the usage, whatever follows it; more than one
/// argument otherwise cannot be read; and otherwise the one argument, if
/// there is one, names the mix to open.
pub fn launch(args: &Vec<String>) -> (r: Launch)
    ensures
        args@.len() > 0 && asks_for_help(args@[0]@) ==> r == Launch::Help,
        !(args@.len() > 0 && asks_for_help(args@[0]@)) && args@.len() > 1 ==> r == Launch::Misused,
        !(args@.len() > 0 && asks_for_help(args@[0]@)) && args@.len() <= 1 ==> (r matches Launch::Open(mix)
            && match mix {
                Some(m) => args@.len() == 1 && m@ == args@[0]@,
                None => args@.len() == 0,
            }),
{
    if args.len() > 0 {
        let long = owned("--help");
        let short = owned("-h");
        if args[0].eq(&long) || args[0].eq(&short) {
            return Launch::Help;
        }
    }
    if args.len() > 1 {
        return Launch::Misused;
    }
    if args.len() == 1 {
        Launch::Open(Some(args[0].clone()))
    } else {
        Launch::Open(None)
    }
}

} // verus!
