//! `ls`: lists the entries of one directory, one per line (or separated by
//! NUL bytes with `-0`), hiding those whose names start with a dot unless
//! `-a` is given.

use vstd::prelude::*;

use crate::bytes::copy_bytes;
use crate::options::{
    first_unknown_is, flag_given, has_unknown, operands_start, scan_options, usage_message,
    usage_text, ArgsError,
};

verus! {

/// The flags that `ls` knows: `-0` and `-a`.
pub open spec fn ls_flags() -> Seq<u8> {
    seq!['0' as u8, 'a' as u8]
}

/// The path `.`, listed where no path is given.
pub open spec fn current_dir() -> Seq<u8> {
    seq!['.' as u8]
}

/// What the command line of `ls` asks for.
#[derive(Debug)]
pub struct LsArgs {
    /// The byte written after each name: a newline, or NUL with `-0`.
    pub sep: u8,
    /// Whether names that start with a dot are listed too (`-a`).
    pub all: bool,
    /// The directory to list.
    pub path: Vec<u8>,
}

/// Parses the command line of `ls`: `args[0]` is the program's name, then
/// come the flags and at most one path.
///
/// Fails on the first flag byte that is neither `0`, `a` nor a dash, and
/// with [`ArgsError::Usage`] where more than one path is given.
pub fn parse_args(args: &Vec<Vec<u8>>) -> (r: Result<LsArgs, ArgsError>)
    requires
        args@.len() >= 1,
    ensures
        ({
            let a = args.deep_view();
            let end = operands_start(a, 1);
            &&& r is Ok <==> !has_unknown(a, 1, seq!['0' as u8, 'a' as u8]) && a.len() - end <= 1
            &&& r matches Err(ArgsError::UnknownOption(c)) ==> first_unknown_is(a, 1, seq!['0' as u8, 'a' as u8], c)
            &&& r matches Err(ArgsError::Usage) ==> !has_unknown(a, 1, seq!['0' as u8, 'a' as u8]) && a.len() - end > 1
            &&& r matches Ok(x) ==> {
                &&& x.sep == (if flag_given(a, 1, '0' as u8) { 0u8 } else { '\n' as u8 })
                &&& x.all == flag_given(a, 1, 'a' as u8)
                &&& x.path@ == (if end == a.len() { seq!['.' as u8] } else { a[end] })
            }
        }),
{
    let known: Vec<u8> = vec!['0' as u8, 'a' as u8];
    assert(known@ =~= ls_flags());
    let scan = match scan_options(args, 1, &known) {
        Ok(scan) => scan,
        Err(c) => {
            return Err(ArgsError::UnknownOption(c));
        },
    };
    let ghost a = args.deep_view();
    let end = scan.operands;
    let sep: u8 = if scan.present[0] { 0 } else { '\n' as u8 };
    let all = scan.present[1];
    let path = if end == args.len() {
        let p: Vec<u8> = vec!['.' as u8];
        assert(p@ =~= current_dir());
        p
    } else if args.len() - end == 1 {
        assert(a[end as int] == args@[end as int]@);
        copy_bytes(&args[end])
    } else {
        return Err(ArgsError::Usage);
    };
    Ok(LsArgs { sep, all, path })
}

/// Whether `ls` hides an entry with this name: it starts with a dot and
/// `-a` was not given.
pub open spec fn hidden(args: LsArgs, name: Seq<u8>) -> bool {
    name.len() >= 1 && name[0] == '.' as u8 && !args.all
}

/// Only dot-files are hidden, and only without `-a`: a name that is empty
/// or does not start with a dot is always listed, `-a` lists every name, and a
/// name that starts with a dot is hidden without `-a`.
pub proof fn law_only_dot_files_hidden(args: LsArgs, name: Seq<u8>)
    ensures
        name.len() == 0 ==> !hidden(args, name),
        name.len() >= 1 && name[0] != '.' as u8 ==> !hidden(args, name),
        args.all ==> !hidden(args, name),
        name.len() >= 1 && name[0] == '.' as u8 && !args.all ==> hidden(args, name),
{
}

/// What `readdir(3)` gave back.
pub enum DirEvent {
    /// An entry, by its name.
    Entry(Vec<u8>),
    /// No entry: `errno` holds this value, 0 at the end of the directory.
    End(i32),
}

/// What `ls` does next while it reads the directory.
pub enum LsAction {
    /// Write these bytes to standard output.
    Print(Vec<u8>),
    /// Go on with the next entry.
    Skip,
    /// The directory is done: close it.
    Finish,
    /// `readdir` failed with this `errno`.
    Fail(i32),
}

/// Decides what `ls` does with what `readdir(3)` gave back: an entry that is
/// not hidden is written, followed by the separator; the end of the
/// directory (`errno` 0) finishes, and any other `errno` fails.
pub fn next_action(args: &LsArgs, event: &DirEvent) -> (r: LsAction)
    ensures
        event matches DirEvent::Entry(name) ==> {
            if hidden(*args, name@) {
                r is Skip
            } else {
                r matches LsAction::Print(out) && out@ == name@.push(args.sep)
            }
        },
        event matches DirEvent::Entry(name) ==> ((name@.len() == 0 || name@[0] != '.' as u8
            || args.all) ==> (r matches LsAction::Print(out) && out@ == name@.push(args.sep))),
        event matches DirEvent::Entry(name) ==> (name@.len() >= 1 && name@[0] == '.' as u8
            && !args.all ==> r is Skip),
        event matches DirEvent::End(err) ==> (if *err == 0 {
            r is Finish
        } else {
            r == LsAction::Fail(*err)
        }),
{
    match event {
        DirEvent::Entry(name) => {
            if name.len() >= 1 && name[0] == '.' as u8 && !args.all {
                LsAction::Skip
            } else {
                let mut out = copy_bytes(name);
                out.push(args.sep);
                LsAction::Print(out)
            }
        },
        DirEvent::End(err) => {
            if *err == 0 {
                LsAction::Finish
            } else {
                LsAction::Fail(*err)
            }
        },
    }
}

/// What follows the program's name in the usage text of `ls`.
pub open spec fn synopsis() -> Seq<char> {
    " [FLAGS] <DIR-PATH>\n\nFLAGS\n\n  -0  Separate directories with null bytes, not newlines\n  -a  List hidden files\n"@
}

/// Returns the usage text of `ls`, run as `argv0`.
pub fn usage(argv0: &Vec<u8>) -> (r: Vec<u8>)
    ensures
        r@ == usage_text(argv0@, synopsis()),
{
    proof {
        reveal_strlit(
            " [FLAGS] <DIR-PATH>\n\nFLAGS\n\n  -0  Separate directories with null bytes, not newlines\n  -a  List hidden files\n",
        );
    }
    usage_message(
        argv0,
        " [FLAGS] <DIR-PATH>\n\nFLAGS\n\n  -0  Separate directories with null bytes, not newlines\n  -a  List hidden files\n",
    )
}

} // verus!
