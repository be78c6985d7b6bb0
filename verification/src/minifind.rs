//! `minifind`: the command line of a search under a path, with at most one
//! predicate on what is found.

use vstd::prelude::*;

use crate::bytes::{bytes_eq, copy_bytes};
use crate::ls::current_dir;
use crate::options::{usage_message, usage_text, ArgsError};

verus! {

/// What the found entries must satisfy.
#[derive(Debug)]
pub enum Predicate {
    /// The name starts with these bytes (`--starts-with STR`).
    StartsWith(Vec<u8>),
    /// The name ends with these bytes (`--ends-with STR`).
    EndsWith(Vec<u8>),
    /// The entry is a directory (`--dir`).
    IsDir,
    /// The entry is a regular file (`--file`).
    IsFile,
}

/// What the command line of `minifind` asks for.
#[derive(Debug)]
pub struct FindArgs {
    /// Where to search.
    pub path: Vec<u8>,
    /// What the entries must satisfy, if anything.
    pub pred: Option<Predicate>,
}

/// The bytes of `--starts-with`.
pub open spec fn starts_with_word() -> Seq<u8> {
    seq![
        '-' as u8, '-' as u8, 's' as u8, 't' as u8, 'a' as u8, 'r' as u8, 't' as u8,
        's' as u8, '-' as u8, 'w' as u8, 'i' as u8, 't' as u8, 'h' as u8,
    ]
}

/// The bytes of `--ends-with`.
pub open spec fn ends_with_word() -> Seq<u8> {
    seq![
        '-' as u8, '-' as u8, 'e' as u8, 'n' as u8, 'd' as u8, 's' as u8, '-' as u8,
        'w' as u8, 'i' as u8, 't' as u8, 'h' as u8,
    ]
}

/// The bytes of `--dir`.
pub open spec fn dir_word() -> Seq<u8> {
    seq!['-' as u8, '-' as u8, 'd' as u8, 'i' as u8, 'r' as u8]
}

/// The bytes of `--file`.
pub open spec fn file_word() -> Seq<u8> {
    seq!['-' as u8, '-' as u8, 'f' as u8, 'i' as u8, 'l' as u8, 'e' as u8]
}

/// The predicate that the arguments `rest`, which follow the path, ask for:
/// `None` where they do not make one of the four forms.
pub open spec fn spec_predicate(rest: Seq<Seq<u8>>) -> Option<PredicateView> {
    if rest.len() == 2 && rest[0] == starts_with_word() {
        Some(PredicateView::StartsWith(rest[1]))
    } else if rest.len() == 2 && rest[0] == ends_with_word() {
        Some(PredicateView::EndsWith(rest[1]))
    } else if rest.len() == 1 && rest[0] == dir_word() {
        Some(PredicateView::IsDir)
    } else if rest.len() == 1 && rest[0] == file_word() {
        Some(PredicateView::IsFile)
    } else {
        None
    }
}

/// A predicate takes only its exact form: `--starts-with` and `--ends-with`
/// with exactly one argument after them, `--dir` and `--file` with none;
/// any other arguments after the path make no predicate.
pub proof fn law_predicate_forms(rest: Seq<Seq<u8>>)
    ensures
        spec_predicate(rest) matches Some(PredicateView::StartsWith(t)) ==> rest.len() == 2
            && rest[0] == starts_with_word() && t == rest[1],
        spec_predicate(rest) matches Some(PredicateView::EndsWith(t)) ==> rest.len() == 2
            && rest[0] == ends_with_word() && t == rest[1],
        spec_predicate(rest) matches Some(PredicateView::IsDir) ==> rest.len() == 1 && rest[0]
            == dir_word(),
        spec_predicate(rest) matches Some(PredicateView::IsFile) ==> rest.len() == 1 && rest[0]
            == file_word(),
        rest.len() == 0 || rest.len() > 2 ==> spec_predicate(rest) is None,
        rest.len() == 2 && rest[0] == ends_with_word() ==> spec_predicate(rest) == Some(
            PredicateView::EndsWith(rest[1]),
        ),
        rest.len() == 2 && rest[0] == starts_with_word() ==> spec_predicate(rest) == Some(
            PredicateView::StartsWith(rest[1]),
        ),
        rest.len() == 1 && rest[0] == dir_word() ==> spec_predicate(rest) == Some(
            PredicateView::IsDir,
        ),
        rest.len() == 1 && rest[0] == file_word() ==> spec_predicate(rest) == Some(
            PredicateView::IsFile,
        ),
{
    assert(starts_with_word()[2] != ends_with_word()[2]);
    assert(dir_word()[2] != file_word()[2]);
}

/// A [`Predicate`] with its bytes as a sequence.
pub enum PredicateView {
    StartsWith(Seq<u8>),
    EndsWith(Seq<u8>),
    IsDir,
    IsFile,
}

/// The view of a predicate.
pub open spec fn predicate_view(p: Predicate) -> PredicateView {
    match p {
        Predicate::StartsWith(s) => PredicateView::StartsWith(s@),
        Predicate::EndsWith(s) => PredicateView::EndsWith(s@),
        Predicate::IsDir => PredicateView::IsDir,
        Predicate::IsFile => PredicateView::IsFile,
    }
}

/// Parses the command line of `minifind`: `args[0]` is the program's name,
/// then come an optional path (`.` where there is none) and, after it, an
/// optional predicate: `--starts-with STR`, `--ends-with STR`, `--dir` or
/// `--file`. Anything else after the path is refused with
/// [`ArgsError::Usage`].
pub fn parse_args(args: &Vec<Vec<u8>>) -> (r: Result<FindArgs, ArgsError>)
    requires
        args@.len() >= 1,
    ensures
        ({
            let a = args.deep_view();
            &&& a.len() <= 2 ==> (r matches Ok(x) && x.pred is None && x.path@ == (if a.len()
                == 1 { seq!['.' as u8] } else { a[1] }))
            &&& a.len() > 2 ==> match spec_predicate(a.subrange(2, a.len() as int)) {
                Some(p) => (r matches Ok(x) && x.path@ == a[1] && (x.pred matches Some(q)
                    && predicate_view(q) == p)),
                None => r matches Err(ArgsError::Usage),
            }
        }),
        r matches Ok(x) ==> (x.pred is None <==> args@.len() <= 2),
        r matches Ok(x) ==> (x.pred matches Some(Predicate::StartsWith(t)) ==> args@.len() == 4
            && args@[2]@ == starts_with_word() && t@ == args@[3]@),
        r matches Ok(x) ==> (x.pred matches Some(Predicate::EndsWith(t)) ==> args@.len() == 4
            && args@[2]@ == ends_with_word() && t@ == args@[3]@),
        r matches Ok(x) ==> (x.pred matches Some(Predicate::IsDir) ==> args@.len() == 3
            && args@[2]@ == dir_word()),
        r matches Ok(x) ==> (x.pred matches Some(Predicate::IsFile) ==> args@.len() == 3
            && args@[2]@ == file_word()),
        args@.len() > 4 ==> r matches Err(ArgsError::Usage),
{
    let ghost a = args.deep_view();
    if args.len() == 1 {
        let p: Vec<u8> = vec!['.' as u8];
        assert(p@ =~= current_dir());
        return Ok(FindArgs { path: p, pred: None });
    }
    assert(a[1] =~= args@[1]@);
    let path = copy_bytes(&args[1]);
    if args.len() == 2 {
        return Ok(FindArgs { path, pred: None });
    }
    let rest_len = args.len() - 2;
    let ghost rest = a.subrange(2, a.len() as int);
    assert(rest[0] =~= args@[2]@);
    let first = &args[2];
    let starts: Vec<u8> = vec![
        '-' as u8, '-' as u8, 's' as u8, 't' as u8, 'a' as u8, 'r' as u8, 't' as u8,
        's' as u8, '-' as u8, 'w' as u8, 'i' as u8, 't' as u8, 'h' as u8,
    ];
    let ends: Vec<u8> = vec![
        '-' as u8, '-' as u8, 'e' as u8, 'n' as u8, 'd' as u8, 's' as u8, '-' as u8,
        'w' as u8, 'i' as u8, 't' as u8, 'h' as u8,
    ];
    let dir: Vec<u8> = vec!['-' as u8, '-' as u8, 'd' as u8, 'i' as u8, 'r' as u8];
    let file: Vec<u8> = vec!['-' as u8, '-' as u8, 'f' as u8, 'i' as u8, 'l' as u8, 'e' as u8];
    assert(starts@ =~= starts_with_word());
    assert(ends@ =~= ends_with_word());
    assert(dir@ =~= dir_word());
    assert(file@ =~= file_word());
    let pred = if rest_len == 2 && bytes_eq(first, &starts) {
        assert(rest[1] =~= args@[3]@);
        Predicate::StartsWith(copy_bytes(&args[3]))
    } else if rest_len == 2 && bytes_eq(first, &ends) {
        assert(rest[1] =~= args@[3]@);
        Predicate::EndsWith(copy_bytes(&args[3]))
    } else if rest_len == 1 && bytes_eq(first, &dir) {
        Predicate::IsDir
    } else if rest_len == 1 && bytes_eq(first, &file) {
        Predicate::IsFile
    } else {
        return Err(ArgsError::Usage);
    };
    Ok(FindArgs { path, pred: Some(pred) })
}

/// What follows the program's name in the usage text of `minifind`.
pub open spec fn synopsis() -> Seq<char> {
    " [PATH [PREDICATE]]\n\nPREDICATE\n\n  --starts-with STR  Find files whose names start with STR\n  --ends-with STR    Find files whose names end with STR\n  --dir              Find directories\n  --file             Find regular files\n"@
}

/// Returns the usage text of `minifind`, run as `argv0`.
pub fn usage(argv0: &Vec<u8>) -> (r: Vec<u8>)
    ensures
        r@ == usage_text(argv0@, synopsis()),
{
    proof {
        reveal_strlit(
            " [PATH [PREDICATE]]\n\nPREDICATE\n\n  --starts-with STR  Find files whose names start with STR\n  --ends-with STR    Find files whose names end with STR\n  --dir              Find directories\n  --file             Find regular files\n",
        );
    }
    usage_message(
        argv0,
        " [PATH [PREDICATE]]\n\nPREDICATE\n\n  --starts-with STR  Find files whose names start with STR\n  --ends-with STR    Find files whose names end with STR\n  --dir              Find directories\n  --file             Find regular files\n",
    )
}

} // verus!
