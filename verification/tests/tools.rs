use ukoreutils::bytes::{bytes_eq, bytes_until_nul, copy_bytes};
use ukoreutils::io::{stderr, stdout, write_step, write_step_ignoring_errors, WriteStep};
use ukoreutils::libc_alloc::align_supported;
use ukoreutils::ls::{self, DirEvent, LsAction, LsArgs};
use ukoreutils::minifind::{self, Predicate};
use ukoreutils::mkdir::{self, MkdirAction, MkdirArgs, MkdirRun};
use ukoreutils::options::{scan_options, unknown_option_message, ArgsError};
use ukoreutils::start::Termination;
use ukoreutils::zero;

fn argv(words: &[&str]) -> Vec<Vec<u8>> {
    words.iter().map(|w| w.as_bytes().to_vec()).collect()
}

fn created(action: &MkdirAction) -> Vec<u8> {
    match action {
        MkdirAction::Create(p) => p.clone(),
        _ => panic!("expected a path to create"),
    }
}

// ---- io ----

#[test]
fn standard_writers_use_fds_one_and_two() {
    assert_eq!(stdout().fd, 1);
    assert_eq!(stderr().fd, 2);
}

#[test]
fn write_step_completes_on_full_count() {
    assert!(matches!(write_step(10, 0, 10, 0), WriteStep::Done));
    assert!(matches!(write_step(10, 6, 4, 0), WriteStep::Done));
}

#[test]
fn write_step_advances_by_partial_count() {
    assert!(matches!(write_step(10, 0, 4, 0), WriteStep::Continue(4)));
    assert!(matches!(write_step(10, 4, 0, 0), WriteStep::Continue(4)));
}

#[test]
fn write_step_retries_after_eintr() {
    assert!(matches!(write_step(10, 4, -1, 4), WriteStep::Continue(4)));
}

#[test]
fn write_step_fails_on_other_errors() {
    assert!(matches!(write_step(10, 4, -1, 5), WriteStep::Failed(5)));
    assert!(matches!(write_step(3, 0, -1, 32), WriteStep::Failed(32)));
}

#[test]
fn ignoring_writer_stops_quietly_on_errors() {
    assert!(matches!(write_step_ignoring_errors(10, 0, -1, 5), WriteStep::Done));
    assert!(matches!(write_step_ignoring_errors(10, 0, -1, 4), WriteStep::Continue(0)));
}

#[test]
fn ignoring_writer_stops_on_overlong_count() {
    assert!(matches!(write_step_ignoring_errors(10, 2, 20, 0), WriteStep::Done));
    assert!(matches!(write_step_ignoring_errors(10, 2, 8, 0), WriteStep::Done));
    assert!(matches!(write_step_ignoring_errors(10, 2, 3, 0), WriteStep::Continue(5)));
}

#[test]
fn write_run_offset_tracks_counts() {
    // three calls: 3 bytes, an interrupted call, then the remaining 7
    let len = 10;
    let mut written = 0;
    let calls: [(isize, i32); 3] = [(3, 0), (-1, 4), (7, 0)];
    let mut done = false;
    for (i, (ret, err)) in calls.iter().enumerate() {
        match write_step(len, written, *ret, *err) {
            WriteStep::Continue(w) => {
                assert!(i < 2);
                written = w;
            }
            WriteStep::Done => {
                assert_eq!(i, 2);
                done = true;
            }
            WriteStep::Failed(_) => panic!("no call failed"),
        }
    }
    assert_eq!(written, 3);
    assert!(done);
}

// ---- options ----

#[test]
fn scan_reads_bundled_flags() {
    let args = argv(&["prog", "-ab", "x"]);
    let scan = scan_options(&args, 1, &vec![b'a', b'b', b'c']).ok().unwrap();
    assert_eq!(scan.operands, 2);
    assert_eq!(scan.present, vec![true, true, false]);
}

#[test]
fn scan_reports_first_unknown_flag() {
    let args = argv(&["prog", "-az", "-y"]);
    assert!(matches!(scan_options(&args, 1, &vec![b'a']), Err(b'z')));
    let args = argv(&["prog", "-x", "-y"]);
    assert!(matches!(scan_options(&args, 1, &vec![b'a']), Err(b'x')));
}

#[test]
fn scan_stops_after_double_dash() {
    let args = argv(&["prog", "-a", "--", "-b"]);
    let scan = scan_options(&args, 1, &vec![b'a', b'b']).ok().unwrap();
    assert_eq!(scan.operands, 3);
    assert_eq!(scan.present, vec![true, false]);
}

#[test]
fn scan_reads_lone_dash_as_empty_bundle() {
    let args = argv(&["prog", "-", "x"]);
    let scan = scan_options(&args, 1, &vec![b'a']).ok().unwrap();
    assert_eq!(scan.operands, 2);
    assert_eq!(scan.present, vec![false]);
}

#[test]
fn scan_reads_bytes_after_second_dash() {
    let args = argv(&["prog", "--x"]);
    assert!(matches!(scan_options(&args, 1, &vec![b'a']), Err(b'x')));
}

#[test]
fn unknown_option_message_ascii() {
    assert_eq!(unknown_option_message(b'q'), b"unknown option: -q\n".to_vec());
}

#[test]
fn unknown_option_message_latin1() {
    let expected = format!("unknown option: -{}\n", char::from(0xe9u8));
    assert_eq!(unknown_option_message(0xe9), expected.into_bytes());
}

// ---- ls ----

fn ls_args(words: &[&str]) -> LsArgs {
    match ls::parse_args(&argv(words)) {
        Ok(a) => a,
        Err(_) => panic!("expected a valid command line"),
    }
}

#[test]
fn ls_defaults() {
    let a = ls_args(&["ls"]);
    assert_eq!(a.sep, b'\n');
    assert!(!a.all);
    assert_eq!(a.path, b".".to_vec());
}

#[test]
fn ls_flags_and_path() {
    let a = ls_args(&["ls", "-0a", "/tmp"]);
    assert_eq!(a.sep, 0);
    assert!(a.all);
    assert_eq!(a.path, b"/tmp".to_vec());
    let b = ls_args(&["ls", "-a", "-0", "/tmp"]);
    assert_eq!((b.sep, b.all, b.path), (0, true, b"/tmp".to_vec()));
}

#[test]
fn ls_double_dash_path() {
    let a = ls_args(&["ls", "-a", "--", "-0"]);
    assert_eq!(a.sep, b'\n');
    assert!(a.all);
    assert_eq!(a.path, b"-0".to_vec());
}

#[test]
fn ls_two_paths_is_usage_error() {
    assert!(matches!(ls::parse_args(&argv(&["ls", "a", "b"])), Err(ArgsError::Usage)));
}

#[test]
fn ls_unknown_flag() {
    assert!(matches!(
        ls::parse_args(&argv(&["ls", "-ax", "a", "b"])),
        Err(ArgsError::UnknownOption(b'x'))
    ));
}

#[test]
fn ls_hides_dot_entries() {
    let a = ls_args(&["ls"]);
    assert!(matches!(ls::next_action(&a, &DirEvent::Entry(b".git".to_vec())), LsAction::Skip));
    match ls::next_action(&a, &DirEvent::Entry(b"src".to_vec())) {
        LsAction::Print(out) => assert_eq!(out, b"src\n".to_vec()),
        _ => panic!("expected output"),
    }
}

#[test]
fn ls_all_shows_dot_entries() {
    let a = ls_args(&["ls", "-a0"]);
    match ls::next_action(&a, &DirEvent::Entry(b".git".to_vec())) {
        LsAction::Print(out) => assert_eq!(out, b".git\0".to_vec()),
        _ => panic!("expected output"),
    }
}

#[test]
fn ls_end_of_directory() {
    let a = ls_args(&["ls"]);
    assert!(matches!(ls::next_action(&a, &DirEvent::End(0)), LsAction::Finish));
    assert!(matches!(ls::next_action(&a, &DirEvent::End(13)), LsAction::Fail(13)));
}

#[test]
fn ls_usage_text() {
    let expected = "USAGE\n\n  ls [FLAGS] <DIR-PATH>\n\nFLAGS\n\n  -0  Separate directories with null bytes, not newlines\n  -a  List hidden files\n";
    assert_eq!(ls::usage(&b"ls".to_vec()), expected.as_bytes().to_vec());
}

// ---- mkdir ----

fn mkdir_args(words: &[&str]) -> MkdirArgs {
    match mkdir::parse_args(&argv(words)) {
        Ok(a) => a,
        Err(_) => panic!("expected a valid command line"),
    }
}

#[test]
fn mkdir_needs_a_path() {
    assert!(matches!(mkdir::parse_args(&argv(&["mkdir"])), Err(ArgsError::Usage)));
    assert!(matches!(mkdir::parse_args(&argv(&["mkdir", "-p"])), Err(ArgsError::Usage)));
}

#[test]
fn mkdir_parents_flag() {
    let a = mkdir_args(&["mkdir", "-p", "a", "b"]);
    assert!(a.parents);
    assert_eq!(a.directories, argv(&["a", "b"]));
    let b = mkdir_args(&["mkdir", "--", "-p"]);
    assert!(!b.parents);
    assert_eq!(b.directories, argv(&["-p"]));
}

#[test]
fn mkdir_unknown_flag() {
    assert!(matches!(
        mkdir::parse_args(&argv(&["mkdir", "-q", "a"])),
        Err(ArgsError::UnknownOption(b'q'))
    ));
}

#[test]
fn mkdir_run_in_order() {
    let mut run = MkdirRun::new(mkdir_args(&["mkdir", "a", "b"]));
    assert_eq!(created(&run.start()), b"a".to_vec());
    assert_eq!(created(&run.on_created()), b"b".to_vec());
    assert!(matches!(run.on_created(), MkdirAction::Finished));
}

#[test]
fn mkdir_run_fails_without_parents() {
    let mut run = MkdirRun::new(mkdir_args(&["mkdir", "a/b", "c"]));
    assert_eq!(created(&run.start()), b"a/b".to_vec());
    assert!(matches!(run.on_error(2), MkdirAction::Failed(2)));
    let mut run = MkdirRun::new(mkdir_args(&["mkdir", "a"]));
    run.start();
    assert!(matches!(run.on_error(17), MkdirAction::Failed(17)));
}

#[test]
fn mkdir_run_creates_missing_parent_then_retries() {
    let mut run = MkdirRun::new(mkdir_args(&["mkdir", "-p", "a/b/c"]));
    assert_eq!(created(&run.start()), b"a/b/c".to_vec());
    match run.on_error(2) {
        MkdirAction::FindParent(p) => assert_eq!(p, b"a/b/c".to_vec()),
        _ => panic!("expected a parent lookup"),
    }
    assert_eq!(created(&run.on_parent(b"a/b".to_vec())), b"a/b".to_vec());
    match run.on_error(2) {
        MkdirAction::FindParent(p) => assert_eq!(p, b"a/b".to_vec()),
        _ => panic!("expected a parent lookup"),
    }
    assert_eq!(created(&run.on_parent(b"a".to_vec())), b"a".to_vec());
    assert_eq!(created(&run.on_created()), b"a/b".to_vec());
    assert_eq!(created(&run.on_created()), b"a/b/c".to_vec());
    assert!(matches!(run.on_created(), MkdirAction::Finished));
}

#[test]
fn mkdir_run_accepts_existing_with_parents() {
    let mut run = MkdirRun::new(mkdir_args(&["mkdir", "-p", "a", "b"]));
    run.start();
    assert_eq!(created(&run.on_error(17)), b"b".to_vec());
    assert!(matches!(run.on_error(13), MkdirAction::Failed(13)));
}

#[test]
fn mkdir_usage_text() {
    let expected = "USAGE\n\n  mkdir [FLAGS] <PATHS...>\n\nFLAGS\n\n  -p\tCreate parent directories. No error if the directory exists\n";
    assert_eq!(mkdir::usage(&b"mkdir".to_vec()), expected.as_bytes().to_vec());
}

// ---- minifind ----

#[test]
fn minifind_defaults_to_current_dir() {
    let a = minifind::parse_args(&argv(&["minifind"])).ok().unwrap();
    assert_eq!(a.path, b".".to_vec());
    assert!(a.pred.is_none());
    let b = minifind::parse_args(&argv(&["minifind", "/x"])).ok().unwrap();
    assert_eq!(b.path, b"/x".to_vec());
    assert!(b.pred.is_none());
}

#[test]
fn minifind_predicates() {
    let a = minifind::parse_args(&argv(&["minifind", "/x", "--dir"])).ok().unwrap();
    assert!(matches!(a.pred, Some(Predicate::IsDir)));
    let a = minifind::parse_args(&argv(&["minifind", "/x", "--file"])).ok().unwrap();
    assert!(matches!(a.pred, Some(Predicate::IsFile)));
    let a = minifind::parse_args(&argv(&["minifind", "/x", "--starts-with", "ab"])).ok().unwrap();
    match a.pred {
        Some(Predicate::StartsWith(s)) => assert_eq!(s, b"ab".to_vec()),
        _ => panic!("expected --starts-with"),
    }
    let a = minifind::parse_args(&argv(&["minifind", "/x", "--ends-with", ".rs"])).ok().unwrap();
    match a.pred {
        Some(Predicate::EndsWith(s)) => assert_eq!(s, b".rs".to_vec()),
        _ => panic!("expected --ends-with"),
    }
}

#[test]
fn minifind_bad_predicates() {
    for words in [
        &["minifind", "/x", "--dir", "y"][..],
        &["minifind", "/x", "--starts-with"][..],
        &["minifind", "/x", "--bogus"][..],
        &["minifind", "/x", "--file", "--dir"][..],
    ] {
        assert!(matches!(minifind::parse_args(&argv(words)), Err(ArgsError::Usage)));
    }
}

#[test]
fn minifind_usage_text() {
    let expected = "USAGE\n\n  find [PATH [PREDICATE]]\n\nPREDICATE\n\n  --starts-with STR  Find files whose names start with STR\n  --ends-with STR    Find files whose names end with STR\n  --dir              Find directories\n  --file             Find regular files\n";
    assert_eq!(minifind::usage(&b"find".to_vec()), expected.as_bytes().to_vec());
}

// ---- bytes, allocation, startup ----

#[test]
fn nul_terminated_strings() {
    assert_eq!(bytes_until_nul(b"ab\0cd"), Some(b"ab".to_vec()));
    assert_eq!(bytes_until_nul(b"\0"), Some(Vec::new()));
    assert_eq!(bytes_until_nul(b"abc"), None);
}

#[test]
fn byte_helpers() {
    assert!(bytes_eq(&b"abc".to_vec(), &copy_bytes(&b"abc".to_vec())));
    assert!(!bytes_eq(&b"abc".to_vec(), &b"abd".to_vec()));
    assert!(!bytes_eq(&b"ab".to_vec(), &b"abc".to_vec()));
}

#[test]
fn malloc_alignment_limit() {
    let limit = 2 * std::mem::size_of::<usize>();
    assert!(align_supported(1));
    assert!(align_supported(limit));
    assert!(!align_supported(limit * 2));
}

#[test]
fn unit_main_reports_success() {
    assert_eq!(().report(), 0);
}

#[test]
fn zero_is_forty_two() {
    assert_eq!(zero(), 42);
}

