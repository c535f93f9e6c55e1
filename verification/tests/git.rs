use hybrid_version::error::VersionError;
use hybrid_version::git::blame_commit_from_output;
use hybrid_version::git::blame_line_range;
use hybrid_version::git::branch_from_output;
use hybrid_version::git::commit_count_from_output;
use hybrid_version::git::commit_timestamp_from_output;
use hybrid_version::git::git_output;
use hybrid_version::git::is_bare_output;
use hybrid_version::git::modified_lines_checked;
use hybrid_version::git::modified_lines_from_output;
use hybrid_version::git::numstat_checked_total;
use hybrid_version::git::parse_numstat;
use hybrid_version::git::parse_tz_offset;
use hybrid_version::git::revision_range;
use hybrid_version::git::show_failure;
use hybrid_version::git::spawn_failure;
use hybrid_version::git::GitRepo;

// ---- parse_tz_offset ----

#[test]
fn test_parse_tz_offset_positive() {
    assert_eq!(parse_tz_offset("+0800"), 480);
}

#[test]
fn test_parse_tz_offset_negative() {
    assert_eq!(parse_tz_offset("-0500"), -300);
}

#[test]
fn test_parse_tz_offset_zero() {
    assert_eq!(parse_tz_offset("+0000"), 0);
}

#[test]
fn test_parse_tz_offset_empty() {
    assert_eq!(parse_tz_offset(""), 0);
}

#[test]
fn test_parse_tz_offset_short() {
    assert_eq!(parse_tz_offset("+00"), 0);
}

#[test]
fn parse_tz_offset_trims_and_reads_half_hours() {
    assert_eq!(parse_tz_offset("  +0530 \n"), 330);
    assert_eq!(parse_tz_offset("-0930"), -570);
}

#[test]
fn parse_tz_offset_needs_a_sign() {
    assert_eq!(parse_tz_offset("0800"), 0);
}

#[test]
fn parse_tz_offset_invalid_forms_give_zero() {
    assert_eq!(parse_tz_offset("+08x0"), 0);
    assert_eq!(parse_tz_offset("+é12"), 0);
    assert_eq!(parse_tz_offset("+0é00"), 0);
    assert_eq!(parse_tz_offset("+-500"), 0);
    assert_eq!(parse_tz_offset("+-5-3"), 0);
    assert_eq!(parse_tz_offset("*0800"), 0);
}

#[test]
fn parse_tz_offset_reads_only_the_first_four_digits() {
    assert_eq!(parse_tz_offset("+08001"), 480);
    assert_eq!(parse_tz_offset("-9959"), -5999);
    assert_eq!(parse_tz_offset("+9999"), 6039);
}

// ---- parse_numstat ----

#[test]
fn test_parse_numstat_normal() {
    let input = "3\t2\tfile.rs\n1\t0\tother.rs";
    assert_eq!(parse_numstat(input), 6);
}

#[test]
fn test_parse_numstat_binary() {
    let input = "-\t-\tbinary.png\n1\t1\tfile.rs";
    assert_eq!(parse_numstat(input), 2);
}

#[test]
fn test_parse_numstat_empty() {
    assert_eq!(parse_numstat(""), 0);
}

#[test]
fn parse_numstat_crlf_and_trailing_newline() {
    assert_eq!(parse_numstat("10\t5\tsrc/a.rs\r\n3\t0\tb\n"), 18);
}

#[test]
fn parse_numstat_skips_unreadable_lines() {
    assert_eq!(parse_numstat("garbage\n2\tx\tf\n4\t4\tg"), 8);
    assert_eq!(parse_numstat("1\t2"), 3);
}

// ---- the repository and command outputs ----

#[test]
fn git_repo_keeps_its_work_dir() {
    let repo = GitRepo::from_toplevel("/home/me/project".to_string());
    assert_eq!(repo.work_dir(), "/home/me/project");
}

#[test]
fn is_bare_output_reads_true() {
    assert!(is_bare_output("true"));
    assert!(!is_bare_output("false"));
    assert!(!is_bare_output("true "));
}

#[test]
fn branch_from_output_detached_and_failed() {
    assert_eq!(branch_from_output(Some("main".to_string())), Some("main".to_string()));
    assert_eq!(branch_from_output(Some("HEAD".to_string())), None);
    assert_eq!(branch_from_output(Some("HEAD detached at 57181d0".to_string())), None);
    assert_eq!(branch_from_output(None), None);
    assert_eq!(branch_from_output(Some("HEADS".to_string())), Some("HEADS".to_string()));
}

#[test]
fn commit_timestamp_from_output_reads_i64() {
    assert!(matches!(commit_timestamp_from_output("1689747042"), Ok(1_689_747_042)));
    assert!(matches!(commit_timestamp_from_output("-5"), Ok(-5)));
    let r = commit_timestamp_from_output("not a number");
    assert!(matches!(r, Err(VersionError::ParseInt(_))));
}

#[test]
fn checked_totals() {
    assert_eq!(numstat_checked_total("3\t2\tf\n"), Some(5));
    let huge = format!("{}\t1\tf", usize::MAX);
    assert_eq!(numstat_checked_total(&huge), None);
    assert_eq!(modified_lines_checked("1\t1\ta", "2\t2\tb"), Some(6));
    assert_eq!(modified_lines_checked(&format!("{}\t0\ta", usize::MAX), "1\t0\tb"), None);
}

#[test]
fn modified_lines_adds_staged_and_unstaged() {
    assert_eq!(modified_lines_from_output("3\t2\ta\n", "-\t-\tb\n7\t1\tc"), 13);
}

#[test]
fn blame_commit_is_first_word() {
    let out = "a94a8fe5ccb19ba61c4c0873d391e987982fbbd3 1 1 1\nauthor Someone\n";
    let hash = blame_commit_from_output(out).unwrap();
    assert_eq!(hash, "a94a8fe5ccb19ba61c4c0873d391e987982fbbd3");
}

#[test]
fn blame_commit_of_empty_output_is_an_error() {
    let r = blame_commit_from_output("");
    assert!(matches!(r, Err(VersionError::GitCommand(ref m)) if m == "blame output empty"));
    let r = blame_commit_from_output("   \nabc");
    assert!(matches!(r, Err(VersionError::GitCommand(ref m)) if m == "blame output empty"));
}

#[test]
fn blame_range_and_revision_range() {
    assert_eq!(blame_line_range(7), "7,7");
    assert_eq!(blame_line_range(120), "120,120");
    assert_eq!(revision_range("abc123"), "abc123..HEAD");
}

#[test]
fn commit_count_reads_usize() {
    assert!(matches!(commit_count_from_output("42"), Ok(42)));
    assert!(matches!(commit_count_from_output("-1"), Err(VersionError::ParseInt(_))));
}

#[test]
fn show_failure_message() {
    let err = show_failure("HEAD:Cargo.toml", "fatal: bad object");
    assert!(matches!(err, VersionError::GitCommand(ref m) if m == "git show HEAD:Cargo.toml: fatal: bad object"));
}

#[test]
fn git_output_trims_and_reports() {
    let r = git_output(true, b"hello world \n".to_vec(), "");
    assert!(matches!(r, Ok(ref s) if s == "hello world"));
    let r = git_output(false, Vec::new(), "  fatal: not a git repository \n");
    assert!(matches!(r, Err(VersionError::GitCommand(ref m)) if m == "fatal: not a git repository"));
    let r = git_output(true, vec![0xff, 0xfe], "");
    assert!(matches!(r, Err(VersionError::Utf8(_))));
}

#[test]
fn spawn_failure_names_missing_git() {
    let e = std::io::Error::new(std::io::ErrorKind::NotFound, "no such file");
    let not_found = e.kind() == std::io::ErrorKind::NotFound;
    let err = spawn_failure(e, not_found);
    assert!(matches!(err, VersionError::GitCommand(ref m) if m == "git command not found: ensure git is installed and on PATH"));
    let e = std::io::Error::new(std::io::ErrorKind::PermissionDenied, "denied");
    let not_found = e.kind() == std::io::ErrorKind::NotFound;
    assert!(matches!(spawn_failure(e, not_found), VersionError::Io(ref k) if k.kind() == std::io::ErrorKind::PermissionDenied));
}

#[test]
fn numstat_total_adds_over_joined_outputs() {
    let a = "1\t2\ta.rs\n-\t-\tlogo.png";
    let b = "3\t4\tb.rs\n";
    assert_eq!(parse_numstat(&format!("{a}\n{b}")), parse_numstat(a) + parse_numstat(b));
    assert_eq!(parse_numstat(&format!("{a}\n{b}")), 10);
    assert_eq!(parse_numstat(&format!("\n{b}")), parse_numstat(b));
}
