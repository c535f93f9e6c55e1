use hybrid_version::compiler::BuildModel;
use hybrid_version::compiler::CompilerEnv;
use hybrid_version::error::VersionError;
use hybrid_version::ts::DateTime;
use hybrid_version::version::env_file_contents;
use hybrid_version::version::env_file_name;
use hybrid_version::version::locate_version;
use hybrid_version::version::parse_version_line;
use hybrid_version::version::refuse_bare;
use hybrid_version::version::version_not_found;
use hybrid_version::version::resolve_patch;
use hybrid_version::version::next_search_step;
use hybrid_version::version::SearchStep;
use hybrid_version::version::Version;

// --- parse_version_line tests ---

#[test]
fn test_parse_version_line_standard() {
    assert_eq!(parse_version_line(r#"version = "1.2.3""#), Some((1, 2, 3)));
}

#[test]
fn test_parse_version_line_spaced() {
    assert_eq!(parse_version_line(r#"version="4.5.6""#), Some((4, 5, 6)));
}

#[test]
fn test_parse_version_line_spaces_around_equals() {
    assert_eq!(
        parse_version_line(r#"version   =   "7.8.9""#),
        Some((7, 8, 9))
    );
}

#[test]
fn test_parse_version_line_leading_whitespace() {
    assert_eq!(
        parse_version_line(r#"  version = "1.0.0""#),
        Some((1, 0, 0))
    );
}

#[test]
fn test_parse_version_line_no_match() {
    assert_eq!(parse_version_line(r#"name = "my-crate""#), None);
}

#[test]
fn test_parse_version_line_too_few_parts() {
    assert_eq!(parse_version_line(r#"version = "1.2""#), None);
}

#[test]
fn test_parse_version_line_non_numeric() {
    assert_eq!(parse_version_line(r#"version = "a.b.c""#), None);
}

#[test]
fn test_parse_version_line_empty() {
    assert_eq!(parse_version_line(""), None);
}

#[test]
fn parse_version_line_edge_cases() {
    assert_eq!(parse_version_line("version = 1.2.3"), Some((1, 2, 3)));
    assert_eq!(parse_version_line(r#"version = "1.2.3.4""#), None);
    assert_eq!(parse_version_line(r#"version = "1.2.3-beta""#), None);
    assert_eq!(parse_version_line(r#"version = "4294967295.0.1""#), Some((u32::MAX, 0, 1)));
    assert_eq!(parse_version_line(r#"version = "4294967296.0.1""#), None);
    assert_eq!(parse_version_line(r#"versions = "1.2.3""#), Some((1, 2, 3)));
    assert_eq!(parse_version_line("version \"1.2.3\""), None);
}

// --- locating the version line ---

#[test]
fn locate_version_finds_first_version_line() {
    let blob = b"[package]\r\nname = \"demo\"\nversion = \"0.5.0\"\nversion = \"9.9.9\"\n";
    let r = locate_version(blob);
    assert!(matches!(r, Ok((3, (0, 5, 0)))));
}

#[test]
fn locate_version_reports_missing_line() {
    let r = locate_version(b"[package]\nname = \"demo\"\n");
    assert!(matches!(r, Err(VersionError::Message(ref m)) if m == "Not found"));
    let r = locate_version(b"");
    assert!(matches!(r, Err(VersionError::Message(ref m)) if m == "Not found"));
}

#[test]
fn locate_version_stops_at_invalid_utf8() {
    let r = locate_version(b"name = \"\xff\"\nversion = \"1.0.0\"\n");
    assert!(matches!(r, Err(VersionError::Io(_))));
    let r = locate_version(b"version = \"1.0.0\"\nname = \"\xff\"\n");
    assert!(matches!(r, Ok((1, (1, 0, 0)))));
}

#[test]
fn resolve_patch_counts_commits_when_zero() {
    assert_eq!(resolve_patch(0, 17), 17);
    assert_eq!(resolve_patch(3, 17), 3);
    assert_eq!(resolve_patch(0, 0), 0);
    assert_eq!(resolve_patch(0, usize::MAX), u32::MAX);
}

// --- the version and what is rendered of it ---

fn sample(build_id: Option<&str>, modified: usize) -> Version {
    Version::assemble(
        (0, 5, 3),
        build_id.map(|s| s.to_string()),
        Some("dev".to_string()),
        "57181d0".to_string(),
        DateTime::timestamp_to_local(1_690_956_308, 480),
        modified,
        DateTime::timestamp_to_local(1_690_956_609, 480),
    )
}

fn sample_compiler() -> CompilerEnv {
    CompilerEnv::from_tool_output(
        BuildModel::Debug,
        Some("stable-x86_64-unknown-linux-gnu".to_string()),
        "rustc 1.71.0",
        "cargo 1.71.0",
    )
}

#[test]
fn getters_return_what_was_assembled() {
    let v = sample(Some("beta1"), 12);
    assert_eq!(v.major(), 0);
    assert_eq!(v.minor(), 5);
    assert_eq!(v.patch(), 3);
    assert_eq!(v.build_id(), Some("beta1"));
    assert_eq!(v.branch(), "dev");
    assert_eq!(v.commit(), "57181d0");
    assert_eq!(v.modified(), 12);
    assert_eq!(*v.commit_ts(), DateTime::timestamp_to_local(1_690_956_308, 0));
    assert_ne!(*v.commit_ts(), DateTime::timestamp_to_utc(1_690_956_308));
    assert!(matches!(v.commit_ts(), DateTime::Local(_)));
    assert_eq!(*v.build_ts(), DateTime::timestamp_to_local(1_690_956_609, 0));
}

#[test]
fn detached_head_gives_empty_branch() {
    let v = Version::assemble(
        (1, 0, 0),
        None,
        None,
        "abc".to_string(),
        DateTime::timestamp_to_utc(0),
        0,
        DateTime::timestamp_to_utc(0),
    );
    assert_eq!(v.branch(), "");
    assert_eq!(v.build_id(), None);
}

#[test]
fn version_string_suffixes() {
    assert_eq!(sample(Some("beta1"), 12).version_string(true), "0.5.3.beta1-D/M12");
    assert_eq!(sample(None, 12).version_string(false), "0.5.3-M12");
    assert_eq!(sample(None, 0).version_string(true), "0.5.3-D");
    assert_eq!(sample(None, 0).version_string(false), "0.5.3");
}

#[test]
fn fingerprints() {
    let v = sample(None, 0);
    assert_eq!(
        v.sources_fingerprint(true),
        "v0.5.3-D dev-57181d0 2023-08-02T14:05:08+08:00"
    );
    assert_eq!(
        v.build_fingerprint(&sample_compiler()),
        "2023-08-02T14:10:09+08:00 debug [stable-x86_64-unknown-linux-gnu, rustc 1.71.0, cargo 1.71.0]"
    );
}

#[test]
fn version_file_holds_all_constants() {
    let v = sample(Some("beta1"), 12);
    let text = v.version_file(true, &sample_compiler());
    let expected = "#[allow(dead_code)]\n\n\
pub const VERSION: &str = \"0.5.3.beta1-D/M12\";\n\
pub const VERSION_MAJOR: u32 = 0;\n\
pub const VERSION_MINOR: u32 = 5;\n\
pub const VERSION_PATCH: u32 = 3;\n\
pub const BUILD_ID: &str = \"beta1\";\n\
pub const SOURCES_FINGERPRINT: &str = \"v0.5.3.beta1-D/M12 dev-57181d0 2023-08-02T14:05:08+08:00\";\n\
pub const BUILD_FINGERPRINT: &str = \"2023-08-02T14:10:09+08:00 debug [stable-x86_64-unknown-linux-gnu, rustc 1.71.0, cargo 1.71.0]\";\n";
    assert_eq!(text, expected);
    let without_id = sample(None, 0).version_file(false, &CompilerEnv::default());
    assert!(without_id.contains("pub const VERSION: &str = \"0.5.3\";"));
    assert!(!without_id.contains("BUILD_ID"));
    assert!(without_id.contains("pub const BUILD_FINGERPRINT: &str = \"2023-08-02T14:10:09+08:00 unknown [-, -, -]\";"));
}

#[test]
fn buildlog_row_format() {
    let v = sample(None, 3);
    let row = v.buildlog_row(false, &sample_compiler());
    assert_eq!(
        row,
        "| 2023-08-02T14:10:09+08:00 | debug | v0.5.3-M3 | dev-57181d0 | 2023-08-02T14:05:08+08:00 | stable-x86_64-unknown-linux-gnu | rustc 1.71.0 | cargo 1.71.0|\n"
    );
    assert!(row.trim_start().starts_with('|'));
}

#[test]
fn release_is_blocked_only_with_modifications() {
    assert!(sample(None, 1).release_blocked(false));
    assert!(!sample(None, 1).release_blocked(true));
    assert!(!sample(None, 0).release_blocked(false));
}

#[test]
fn version_debug_format_names_fields() {
    let debug = format!("{:?}", sample(None, 0));
    assert!(debug.contains("Version"));
    assert!(debug.contains("major"));
    assert!(debug.contains("branch"));
}

#[test]
fn version_debug_text_lists_fields_with_build_id_last() {
    assert_eq!(
        sample(Some("beta1"), 12).debug_text(),
        "Version { major: 0, minor: 5, patch: 3, branch: \"dev\", commit: \"57181d0\", \
         commit_ts: \"2023-08-02 14:05:08 +08:00\", modified: 12, \
         build_ts: \"2023-08-02 14:10:09 +08:00\", build_id: \"beta1\" }"
    );
    assert_eq!(
        sample(None, 0).debug_text(),
        "Version { major: 0, minor: 5, patch: 3, branch: \"dev\", commit: \"57181d0\", \
         commit_ts: \"2023-08-02 14:05:08 +08:00\", modified: 0, \
         build_ts: \"2023-08-02 14:10:09 +08:00\" }"
    );
}

// --- exporting to an environment file ---

#[test]
fn env_file_name_is_hidden_per_variable() {
    assert_eq!(env_file_name("EXAMPLE_VERSION"), ".EXAMPLE_VERSION.env");
}

#[test]
fn env_file_contents_new_file() {
    assert_eq!(env_file_contents(None, "V", "1.2.3-D"), "export V=1.2.3-D");
}

#[test]
fn env_file_contents_replaces_existing_export() {
    let prev = "export A=1\nexport V=0.0.1\nexport B=2\n";
    assert_eq!(
        env_file_contents(Some(prev), "V", "1.2.3"),
        "export A=1\nexport V=1.2.3\nexport B=2"
    );
}

#[test]
fn env_file_contents_appends_when_absent() {
    assert_eq!(
        env_file_contents(Some("export A=1"), "V", "9"),
        "export A=1\nexport V=9"
    );
    assert_eq!(env_file_contents(Some(""), "V", "9"), "export V=9");
    assert_eq!(env_file_contents(Some("\n"), "V", "9"), "export V=9");
    assert_eq!(
        env_file_contents(Some("a\r\n\r\nb"), "V", "9"),
        "a\n\nb\nexport V=9"
    );
}

#[test]
fn bare_repository_is_refused() {
    assert!(refuse_bare(false).is_ok());
    let r = refuse_bare(true);
    assert!(matches!(r, Err(VersionError::Message(ref m)) if m == "cannot report status on bare repository"));
    assert!(matches!(version_not_found(), VersionError::Message(ref m) if m == "Not Found"));
}

#[test]
fn env_export_replaces_every_assignment() {
    let prev = "export V=1\r\n# note\nexport V=2\nexport VV=3";
    let out = env_file_contents(Some(prev), "V", "7");
    assert_eq!(out, "export V=7\n# note\nexport V=7\nexport VV=3");
    for line in out.split('\n') {
        if line.starts_with("export V=") {
            assert_eq!(line, "export V=7");
        }
    }
}

#[test]
fn version_line_reads_back_with_blanks() {
    assert_eq!(parse_version_line("\t version\t=  \"10.0.42\" \t"), Some((10, 0, 42)));
    assert_eq!(parse_version_line("version=\"0.5.3\""), Some((0, 5, 3)));
    assert_eq!(
        parse_version_line(&format!("  version =\t\"{}.{}.{}\"", u32::MAX, 1, 2)),
        Some((u32::MAX, 1, 2))
    );
}

#[test]
fn search_steps_go_up_to_the_root() {
    assert!(matches!(next_search_step(2, None), SearchStep::Try(1)));
    assert!(matches!(next_search_step(1, None), SearchStep::Try(0)));
    assert!(matches!(next_search_step(0, None), SearchStep::NotFound));
    assert!(matches!(next_search_step(3, Some((1, 2, 3))), SearchStep::Found((1, 2, 3))));
    assert!(matches!(next_search_step(0, Some((0, 1, 0))), SearchStep::Found((0, 1, 0))));
}
