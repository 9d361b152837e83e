use plumber::paths::logging_dir_for;
use plumber::paths::metadata_dir_for;
use plumber::paths::parent_dir_of;
use plumber::paths::permission_advice;
use plumber::paths::pid_file_in;
use plumber::paths::pipeline_name_from_path;
use plumber::paths::stderr_log_in;
use plumber::pidstr::format_pid;
use plumber::pidstr::parse_pid;

#[test]
fn derived_directories() {
    assert_eq!(metadata_dir_for("asdf_plumber_test_2"), "/tmp/plumber/lib/asdf_plumber_test_2");
    assert_eq!(logging_dir_for("asdf_plumber_test"), "/tmp/plumber/log/asdf_plumber_test");
}

#[test]
fn pid_record_location() {
    let dir = metadata_dir_for("p");
    assert_eq!(pid_file_in(&dir), "/tmp/plumber/lib/p/.pid");
}

#[test]
fn stage_log_location() {
    assert_eq!(stderr_log_in("/tmp/plumber/log/p", "cat"), "/tmp/plumber/log/p/cat.stderr.log");
}

#[test]
fn parent_directories() {
    assert_eq!(parent_dir_of("/tmp/plumber/lib"), "/tmp/plumber");
    assert_eq!(parent_dir_of("noslash"), "");
}

#[test]
fn permission_advice_names_parent() {
    assert_eq!(
        permission_advice("/tmp/plumber/lib"),
        "plumber requires permission to write in /tmp/plumber"
    );
}

#[test]
fn name_from_file_path() {
    assert_eq!(pipeline_name_from_path("/etc/plumber/mypipe.pipe"), "mypipe");
    assert_eq!(pipeline_name_from_path("plain"), "plain");
    assert_eq!(pipeline_name_from_path("/a/b.c.d"), "b.c");
    assert_eq!(pipeline_name_from_path(".hidden"), ".hidden");
}

#[test]
fn pid_formatting() {
    assert_eq!(format_pid(12345), "12345");
    assert_eq!(format_pid(0), "0");
    assert_eq!(format_pid(u32::MAX), "4294967295");
}

#[test]
fn pid_parsing() {
    assert_eq!(parse_pid("12345"), Some(12345));
    assert_eq!(parse_pid("0"), Some(0));
    assert_eq!(parse_pid("4294967295"), Some(u32::MAX));
    assert_eq!(parse_pid("4294967296"), None);
    assert_eq!(parse_pid(""), None);
    assert_eq!(parse_pid("12a"), None);
    assert_eq!(parse_pid("-5"), None);
}

#[test]
fn pid_round_trip() {
    for pid in [0u32, 1, 9, 10, 99, 1234, u32::MAX] {
        assert_eq!(parse_pid(&format_pid(pid)), Some(pid));
    }
}
