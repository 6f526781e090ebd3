use slotgate::compiler_artifact_parser::ArtifactFields;
use slotgate::compiler_artifact_parser::CompilerArtifactParser;

fn artifact_line(target_name: &str, is_test_profile: bool, executable: Option<&str>) -> String {
    let executable_json = match executable {
        Some(path) => format!("\"{}\"", path.replace('\\', "\\\\")),
        None => String::from("null"),
    };
    format!(
        "{{\"reason\":\"compiler-artifact\",\"target\":{{\"name\":\"{target_name}\",\"kind\":[\"test\"]}},\"profile\":{{\"test\":{is_test_profile}}},\"executable\":{executable_json}}}"
    )
}

#[test]
fn finds_the_executable_for_a_single_matching_test_artifact() {
    let output = artifact_line("all_tests", true, Some("C:\\target\\all_tests-abc.exe"));
    let found = CompilerArtifactParser::find_executable(&output, Some("all_tests"));
    assert_eq!(found, Some(String::from("C:\\target\\all_tests-abc.exe")));
}

#[test]
fn ignores_non_compiler_artifact_lines() {
    let output = format!(
        "{{\"reason\":\"build-finished\",\"success\":true}}\n{}",
        artifact_line("all_tests", true, Some("C:\\target\\all_tests-abc.exe"))
    );
    let found = CompilerArtifactParser::find_executable(&output, Some("all_tests"));
    assert_eq!(found, Some(String::from("C:\\target\\all_tests-abc.exe")));
}

#[test]
fn ignores_artifacts_with_a_null_executable() {
    let output = format!(
        "{}\n{}",
        artifact_line("some_dependency", true, None),
        artifact_line("all_tests", true, Some("C:\\target\\all_tests-abc.exe"))
    );
    let found = CompilerArtifactParser::find_executable(&output, Some("all_tests"));
    assert_eq!(found, Some(String::from("C:\\target\\all_tests-abc.exe")));
}

#[test]
fn filters_by_target_name_when_multiple_test_artifacts_exist() {
    let output = format!(
        "{}\n{}",
        artifact_line("system_tests", true, Some("C:\\target\\system_tests-aaa.exe")),
        artifact_line("all_tests", true, Some("C:\\target\\all_tests-bbb.exe"))
    );
    let found = CompilerArtifactParser::find_executable(&output, Some("all_tests"));
    assert_eq!(found, Some(String::from("C:\\target\\all_tests-bbb.exe")));
}

#[test]
fn without_a_target_name_filter_returns_the_last_test_profile_executable() {
    let output = format!(
        "{}\n{}",
        artifact_line("system_tests", true, Some("C:\\target\\system_tests-aaa.exe")),
        artifact_line("all_tests", true, Some("C:\\target\\all_tests-bbb.exe"))
    );
    let found = CompilerArtifactParser::find_executable(&output, None);
    assert_eq!(found, Some(String::from("C:\\target\\all_tests-bbb.exe")));
}

#[test]
fn ignores_non_test_profile_artifacts() {
    let output = artifact_line("all_tests", false, Some("C:\\target\\all_tests-abc.exe"));
    let found = CompilerArtifactParser::find_executable(&output, None);
    assert_eq!(found, None);
}

#[test]
fn returns_none_when_nothing_matches() {
    let output = "{\"reason\":\"build-finished\",\"success\":true}";
    let found = CompilerArtifactParser::find_executable(output, Some("all_tests"));
    assert_eq!(found, None);
}

#[test]
fn ignores_malformed_json_lines_without_failing() {
    let output = format!(
        "not valid json\n{}",
        artifact_line("all_tests", true, Some("C:\\target\\all_tests-abc.exe"))
    );
    let found = CompilerArtifactParser::find_executable(&output, Some("all_tests"));
    assert_eq!(found, Some(String::from("C:\\target\\all_tests-abc.exe")));
}

fn fields(reason: &str, test: Option<bool>, target: &str, executable: Option<&str>) -> Option<ArtifactFields> {
    Some(ArtifactFields {
        reason: Some(String::from(reason)),
        profile_test: test,
        target_name: Some(String::from(target)),
        executable: executable.map(String::from),
    })
}

#[test]
fn select_executable_takes_the_last_wanted_record() {
    let records = vec![
        fields("compiler-artifact", Some(true), "a", Some("first")),
        None,
        fields("compiler-artifact", Some(true), "b", Some("second")),
        fields("compiler-artifact", Some(false), "a", Some("not a test")),
        fields("build-script-executed", Some(true), "a", Some("not an artifact")),
        fields("compiler-artifact", Some(true), "a", None),
    ];
    assert_eq!(
        CompilerArtifactParser::select_executable(&records, None),
        Some(String::from("second"))
    );
    assert_eq!(
        CompilerArtifactParser::select_executable(&records, Some("a")),
        Some(String::from("first"))
    );
    assert_eq!(CompilerArtifactParser::select_executable(&records, Some("c")), None);
    assert_eq!(CompilerArtifactParser::select_executable(&Vec::new(), None), None);
}

#[test]
fn find_executable_reads_the_json_of_each_line() {
    let output = "{\"reason\":\"compiler-artifact\",\"profile\":{\"test\":true},\"target\":{\"name\":\"t\"},\"executable\":\"/bin/t\"}\r\n{\"reason\":\"compiler-artifact\",\"profile\":{\"test\":\"yes\"},\"target\":{\"name\":\"t\"},\"executable\":\"/bin/u\"}\n";
    assert_eq!(
        CompilerArtifactParser::find_executable(output, Some("t")),
        Some(String::from("/bin/t"))
    );
}
