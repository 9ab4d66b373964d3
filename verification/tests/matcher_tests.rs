use elevscan::matcher::manifest_matches;
use elevscan::scan::{has_exe_extension, report_line};

#[test]
fn both_patterns_match() {
    let m = "<assembly><trustInfo><security><requestedExecutionLevel level=\"requireAdministrator\"/></security></trustInfo><autoElevate>true</autoElevate></assembly>";
    assert!(manifest_matches(m));
}

#[test]
fn auto_elevate_alone_does_not_match() {
    assert!(!manifest_matches("<autoElevate>true</autoElevate>"));
}

#[test]
fn require_admin_alone_does_not_match() {
    assert!(!manifest_matches(
        "<requestedExecutionLevel level=\"requireAdministrator\" uiAccess=\"false\"/>"
    ));
}

#[test]
fn as_invoker_does_not_match() {
    let m = "<requestedExecutionLevel level=\"asInvoker\"/><autoElevate>true</autoElevate>";
    assert!(!manifest_matches(m));
}

#[test]
fn auto_elevate_false_does_not_match() {
    let m = "<requestedExecutionLevel level=\"requireAdministrator\"/><autoElevate>false</autoElevate>";
    assert!(!manifest_matches(m));
}

#[test]
fn whitespace_inside_elements_is_tolerated() {
    let m = "<requestedExecutionLevel   level = \"requireAdministrator\" />< autoElevate >  true  < / autoElevate >";
    assert!(manifest_matches(m));
}

#[test]
fn newlines_and_tabs_are_whitespace() {
    let m = "<requestedExecutionLevel\n\tlevel\n=\n\"requireAdministrator\"/><autoElevate>\n\ttrue\n</autoElevate>";
    assert!(manifest_matches(m));
}

#[test]
fn attribute_must_precede_tag_close() {
    // The level attribute sits outside the requestedExecutionLevel tag.
    let m = "<requestedExecutionLevel/><other level=\"requireAdministrator\"/><autoElevate>true</autoElevate>";
    assert!(!manifest_matches(m));
}

#[test]
fn empty_text_does_not_match() {
    assert!(!manifest_matches(""));
}

#[test]
fn exe_extension_is_case_insensitive() {
    assert!(has_exe_extension("tool.exe"));
    assert!(has_exe_extension("TOOL.EXE"));
    assert!(has_exe_extension("setup.eXe"));
    assert!(has_exe_extension("archive.tar.exe"));
}

#[test]
fn other_names_are_not_executables() {
    assert!(!has_exe_extension("tool.txt"));
    assert!(!has_exe_extension("exe"));
    assert!(!has_exe_extension(".exe"));
    assert!(!has_exe_extension("tool.exe.bak"));
    assert!(!has_exe_extension("toolexe"));
    assert!(!has_exe_extension(""));
}

#[test]
fn report_line_format() {
    assert_eq!(report_line("/tmp/a.exe"), "Found EXE: /tmp/a.exe");
}
