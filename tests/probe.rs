use fileforge::probe::{detect_project, has_uncommitted_changes, ProjectProbe};

fn names(list: &[&str]) -> Vec<String> {
    list.iter().map(|s| s.to_string()).collect()
}

#[test]
fn angular_package_is_detected() {
    let pkg = r#"{"dependencies": {"@angular/core": "^17.0.0"}}"#;
    assert_eq!(detect_project(&names(&["src", "package.json"]), Some(pkg)), ProjectProbe::Angular);
}

#[test]
fn package_without_angular_is_not_angular() {
    assert_eq!(detect_project(&names(&["package.json", "Api.csproj"]), Some("{}")), ProjectProbe::NotAngular);
}

#[test]
fn unreadable_package_is_reported() {
    assert_eq!(detect_project(&names(&["package.json"]), None), ProjectProbe::PackageUnreadable);
}

#[test]
fn dotnet_project_or_solution_is_detected() {
    assert_eq!(detect_project(&names(&["Api.csproj"]), None), ProjectProbe::Dotnet);
    assert_eq!(detect_project(&names(&["README.md", "All.sln"]), None), ProjectProbe::Dotnet);
}

#[test]
fn bare_extension_is_not_a_project() {
    assert_eq!(detect_project(&names(&[".csproj", "notes.txt"]), None), ProjectProbe::Unsupported);
    assert_eq!(detect_project(&Vec::new(), None), ProjectProbe::Unsupported);
}

#[test]
fn clean_status_has_no_changes() {
    assert!(!has_uncommitted_changes(""));
    assert!(!has_uncommitted_changes("\n\n"));
}

#[test]
fn status_lines_report_changes() {
    assert!(has_uncommitted_changes(" M src/main.rs\n"));
    assert!(has_uncommitted_changes("?? fileforge.config.json\n"));
    assert!(has_uncommitted_changes("\nA  new.txt"));
}

#[test]
fn single_field_lines_are_not_changes() {
    assert!(!has_uncommitted_changes("word\nother\n"));
}
