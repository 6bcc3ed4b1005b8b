use cargo_bump::manifest::is_version_assignment;
use cargo_bump::manifest::quoted_value;
use cargo_bump::manifest::replace_quoted;

#[test]
fn recognizes_version_assignment() {
    assert!(is_version_assignment("version = \"1.2.3\""));
    assert!(is_version_assignment("  version= \"1.2.3\""));
    assert!(is_version_assignment("\tversion ="));
    assert!(!is_version_assignment("name = \"demo\""));
    assert!(!is_version_assignment("# version = \"1.2.3\""));
    assert!(!is_version_assignment("versio = \"1.2.3\""));
    assert!(!is_version_assignment(""));
}

#[test]
fn reads_quoted_value() {
    assert!(quoted_value("version = \"1.2.3\"  # pinned") == Some(String::from("1.2.3")));
    assert!(quoted_value("version = \"\"") == Some(String::from("")));
    assert!(quoted_value("version = 3").is_none());
    assert!(quoted_value("version = \"3").is_none());
}

#[test]
fn rewrites_only_the_quoted_value() {
    let line = "version = \"1.2.3\"  # pinned\n";
    assert!(
        replace_quoted(line, "1.2.4") == Some(String::from("version = \"1.2.4\"  # pinned\n"))
    );
    assert!(replace_quoted("version = 3\n", "1.2.4").is_none());
}
