use mcserver_fetch::download::Library as Target;
use mcserver_fetch::parser::{
    is_applicable, path_stays_inside, resolve, sanitize_version_id, ApiError, Library, Rule, Version,
    VersionData,
};

fn lib(path: &str, os: Option<Option<&str>>) -> Library {
    Library {
        name: format!("lib:{}", path),
        path: path.to_owned(),
        url: format!("https://libraries.example/{}", path),
        rules: os.map(|o| vec![Rule { action: "allow".to_owned(), os: o.map(|s| s.to_owned()) }]),
    }
}

fn data(libraries: Vec<Library>) -> VersionData {
    VersionData { server_url: "https://server.example/server.jar".to_owned(), java_major: 21, libraries }
}

fn paths(targets: &[Target]) -> Vec<String> {
    targets.iter().map(|t| t.path.clone()).collect()
}

#[test]
fn no_rules_always_applicable() {
    for p in ["linux", "windows", "osx", "macos", ""] {
        assert!(is_applicable(&None, p));
        assert!(is_applicable(&Some(vec![]), p));
    }
}

#[test]
fn osx_rule_matches_macos_alias() {
    let rules = Some(vec![Rule { action: "allow".to_owned(), os: Some("osx".to_owned()) }]);
    assert!(is_applicable(&rules, "macos"));
    assert!(is_applicable(&rules, "osx"));
    assert!(!is_applicable(&rules, "linux"));
    assert!(!is_applicable(&rules, "windows"));
}

#[test]
fn evaluation_is_repeatable() {
    let rules = Some(vec![Rule { action: "allow".to_owned(), os: Some("linux".to_owned()) }]);
    let first = is_applicable(&rules, "linux");
    let second = is_applicable(&rules, "linux");
    assert_eq!(first, second);
    assert!(first);
}

#[test]
fn only_first_rule_counts() {
    let rules = Some(vec![
        Rule { action: "allow".to_owned(), os: Some("windows".to_owned()) },
        Rule { action: "allow".to_owned(), os: Some("linux".to_owned()) },
    ]);
    assert!(!is_applicable(&rules, "linux"));
    let any_os = Some(vec![
        Rule { action: "allow".to_owned(), os: None },
        Rule { action: "allow".to_owned(), os: Some("windows".to_owned()) },
    ]);
    assert!(is_applicable(&any_os, "linux"));
}

#[test]
fn should_apply_aliases_current_platform_only() {
    assert!(Version::should_apply("osx", "macos"));
    assert!(!Version::should_apply("macos", "macos"));
    assert!(Version::should_apply("linux", "linux"));
    assert!(!Version::should_apply("Linux", "linux"));
}

#[test]
fn sanitized_ids() {
    assert_eq!(sanitize_version_id("1.20.1"), "1_20_1");
    assert_eq!(sanitize_version_id("1.21-pre1"), "1_21-pre1");
    assert_eq!(sanitize_version_id(""), "");
}

#[test]
fn contained_paths() {
    assert!(path_stays_inside("com/example/a.jar"));
    assert!(path_stays_inside("a/..b/c.jar"));
    assert!(path_stays_inside("a/b.."));
    assert!(!path_stays_inside(""));
    assert!(!path_stays_inside("/etc/passwd"));
    assert!(!path_stays_inside("../x.jar"));
    assert!(!path_stays_inside("a/../../x.jar"));
    assert!(!path_stays_inside("a/.."));
    assert!(!path_stays_inside(".."));
}

#[test]
fn unconditional_libraries_plus_server() {
    let d = data(vec![lib("a/one.jar", None), lib("b/two.jar", None), lib("c/three.jar", None)]);
    let server = resolve("1.21", &d, "linux").ok().unwrap();
    assert_eq!(server.targets().len(), 4);
}

#[test]
fn descriptor_with_windows_only_library() {
    let d = data(vec![lib("com/common.jar", None), lib("com/natives-windows.jar", Some(Some("windows")))]);
    let server = resolve("1.21", &d, "linux").ok().unwrap();
    let targets = server.targets();
    assert_eq!(targets.len(), 2);
    assert_eq!(paths(&targets), vec!["download/1_21/server.jar".to_owned(), "download/libraries/com/common.jar".to_owned()]);
    assert_eq!(targets[0].url, "https://server.example/server.jar");
    assert_eq!(targets[1].url, "https://libraries.example/com/common.jar");
}

#[test]
fn plan_layout_through_version() {
    let v = Version { id: "1.20.1".to_owned(), version_type: "release".to_owned(), url: String::new() };
    let d = data(vec![lib("org/x.jar", Some(None))]);
    let server = v.download_server(&d, "osx").ok().unwrap();
    assert_eq!(server.path, "download/1_20_1");
    assert_eq!(server.url, "https://server.example/server.jar");
    assert_eq!(server.libraries.libraries.len(), 1);
    assert_eq!(server.libraries.libraries[0].path, "download/libraries/org/x.jar");
}

#[test]
fn escaping_path_is_refused() {
    let d = data(vec![lib("ok.jar", None), lib("../../evil.jar", None)]);
    assert!(matches!(resolve("1.21", &d, "linux"), Err(ApiError::UnsafePath)));
}

#[test]
fn escaping_path_of_skipped_library_is_ignored() {
    let d = data(vec![lib("ok.jar", None), lib("../evil.jar", Some(Some("windows")))]);
    let server = resolve("1.21", &d, "linux").ok().unwrap();
    assert_eq!(server.targets().len(), 2);
}
