use mcserver_fetch::api::{download, is_latest, is_stable, list_minecraft_versions_all, list_versions};
use mcserver_fetch::parser::{get_latest_versions, get_version, ApiError, Latest, MinecraftVersions, Version};

fn entry(id: &str, kind: &str, url: &str) -> Version {
    Version { id: id.to_owned(), version_type: kind.to_owned(), url: url.to_owned() }
}

fn fixture() -> MinecraftVersions {
    MinecraftVersions {
        latest: Latest { release: "1.21".to_owned(), snapshot: "1.21-pre1".to_owned() },
        versions: vec![
            entry("1.21", "release", "http://fixture/1.21.json"),
            entry("1.21-pre1", "snapshot", "http://fixture/pre1.json"),
        ],
    }
}

fn divider() {
    println!("----------------------------------------------------------");
}

#[test]
fn test() {
    let index = fixture();
    println!("A list of all stable versions of Minecraft: {}", list_minecraft_versions_all(&index, true));
    divider();
    println!("Is 1.21 stable: {:?}", is_stable(&index, "1.21".to_owned()).ok());
    println!("Is 1.20.1 the latest: {}", is_latest(&index, "1.20.1".to_owned(), false));
    divider();
    println!("Attempting to download Minecraft 1.21");
    let found = download(&index, "1.21".to_owned());
    assert!(found.is_ok());
}

#[test]
fn fixture_index_scenario() {
    let index = fixture();
    assert_eq!(list_versions(&index, true), vec!["1.21".to_owned()]);
    assert!(is_latest(&index, "1.21".to_owned(), false));
    assert!(!is_latest(&index, "1.21-pre1".to_owned(), true));
}

#[test]
fn stable_follows_entry_kind() {
    let index = fixture();
    assert!(matches!(is_stable(&index, "1.21".to_owned()), Ok(true)));
    assert!(matches!(is_stable(&index, "1.21-pre1".to_owned()), Ok(false)));
    assert!(matches!(is_stable(&index, "1.20.1".to_owned()), Err(ApiError::NotFound)));
}

#[test]
fn latest_with_and_without_snapshots() {
    let index = fixture();
    assert!(is_latest(&index, "1.21".to_owned(), true));
    assert!(is_latest(&index, "1.21-pre1".to_owned(), false));
    assert!(!is_latest(&index, "1.20.1".to_owned(), false));
    assert!(!is_latest(&index, "1.20.1".to_owned(), true));
}

#[test]
fn listing_all_and_stable() {
    let index = fixture();
    assert_eq!(list_versions(&index, false), vec!["1.21".to_owned(), "1.21-pre1".to_owned()]);
    assert_eq!(list_minecraft_versions_all(&index, false), "1.21, 1.21-pre1, ");
    assert_eq!(list_minecraft_versions_all(&index, true), "1.21, ");
    let empty = MinecraftVersions {
        latest: Latest { release: String::new(), snapshot: String::new() },
        versions: vec![],
    };
    assert_eq!(list_minecraft_versions_all(&empty, false), "");
}

#[test]
fn lookup_of_entries() {
    let index = fixture();
    let v = get_version(&index, "1.21-pre1".to_owned()).unwrap();
    assert_eq!(v.url, "http://fixture/pre1.json");
    assert_eq!(v.version_type, "snapshot");
    assert!(get_version(&index, "1.19".to_owned()).is_none());
    assert!(matches!(download(&index, "1.19".to_owned()), Err(ApiError::NotFound)));
    let latest = get_latest_versions(&index);
    assert_eq!(latest.release, "1.21");
    assert_eq!(latest.snapshot, "1.21-pre1");
}

#[test]
fn duplicate_ids_are_detected() {
    let mut index = fixture();
    assert!(index.has_unique_ids());
    index.versions.push(entry("1.21", "release", "http://fixture/again.json"));
    assert!(!index.has_unique_ids());
}
