use unreal_asset::game_mod::SelectedVersion;
use unreal_asset::version::Version;

#[test]
fn unwrap_yields_the_selected_version() {
    let version = Version::new(1, 2, 3);
    assert_eq!(SelectedVersion::Latest(version).unwrap(), version);
    assert_eq!(SelectedVersion::LatestIndirect(Some(version)).unwrap(), version);
    assert_eq!(SelectedVersion::Specific(version).unwrap(), version);
}

#[test]
fn only_a_specific_version_is_pinned() {
    let version = Version::new(0, 1, 0);
    assert!(SelectedVersion::Latest(version).is_latest());
    assert!(SelectedVersion::LatestIndirect(None).is_latest());
    assert!(SelectedVersion::LatestIndirect(Some(version)).is_latest());
    assert!(!SelectedVersion::Specific(version).is_latest());
}

#[test]
fn versions_are_ordered_by_their_numbers() {
    assert!(Version::new(1, 9, 9) < Version::new(2, 0, 0));
    assert!(Version::new(1, 2, 3) < Version::new(1, 3, 0));
    assert!(Version::new(1, 2, 3) < Version::new(1, 2, 4));
    assert_eq!(Version::new(1, 2, 3), Version::new(1, 2, 3));
}
