use rusoto_core::Region;
use sqstransfer::region::known_region;

#[test]
fn known_regions_are_found() {
    assert_eq!(known_region("us-east-1"), Some(Region::UsEast1));
    assert_eq!(known_region("ap-northeast-1"), Some(Region::ApNortheast1));
    assert_eq!(known_region("eu-west-3"), Some(Region::EuWest3));
    assert_eq!(known_region("cn-northwest-1"), Some(Region::CnNorthwest1));
}

#[test]
fn region_names_ignore_case_and_hyphens() {
    assert_eq!(known_region("US-EAST-1"), Some(Region::UsEast1));
    assert_eq!(known_region("useast1"), Some(Region::UsEast1));
    assert_eq!(known_region("UsEast1"), Some(Region::UsEast1));
}

#[test]
fn unknown_regions_are_not_found() {
    assert_eq!(known_region(""), None);
    assert_eq!(known_region("foo"), None);
    assert_eq!(known_region("us-east-9"), None);
    assert_eq!(known_region(" us-east-1"), None);
    assert_eq!(known_region("us_east_1"), None);
}
