use beardist::release::PackageType;
use beardist::release::create_release_url;
use beardist::release::release_by_tag_url;
use beardist::release::release_id_of;
use beardist::release::upload_asset_url;

#[test]
fn package_type_names() {
    assert_eq!(PackageType::Generic.name(), "generic");
    assert_eq!(PackageType::Container.name(), "container");
}

#[test]
fn release_lookup_goes_to_the_api_host() {
    assert_eq!(
        release_by_tag_url("https://github.com", "bearcove", "home", "v1.2.3"),
        "https://api.github.com/repos/bearcove/home/releases/tags/v1.2.3"
    );
}

#[test]
fn release_creation_goes_to_the_api_host() {
    assert_eq!(
        create_release_url("https://github.com", "bearcove", "home"),
        "https://api.github.com/repos/bearcove/home/releases"
    );
}

#[test]
fn uploads_go_to_the_upload_host() {
    assert_eq!(
        upload_asset_url("https://github.com", "bearcove", "home", 42, "triple.tar.xz"),
        "https://uploads.github.com/repos/bearcove/home/releases/42/assets?name=triple.tar.xz"
    );
}

#[test]
fn self_hosted_servers_keep_their_host() {
    assert_eq!(
        release_by_tag_url("https://code.example.cloud", "org", "proj", "v1.0.0"),
        "https://code.example.cloud/repos/org/proj/releases/tags/v1.0.0"
    );
}

#[test]
fn release_ids_are_read_from_the_record() {
    let with_id: serde_json::Value = serde_json::from_str(r#"{"id": 7, "tag_name": "v1"}"#).unwrap();
    assert_eq!(release_id_of(&with_id), Some(7));

    let without_id: serde_json::Value = serde_json::from_str(r#"{"tag_name": "v1"}"#).unwrap();
    assert_eq!(release_id_of(&without_id), None);

    let wrong_type: serde_json::Value = serde_json::from_str(r#"{"id": "seven"}"#).unwrap();
    assert_eq!(release_id_of(&wrong_type), None);
}
