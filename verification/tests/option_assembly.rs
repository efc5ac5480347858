use azure_storage_cli::options::{
    metadata_value, property_value, tag_pairs, to_metadata, to_properties, to_tags,
};

fn pairs(items: &[(&str, &str)]) -> Vec<(String, String)> {
    items
        .iter()
        .map(|(k, v)| (k.to_string(), v.to_string()))
        .collect()
}

#[test]
fn tags_keep_all_pairs_in_order() {
    let input = pairs(&[("env", "prod"), ("team", "storage"), ("env", "dev")]);
    let tags = to_tags(input.clone());
    assert_eq!(tag_pairs(tags), input);
}

#[test]
fn empty_tag_list_stays_empty() {
    let tags = to_tags(Vec::new());
    assert_eq!(tag_pairs(tags), Vec::new());
}

#[test]
fn metadata_maps_keys_to_values() {
    let metadata = to_metadata(pairs(&[("owner", "it"), ("purpose", "backup")]));
    assert_eq!(metadata_value(&metadata, "owner"), Some("it".to_string()));
    assert_eq!(metadata_value(&metadata, "purpose"), Some("backup".to_string()));
    assert_eq!(metadata_value(&metadata, "missing"), None);
}

#[test]
fn later_metadata_pair_wins() {
    let metadata = to_metadata(pairs(&[("k", "first"), ("k", "second")]));
    assert_eq!(metadata_value(&metadata, "k"), Some("second".to_string()));
}

#[test]
fn properties_map_keys_to_values() {
    let properties = to_properties(pairs(&[("colour", "blue"), ("size", "42")]));
    assert_eq!(property_value(&properties, "colour"), Some("blue".to_string()));
    assert_eq!(property_value(&properties, "size"), Some("42".to_string()));
    assert_eq!(property_value(&properties, "absent"), None);
}

#[test]
fn later_property_pair_wins() {
    let properties = to_properties(pairs(&[("k", "a"), ("k", "b")]));
    assert_eq!(property_value(&properties, "k"), Some("b".to_string()));
}
