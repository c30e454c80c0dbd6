use imposter::default_catalog;

#[test]
fn default_catalog_lists_categories_in_order() {
    let catalog = default_catalog();
    assert_eq!(catalog.categories(), vec!["Animals".to_string(), "Countries".to_string(), "Foods".to_string()]);
    assert!(catalog.contains_category("Countries"));
    assert!(!catalog.contains_category("countries"));
}

#[test]
fn topics_are_found_by_category_and_id() {
    let catalog = default_catalog();
    let animals = catalog.topics_in_category("Animals").expect("animals");
    assert_eq!(animals.len(), 4);
    assert_eq!(animals[0].id, "animals-red-panda");
    assert!(catalog.topics_in_category("Wildlands").is_none());
    let topic = catalog.topic_by_id("countries-egypt").expect("egypt");
    assert_eq!(topic.title, "Egypt");
    assert!(catalog.topic_by_id("nope").is_none());
}
