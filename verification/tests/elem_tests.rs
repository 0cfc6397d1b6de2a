use htmlr::{AttrMap, Elem};

type Result<T> = core::result::Result<T, Box<dyn std::error::Error>>;

#[test]
fn test_elem_attr_present_and_missing() -> Result<()> {
    // -- Setup & Fixtures
    let mut attrs = AttrMap::new();
    attrs.insert("href".to_string(), "https://example.com".to_string());
    let elem = Elem {
        tag: "a".to_string(),
        attrs: Some(attrs),
        text: None,
        inner_html: None,
    };

    // -- Exec & Check
    assert_eq!(elem.attr("href"), Some("https://example.com"));
    assert_eq!(elem.attr("title"), None);

    Ok(())
}

#[test]
fn test_elem_attr_without_attributes() -> Result<()> {
    // -- Setup & Fixtures
    let elem = Elem {
        tag: "p".to_string(),
        attrs: None,
        text: None,
        inner_html: None,
    };

    // -- Exec & Check
    assert_eq!(elem.attr("class"), None);

    Ok(())
}

#[test]
fn attr_map_insert_then_get_gives_the_value() {
    let mut attrs = AttrMap::new();
    assert!(attrs.is_empty());
    assert_eq!(attrs.insert("id".to_string(), "a".to_string()), None);
    assert_eq!(attrs.insert("class".to_string(), "b".to_string()), None);
    assert_eq!(attrs.insert("id".to_string(), "c".to_string()), Some("a".to_string()));
    assert_eq!(attrs.get("id").map(|s| s.as_str()), Some("c"));
    assert_eq!(attrs.get("class").map(|s| s.as_str()), Some("b"));
    assert_eq!(attrs.get("href"), None);
    assert_eq!(attrs.len(), 2);
}
