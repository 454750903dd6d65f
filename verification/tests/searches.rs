use image_upgrader::search::{extract_search_results, search_query};

fn parsed(text: &str) -> serde_json::Value {
    serde_json::from_str(text).unwrap()
}

#[test]
fn the_query_names_the_image_and_both_versions() {
    assert_eq!(
        search_query("https://ghcr.io/owner/app", "1.0.0", "1.1.0"),
        "Upgrading https://ghcr.io/owner/app from 1.0.0 to 1.1.0 release notes, upgrade notes, breaking changes list issues and problems"
    );
}

#[test]
fn reads_the_collection_and_the_addresses() {
    let v = parsed(r#"{"collection_name": "c1", "filenames": ["https://a", "https://b"]}"#);
    assert_eq!(
        extract_search_results(&v),
        ("c1".to_string(), vec!["https://a".to_string(), "https://b".to_string()])
    );
}

#[test]
fn leaves_out_what_is_no_string() {
    let v = parsed(r#"{"collection_name": 7, "filenames": ["https://a", 3, null, "https://b", {}]}"#);
    assert_eq!(
        extract_search_results(&v),
        (String::new(), vec!["https://a".to_string(), "https://b".to_string()])
    );
}

#[test]
fn an_answer_of_another_shape_gives_nothing() {
    for text in ["{}", "[]", "null", "3", r#"{"filenames": "https://a"}"#, r#"["collection_name"]"#] {
        assert_eq!(extract_search_results(&parsed(text)), (String::new(), Vec::<String>::new()));
    }
    let v = parsed(r#"{"collection_name": "only"}"#);
    assert_eq!(extract_search_results(&v), ("only".to_string(), Vec::<String>::new()));
}
