use dkregistry::errors::Error;
use dkregistry::v2::catalog::catalog_url;
use dkregistry::v2::catalog::CatalogChunk;
use dkregistry::v2::pagination::collect_list_pages;
use dkregistry::v2::pagination::interpret_page_status;
use dkregistry::v2::pagination::list_page_url;
use dkregistry::v2::pagination::list_start;
use dkregistry::v2::pagination::next_list_state;
use dkregistry::v2::pagination::parse_link;
use dkregistry::v2::pagination::ListState;
use dkregistry::v2::tags::tags_content_type_ok;
use dkregistry::v2::tags::tags_url;
use dkregistry::v2::tags::TagsChunk;

#[test]
fn catalog_pagination_follows_link_cursor() {
    let base = catalog_url("http://registry.example");
    assert_eq!(base, "http://registry.example/v2/_catalog");

    // First page: requested with the page size only.
    let state = list_start();
    let cursor = match &state {
        ListState::Fetch(c) => c.as_ref(),
        ListState::Done => panic!("fresh stream must fetch"),
    };
    let url1 = list_page_url(base.as_str(), Some(1), cursor);
    assert_eq!(url1, "http://registry.example/v2/_catalog?n=1");

    // Page 1 answers with a rel="next" link carrying the cursor.
    let page1 = CatalogChunk {
        repositories: vec!["r1/i1".to_string()],
    };
    let link = r#"</v2/_catalog?n=1&next_page=r1/i1>; rel="next""#;
    let state = next_list_state(Some(link));
    let cursor = match &state {
        ListState::Fetch(c) => c.clone(),
        ListState::Done => panic!("link header must continue the stream"),
    };
    assert_eq!(cursor.as_deref(), Some("r1/i1"));
    let url2 = list_page_url(base.as_str(), Some(1), cursor.as_ref());
    assert_eq!(url2, "http://registry.example/v2/_catalog?n=1&next_page=r1/i1");

    // Page 2 has no Link header: the stream ends.
    let page2 = CatalogChunk {
        repositories: vec!["r2".to_string()],
    };
    assert!(matches!(next_list_state(None), ListState::Done));

    let pages = vec![page1.repositories, page2.repositories];
    let all = collect_list_pages(&pages);
    assert_eq!(all, vec!["r1/i1".to_string(), "r2".to_string()]);
}

#[test]
fn tag_list_single_page() {
    let url = tags_url("http://registry.example", "repo");
    assert_eq!(url, "http://registry.example/v2/repo/tags/list");

    assert!(tags_content_type_ok(Some("application/json")));
    assert!(tags_content_type_ok(Some("application/json; charset=utf-8")));
    assert!(!tags_content_type_ok(Some("text/html")));
    assert!(!tags_content_type_ok(None));

    let chunk = TagsChunk {
        name: "repo".to_string(),
        tags: vec!["t1".to_string(), "t2".to_string()],
    };
    assert!(matches!(next_list_state(None), ListState::Done));
    let all = collect_list_pages(&vec![chunk.tags]);
    assert_eq!(all, vec!["t1".to_string(), "t2".to_string()]);
}

#[test]
fn tags_pagination_urls() {
    let base = tags_url("http://registry.example", "repo");
    assert_eq!(
        list_page_url(base.as_str(), Some(21), None),
        "http://registry.example/v2/repo/tags/list?n=21"
    );
    let cursor = "t1".to_string();
    assert_eq!(
        list_page_url(base.as_str(), None, Some(&cursor)),
        "http://registry.example/v2/repo/tags/list?next_page=t1"
    );
    assert_eq!(
        list_page_url(base.as_str(), Some(7), Some(&cursor)),
        "http://registry.example/v2/repo/tags/list?n=7&next_page=t1"
    );
    assert_eq!(list_page_url(base.as_str(), None, None), base);
}

#[test]
fn link_cursor_extraction() {
    assert_eq!(
        parse_link(Some(r#"<https://h/v2/_catalog?n=3&next_page=abc>; rel="next""#)),
        Some("abc".to_string())
    );
    assert_eq!(
        parse_link(Some(r#"<https://h/v2/_catalog?next_page=abc&last=x>; rel="next""#)),
        Some("abc".to_string())
    );
    assert_eq!(parse_link(Some(r#"<https://h/v2/_catalog?n=3>; rel="next""#)), None);
    assert_eq!(
        parse_link(Some(r#"<https://h/v2/_catalog?next_page=>; rel="next""#)),
        None
    );
    assert_eq!(parse_link(None), None);
    // Repeated trailing literals are all trimmed.
    assert_eq!(
        parse_link(Some("<u?next_page=a>; rel=\"next\">; rel=\"next\"")),
        Some("a".to_string())
    );
}

#[test]
fn page_status_interpretation() {
    assert!(interpret_page_status(200).is_ok());
    assert!(matches!(
        interpret_page_status(404),
        Err(Error::UnexpectedHttpStatus(404))
    ));
}

#[test]
fn listing_preserves_order_across_pages() {
    let pages: Vec<Vec<String>> = vec![
        vec!["a".into(), "b".into()],
        vec![],
        vec!["c".into()],
        vec!["d".into(), "e".into(), "f".into()],
    ];
    let all = collect_list_pages(&pages);
    let want: Vec<String> = ["a", "b", "c", "d", "e", "f"]
        .iter()
        .map(|s| s.to_string())
        .collect();
    assert_eq!(all, want);
}
