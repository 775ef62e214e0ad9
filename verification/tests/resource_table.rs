use openkite::resource_table::{row_search_text, visible_window, OVERSCAN};

#[test]
fn window_is_bounded_and_overscanned() {
    // 600px viewport of 36px rows: 17 rows + 1 partially visible.
    assert_eq!(visible_window(0, 18, 10_000), (0, 18 + OVERSCAN));
    // Scrolled 360px: row 10 is first visible.
    let (start, end) = visible_window(10, 18, 1000);
    assert_eq!(start, 10 - OVERSCAN);
    assert_eq!(end, 10 + 18 + OVERSCAN);
    assert_eq!(visible_window(3, 18, 1000).0, 0);
    assert_eq!(visible_window(0, 18, 5), (0, 5));
    assert_eq!(visible_window(990, 18, 1000), (990 - OVERSCAN, 1000));
}

#[test]
fn search_text_includes_namespace_and_cells() {
    let haystack = row_search_text(Some("default"), &vec!["nginx".to_string(), "Running".to_string()]);
    assert_eq!(haystack, "default nginx Running ");
    assert!(haystack.contains("default"));
    assert!(haystack.contains("nginx"));
    assert!(haystack.contains("Running"));
    assert_eq!(row_search_text(None, &vec!["node-1".to_string()]), "node-1 ");
    assert_eq!(row_search_text(None, &vec![]), "");
}
