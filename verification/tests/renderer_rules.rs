use takumi_html::api::RenderInput;
use takumi_html::options::LocalAssetMode;
use takumi_html::renderer::{add_search_path_once, is_local_cached_asset_reference, request_options, validate_request};
use takumi_html::path_order::{sorted_order, text_in_order};

#[test]
fn verbatim_windows_paths_are_treated_as_local_cached_assets() {
    assert!(is_local_cached_asset_reference("//?/C:/Users/example/image.png"));
}

#[test]
fn rejects_zero_viewport_dimensions() {
    let error = validate_request(Some(0), Some(20), true, &RenderInput::Inline("<div />".to_string()))
        .expect_err("reject zero width");
    assert!(error.message().contains("viewport width"));
}

#[test]
fn paths_are_taken_in_text_order_keeping_equal_ones_in_place() {
    let keys: Vec<String> = vec!["b".to_string(), "a".to_string(), "b".to_string(), "A".to_string()];
    assert_eq!(sorted_order(&keys), vec![3, 1, 0, 2]);
}

#[test]
fn a_prefix_comes_before_the_longer_path() {
    let keys: Vec<String> = vec!["/fonts/ab.ttf".to_string(), "/fonts/a".to_string(), "/fonts/é.ttf".to_string()];
    assert_eq!(sorted_order(&keys), vec![1, 0, 2]);
    assert!(text_in_order("/fonts/a", "/fonts/ab.ttf"));
    assert!(!text_in_order("/fonts/b", "/fonts/ab.ttf"));
}

#[test]
fn search_paths_are_added_once() {
    let mut paths: Vec<String> = vec!["/a".to_string()];
    add_search_path_once(&mut paths, "/b".to_string());
    add_search_path_once(&mut paths, "/a".to_string());
    add_search_path_once(&mut paths, "/b".to_string());
    assert_eq!(paths, vec!["/a".to_string(), "/b".to_string()]);
}

#[test]
fn render_requests_convert_with_absolute_asset_paths() {
    let defaults = request_options(None, None, None);
    assert!(defaults.load_linked_stylesheets);
    assert!(defaults.normalize_whitespace);
    assert_eq!(defaults.local_asset_mode, Some(LocalAssetMode::AbsolutePath));
    assert!(!defaults.resolve_local_assets);
    assert_eq!(defaults.base_path, None);

    let chosen = request_options(Some(false), Some(false), Some("/site"));
    assert!(!chosen.load_linked_stylesheets);
    assert!(!chosen.normalize_whitespace);
    assert_eq!(chosen.base_path.as_deref(), Some("/site"));
}
