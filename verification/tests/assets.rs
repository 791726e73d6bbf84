use gear_editor::assets::{
    asset_path_is_safe, cache_control_for_path, content_range, content_type_for_path,
    parse_http_range, plan_range, unsatisfied_range, RangePlan,
};

#[test]
fn range_header_forms() {
    assert_eq!(parse_http_range("bytes=0-99", 1000), Some((0, 99)));
    assert_eq!(parse_http_range("bytes=500-", 1000), Some((500, 999)));
    assert_eq!(parse_http_range("bytes=-100", 1000), Some((900, 999)));
    assert_eq!(parse_http_range("bytes=-5000", 1000), Some((0, 999)));
    assert_eq!(parse_http_range("bytes=10-5000", 1000), Some((10, 999)));
    assert_eq!(parse_http_range(" bytes=0-1", 1000), None);
    assert_eq!(parse_http_range("bytes= 2-3 ,7-9", 1000), Some((2, 3)));
}

#[test]
fn unsatisfiable_ranges() {
    assert_eq!(parse_http_range("bytes=0-10", 0), None);
    assert_eq!(parse_http_range("items=0-10", 100), None);
    assert_eq!(parse_http_range("bytes=100-", 100), None);
    assert_eq!(parse_http_range("bytes=50-10", 100), None);
    assert_eq!(parse_http_range("bytes=-0", 100), None);
    assert_eq!(parse_http_range("bytes=abc", 100), None);
    assert_eq!(parse_http_range("bytes=1-x", 100), None);
}

#[test]
fn range_plans_and_headers() {
    assert!(matches!(plan_range(None, 10), RangePlan::Full));
    assert!(matches!(plan_range(Some("bytes=1-2"), 10), RangePlan::Partial { start: 1, end: 2 }));
    assert!(matches!(plan_range(Some("bytes=20-"), 10), RangePlan::NotSatisfiable));
    assert_eq!(content_range(1, 2, 10), "bytes 1-2/10");
    assert_eq!(unsatisfied_range(10), "bytes */10");
}

#[test]
fn content_types_by_extension() {
    assert_eq!(content_type_for_path("/srv/a/update.zip"), "application/zip");
    assert_eq!(content_type_for_path("/srv/a/img.png"), "image/png");
    assert_eq!(content_type_for_path("x.jpeg"), "image/jpeg");
    assert_eq!(content_type_for_path("x.jpg"), "image/jpeg");
    assert_eq!(content_type_for_path("icon.svg"), "image/svg+xml");
    assert_eq!(content_type_for_path("a/.png"), "application/octet-stream");
    assert_eq!(content_type_for_path("README"), "application/octet-stream");
    assert_eq!(content_type_for_path("dir/pic.webp/"), "image/webp");
}

#[test]
fn cache_policy_by_extension() {
    assert_eq!(cache_control_for_path("a.gif"), "public, max-age=604800, immutable");
    assert_eq!(cache_control_for_path("a.zip"), "no-cache");
    assert_eq!(cache_control_for_path("a.PNG"), "no-cache");
}

#[test]
fn asset_paths_stay_below_the_root() {
    assert!(asset_path_is_safe("zzz_dump/a.png"));
    assert!(asset_path_is_safe("a/..b/c"));
    assert!(!asset_path_is_safe("/etc/passwd"));
    assert!(!asset_path_is_safe("a/../../b"));
    assert!(!asset_path_is_safe(".."));
}
