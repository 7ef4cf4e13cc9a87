use botarr::search::{
    dedup_results, parse_size, result_from_row, result_from_text_row, SearchAggregator,
};

#[test]
fn test_parse_size() {
    assert_eq!(parse_size("1.5G"), Some(1610612736));
    assert_eq!(parse_size("[500M]"), Some(524288000));
    assert_eq!(parse_size("100KB"), Some(102400));
    assert_eq!(parse_size("1.2GB"), Some(1288490188));
    assert_eq!(parse_size(""), None);
}

#[test]
fn test_parse_size_more_forms() {
    assert_eq!(parse_size("  7mb "), Some(7 * 1024 * 1024));
    assert_eq!(parse_size("42"), Some(42));
    assert_eq!(parse_size("0.5k"), Some(512));
    assert_eq!(parse_size("abc"), None);
    assert_eq!(parse_size("[]"), None);
    assert_eq!(parse_size("."), None);
}

#[test]
fn test_result_from_row_normalises_channel() {
    let r = result_from_row(
        "Rizon".to_string(),
        "moviegods".to_string(),
        "Bot".to_string(),
        12,
        "file.mkv".to_string(),
        "1.5G".to_string(),
        Some(3),
    )
    .unwrap();
    assert_eq!(r.channel, "#moviegods");
    assert_eq!(r.url.channel, "#moviegods");
    assert_eq!(r.size, Some(1610612736));
    assert_eq!(r.slot, 12);
    assert_eq!(r.gets, Some(3));
}

#[test]
fn test_result_from_row_drops_empty() {
    assert!(result_from_row(
        "".to_string(),
        "#c".to_string(),
        "Bot".to_string(),
        1,
        "f".to_string(),
        "".to_string(),
        None,
    )
    .is_none());
}

#[test]
fn test_result_from_text_row_slot_parsing() {
    let r = result_from_text_row(
        "net".to_string(),
        "#c".to_string(),
        "Bot".to_string(),
        "#5".to_string(),
        "77".to_string(),
        "100KB".to_string(),
        "f.bin".to_string(),
    )
    .unwrap();
    assert_eq!(r.slot, 5);
    assert_eq!(r.gets, Some(77));
    assert!(result_from_text_row(
        "net".to_string(),
        "#c".to_string(),
        "Bot".to_string(),
        "#x".to_string(),
        "".to_string(),
        "".to_string(),
        "f".to_string(),
    )
    .is_none());
}

#[test]
fn test_dedup_keeps_first() {
    let a = result_from_row(
        "n".to_string(),
        "#c".to_string(),
        "b".to_string(),
        1,
        "f1".to_string(),
        "".to_string(),
        None,
    )
    .unwrap();
    let b = result_from_row(
        "n".to_string(),
        "#c".to_string(),
        "b".to_string(),
        1,
        "f2".to_string(),
        "".to_string(),
        None,
    )
    .unwrap();
    let c = result_from_row(
        "n".to_string(),
        "#c".to_string(),
        "b".to_string(),
        2,
        "f3".to_string(),
        "".to_string(),
        None,
    )
    .unwrap();
    let out = dedup_results(vec![a, b, c]);
    assert_eq!(out.len(), 2);
    assert_eq!(out[0].filename, "f1");
    assert_eq!(out[1].filename, "f3");
}

#[test]
fn test_aggregator_selection() {
    let agg = SearchAggregator::with_default_providers(None);
    assert_eq!(agg.providers.len(), 3);
    assert!(SearchAggregator::should_query("SkullXDCC", None));
    let targets = vec!["skullxdcc".to_string()];
    assert!(SearchAggregator::should_query("SkullXDCC", Some(&targets)));
    assert!(!SearchAggregator::should_query("XDCC.eu", Some(&targets)));
}
