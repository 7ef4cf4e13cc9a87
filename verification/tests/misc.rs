use botarr::db::{page_offset, total_pages};
use botarr::dcc::sanitize_filename;
use botarr::locator::XdccError;
use botarr::postprocess::PostprocessConfig;

#[test]
fn test_sanitize_filename() {
    assert_eq!(sanitize_filename("a/b\\c:d*e?f\"g<h>i|j.mkv"), "a_b_c_d_e_f_g_h_i_j.mkv");
    assert_eq!(sanitize_filename("plain.bin"), "plain.bin");
}

#[test]
fn test_pagination_math() {
    assert_eq!(page_offset(1, 20), 0);
    assert_eq!(page_offset(3, 20), 40);
    assert_eq!(total_pages(0, 20), 0);
    assert_eq!(total_pages(1, 20), 1);
    assert_eq!(total_pages(20, 20), 1);
    assert_eq!(total_pages(21, 20), 2);
}

#[test]
fn test_postprocess_plan() {
    let cfg = PostprocessConfig::default();
    let plan = cfg.plan();
    assert!(plan.move_to_dir.is_none());
    assert!(plan.run_script.is_none());
    let cfg = PostprocessConfig {
        move_completed_dir: Some("".to_string()),
        script_path: Some("/bin/handle.sh".to_string()),
        script_timeout_secs: 10,
    };
    let plan = cfg.plan();
    assert!(plan.move_to_dir.is_none());
    assert_eq!(plan.run_script.as_deref(), Some("/bin/handle.sh"));
}

#[test]
fn test_error_variants_carry_detail() {
    let errs = vec![
        XdccError::InvalidUrl("a".to_string()),
        XdccError::ConnectionFailed("b".to_string()),
        XdccError::ChannelJoinFailed("c".to_string()),
        XdccError::TransferFailed("d".to_string()),
        XdccError::SearchFailed("e".to_string()),
        XdccError::Timeout("f".to_string()),
        XdccError::BotBusy("g".to_string()),
        XdccError::InvalidPack("h".to_string()),
    ];
    let details: Vec<&str> = errs.iter().map(|e| e.detail().as_str()).collect();
    assert_eq!(details, vec!["a", "b", "c", "d", "e", "f", "g", "h"]);
}
