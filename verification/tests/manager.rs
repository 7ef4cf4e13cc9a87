use botarr::locator::XdccUrl;
use botarr::transfer::{EnhancedTransferManager, TransferPriority, TransferStatus};

fn locator(slot: i32) -> XdccUrl {
    XdccUrl::parse(&format!("irc://Rizon/chan/Bot/{}", slot)).unwrap()
}

#[test]
fn test_create_transfer_registers_pending() {
    let mut m = EnhancedTransferManager::new("./downloads".to_string());
    let (id, _token) = m.create_transfer(locator(1), TransferPriority::High);
    assert_eq!(id.len(), 36);
    let t = m.get_transfer(&id).unwrap();
    assert_eq!(t.transfer.status, TransferStatus::Pending);
    assert!(matches!(t.priority, TransferPriority::High));
    assert_eq!(t.retry_count, 0);
    assert_eq!(t.max_retries, 3);
    assert_eq!(t.queue_position, Some(1));
    assert_eq!(m.queue_size(), 1);
}

#[test]
fn test_retry_budget_is_never_exceeded() {
    let mut m = EnhancedTransferManager::new("./d".to_string());
    let (id, _tok) = m.create_transfer(locator(2), TransferPriority::Normal);
    // Three retryable failures spend the whole budget.
    for _ in 0..3 {
        let directive = m.set_failed(&id, "boom".to_string(), false);
        assert!(directive.is_some());
        let t = m.get_transfer(&id).unwrap();
        assert!(t.retry_count <= t.max_retries);
    }
    // The fourth is out of budget: terminal, archived exactly once.
    let directive = m.set_failed(&id, "boom".to_string(), false);
    assert!(directive.is_none());
    assert!(m.get_transfer(&id).is_none());
    let hist = m.get_history(100);
    let hits: Vec<_> = hist.iter().filter(|t| t.id == id).collect();
    assert_eq!(hits.len(), 1);
    assert_eq!(hits[0].status, TransferStatus::Failed);
    assert_eq!(hits[0].error.as_deref(), Some("boom"));
}

#[test]
fn test_fatal_failure_skips_retry() {
    let mut m = EnhancedTransferManager::new("./d".to_string());
    let (id, _tok) = m.create_transfer(locator(3), TransferPriority::Normal);
    let directive = m.set_failed(&id, "invalid pack".to_string(), true);
    assert!(directive.is_none());
    assert!(m.get_transfer(&id).is_none());
    let stats = m.get_all_bot_stats();
    assert_eq!(stats.len(), 1);
    assert_eq!(stats[0].failed_downloads, 1);
    assert_eq!(stats[0].successful_downloads, 0);
}

#[test]
fn test_history_capacity_evicts_oldest() {
    let mut m = EnhancedTransferManager::new("./d".to_string());
    let mut first_id = None;
    for i in 0..55 {
        let (id, _tok) = m.create_transfer(locator(i), TransferPriority::Normal);
        if first_id.is_none() {
            first_id = Some(id.clone());
        }
        m.set_completed(&id);
    }
    let hist = m.get_history(1000);
    assert_eq!(hist.len(), 50);
    // The oldest five were evicted.
    assert!(!hist.iter().any(|t| Some(&t.id) == first_id.as_ref()));
    // Newest first.
    assert_eq!(hist[0].url.slot, 54);
    assert_eq!(hist[49].url.slot, 5);
}

#[test]
fn test_cancel_downloading_then_again() {
    let mut m = EnhancedTransferManager::new("./d".to_string());
    let (id, _tok) = m.create_transfer(locator(9), TransferPriority::Normal);
    m.update_status(&id, TransferStatus::Downloading);
    assert!(m.cancel_transfer(&id));
    let t = m.get_transfer(&id).unwrap();
    assert_eq!(t.transfer.status, TransferStatus::Cancelled);
    assert_eq!(m.queue_size(), 0);
    // Cancelling again removes the terminal record.
    assert!(m.cancel_transfer(&id));
    assert!(m.get_transfer(&id).is_none());
    // A third time reports not-found.
    assert!(!m.cancel_transfer(&id));
}

#[test]
fn test_completed_updates_stats_and_analytics() {
    let mut m = EnhancedTransferManager::new("./d".to_string());
    let (id, _tok) = m.create_transfer(locator(4), TransferPriority::Normal);
    m.set_file_info(&id, "file.bin".to_string(), 1000);
    m.update_progress(&id, 500, 250);
    let t = m.get_transfer(&id).unwrap();
    assert_eq!(t.transfer.progress, 50);
    m.update_progress(&id, 1000, 250);
    m.set_completed(&id);
    assert!(m.get_transfer(&id).is_none());
    let a = m.get_analytics();
    assert_eq!(a.total_downloads, 1);
    assert_eq!(a.successful_downloads, 1);
    assert_eq!(a.total_bytes_downloaded, 1000);
    assert_eq!(a.average_download_speed, 250);
    assert_eq!(a.most_active_network.as_deref(), Some("Rizon"));
    assert_eq!(a.most_reliable_bot.as_deref(), Some("Bot"));
    let stats = m.get_all_bot_stats();
    assert_eq!(stats.len(), 1);
    assert_eq!(stats[0].total_bytes, 1000);
    assert_eq!(stats[0].average_speed, 250);
    // One success at full recency: 1000 * 7/10 + 1000 * 3/10.
    assert_eq!(stats[0].reliability_pm, 1000);
    let hist = m.get_history(10);
    assert_eq!(hist.len(), 1);
    assert_eq!(hist[0].status, TransferStatus::Completed);
    assert_eq!(hist[0].progress, 100);
}

#[test]
fn test_reliability_score_stays_in_range() {
    let mut m = EnhancedTransferManager::new("./d".to_string());
    for i in 0..20 {
        m.record_bot_failure("Bot", "net");
        if i % 3 == 0 {
            m.record_bot_success("Bot", "net", 10, 5);
        }
        let stats = m.get_all_bot_stats();
        assert!(stats[0].reliability_pm <= 1000);
    }
}

#[test]
fn test_all_failures_drive_score_to_recency_share() {
    let mut m = EnhancedTransferManager::new("./d".to_string());
    for _ in 0..10 {
        m.record_bot_failure("Dud", "net");
    }
    let stats = m.get_all_bot_stats();
    // success rate zero, full recency: 3/10 of 1000.
    assert_eq!(stats[0].reliability_pm, 300);
    assert_eq!(stats[0].total_downloads, 10);
    assert_eq!(stats[0].failed_downloads, 10);
}

#[test]
fn test_bot_stats_sorted_by_reliability() {
    let mut m = EnhancedTransferManager::new("./d".to_string());
    m.record_bot_failure("Bad", "net");
    m.record_bot_success("Good", "net", 100, 10);
    m.record_bot_success("Mid", "net", 100, 10);
    m.record_bot_failure("Mid", "net");
    let stats = m.get_all_bot_stats();
    assert_eq!(stats.len(), 3);
    assert!(stats[0].reliability_pm >= stats[1].reliability_pm);
    assert!(stats[1].reliability_pm >= stats[2].reliability_pm);
    assert_eq!(stats[0].bot_name, "Good");
    assert_eq!(stats[2].bot_name, "Bad");
}

#[test]
fn test_manual_retry_requeues() {
    let mut m = EnhancedTransferManager::new("./d".to_string());
    let (id, _tok) = m.create_transfer(locator(5), TransferPriority::Normal);
    m.update_status(&id, TransferStatus::Downloading);
    assert!(m.retry_transfer(&id));
    let t = m.get_transfer(&id).unwrap();
    assert_eq!(t.transfer.status, TransferStatus::Pending);
    assert_eq!(t.retry_count, 1);
    assert!(t.transfer.error.is_none());
    assert!(!m.retry_transfer("no-such-id"));
}

#[test]
fn test_set_priority_and_listing() {
    let mut m = EnhancedTransferManager::new("./d".to_string());
    let (id1, _t1) = m.create_transfer(locator(1), TransferPriority::Normal);
    let (_id2, _t2) = m.create_transfer(locator(2), TransferPriority::Normal);
    assert!(m.set_priority(&id1, TransferPriority::Urgent));
    assert!(!m.set_priority("missing", TransferPriority::Low));
    let t = m.get_transfer(&id1).unwrap();
    assert!(matches!(t.priority, TransferPriority::Urgent));
    let listed = m.list_transfers();
    assert_eq!(listed.len(), 2);
    assert!(listed[0].transfer.created_at >= listed[1].transfer.created_at);
}

#[test]
fn test_remove_transfer() {
    let mut m = EnhancedTransferManager::new("./d".to_string());
    let (id, _tok) = m.create_transfer(locator(6), TransferPriority::Normal);
    assert!(m.remove_transfer(&id));
    assert!(!m.remove_transfer(&id));
    assert_eq!(m.queue_size(), 0);
}

#[test]
fn test_delete_history_item_paths() {
    let mut m = EnhancedTransferManager::new("./downloads".to_string());
    let (id, _tok) = m.create_transfer(locator(7), TransferPriority::Normal);
    m.set_file_info(&id, "My:File?.mkv".to_string(), 10);
    m.set_completed(&id);
    assert!(m.delete_history_item("missing", true).is_none());
    let r = m.delete_history_item(&id, true).unwrap();
    assert_eq!(r.as_deref(), Some("./downloads/My_File_.mkv"));
    assert_eq!(m.get_history(10).len(), 0);
}
