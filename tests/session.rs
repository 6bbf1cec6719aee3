use spider_rs::website::{crawl_call, cron_kind, idle_network_wait, is_set, scrape_call, select_mode, CronKind};
use spider_rs::{DetachedTasks, EngineCall, ExecutionMode, HandleTable, Website};
use tokio::runtime::Runtime;
use tokio::task::JoinHandle;

fn runtime() -> Runtime {
    tokio::runtime::Builder::new_current_thread().build().unwrap()
}

fn idle(rt: &Runtime) -> JoinHandle<()> {
    rt.spawn(async {})
}

fn tasks(rt: &Runtime, with_consumer: bool) -> DetachedTasks {
    DetachedTasks {
        run: idle(rt),
        consumer: if with_consumer { Some(idle(rt)) } else { None },
    }
}

#[test]
fn table_ids_start_at_zero_and_rise() {
    let rt = runtime();
    let mut t = HandleTable::new();
    assert!(t.is_empty());
    assert_eq!(t.next_id(), Some(0));
    assert_eq!(t.push(idle(&rt)), Some(0));
    assert_eq!(t.push(idle(&rt)), Some(1));
    assert_eq!(t.push(idle(&rt)), Some(2));
    assert!(!t.is_empty());
    assert!(t.contains(1));
    assert!(!t.contains(3));
}

#[test]
fn table_next_id_follows_largest_key() {
    let rt = runtime();
    let mut t = HandleTable::new();
    assert!(t.insert(7, idle(&rt)).is_none());
    assert!(t.insert(3, idle(&rt)).is_none());
    assert_eq!(t.next_id(), Some(8));
    assert!(t.insert(3, idle(&rt)).is_some());
    assert_eq!(t.next_id(), Some(8));
}

#[test]
fn table_next_id_after_removing_smaller_key() {
    let rt = runtime();
    let mut t = HandleTable::new();
    t.push(idle(&rt));
    t.push(idle(&rt));
    t.push(idle(&rt));
    assert!(t.remove(0).is_some());
    assert!(t.remove(0).is_none());
    assert_eq!(t.push(idle(&rt)), Some(3));
}

#[test]
fn table_next_id_after_removing_largest_key() {
    let rt = runtime();
    let mut t = HandleTable::new();
    t.push(idle(&rt));
    t.push(idle(&rt));
    assert!(t.remove(1).is_some());
    assert_eq!(t.next_id(), Some(1));
}

#[test]
fn table_ids_exhausted_at_largest_key() {
    let rt = runtime();
    let mut t = HandleTable::new();
    t.insert(u32::MAX, idle(&rt));
    assert_eq!(t.next_id(), None);
    assert_eq!(t.push(idle(&rt)), None);
    assert!(t.contains(u32::MAX));
}

#[test]
fn table_drain_all_hands_out_every_handle() {
    let rt = runtime();
    let mut t = HandleTable::new();
    t.push(idle(&rt));
    t.push(idle(&rt));
    t.push(idle(&rt));
    let drained = t.drain_all();
    assert_eq!(drained.len(), 3);
    assert!(t.is_empty());
    assert_eq!(t.next_id(), Some(0));
}

#[test]
fn subscribe_ids_rise_across_unsubscribe_of_other_ids() {
    let rt = runtime();
    let mut w = Website::new("https://example.com".to_string(), None);
    assert_eq!(w.subscribe(idle(&rt)), Some(0));
    assert_eq!(w.subscribe(idle(&rt)), Some(1));
    assert!(w.unsubscribe(Some(0)));
    assert_eq!(w.subscribe(idle(&rt)), Some(2));
    assert!(w.unsubscribe(Some(1)));
    assert_eq!(w.subscribe(idle(&rt)), Some(3));
    assert!(!w.has_subscription(0));
    assert!(w.has_subscription(2));
    assert!(w.has_subscription(3));
}

#[test]
fn unsubscribe_missing_id_changes_nothing() {
    let rt = runtime();
    let mut w = Website::new("https://example.com".to_string(), None);
    assert_eq!(w.subscribe(idle(&rt)), Some(0));
    assert!(!w.unsubscribe(Some(5)));
    assert!(w.has_subscription(0));
    assert!(w.unsubscribe(Some(0)));
    assert!(!w.unsubscribe(Some(0)));
}

#[test]
fn unsubscribe_all_on_empty_returns_false() {
    let mut w = Website::new("https://example.com".to_string(), None);
    assert!(!w.unsubscribe(None));
}

#[test]
fn unsubscribe_all_removes_every_subscription() {
    let rt = runtime();
    let mut w = Website::new("https://example.com".to_string(), None);
    w.subscribe(idle(&rt));
    w.subscribe(idle(&rt));
    assert!(w.unsubscribe(None));
    assert!(!w.has_subscription(0));
    assert!(!w.has_subscription(1));
    assert!(!w.unsubscribe(None));
    assert_eq!(w.subscribe(idle(&rt)), Some(0));
}

#[test]
fn stop_in_foreground_sends_no_shutdown() {
    let mut w = Website::new("https://example.com".to_string(), None);
    let plan = w.crawl(false, None, None, None).plan;
    assert_eq!(plan.mode, ExecutionMode::Blocking);
    assert!(!w.running_in_background());
    let out = w.stop(None);
    assert!(out.shutdown_domain.is_none());
    assert!(!out.found);
}

#[test]
fn stop_after_background_run_sends_shutdown_once() {
    let rt = runtime();
    let mut w = Website::new("https://example.com".to_string(), None);
    let start = w.crawl(false, Some(true), None, Some(tasks(&rt, false)));
    assert_eq!(start.plan.mode, ExecutionMode::Detached);
    assert!(w.running_in_background());
    assert_eq!((start.crawl_id, start.subscription_id), (Some(0), None));
    assert!(w.has_crawl(0));
    assert!(!w.has_subscription(0));
    let out = w.stop(None);
    let domain = out.shutdown_domain.expect("a background run was live");
    assert!(domain.contains("example.com"));
    assert!(out.found);
    assert!(!w.running_in_background());
    assert!(!w.has_crawl(0));
    let again = w.stop(None);
    assert!(again.shutdown_domain.is_none());
    assert!(!again.found);
}

#[test]
fn stop_one_crawl_leaves_others_and_subscriptions() {
    let rt = runtime();
    let mut w = Website::new("https://example.com".to_string(), None);
    w.crawl(true, Some(true), None, Some(tasks(&rt, true)));
    let second = w.crawl(false, Some(true), None, Some(tasks(&rt, false)));
    assert_eq!(second.crawl_id, Some(1));
    assert_eq!(second.subscription_id, None);
    let out = w.stop(Some(0));
    assert!(out.found);
    assert!(!w.has_crawl(0));
    assert!(w.has_crawl(1));
    assert!(w.has_subscription(0));
    assert!(!w.stop(Some(0)).found);
}

#[test]
fn streaming_foreground_mode_creates_no_handles() {
    let mut w = Website::new("https://example.com".to_string(), None);
    let plan = w.crawl(true, Some(false), Some(false), None).plan;
    assert_eq!(plan.mode, ExecutionMode::Streaming);
    assert_eq!(plan.call, EngineCall::CrawlRaw);
    assert!(!w.running_in_background());
    assert!(!w.has_crawl(0));
    assert!(!w.has_subscription(0));
}

#[test]
fn streaming_background_records_one_entry_in_each_table() {
    let rt = runtime();
    let mut w = Website::new("https://example.com".to_string(), None);
    let start = w.crawl(true, Some(true), None, Some(tasks(&rt, true)));
    assert_eq!(start.plan.mode, ExecutionMode::StreamingDetached);
    assert!(w.running_in_background());
    assert_eq!((start.crawl_id, start.subscription_id), (Some(0), Some(0)));
    assert!(w.has_crawl(0));
    assert!(w.has_subscription(0));
    assert!(!w.has_crawl(1));
    assert!(!w.has_subscription(1));
}

#[test]
fn background_flag_needs_to_be_given_and_set() {
    let mut w = Website::new("https://example.com".to_string(), None);
    assert_eq!(w.crawl(false, None, None, None).plan.mode, ExecutionMode::Blocking);
    assert_eq!(w.crawl(false, Some(false), None, None).plan.mode, ExecutionMode::Blocking);
    assert!(!w.running_in_background());
}

#[test]
fn headless_selects_engine_entry_point() {
    let rt = runtime();
    let mut w = Website::new("https://example.com".to_string(), None);
    assert_eq!(w.crawl(false, None, Some(true), None).plan.call, EngineCall::Crawl);
    assert_eq!(w.crawl(false, None, None, None).plan.call, EngineCall::CrawlRaw);
    assert_eq!(w.scrape(false, None, Some(true), None).plan.call, EngineCall::Scrape);
    assert_eq!(w.scrape(false, None, Some(false), None).plan.call, EngineCall::ScrapeRaw);
    assert_eq!(w.crawl_smart(true, Some(true), Some(tasks(&rt, true))).plan.call, EngineCall::CrawlSmart);
    assert_eq!(w.crawl_smart(true, Some(true), Some(tasks(&rt, true))).plan.mode, ExecutionMode::StreamingDetached);
    assert_eq!(w.scrape(true, None, None, None).plan.mode, ExecutionMode::Streaming);
}

#[test]
fn raw_content_fixed_at_construction() {
    let rt = runtime();
    let mut w = Website::new("https://example.com".to_string(), Some(true));
    assert!(w.raw_content());
    w.engine_mut().with_depth(3);
    w.engine_mut().configuration.with_respect_robots_txt(true);
    w.crawl(true, Some(true), Some(true), Some(tasks(&rt, true)));
    w.stop(None);
    w.unsubscribe(None);
    assert!(w.raw_content());
    let plain = Website::new("https://example.com".to_string(), None);
    assert!(!plain.raw_content());
    let off = Website::new("https://example.com".to_string(), Some(false));
    assert!(!off.raw_content());
}

#[test]
fn select_mode_covers_four_modes() {
    assert_eq!(select_mode(false, false), ExecutionMode::Blocking);
    assert_eq!(select_mode(false, true), ExecutionMode::Detached);
    assert_eq!(select_mode(true, false), ExecutionMode::Streaming);
    assert_eq!(select_mode(true, true), ExecutionMode::StreamingDetached);
}

#[test]
fn detached_engine_is_independent_copy() {
    let mut w = Website::new("https://example.com".to_string(), None);
    let copy = w.detached_engine();
    w.engine_mut().with_depth(9);
    assert_eq!(copy.get_url().inner().as_str(), w.engine().get_url().inner().as_str());
}

#[test]
fn cron_kind_scrape_only_for_scrape() {
    assert_eq!(cron_kind(&Some("scrape".to_string())), CronKind::Scrape);
    assert_eq!(cron_kind(&Some("crawl".to_string())), CronKind::Crawl);
    assert_eq!(cron_kind(&Some("Scrape".to_string())), CronKind::Crawl);
    assert_eq!(cron_kind(&None), CronKind::Crawl);
}

#[test]
fn idle_network_wait_zero_means_no_timeout() {
    assert_eq!(idle_network_wait(false, 500), None);
    assert_eq!(idle_network_wait(true, 0), Some(None));
    assert_eq!(idle_network_wait(true, 500), Some(Some(500)));
}

#[test]
fn background_scrape_and_smart_crawl_record_next_ids() {
    let rt = runtime();
    let mut w = Website::new("https://example.com".to_string(), None);
    let first = w.scrape(true, Some(true), None, Some(tasks(&rt, true)));
    assert_eq!(first.plan.mode, ExecutionMode::StreamingDetached);
    assert_eq!(first.plan.call, EngineCall::ScrapeRaw);
    assert_eq!((first.crawl_id, first.subscription_id), (Some(0), Some(0)));
    assert_eq!(w.subscribe(idle(&rt)), Some(1));
    let second = w.crawl_smart(true, Some(true), Some(tasks(&rt, true)));
    assert_eq!((second.crawl_id, second.subscription_id), (Some(1), Some(2)));
    assert!(w.has_crawl(1));
    assert!(w.has_subscription(2));
}

#[test]
fn foreground_run_records_nothing() {
    let mut w = Website::new("https://example.com".to_string(), None);
    let start = w.scrape(false, None, Some(true), None);
    assert_eq!(start.plan.mode, ExecutionMode::Blocking);
    assert_eq!((start.crawl_id, start.subscription_id), (None, None));
    assert!(!w.has_crawl(0));
    assert!(!w.running_in_background());
}

#[test]
fn pure_selectors_match_session_plans() {
    assert!(is_set(Some(true)));
    assert!(!is_set(Some(false)));
    assert!(!is_set(None));
    assert_eq!(crawl_call(Some(true)), EngineCall::Crawl);
    assert_eq!(crawl_call(None), EngineCall::CrawlRaw);
    assert_eq!(scrape_call(Some(true)), EngineCall::Scrape);
    assert_eq!(scrape_call(Some(false)), EngineCall::ScrapeRaw);
}
