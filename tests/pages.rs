use spider_rs::capacity::{buffer, channel_capacity, subscription_capacity};
use spider_rs::page::header_map_to_hash_map;
use spider_rs::page::{configuration_header_pairs, unique_links};
use spider_rs::{new_page, page_title, Cron, NPage, NWebsite, RawPage, Website};

fn raw_page() -> RawPage {
    RawPage {
        url: "https://example.com/a".to_string(),
        status_code: 200,
        html: "<html><title>A</title></html>".to_string(),
        html_bytes: b"<html><title>A</title></html>".to_vec(),
        headers: Some(vec![
            ("content-type".to_string(), Some("text/html".to_string())),
            ("x-bin".to_string(), None),
        ]),
        links: Some(vec!["https://example.com/b".to_string()]),
    }
}

#[test]
fn raw_record_has_bytes_and_empty_text() {
    let p = new_page(raw_page(), true);
    assert_eq!(p.url, "https://example.com/a");
    assert_eq!(p.status_code, 200);
    assert_eq!(p.content, "");
    assert_eq!(p.raw_content, Some(b"<html><title>A</title></html>".to_vec()));
}

#[test]
fn text_record_has_text_and_no_bytes() {
    let p = new_page(raw_page(), false);
    assert_eq!(p.content, "<html><title>A</title></html>");
    assert!(p.raw_content.is_none());
    assert_eq!(p.headers, Some(vec![("content-type".to_string(), "text/html".to_string())]));
    assert_eq!(p.links, Some(vec!["https://example.com/b".to_string()]));
}

#[test]
fn record_without_headers_or_links() {
    let mut r = raw_page();
    r.headers = None;
    r.links = None;
    let p = new_page(r, false);
    assert!(p.headers.is_none());
    assert!(p.links.is_none());
}

#[test]
fn headers_keep_last_text_value_per_name() {
    let h = vec![
        ("a".to_string(), Some("1".to_string())),
        ("b".to_string(), Some("2".to_string())),
        ("a".to_string(), Some("3".to_string())),
        ("a".to_string(), None),
        ("c".to_string(), None),
    ];
    let mut m = header_map_to_hash_map(&h);
    m.sort();
    assert_eq!(m, vec![("a".to_string(), "3".to_string()), ("b".to_string(), "2".to_string())]);
}

#[test]
fn headers_empty_list_gives_empty_map() {
    assert!(header_map_to_hash_map(&Vec::new()).is_empty());
}

#[test]
fn links_each_once() {
    let l = vec!["x".to_string(), "y".to_string(), "x".to_string(), "z".to_string(), "y".to_string()];
    assert_eq!(unique_links(&l), vec!["x".to_string(), "y".to_string(), "z".to_string()]);
}

#[test]
fn capacity_has_floor_and_scales() {
    assert_eq!(channel_capacity(0), 88);
    assert_eq!(channel_capacity(1), 88);
    assert_eq!(channel_capacity(4), 88);
    assert_eq!(channel_capacity(5), 100);
    assert_eq!(channel_capacity(16), 320);
    assert_eq!(channel_capacity(usize::MAX), usize::MAX);
    assert_eq!(subscription_capacity(1), 44);
    assert_eq!(subscription_capacity(8), 80);
    assert!(buffer() >= 88);
    assert_eq!(buffer() % 4, 0);
}

#[test]
fn site_links_are_page_urls_in_order() {
    let a = new_page(raw_page(), false);
    let mut r = raw_page();
    r.url = "https://example.com/c".to_string();
    let c = new_page(r, true);
    let site = NWebsite::from_pages(vec![a, c]);
    assert_eq!(site.links, vec!["https://example.com/a".to_string(), "https://example.com/c".to_string()]);
    assert_eq!(site.pages.len(), 2);
}

#[test]
fn get_pages_follows_session_raw_flag() {
    let raw = Website::new("https://example.com".to_string(), Some(true));
    let pages: Vec<NPage> = raw.get_pages(vec![raw_page(), raw_page()]);
    assert_eq!(pages.len(), 2);
    assert!(pages.iter().all(|p| p.content.is_empty() && p.raw_content.is_some()));
    let text = Website::new("https://example.com".to_string(), None);
    let pages = text.get_pages(vec![raw_page()]);
    assert_eq!(pages[0].content, "<html><title>A</title></html>");
    assert!(pages[0].raw_content.is_none());
}

#[test]
fn cron_stop_cancels_forwarder() {
    let rt = tokio::runtime::Builder::new_current_thread().build().unwrap();
    let h = rt.spawn(async {});
    let c = Cron::new(Some(h));
    assert!(c.stop());
    assert!(c.stop());
    assert!(!Cron::new(None).stop());
}

#[test]
fn title_is_first_title_element() {
    let p = new_page(raw_page(), false);
    assert_eq!(p.title(), "A");
    let mut r = raw_page();
    r.html = "<html><head><title>One</title><title>Two</title></head></html>".to_string();
    assert_eq!(page_title(new_page(r, false)), "One");
}

#[test]
fn title_of_page_without_title_is_empty() {
    let mut r = raw_page();
    r.html = "<html><body><p>no title</p></body></html>".to_string();
    assert_eq!(new_page(r, false).title(), "");
    assert_eq!(new_page(raw_page(), true).title(), "");
}

#[test]
fn configuration_pairs_keep_order_and_blank_bad_values() {
    let h = vec![
        ("b".to_string(), Some("2".to_string())),
        ("a".to_string(), None),
        ("b".to_string(), Some("3".to_string())),
    ];
    assert_eq!(
        configuration_header_pairs(&h),
        vec![
            ("b".to_string(), "2".to_string()),
            ("a".to_string(), String::new()),
            ("b".to_string(), "3".to_string()),
        ]
    );
}
