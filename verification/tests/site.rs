use heimdall::common::JsonStr;
use heimdall::config::Config;
use heimdall::site::{
    can_merge_statuses, let_in, merge_statuses, notification, Site, SiteDump, NAME_MAX, TAG_MAX,
    TEXT_MAX, TOKEN_LEN,
};
use heimdall::stats::{Dump, Event, Status};
use heimdall::table::Table;
use heimdall::user::Authorization;

fn bucket(code: u16, count: u64, min_time: u64, max_time: u64, total_time: u64) -> Status {
    Status { code, count, max_time, min_time, total_time }
}

fn table(entries: &[(&str, Status)]) -> Table<Status> {
    let mut table = Table::new();
    for (key, status) in entries {
        table.insert(key.to_string(), *status);
    }
    table
}

fn content(name: &str) -> String {
    Site::verify_name(name).unwrap_err().content().unwrap().to_string()
}

#[test]
fn names() {
    assert_eq!(NAME_MAX, 100);
    assert!(Site::verify_name("a").is_ok());
    assert!(Site::verify_name("my-site_0.9").is_ok());
    assert!(Site::verify_name(&"x".repeat(100)).is_ok());
    assert_eq!(content(""), "invalid name length > 0 && < 100");
    assert_eq!(content(&"x".repeat(101)), "invalid name length > 0 && < 100");
    assert_eq!(content("my site"), "invalid name characters");
    assert_eq!(content("a/b"), "invalid name characters");
    assert_eq!(content("ü"), "invalid name characters");
    assert_eq!(Site::verify_name("a b").unwrap_err().status(), 400);
    assert_eq!(content(&"é".repeat(51)), "invalid name length > 0 && < 100");
}

#[test]
fn a_character_is_judged_by_its_low_byte() {
    assert!(Site::verify_name("š").is_ok());
    assert!(Site::verify_name("\u{2e2e}").is_ok());
    assert!(Site::verify_name("\u{100}").is_err());
}

#[test]
fn new_site_is_empty_and_offline() {
    let site = Site::new(7, "shop".to_string(), 1_700_000_000);
    assert_eq!(site.id, 7);
    assert_eq!(site.name, "shop");
    assert_eq!(site.timestamp, 1_700_000_000);
    assert_eq!(site.total_requests, 0);
    assert_eq!(site.requests_min_time, 0);
    assert_eq!(site.status.0.len(), 0);
    assert_eq!(site.token, None);
    assert!(!site.online);
    assert_eq!(site.latest_dump_timestamp, 0);
}

#[test]
fn dump_is_added_to_the_totals() {
    let mut site = Site::new(1, "shop".to_string(), 10);
    let first = SiteDump {
        total: 3,
        total_time: 90,
        max_time: 50,
        min_time: 10,
        status: table(&[("200", bucket(200, 2, 30, 50, 80)), ("404", bucket(404, 1, 10, 10, 10))]),
    };
    assert!(site.can_apply(&first));
    site.apply_dump(&first, 100, 101);
    assert_eq!(site.latest_dump_timestamp, 100);
    assert_eq!(site.latest_request, 101);
    assert_eq!(site.total_requests, 3);
    assert_eq!(site.total_requests_time, 90);
    assert_eq!(site.requests_max_time, 50);
    assert_eq!(site.requests_min_time, 10);
    assert_eq!(site.status.0.len(), 2);
    assert_eq!(site.status.0.get("200"), Some(&bucket(200, 2, 30, 50, 80)));
    let second = SiteDump {
        total: 2,
        total_time: 205,
        max_time: 200,
        min_time: 5,
        status: table(&[("200", bucket(200, 1, 200, 200, 200)), ("500", bucket(500, 1, 5, 5, 5))]),
    };
    assert!(site.can_apply(&second));
    site.apply_dump(&second, 200, 202);
    assert_eq!(site.latest_dump_timestamp, 200);
    assert_eq!(site.latest_request, 202);
    assert_eq!(site.total_requests, 5);
    assert_eq!(site.total_requests_time, 295);
    assert_eq!(site.requests_max_time, 200);
    assert_eq!(site.requests_min_time, 5);
    assert_eq!(site.status.0.len(), 3);
    assert_eq!(site.status.0.get("200"), Some(&bucket(200, 3, 30, 200, 280)));
    assert_eq!(site.status.0.get("404"), Some(&bucket(404, 1, 10, 10, 10)));
    assert_eq!(site.status.0.get("500"), Some(&bucket(500, 1, 5, 5, 5)));
    assert_eq!(site.id, 1);
    assert_eq!(site.name, "shop");
    assert_eq!(site.timestamp, 10);
}

#[test]
fn larger_minimum_does_not_replace_a_known_one() {
    let mut site = Site::new(1, "shop".to_string(), 10);
    site.requests_min_time = 4;
    site.requests_max_time = 90;
    let dump =
        SiteDump { total: 1, total_time: 8, max_time: 8, min_time: 8, status: Table::new() };
    site.apply_dump(&dump, 1, 1);
    assert_eq!(site.requests_min_time, 4);
    assert_eq!(site.requests_max_time, 90);
    assert_eq!(site.status.0.len(), 0);
}

#[test]
fn dump_that_would_run_over_is_told_apart() {
    let mut site = Site::new(1, "shop".to_string(), 10);
    site.total_requests = i64::MAX;
    let dump =
        SiteDump { total: 1, total_time: 0, max_time: 0, min_time: 0, status: Table::new() };
    assert!(!site.can_apply(&dump));
    site.total_requests = 0;
    site.total_requests_time = i64::MIN;
    let dump =
        SiteDump { total: 0, total_time: -1, max_time: 0, min_time: 0, status: Table::new() };
    assert!(!site.can_apply(&dump));
    site.total_requests_time = 0;
    site.status = JsonStr(table(&[("200", bucket(200, u64::MAX, 1, 1, 1))]));
    let dump = SiteDump {
        total: 1,
        total_time: 1,
        max_time: 1,
        min_time: 1,
        status: table(&[("200", bucket(200, 1, 1, 1, 1))]),
    };
    assert!(!site.can_apply(&dump));
    let other = SiteDump {
        total: 1,
        total_time: 1,
        max_time: 1,
        min_time: 1,
        status: table(&[("201", bucket(201, 1, 1, 1, 1))]),
    };
    assert!(site.can_apply(&other));
}

#[test]
fn tables_merge_key_by_key() {
    let mut into = table(&[("a", bucket(1, 1, 5, 5, 5)), ("b", bucket(2, 2, 0, 9, 9))]);
    let from = table(&[("b", bucket(2, 1, 3, 3, 3)), ("c", bucket(3, 4, 1, 2, 6))]);
    assert!(can_merge_statuses(&into, &from));
    merge_statuses(&mut into, &from);
    assert_eq!(into.len(), 3);
    assert_eq!(into.get("a"), Some(&bucket(1, 1, 5, 5, 5)));
    assert_eq!(into.get("b"), Some(&bucket(2, 3, 3, 9, 12)));
    assert_eq!(into.get("c"), Some(&bucket(3, 4, 1, 2, 6)));
    assert_eq!(from.len(), 2);
}

#[test]
fn latest_request_is_read_from_the_clock() {
    let mut site = Site::new(1, "shop".to_string(), 10);
    let dump = SiteDump {
        total: 1,
        total_time: 2,
        max_time: 2,
        min_time: 2,
        status: table(&[("200", bucket(200, 1, 2, 2, 2))]),
    };
    site.take_dump(&dump, 55);
    assert_eq!(site.latest_dump_timestamp, 55);
    assert!(site.latest_request > 1_577_836_800);
    assert_eq!(site.total_requests, 1);
    assert_eq!(site.status.0.get("200"), Some(&bucket(200, 1, 2, 2, 2)));
}

#[test]
fn reset_forgets_the_totals() {
    let mut site = Site::new(1, "shop".to_string(), 10);
    site.token = Some("t".to_string());
    site.online = true;
    site.latest_ping = 44;
    let dump = SiteDump {
        total: 3,
        total_time: 90,
        max_time: 50,
        min_time: 10,
        status: table(&[("200", bucket(200, 3, 10, 50, 90))]),
    };
    site.apply_dump(&dump, 100, 101);
    site.reset(500);
    assert_eq!(site.total_requests, 0);
    assert_eq!(site.total_requests_time, 0);
    assert_eq!(site.requests_max_time, 0);
    assert_eq!(site.requests_min_time, 0);
    assert_eq!(site.status.0.len(), 0);
    assert_eq!(site.timestamp, 500);
    assert_eq!(site.latest_request, 101);
    assert_eq!(site.latest_dump_timestamp, 100);
    assert_eq!(site.latest_ping, 44);
    assert_eq!(site.token.as_deref(), Some("t"));
    assert!(site.online);
}

#[test]
fn ping_notes_the_time() {
    let mut site = Site::new(1, "shop".to_string(), 10);
    site.ping(77);
    assert_eq!(site.latest_ping, 77);
    assert_eq!(site.timestamp, 10);
}

#[test]
fn token_and_online_state_let_a_site_in() {
    let mut site = Site::new(3, "shop".to_string(), 10);
    assert!(!site.accepts("", false));
    site.token = Some("secret".to_string());
    assert!(site.accepts("secret", false));
    assert!(!site.accepts("secret", true));
    assert!(!site.accepts("Secret", false));
    site.online = true;
    assert!(site.accepts("secret", true));

    let claim = Authorization::Site { id: 3, token: "secret".to_string() };
    assert!(let_in(&claim, Some(&site), true).is_ok());
    let wrong = Authorization::Site { id: 3, token: "other".to_string() };
    let as_user = Authorization::User { id: 3, token: "secret".to_string() };
    for (auth, found) in [(&wrong, Some(&site)), (&as_user, Some(&site)), (&claim, None)] {
        let e = let_in(auth, found, true).unwrap_err();
        assert_eq!(e.status(), 404);
        assert_eq!(e.subject(), "not found");
        assert_eq!(e.content(), Some("no site was found"));
    }
    site.online = false;
    assert!(let_in(&claim, Some(&site), true).is_err());
    assert!(let_in(&claim, Some(&site), false).is_ok());
}

#[test]
fn message_is_cut_and_stamped() {
    assert_eq!(TEXT_MAX, 2048);
    assert_eq!(TAG_MAX, 255);
    let mut site = Site::new(9, "shop".to_string(), 10);
    let text = "é".repeat(1500);
    let tag = "t".repeat(300);
    let message = site.message(&text, &tag, 1234);
    assert_eq!(message.id, 0);
    assert_eq!(message.site, 9);
    assert_eq!(message.timestamp, 1234);
    assert_eq!(message.text, "é".repeat(1024));
    assert_eq!(message.tag, "t".repeat(255));
    assert_eq!(site.latest_message_timestamp, 1234);
    let short = site.message("hi", "info", 1300);
    assert_eq!(short.text, "hi");
    assert_eq!(short.tag, "info");
    let odd = site.message(&format!("a{}", "é".repeat(1500)), "", 1301);
    assert_eq!(odd.text, format!("a{}", "é".repeat(1023)));
    assert_eq!(odd.text.len(), 2047);
}

#[test]
fn note_about_a_message() {
    assert_eq!(notification("shop", "warn", "disk full"), "site: shop\ntag: warn\n\ndisk full");
    assert_eq!(notification("", "", ""), "site: \ntag: \n\n");
}

#[test]
fn update_checks_the_name_first() {
    let mut site = Site::new(9, "shop".to_string(), 10);
    site.token = Some("old".to_string());
    let e = site.update("bad name", true, Some("new".to_string())).unwrap_err();
    assert_eq!(e.content(), Some("invalid name characters"));
    assert_eq!(site.name, "shop");
    assert!(!site.online);
    assert_eq!(site.token.as_deref(), Some("old"));
    assert!(site.update("store", true, None).is_ok());
    assert_eq!(site.name, "store");
    assert!(site.online);
    assert_eq!(site.token.as_deref(), Some("old"));
    assert!(site.update("store", false, Some("new".to_string())).is_ok());
    assert!(!site.online);
    assert_eq!(site.token.as_deref(), Some("new"));
}

#[test]
fn site_tokens() {
    assert_eq!(TOKEN_LEN, 41);
    let token = Site::fresh_token();
    assert_eq!(token.len(), 41);
    assert!(token.chars().all(|c| Config::SITE_TOKEN_ABC.contains(c)));
}

#[test]
fn window_of_the_daemon_is_a_report_for_the_collector() {
    let mut dump = Dump::new();
    for (status, latency_ms) in [(200, 50), (200, 30), (404, 10)] {
        dump.record(Event { status, latency_ms });
    }
    let report = SiteDump::of_window(&dump).unwrap();
    assert_eq!(report.total, 3);
    assert_eq!(report.total_time, 90);
    assert_eq!(report.max_time, 50);
    assert_eq!(report.min_time, 10);
    assert_eq!(report.status.len(), 2);
    assert_eq!(report.status.get("200"), Some(&bucket(200, 2, 30, 50, 80)));
    assert_eq!(report.status.get("404"), Some(&bucket(404, 1, 10, 10, 10)));
    let mut site = Site::new(1, "shop".to_string(), 0);
    assert!(site.can_apply(&report));
    site.apply_dump(&report, 5, 6);
    site.apply_dump(&report, 7, 8);
    assert_eq!(site.total_requests, 6);
    assert_eq!(site.total_requests_time, 180);
    assert_eq!(site.status.0.get("200"), Some(&bucket(200, 4, 30, 50, 160)));
    let mut large = Dump::new();
    large.record(Event { status: 200, latency_ms: 1 << 63 });
    assert!(SiteDump::of_window(&large).is_none());
    let mut edge = Dump::new();
    edge.record(Event { status: 200, latency_ms: i64::MAX as u64 });
    assert_eq!(SiteDump::of_window(&edge).unwrap().total_time, i64::MAX);
}
