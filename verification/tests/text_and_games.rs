use gdcbot::gameinfo::{getapp_shortname, GameCache};
use gdcbot::steam::{apps_query_url, BuildReport, GameVersionManager};
use gdcbot::text::{after_last, i32_to_decimal, join_path, parse_u64, replace_all, text_eq};

#[test]
fn decimal_text_of_integers() {
    assert_eq!(i32_to_decimal(0), "0");
    assert_eq!(i32_to_decimal(7), "7");
    assert_eq!(i32_to_decimal(740), "740");
    assert_eq!(i32_to_decimal(-5), "-5");
    assert_eq!(i32_to_decimal(-40), "-40");
    assert_eq!(i32_to_decimal(i32::MAX), "2147483647");
    assert_eq!(i32_to_decimal(i32::MIN), "-2147483648");
}

#[test]
fn parse_unsigned_numbers() {
    assert_eq!(parse_u64("123"), Some(123));
    assert_eq!(parse_u64("+7"), Some(7));
    assert_eq!(parse_u64("007"), Some(7));
    assert_eq!(parse_u64("0"), Some(0));
    assert_eq!(parse_u64("18446744073709551615"), Some(u64::MAX));
    assert_eq!(parse_u64("18446744073709551616"), None);
    assert_eq!(parse_u64("99999999999999999999x"), None);
    assert_eq!(parse_u64(""), None);
    assert_eq!(parse_u64("+"), None);
    assert_eq!(parse_u64("-1"), None);
    assert_eq!(parse_u64("12a"), None);
    assert_eq!(parse_u64(" 12"), None);
    for s in ["123", "+7", "007", "", "+", "-1", "12a", "18446744073709551616"] {
        assert_eq!(parse_u64(s), s.parse::<u64>().ok());
    }
}

#[test]
fn decimal_round_trip() {
    for n in [0i32, 9, 10, 740, 232250, 317670, i32::MAX] {
        assert_eq!(parse_u64(&i32_to_decimal(n)), Some(n as u64));
    }
}

#[test]
fn join_paths_like_std() {
    assert_eq!(join_path("dl", "csgo"), "dl/csgo");
    assert_eq!(join_path("dl/", "csgo"), "dl/csgo");
    assert_eq!(join_path("", "csgo"), "csgo");
    assert_eq!(join_path("dl", "/abs/bin"), "/abs/bin");
    assert_eq!(join_path("dl", ""), "dl/");
    for (a, b) in [("dl", "csgo"), ("dl/", "csgo"), ("", "x"), ("dl", "/abs"), ("/", "x")] {
        let expected = std::path::Path::new(a).join(b).to_str().unwrap().to_owned();
        assert_eq!(join_path(a, b), expected);
    }
}

#[test]
fn replace_every_occurrence() {
    assert_eq!(replace_all("server.so", ".so", "_srv.so"), "server_srv.so");
    assert_eq!(replace_all("server.dll", ".so", "_srv.so"), "server.dll");
    assert_eq!(replace_all("a&b&&c", "&", "&amp;"), "a&amp;b&amp;&amp;c");
    assert_eq!(replace_all("aaa", "aa", "b"), "ba");
    assert_eq!(replace_all("", "x", "y"), "");
    for (s, p, r) in [("x.so.so", ".so", "_srv.so"), ("aaaa", "aa", "a"), ("abc", "abcd", "z")] {
        assert_eq!(replace_all(s, p, r), s.replace(p, r));
    }
}

#[test]
fn text_after_last_slash() {
    assert_eq!(after_last("http://host/dir/file.txt", '/'), Some(String::from("file.txt")));
    assert_eq!(after_last("ends/", '/'), Some(String::new()));
    assert_eq!(after_last("nothing", '/'), None);
}

#[test]
fn text_equality() {
    assert!(text_eq("csgo", "csgo"));
    assert!(!text_eq("csgo", "css"));
    assert!(!text_eq("", "a"));
}

#[test]
fn game_table_ids() {
    let cache = GameCache::new();
    assert_eq!(cache.get_ids(), vec![740, 232250, 232330, 222860, 317670]);
}

#[test]
fn game_table_lookup_by_name() {
    let cache = GameCache::new();
    let tf2 = cache.lookup_shortname("tf2").unwrap();
    assert_eq!(tf2.appid, 232250);
    assert_eq!(tf2.gamedir, "tf");
    assert_eq!(tf2.engine, "orangebox_valve");
    let l4d2 = cache.lookup_shortname("l4d2").unwrap();
    assert_eq!(l4d2.appid, 222860);
    assert!(cache.lookup_shortname("portal").is_none());
    assert!(cache.lookup_shortname("").is_none());
    for name in ["csgo", "tf2", "css", "l4d2", "nmrih"] {
        assert_eq!(cache.lookup_shortname(name).unwrap().name, name);
    }
}

#[test]
fn game_table_lookup_by_appid() {
    let cache = GameCache::new();
    assert_eq!(cache.lookup_appid(317670).unwrap().name, "nmrih");
    assert_eq!(cache.lookup_appid(232330).unwrap().gamedir, "cstrike");
    assert!(cache.lookup_appid(1).is_none());
    for id in cache.get_ids() {
        assert_eq!(cache.lookup_appid(id).unwrap().appid, id);
    }
}

#[test]
fn shortnames_of_appids() {
    let cache = GameCache::new();
    assert_eq!(getapp_shortname(740), "csgo");
    assert_eq!(getapp_shortname(232250), "tf2");
    assert_eq!(getapp_shortname(232330), "unknown");
    assert_eq!(getapp_shortname(0), "unknown");
    for id in [740, 232250] {
        assert_eq!(cache.lookup_appid(id).unwrap().name, getapp_shortname(id));
    }
}

#[test]
fn version_manager_polls_the_table() {
    let m = GameVersionManager::new();
    assert_eq!(m.get_apps(), vec![740, 232250, 232330, 222860, 317670]);
}

#[test]
fn check_update_reports_changed_builds() {
    let mut m = GameVersionManager::new();
    assert!(!m.check_update(740, 5));
    assert!(!m.check_update(740, 5));
    assert!(m.check_update(740, 6));
    assert!(!m.check_update(740, 6));
    assert!(!m.check_update(1, 0));
    assert!(!m.check_update(1, 9));
    assert!(m.check_update(1, 10));
    assert!(!m.check_update(2, 3));
}

#[test]
fn record_reports_flags_updates() {
    let mut m = GameVersionManager::new();
    let rep = |a: &str, b: &str| BuildReport { app_key: a.to_string(), build_id: b.to_string() };
    let first = vec![rep("740", "100"), rep("232250", "7")];
    assert_eq!(m.record_reports(&first), vec![false, false]);
    let second = vec![rep("740", "101"), rep("232250", "7"), rep("740", "102")];
    assert_eq!(m.record_reports(&second), vec![true, false, true]);
    assert!(!m.check_update(740, 102));
}

#[test]
fn query_url_lists_ids() {
    assert_eq!(
        apps_query_url(&vec![740, 232250]),
        "http://127.0.0.1:23455/info?apps=740,232250"
    );
    assert_eq!(apps_query_url(&vec![]), "http://127.0.0.1:23455/info?apps=");
    let ids = GameVersionManager::new().get_apps();
    assert_eq!(
        apps_query_url(&ids),
        "http://127.0.0.1:23455/info?apps=740,232250,232330,222860,317670"
    );
}
