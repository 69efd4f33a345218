use gdcbot::cache::bot_info_entries;
use gdcbot::commands::{downloading_line, gdc_target, help_embed, CheckOutcome, GdcLog};
use gdcbot::downloader::{DepotDownloader, GDCError};
use gdcbot::embeds::{build_amx_embed, build_fail_embed, build_sm_embed, EmbedSpec, Icon, Palette};
use gdcbot::gameinfo::GameCache;
use gdcbot::gdcrunner::{BinarySet, GDCRunner, GameData, GamedataSource, WalkEntry};
use gdcbot::manager::GDCManager;
use gdcbot::parser::{absorb_feed, escape_ampersands, new_entries, notify_on_new, Item};

fn tf2() -> gdcbot::gameinfo::Game {
    GameCache::new().lookup_shortname("tf2").unwrap().clone()
}

fn item(title: &str) -> Item {
    Item {
        title: title.to_string(),
        link: format!("https://forums/{}", title),
        pub_date: String::from("Mon"),
        description: String::new(),
        content_encoded: String::new(),
        category: String::from("plugins"),
        author: String::from("someone"),
        guid: title.to_string(),
    }
}

fn titles(v: &[Item]) -> Vec<String> {
    v.iter().map(|i| i.title.clone()).collect()
}

#[test]
fn gdc_error_keeps_message() {
    let e = GDCError::new("boom");
    assert_eq!(e.message(), "boom");
    assert_eq!(e.clone().message(), "boom");
}

#[test]
fn download_path_joins_name() {
    let d = DepotDownloader::new("downloads", tf2());
    assert_eq!(d.get_download_path(), "downloads/tf2");
    assert_eq!(d.appid(), 232250);
    let d = DepotDownloader::new("downloads/", tf2());
    assert_eq!(d.get_download_path(), "downloads/tf2");
}

#[test]
fn download_dir_errors_only_when_missing() {
    assert!(DepotDownloader::check_download_dir(true, false).is_ok());
    assert!(DepotDownloader::check_download_dir(false, true).is_ok());
    assert!(DepotDownloader::check_download_dir(true, true).is_ok());
    let e = DepotDownloader::check_download_dir(false, false).unwrap_err();
    assert_eq!(e.message(), "Unable to create download directory!");
}

#[test]
fn depotdownloader_arguments() {
    assert_eq!(
        DepotDownloader::spawn_args(740, "dl/csgo"),
        vec!["DepotDownloader.dll", "-app", "740", "-all-platforms", "-filelist", "files.txt", "-dir", "dl/csgo"]
    );
}

#[test]
fn gamedata_from_path_or_url() {
    let local = GameData { appid: 740, url: String::new(), path: String::from("core.games.txt") };
    match GDCRunner::gamedata_source("/sm", &local) {
        GamedataSource::Local { path } => assert_eq!(path, "/sm/gamedata/core.games.txt"),
        _ => panic!("expected a local file"),
    }
    let both = GameData { appid: 740, url: String::from("http://x/y.txt"), path: String::from("p.txt") };
    assert!(matches!(GDCRunner::gamedata_source("/sm", &both), GamedataSource::Local { .. }));
    let remote = GameData { appid: 740, url: String::from("https://host/dir/sdktools.games.txt"), path: String::new() };
    match GDCRunner::gamedata_source("/sm", &remote) {
        GamedataSource::Remote { url, file_name, write_path } => {
            assert_eq!(url, "https://host/dir/sdktools.games.txt");
            assert_eq!(file_name, "sdktools.games.txt");
            assert_eq!(write_path, "gamedata/sdktools.games.txt");
        }
        _ => panic!("expected a download"),
    }
}

fn runner() -> GDCRunner {
    GDCRunner::from_parts(tf2(), "/sm", "dl", vec![String::from("a.txt"), String::from("b.txt")])
}

#[test]
fn runner_locations() {
    let r = runner();
    assert_eq!(r.gdc_program(), "/sm/tools/gdc-psyfork/Release/gdc");
    assert_eq!(r.download_dir(), "dl/232250");
    assert_eq!(r.gamedata_file_list(), &vec![String::from("a.txt"), String::from("b.txt")]);
}

fn walked(entries: &[(&str, &str)]) -> Vec<WalkEntry> {
    entries
        .iter()
        .map(|(n, p)| WalkEntry { file_name: n.to_string(), path: p.to_string() })
        .collect()
}

#[test]
fn find_binary_prefers_server_variant() {
    let r = runner();
    let entries = walked(&[
        ("server.so", "dl/tf/bin/server.so"),
        ("server_srv.so", "dl/tf/bin/server_srv.so"),
        ("engine.so", "dl/bin/engine.so"),
        ("server.so", "dl/other/server.so"),
    ]);
    assert_eq!(r.find_binary(&entries, "server.so", true), "dl/tf/bin/server_srv.so");
    assert_eq!(r.find_binary(&entries, "server.so", false), "dl/tf/bin/server.so");
    assert_eq!(r.find_binary(&entries, "engine.so", true), "dl/bin/engine.so");
    assert_eq!(r.find_binary(&entries, "engine.dll", false), "");
    let bins = r.find_binaries(&entries);
    assert_eq!(bins.lin_server, "dl/tf/bin/server_srv.so");
    assert_eq!(bins.win_server, "");
    assert_eq!(bins.lin_engine, "dl/bin/engine.so");
    assert_eq!(bins.win_engine, "");
}

#[test]
fn gdc_invocations() {
    let r = runner();
    assert_eq!(r.ld_library_path("/home/bot"), "/home/bot/dl/232250/bin:/home/bot/dl/232250/tf/bin:/usr/lib");
    let bins = BinarySet {
        lin_server: String::from("ls"),
        win_server: String::from("ws"),
        lin_engine: String::from("le"),
        win_engine: String::from("we"),
    };
    let args = r.gdc_args("a.txt", &bins);
    assert_eq!(
        args,
        vec![
            "-e", "orangebox_valve", "-g", "tf", "-f", "a.txt", "-b", "ls", "-w", "ws", "-x", "le", "-y", "we", "-s",
            "/sm/tools/gdc-psyfork/symbols.txt"
        ]
    );
    let runs = r.plan_runs("/home/bot", &bins);
    assert_eq!(runs.len(), 2);
    assert_eq!(runs[1].program, "/sm/tools/gdc-psyfork/Release/gdc");
    assert_eq!(runs[1].args[5], "b.txt");
    assert_eq!(runs[0].ld_library_path, "/home/bot/dl/232250/bin:/home/bot/dl/232250/tf/bin:/usr/lib");
}

#[test]
fn manager_builds_downloader_and_runner() {
    let m = GDCManager::new(tf2(), "/sm", "dl", "/depot");
    assert_eq!(m.sourcemod_path(), "/sm");
    assert_eq!(m.depot_path(), "/depot");
    assert_eq!(m.managed_game().appid, 232250);
    assert_eq!(m.downloader().get_download_path(), "dl/tf2");
    let r = m.runner(vec![String::from("x.txt")]);
    assert_eq!(r.download_dir(), "dl/232250");
    assert_eq!(r.gdc_program(), "/sm/tools/gdc-psyfork/Release/gdc");
}

#[test]
fn feed_escaping() {
    assert_eq!(escape_ampersands("a & b &amp; c"), "a &amp; b &amp;amp; c");
    assert_eq!(escape_ampersands("plain"), "plain");
}

#[test]
fn new_posts_are_announced_once() {
    let mut cache = vec![item("a"), item("b")];
    let new = vec![item("b"), item("c"), item("d"), item("c")];
    assert_eq!(titles(&new_entries(&cache, &new)), vec!["c", "d", "c"]);
    let announced = notify_on_new(&mut cache, &new);
    assert_eq!(titles(&announced), vec!["c", "d", "c"]);
    assert_eq!(titles(&cache), vec!["a", "b", "c", "d", "c"]);
    assert!(notify_on_new(&mut cache, &new).is_empty());
    assert_eq!(cache.len(), 5);
}

#[test]
fn changed_post_counts_as_new() {
    let mut cache = vec![item("a")];
    let mut changed = item("a");
    changed.author = String::from("other");
    let announced = notify_on_new(&mut cache, &vec![changed]);
    assert_eq!(announced.len(), 1);
    assert_eq!(announced[0].author, "other");
}

#[test]
fn first_poll_fills_cache_silently() {
    let mut cache: Vec<Item> = Vec::new();
    assert!(absorb_feed(&mut cache, vec![item("a"), item("b")]).is_empty());
    assert_eq!(titles(&cache), vec!["a", "b"]);
    let announced = absorb_feed(&mut cache, vec![item("b"), item("c")]);
    assert_eq!(titles(&announced), vec!["c"]);
    assert_eq!(titles(&cache), vec!["a", "b", "c"]);
    assert!(absorb_feed(&mut cache, vec![item("b"), item("c")]).is_empty());
}

fn fields(e: &EmbedSpec) -> Vec<(String, String, bool)> {
    e.fields.iter().map(|f| (f.name.clone(), f.value.clone(), f.inline)).collect()
}

#[test]
fn fail_embed() {
    let e = build_fail_embed("alice", "It broke");
    assert_eq!(e.color, Some(Palette::Fail));
    assert_eq!(e.title.as_deref(), Some("Critical error:"));
    assert_eq!(e.description.as_deref(), Some("It broke"));
    assert_eq!(e.thumbnail, Some(Icon::Fail));
    assert_eq!(e.footer.as_deref(), Some("Requested by: alice"));
    assert!(e.fields.is_empty());
}

#[test]
fn plugin_embeds() {
    let e = build_amx_embed(item("cool"));
    assert_eq!(e.color, Some(Palette::Amx));
    assert_eq!(e.title.as_deref(), Some("New AMX Plugin Posted:"));
    assert_eq!(e.thumbnail, Some(Icon::Notify));
    assert_eq!(
        fields(&e),
        vec![
            (String::from("Title"), String::from("cool"), false),
            (String::from("Author"), String::from("someone"), false),
            (String::from("Link"), String::from("[Click Here](https://forums/cool)"), false),
        ]
    );
    let s = build_sm_embed(item("cool"));
    assert_eq!(s.color, Some(Palette::Sm));
    assert_eq!(s.title.as_deref(), Some("New SM Plugin Posted:"));
    assert_eq!(fields(&s), fields(&e));
    assert!(s.footer.is_none() && s.description.is_none());
}

#[test]
fn help_answers() {
    let e = help_embed(None);
    assert_eq!(e.title.as_deref(), Some("Commands"));
    assert_eq!(e.description.as_deref(), Some("I currently have no commands, add one! "));
    assert_eq!(e.color, Some(Palette::Okay));
    assert_eq!(e.thumbnail, Some(Icon::Help));
    let e = help_embed(Some("help"));
    assert_eq!(e.description.as_deref(), Some("Do you like recursion or something?"));
    assert_eq!(e.thumbnail, Some(Icon::Help));
    assert!(e.title.is_none() && e.color.is_none());
    let e = help_embed(Some("ping"));
    assert_eq!(e.title.as_deref(), Some("Command not found"));
    assert_eq!(e.description.as_deref(), Some("Unknown command 'ping'"));
    assert_eq!(e.color, Some(Palette::Fail));
    assert_eq!(e.thumbnail, Some(Icon::Fail));
}

#[test]
fn gdc_target_errors() {
    let cache = GameCache::new();
    assert_eq!(
        gdc_target(None, &cache).err().unwrap(),
        "Please supply a game to execute gamedata checker on.\n\nExample: -gdc csgo"
    );
    assert_eq!(gdc_target(Some("quake"), &cache).err().unwrap(), "Invalid or unsupported target.");
    assert_eq!(gdc_target(Some("css"), &cache).ok().unwrap().appid, 232330);
}

#[test]
fn gdc_log_embeds() {
    let mut log = GdcLog::new("bob#1");
    let e = log.progress("Pulling latest sourcemod...");
    assert_eq!(e.description.as_deref(), Some("```\nPulling latest sourcemod...\n```"));
    assert_eq!(e.title.as_deref(), Some("Gamedata Checker"));
    assert_eq!(e.footer.as_deref(), Some("Requested by: bob#1"));
    assert_eq!(e.color, Some(Palette::Gdc));
    assert_eq!(e.thumbnail, Some(Icon::Gdc));
    let line = downloading_line(740);
    assert_eq!(line, "Downloading appid '740'");
    let e = log.progress(&line);
    assert_eq!(e.description.as_deref(), Some("```\nPulling latest sourcemod...\nDownloading appid '740'\n```"));
    let results = vec![
        CheckOutcome { file: String::from("ok.txt"), outcome: Ok(true) },
        CheckOutcome { file: String::from("bad.txt"), outcome: Err(GDCError::new("no such file")) },
        CheckOutcome { file: String::from("fail.txt"), outcome: Ok(false) },
    ];
    let e = log.results(&results);
    assert_eq!(
        e.description.as_deref(),
        Some("```\nPulling latest sourcemod...\nDownloading appid '740'\nExecution completed.\n```")
    );
    assert_eq!(fields(&e), vec![(String::from("bad.txt"), String::from("```\nno such file\n```"), false)]);
}

#[test]
fn bot_info_keys() {
    let entries = bot_info_entries("123", "-", "42");
    assert_eq!(entries[0].0, "PLUGIN_CHANNEL");
    assert_eq!(entries[0].1, "123");
    assert_eq!(entries[1].0, "BOT_PREFIX");
    assert_eq!(entries[1].1, "-");
    assert_eq!(entries[2].0, "BOT_ID");
    assert_eq!(entries[2].1, "42");
}

#[test]
fn posts_compare_by_every_field() {
    assert!(item("a") == item("a"));
    assert!(item("a") != item("b"));
    let mut other = item("a");
    other.guid = String::from("z");
    assert!(item("a") != other);
    assert!(item("a").same_as(&item("a").clone()));
}
