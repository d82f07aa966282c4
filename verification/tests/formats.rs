use theseus_core::config::{eula_text, server_properties_text, spawn_command, start_script_text};
use theseus_core::java::{required_java_version, resolve_java_version};
use theseus_core::loader::ServerLoader;
use theseus_core::numbers::{decimal_string, parse_u32_chars};
use theseus_core::properties::{parse_server_properties, render_server_properties};
use theseus_core::servers::{ChocoServer, CreateServerOptions};
use theseus_core::text::{chars_of, trim_text};

fn pairs(v: &[(&str, &str)]) -> Vec<(String, String)> {
    v.iter().map(|(a, b)| (a.to_string(), b.to_string())).collect()
}

#[test]
fn properties_are_read_in_order_skipping_comments_and_blanks() {
    let text = "# a comment\n\nserver-port=25565\n  motd = Hello World  \r\nno-equals-line\nkey=a=b\n#x=y\n=empty-key\nlast=";
    let props = parse_server_properties(text);
    assert_eq!(
        props,
        pairs(&[
            ("server-port", "25565"),
            ("motd ", " Hello World"),
            ("key", "a=b"),
            ("", "empty-key"),
            ("last", ""),
        ])
    );
}

#[test]
fn properties_of_empty_text_are_empty() {
    assert!(parse_server_properties("").is_empty());
    assert!(parse_server_properties("\n\n   \n").is_empty());
}

#[test]
fn properties_round_trip() {
    let props = pairs(&[("server-port", "25566"), ("motd", "My = server"), ("pvp", ""), ("", "x")]);
    let text = render_server_properties(&props);
    assert_eq!(
        text,
        "# server.properties (edited in ChocoModrinth)\nserver-port=25566\nmotd=My = server\npvp=\n=x\n"
    );
    assert_eq!(parse_server_properties(&text), props);
}

#[test]
fn properties_that_do_not_round_trip() {
    // a key with leading whitespace loses it when read back
    let props = pairs(&[(" key", "v")]);
    let text = render_server_properties(&props);
    assert_eq!(parse_server_properties(&text), pairs(&[("key", "v")]));
}

#[test]
fn trim_handles_unicode_whitespace() {
    assert_eq!(trim_text("\u{3000}\t a b \u{a0}\n"), "a b");
    assert_eq!(trim_text("   "), "");
    assert_eq!(trim_text("x"), "x");
}

#[test]
fn chars_of_keeps_every_character() {
    assert_eq!(chars_of("héllo"), vec!['h', 'é', 'l', 'l', 'o']);
}

#[test]
fn decimal_writing_and_reading() {
    assert_eq!(decimal_string(0), "0");
    assert_eq!(decimal_string(25565), "25565");
    assert_eq!(decimal_string(u64::MAX), u64::MAX.to_string());
    let parse = |s: &str| {
        let v: Vec<char> = s.chars().collect();
        parse_u32_chars(&v, 0, v.len())
    };
    assert_eq!(parse("4294967295"), Some(u32::MAX));
    assert_eq!(parse("4294967296"), None);
    assert_eq!(parse("+17"), Some(17));
    assert_eq!(parse("+"), None);
    assert_eq!(parse(""), None);
    assert_eq!(parse("1a"), None);
    assert_eq!(parse("-1"), None);
    assert_eq!(parse("007"), Some(7));
    for s in ["0", "12", "+3", "99999999999", "x", "", "+", " 1"] {
        assert_eq!(parse(s), s.parse::<u32>().ok(), "{s}");
    }
}

#[test]
fn java_versions_by_game_version() {
    assert_eq!(required_java_version("1.20.5"), 21);
    assert_eq!(required_java_version("1.20.4"), 17);
    assert_eq!(required_java_version("1.21"), 21);
    assert_eq!(required_java_version("1.21.1"), 21);
    assert_eq!(required_java_version("1.17"), 17);
    assert_eq!(required_java_version("1.16.5"), 8);
    assert_eq!(required_java_version("1.18-pre2"), 17);
    assert_eq!(required_java_version("26.2"), 21);
    assert_eq!(required_java_version("b1.7.3"), 8);
    assert_eq!(required_java_version(""), 8);
    assert_eq!(required_java_version("1.20.5-rc1"), 21);
}

#[test]
fn metadata_java_version_wins() {
    assert_eq!(resolve_java_version("26.2", Some(25)), 25);
    assert_eq!(resolve_java_version("1.12.2", None), 8);
}

#[test]
fn eula_file_text() {
    assert_eq!(
        eula_text("2024-01-01T00:00:00+00:00", true),
        "# Accepted via ChocoModrinth server creator on 2024-01-01T00:00:00+00:00\neula=true\n"
    );
    assert!(eula_text("t", false).ends_with("\neula=false\n"));
}

fn options(loader: ServerLoader) -> CreateServerOptions {
    CreateServerOptions {
        name: "Test".to_string(),
        game_version: "1.21.1".to_string(),
        loader,
        loader_version: None,
        ram_mb: 2048,
        port: 25570,
        motd: None,
        difficulty: Some("hard".to_string()),
        gamemode: None,
        max_players: Some(5),
        online_mode: Some(false),
        accept_eula: true,
        level_name: Some("castle".to_string()),
        linked_instance_id: None,
        icon_path: None,
    }
}

#[test]
fn initial_server_properties() {
    let text = server_properties_text(&options(ServerLoader::Paper));
    assert_eq!(
        text,
        "#server.properties generated by ChocoModrinth\nserver-port=25570\nmotd=A ChocoModrinth server\ndifficulty=hard\ngamemode=survival\nmax-players=5\nonline-mode=false\nenable-rcon=false\nview-distance=10\nlevel-name=castle\n"
    );
    let read = parse_server_properties(&text);
    assert_eq!(read.len(), 9);
    assert_eq!(read[0], ("server-port".to_string(), "25570".to_string()));
    assert_eq!(read[8], ("level-name".to_string(), "castle".to_string()));
}

#[test]
fn start_scripts() {
    assert_eq!(
        start_script_text(ServerLoader::Vanilla, 1024, "server.jar", "/java/bin/java", false),
        "#!/usr/bin/env bash\ncd \"$(dirname \"$0\")\"\n\"/java/bin/java\" -Xmx1024M -Xms1024M -jar server.jar nogui\n"
    );
    assert_eq!(
        start_script_text(ServerLoader::Paper, 512, "paper.jar", "C:\\java.exe", true),
        "@echo off\r\ncd /d \"%~dp0\"\r\n\"C:\\java.exe\" -Xmx512M -Xms512M -jar paper.jar nogui\r\npause\r\n"
    );
    assert_eq!(start_script_text(ServerLoader::Forge, 512, "", "java", true), "call run.bat\r\npause\r\n");
    assert_eq!(start_script_text(ServerLoader::NeoForge, 512, "", "java", false), "./run.sh\n");
}

fn server(loader: ServerLoader, jar: Option<&str>, java: Option<&str>) -> ChocoServer {
    ChocoServer {
        id: "local:1".to_string(),
        name: "S".to_string(),
        path: "S".to_string(),
        game_version: "1.21.1".to_string(),
        loader,
        loader_version: None,
        jar_file: jar.map(|s| s.to_string()),
        ram_mb: 4096,
        port: 25565,
        eula_accepted: true,
        java_path: java.map(|s| s.to_string()),
        linked_instance_id: None,
        icon_file: None,
        created_secs: 0,
        created_nanos: 0,
    }
}

#[test]
fn spawn_commands() {
    let (p, a) = spawn_command(&server(ServerLoader::Fabric, None, None), false);
    assert_eq!(p, "java");
    assert_eq!(a, vec!["-Xmx4096M", "-Xms4096M", "-jar", "server.jar", "nogui"]);
    let (p, a) = spawn_command(&server(ServerLoader::Purpur, Some("purpur.jar"), Some("/j")), true);
    assert_eq!(p, "/j");
    assert_eq!(a[3], "purpur.jar");
    let (p, a) = spawn_command(&server(ServerLoader::Forge, None, Some("/j")), true);
    assert_eq!((p.as_str(), a), ("cmd", vec!["/c".to_string(), "run.bat".to_string()]));
    let (p, a) = spawn_command(&server(ServerLoader::NeoForge, None, None), false);
    assert_eq!(p, "./run.sh");
    assert!(a.is_empty());
}
