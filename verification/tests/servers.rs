use theseus_core::control::{
    check_move_allowed, check_start_allowed, mod_loader_from_name, next_stop_step, plan_import,
    PackDependency, StopStep,
};
use theseus_core::loader::{content_folder_name, ErrorKind, ModLoader, ServerLoader};
use theseus_core::moves::{
    plan_instance_move, plan_server_move, record_server_move, MoveServersReport,
};
use theseus_core::names::{
    check_content_file_name, is_copyable_mod_file, is_enabled_content, is_png_file_name,
    numbered_server_path, sanitize_level_name, sanitize_server_name, toggled_content_name,
};
use theseus_core::servers::{
    accept_eula_in_index, find_server, free_server_path, get_server_by_id, linked_profile, local_server_id,
    new_server_record, stored_jar_file,
    path_in_use, profile_server_options, remove_from_index, ChocoServer, CreateServerOptions,
};

const ALL: [ServerLoader; 7] = [
    ServerLoader::Vanilla,
    ServerLoader::Fabric,
    ServerLoader::Forge,
    ServerLoader::NeoForge,
    ServerLoader::Quilt,
    ServerLoader::Paper,
    ServerLoader::Purpur,
];

#[test]
fn loader_names_round_trip() {
    for l in ALL {
        assert_eq!(ServerLoader::from_str_value(l.as_str()), Ok(l));
    }
    assert_eq!(ServerLoader::NeoForge.as_str(), "neoforge");
}

#[test]
fn unknown_loader_name_is_an_input_error() {
    assert_eq!(
        ServerLoader::from_str_value("Forge"),
        Err(ErrorKind::InputError("Unknown server loader Forge".to_string()))
    );
    assert_eq!(
        ServerLoader::from_str_value(""),
        Err(ErrorKind::InputError("Unknown server loader ".to_string()))
    );
}

#[test]
fn loader_properties() {
    let plain: Vec<bool> = ALL.iter().map(|l| l.uses_plain_jar()).collect();
    assert_eq!(plain, vec![true, true, false, false, true, true, true]);
    assert_eq!(content_folder_name(ServerLoader::Paper), "plugins");
    assert_eq!(content_folder_name(ServerLoader::Purpur), "plugins");
    assert_eq!(content_folder_name(ServerLoader::Fabric), "mods");
    assert_eq!(ServerLoader::from_mod_loader(ModLoader::NeoForge), ServerLoader::NeoForge);
    assert_eq!(ServerLoader::from_mod_loader(ModLoader::Vanilla), ServerLoader::Vanilla);
    assert_eq!(ServerLoader::from_mod_loader(ModLoader::Quilt), ServerLoader::Quilt);
}

#[test]
fn server_names_are_sanitized() {
    assert_eq!(sanitize_server_name("My: Server?"), "My  Server");
    assert_eq!(sanitize_server_name("  a/b\\c  "), "a b c");
    assert_eq!(sanitize_server_name("<>|\"*"), "server");
    assert_eq!(sanitize_server_name(""), "server");
    let once = sanitize_server_name(" x:y ");
    assert_eq!(sanitize_server_name(&once), once);
}

#[test]
fn level_names_are_sanitized() {
    assert_eq!(sanitize_level_name("My World!"), "My_World_");
    assert_eq!(sanitize_level_name("Wörld-1_2"), "W_rld-1_2");
    assert_eq!(sanitize_level_name(""), "world");
    let once = sanitize_level_name("a b.c");
    assert_eq!(sanitize_level_name(&once), once);
}

#[test]
fn numbered_paths() {
    assert_eq!(numbered_server_path("Server", 2), "Server (2)");
    assert_eq!(numbered_server_path("x", 10), "x (10)");
}

#[test]
fn content_names() {
    assert!(is_enabled_content("a.jar"));
    assert!(!is_enabled_content("a.jar.disabled"));
    assert_eq!(toggled_content_name("a.jar", false), "a.jar.disabled");
    assert_eq!(toggled_content_name("a.jar.disabled", true), "a.jar");
    assert_eq!(toggled_content_name("a.jar", true), "a.jar");
    let off = toggled_content_name("mod.jar", false);
    assert_eq!(toggled_content_name(&off, true), "mod.jar");
    assert!(is_copyable_mod_file("sodium.jar"));
    assert!(!is_copyable_mod_file("sodium.jar.disabled"));
    assert!(!is_copyable_mod_file("readme.txt"));
}

#[test]
fn content_file_name_checks() {
    assert_eq!(check_content_file_name("ok.jar"), Ok(()));
    assert_eq!(check_content_file_name("a.b.jar"), Ok(()));
    let bad = Err(ErrorKind::InputError("Invalid file name".to_string()));
    assert_eq!(check_content_file_name("../x.jar"), bad);
    assert_eq!(check_content_file_name("dir/x.jar"), bad);
    assert_eq!(check_content_file_name("dir\\x.jar"), bad);
    assert_eq!(check_content_file_name("x..jar"), bad);
}

#[test]
fn png_names() {
    assert!(is_png_file_name("icon.png"));
    assert!(is_png_file_name("icon.PnG"));
    assert!(is_png_file_name("a.b.png"));
    assert!(!is_png_file_name(".png"));
    assert!(!is_png_file_name("png"));
    assert!(!is_png_file_name("icon.jpg"));
    assert!(!is_png_file_name("icon.png.bak"));
    assert!(!is_png_file_name(".."));
    assert!(!is_png_file_name("icon."));
}

fn server(id: &str, path: &str) -> ChocoServer {
    ChocoServer {
        id: id.to_string(),
        name: format!("name of {id}"),
        path: path.to_string(),
        game_version: "1.21.1".to_string(),
        loader: ServerLoader::Vanilla,
        loader_version: None,
        jar_file: Some("server.jar".to_string()),
        ram_mb: 2048,
        port: 25565,
        eula_accepted: false,
        java_path: None,
        linked_instance_id: if id == "b" { Some("profile-1".to_string()) } else { None },
        icon_file: None,
        created_secs: 5,
        created_nanos: 6,
    }
}

#[test]
fn index_lookups() {
    let servers = vec![server("a", "A"), server("b", "B"), server("a", "A2")];
    assert_eq!(find_server(&servers, "a"), Some(0));
    assert_eq!(find_server(&servers, "b"), Some(1));
    assert_eq!(find_server(&servers, "c"), None);
    assert_eq!(get_server_by_id(&servers, "b").unwrap().path, "B");
    assert_eq!(
        get_server_by_id(&servers, "zz").unwrap_err(),
        ErrorKind::InputError("Server zz was not found".to_string())
    );
    assert!(path_in_use(&servers, "A2"));
    assert!(!path_in_use(&servers, "C"));
}

#[test]
fn accepting_the_eula_marks_one_server() {
    let mut servers = vec![server("a", "A"), server("b", "B"), server("a", "A2")];
    assert_eq!(accept_eula_in_index(&mut servers, "a"), Some(0));
    assert!(servers[0].eula_accepted);
    assert!(!servers[1].eula_accepted);
    assert!(!servers[2].eula_accepted);
    assert_eq!(accept_eula_in_index(&mut servers, "nope"), None);
}

#[test]
fn removing_a_server() {
    let mut servers = vec![server("a", "A"), server("b", "B")];
    let removed = remove_from_index(&mut servers, "a").unwrap();
    assert_eq!(removed.path, "A");
    assert_eq!(servers.len(), 1);
    assert_eq!(servers[0].id, "b");
    assert!(remove_from_index(&mut servers, "a").is_none());
    assert_eq!(servers.len(), 1);
}

#[test]
fn linked_profiles() {
    let servers = vec![server("a", "A"), server("b", "B")];
    let (s, p) = linked_profile(&servers, "b").unwrap();
    assert_eq!((s.id.as_str(), p.as_str()), ("b", "profile-1"));
    assert_eq!(
        linked_profile(&servers, "a").unwrap_err(),
        ErrorKind::InputError("This server is not linked to a profile".to_string())
    );
    assert_eq!(
        linked_profile(&servers, "x").unwrap_err(),
        ErrorKind::InputError("Server not found".to_string())
    );
}

fn opts() -> CreateServerOptions {
    CreateServerOptions {
        name: "New".to_string(),
        game_version: "1.20.1".to_string(),
        loader: ServerLoader::Forge,
        loader_version: Some("47.2.0".to_string()),
        ram_mb: 3000,
        port: 25599,
        motd: None,
        difficulty: None,
        gamemode: None,
        max_players: None,
        online_mode: None,
        accept_eula: true,
        level_name: None,
        linked_instance_id: Some("p".to_string()),
        icon_path: None,
    }
}

#[test]
fn new_records() {
    let s = new_server_record(&opts(), "x", "New".into(), String::new(), None, "/java".into(), None, 1, 2);
    assert_eq!(s.id, "local:x");
    assert_eq!(s.jar_file, None);
    assert_eq!(s.loader_version.as_deref(), Some("47.2.0"));
    assert_eq!(s.java_path.as_deref(), Some("/java"));
    assert!(s.eula_accepted);
    let forge_jar = new_server_record(&opts(), "u", "p".into(), "server.jar".into(), None, "j".into(), None, 1, 2);
    assert_eq!(forge_jar.jar_file, None);
    let fabric = CreateServerOptions { loader: ServerLoader::Fabric, ..opts() };
    let s = new_server_record(&fabric, "123e4567-e89b-42d3-a456-426614174000", "p".into(), "server.jar".into(), Some("0.15 (installer 1.0)".into()), "j".into(), Some("server-icon.png".into()), 1, 2);
    assert_eq!(s.id, "local:123e4567-e89b-42d3-a456-426614174000");
    assert_eq!(s.jar_file.as_deref(), Some("server.jar"));
    assert_eq!(s.loader_version.as_deref(), Some("0.15 (installer 1.0)"));
    assert_eq!(s.icon_file.as_deref(), Some("server-icon.png"));
}

#[test]
fn stored_jars_and_ids() {
    for l in ALL {
        let forge_like = l == ServerLoader::Forge || l == ServerLoader::NeoForge;
        assert_eq!(stored_jar_file(l, "server.jar".into()).is_none(), forge_like);
        assert_eq!(stored_jar_file(l, String::new()), None);
    }
    assert_eq!(stored_jar_file(ServerLoader::Paper, "paper-1.21-100.jar".into()).as_deref(), Some("paper-1.21-100.jar"));
    assert_eq!(local_server_id("abc"), "local:abc");
}

#[test]
fn free_server_folder_names() {
    let servers = vec![server("a", "Survival"), server("b", "Survival (2)")];
    assert_eq!(free_server_path("Creative", &servers, &vec![]), ("Creative".to_string(), 1));
    assert_eq!(free_server_path("Survival", &servers, &vec![]), ("Survival (3)".to_string(), 3));
    let taken = vec!["Survival (3)".to_string(), "Survival (5)".to_string()];
    assert_eq!(free_server_path("Survival", &servers, &taken), ("Survival (4)".to_string(), 4));
    assert_eq!(free_server_path("Creative", &vec![], &vec!["Creative".to_string()]), ("Creative (2)".to_string(), 2));
}

#[test]
fn options_from_a_profile() {
    let o = profile_server_options("Pack", "1.21.1".into(), ModLoader::Fabric, Some("0.16".into()), Some("My Save!".into()), false, 4096, 25570, "inst".into(), None);
    assert_eq!(o.name, "Pack Server");
    assert_eq!(o.loader, ServerLoader::Fabric);
    assert_eq!(o.motd.as_deref(), Some("My_Save_"));
    assert_eq!(o.level_name.as_deref(), Some("My_Save_"));
    assert_eq!(o.difficulty.as_deref(), Some("normal"));
    assert_eq!(o.gamemode.as_deref(), Some("survival"));
    assert_eq!(o.max_players, Some(20));
    assert_eq!(o.online_mode, Some(true));
    assert_eq!(o.linked_instance_id.as_deref(), Some("inst"));
    let o = profile_server_options("Pack", "1.21.1".into(), ModLoader::Vanilla, None, None, true, 1, 2, "i".into(), Some("/icon.png".into()));
    assert_eq!(o.motd, None);
    assert_eq!(o.level_name, None);
    assert_eq!(o.icon_path.as_deref(), Some("/icon.png"));
}

#[test]
fn server_move_decisions() {
    let e = plan_server_move(false, "A", "/t/A", false, false, false).unwrap_err();
    assert_eq!(e, "Server folder was not found");
    let e = plan_server_move(true, "A", "/t/A", false, true, false).unwrap_err();
    assert_eq!(e, "A folder named 'A' already exists in the target location");
    let p = plan_server_move(true, "A", "/t/A", false, false, false).unwrap();
    assert!(p.copy);
    assert_eq!(p.new_path, "/t/A");
    let p = plan_server_move(true, "A", "/t/A", true, true, true).unwrap();
    assert!(!p.copy);
    assert_eq!(p.new_path, "A");
}

#[test]
fn recording_server_moves() {
    let mut servers = vec![server("a", "A"), server("b", "B")];
    let mut report = MoveServersReport { moved: Vec::new(), failed: Vec::new() };
    let plan = plan_server_move(true, "B", "/t/B", false, false, false);
    record_server_move(&mut servers, 1, "b".into(), plan, &mut report);
    assert_eq!(servers[1].path, "/t/B");
    assert_eq!(report.moved.len(), 1);
    assert_eq!(report.moved[0].name, "name of b");
    let plan = plan_server_move(false, "A", "/t/A", false, false, false);
    record_server_move(&mut servers, 0, "a".into(), plan, &mut report);
    assert_eq!(servers[0].path, "A");
    assert_eq!(report.failed.len(), 1);
    assert_eq!(report.failed[0].error, "Server folder was not found");
}

#[test]
fn instance_move_decisions() {
    let err = |r: Result<_, ErrorKind>| match r {
        Err(ErrorKind::InputError(m)) => m,
        _ => panic!("expected an input error"),
    };
    assert_eq!(
        err(plan_instance_move("P", true, true, None, false, "/d", true, false)),
        "'P' is currently running; stop it before moving it"
    );
    assert_eq!(
        err(plan_instance_move("P", false, true, None, false, "/d", true, false)),
        "'P' is compressed; decompress it before moving it"
    );
    assert_eq!(
        err(plan_instance_move("P", false, false, None, false, "/d", true, false)),
        "Cannot determine folder name for 'P'"
    );
    assert_eq!(
        err(plan_instance_move("P", false, false, Some("f".into()), false, "/d/f", true, false)),
        "A folder named 'f' already exists in the target location"
    );
    let p = plan_instance_move("P", false, false, Some("f".into()), true, "/d/f", true, true).unwrap();
    assert!(!p.copy);
    assert_eq!(p.new_path, "f");
    let p = plan_instance_move("P", false, false, Some("f".into()), false, "/d/f", false, false).unwrap();
    assert!(p.copy);
    assert_eq!(p.new_path, "/d/f");
}

#[test]
fn running_servers_block_moves_and_starts() {
    let ids = vec!["a".to_string(), "b".to_string()];
    assert_eq!(
        check_move_allowed(&ids, &vec!["b".to_string()]),
        Err("A selected server is still running; stop it before moving it".to_string())
    );
    assert_eq!(check_move_allowed(&ids, &vec!["c".to_string()]), Ok(()));
    assert_eq!(check_move_allowed(&vec![], &vec!["c".to_string()]), Ok(()));
    assert_eq!(check_start_allowed(&vec!["a".to_string()], "a"), Err("Server is already running".to_string()));
    assert_eq!(check_start_allowed(&vec![], "a"), Ok(()));
}

#[test]
fn stopping_ends_within_thirty_checks() {
    assert_eq!(next_stop_step(1, true), StopStep::Stopped);
    assert_eq!(next_stop_step(1, false), StopStep::Wait);
    assert_eq!(next_stop_step(29, false), StopStep::Wait);
    assert_eq!(next_stop_step(30, false), StopStep::Kill);
    assert_eq!(next_stop_step(30, true), StopStep::Stopped);
}

#[test]
fn import_plans() {
    assert_eq!(mod_loader_from_name("neoforge"), ModLoader::NeoForge);
    assert_eq!(mod_loader_from_name("unknown"), ModLoader::Vanilla);
    match plan_import("folder", None) {
        Err(ErrorKind::InputError(m)) => assert_eq!(m, "Profile 'folder' was not found in the Modrinth App database"),
        _ => panic!(),
    }
    match plan_import("folder", Some((None, None, None, None))) {
        Err(ErrorKind::InputError(m)) => assert_eq!(m, "Profile 'folder' has no Minecraft version recorded"),
        _ => panic!(),
    }
    let p = plan_import("folder", Some((None, Some("1.20.1".into()), Some("fabric".into()), Some("0.15".into())))).ok().unwrap();
    assert_eq!(p.name, "folder");
    assert_eq!(p.loader, ModLoader::Fabric);
    assert_eq!(p.dependencies, vec![(PackDependency::Minecraft, "1.20.1".to_string()), (PackDependency::FabricLoader, "0.15".to_string())]);
    let p = plan_import("folder", Some((Some("Nice".into()), Some("1.8.9".into()), None, Some("x".into())))).ok().unwrap();
    assert_eq!(p.name, "Nice");
    assert_eq!(p.dependencies, vec![(PackDependency::Minecraft, "1.8.9".to_string())]);
}
