use theseus_core::archive::{
    compress_action, decompress_action, ensure_extracted_action, is_excluded_from_archive,
    kept_when_pruning, plan_archive_blocks, recompress_action, total_size, FolderAction,
    ARCHIVE_FILE_NAME, MAX_BLOCK_SIZE,
};
use theseus_core::content::{
    classify_mod_files, client_only_projects, make_content_item, mod_project_id, mods_to_copy,
    sort_content_items, text_less_eq,
};
use theseus_core::encoding::{check_download_sha1, hex_lower, icon_data_url, mods_toml_metadata, sha1_hex};
use theseus_core::loader::ErrorKind;
use theseus_core::metadata::{
    description_text, mod_json_fields, parse_mods_toml, ping_result, JsonValue,
};

fn s(x: &str) -> String {
    x.to_string()
}

#[test]
fn archive_exclusions() {
    let comps = |v: &[&str]| v.iter().map(|c| c.to_string()).collect::<Vec<_>>();
    assert!(is_excluded_from_archive(&comps(&[ARCHIVE_FILE_NAME])));
    assert!(is_excluded_from_archive(&comps(&["screenshots"])));
    assert!(is_excluded_from_archive(&comps(&["screenshots", "a.png"])));
    assert!(!is_excluded_from_archive(&comps(&["options.txt"])));
    assert!(!is_excluded_from_archive(&comps(&["config", "screenshots", "x.png"])));
    assert!(!is_excluded_from_archive(&comps(&["saves", ARCHIVE_FILE_NAME])));
    assert!(!is_excluded_from_archive(&comps(&[])));
    assert!(kept_when_pruning(true, "x"));
    assert!(kept_when_pruning(false, "screenshots"));
    assert!(!kept_when_pruning(false, "mods"));
}

#[test]
fn archive_blocks() {
    let big = MAX_BLOCK_SIZE;
    let half = MAX_BLOCK_SIZE / 2;
    let sizes = vec![10, half, half, big, 5, big + 1, 0];
    let blocks = plan_archive_blocks(&sizes);
    let view: Vec<(bool, Vec<usize>)> = blocks.iter().map(|b| (b.solid, b.files.clone())).collect();
    assert_eq!(
        view,
        vec![
            (true, vec![0, 1]),
            (false, vec![3]),
            (false, vec![5]),
            (true, vec![2, 4, 6]),
        ]
    );
    assert!(plan_archive_blocks(&vec![]).is_empty());
    assert_eq!(total_size(&vec![1, 2, 3]), 6);
    assert_eq!(total_size(&vec![]), 0);
}

#[test]
fn compression_actions() {
    let msg = |r: Result<FolderAction, ErrorKind>| match r {
        Err(ErrorKind::InputError(m)) => m,
        _ => panic!("expected an input error"),
    };
    assert_eq!(
        msg(compress_action("i1", true, Some(false))),
        "Instance is currently running; stop it before changing compression"
    );
    assert_eq!(msg(compress_action("i1", false, None)), "Tried to compress nonexistent instance i1");
    assert_eq!(compress_action("i1", false, Some(true)), Ok(FolderAction::Nothing));
    assert_eq!(compress_action("i1", false, Some(false)), Ok(FolderAction::Compress));
    assert_eq!(msg(decompress_action("i2", false, false, true)), "Tried to decompress nonexistent instance i2");
    assert_eq!(decompress_action("i2", false, true, true), Ok(FolderAction::Extract));
    assert_eq!(decompress_action("i2", false, true, false), Ok(FolderAction::Nothing));
    assert_eq!(msg(ensure_extracted_action("i3", None, true)), "Tried to launch nonexistent instance i3");
    assert_eq!(ensure_extracted_action("i3", Some(true), true), Ok(FolderAction::Extract));
    assert_eq!(ensure_extracted_action("i3", Some(true), false), Ok(FolderAction::Nothing));
    assert_eq!(ensure_extracted_action("i3", Some(false), true), Ok(FolderAction::Nothing));
    assert_eq!(msg(recompress_action("i4", None, false, true)), "Tried to recompress nonexistent instance i4");
    assert_eq!(recompress_action("i4", Some(true), false, true), Ok(FolderAction::Compress));
    assert_eq!(recompress_action("i4", Some(true), false, false), Ok(FolderAction::Nothing));
    assert_eq!(recompress_action("i4", Some(true), true, true), Ok(FolderAction::Nothing));
}

#[test]
fn content_items_and_sorting() {
    let item = make_content_item(s("a.jar.disabled"), 7, Some(s("A")), Some(s("1")), None);
    assert!(!item.enabled);
    assert_eq!(item.title, None);
    let item = make_content_item(s("b.jar"), 8, Some(s("B")), Some(s("2")), Some(s("data:")));
    assert!(item.enabled);
    assert_eq!(item.title.as_deref(), Some("B"));
    let names = ["zeta.jar", "Alpha.jar", "alpha.jar", "beta.jar.disabled", "beta.jar", "é.jar"];
    let items: Vec<_> = names.iter().map(|n| make_content_item(s(n), 1, None, None, None)).collect();
    let sorted = sort_content_items(items);
    let got: Vec<&str> = sorted.iter().map(|i| i.file_name.as_str()).collect();
    let mut expected: Vec<&str> = names.to_vec();
    expected.sort();
    assert_eq!(got, expected);
    let same = vec![
        make_content_item(s("b.jar"), 1, None, None, None),
        make_content_item(s("a.jar"), 2, None, None, None),
        make_content_item(s("b.jar"), 3, None, None, None),
        make_content_item(s("a.jar"), 4, None, None, None),
    ];
    let sizes: Vec<u64> = sort_content_items(same).iter().map(|i| i.size).collect();
    assert_eq!(sizes, vec![2, 4, 1, 3]);
    assert!(text_less_eq("abc", "abd"));
    assert!(text_less_eq("ab", "abc"));
    assert!(!text_less_eq("b", "abc"));
    assert!(text_less_eq("", ""));
}

#[test]
fn mod_sync_planning() {
    let projects = vec![
        (s("mods/sodium.jar"), Some(s("AANobbMI"))),
        (s("mods/empty.jar"), Some(s(""))),
        (s("mods/nometa.jar"), None),
        (s("mods/iris.jar"), Some(s("YL57xq9U"))),
        (s("mods/iris2.jar"), Some(s("YL57xq9U"))),
    ];
    assert_eq!(mod_project_id(&projects, "sodium.jar"), Some(s("AANobbMI")));
    assert_eq!(mod_project_id(&projects, "empty.jar"), None);
    assert_eq!(mod_project_id(&projects, "nometa.jar"), None);
    let names = vec![
        s("sodium.jar"),
        s("iris.jar"),
        s("iris2.jar"),
        s("custom.jar"),
        s("old.jar.disabled"),
        s("notes.txt"),
        s("empty.jar"),
    ];
    let c = classify_mod_files(&names, &projects);
    assert_eq!(c.unlisted, vec![s("custom.jar"), s("empty.jar")]);
    assert_eq!(
        c.listed,
        vec![(s("sodium.jar"), s("AANobbMI")), (s("iris.jar"), s("YL57xq9U")), (s("iris2.jar"), s("YL57xq9U"))]
    );
    assert_eq!(c.project_ids, vec![s("AANobbMI"), s("YL57xq9U")]);
    let replies = vec![
        (Some(s("YL57xq9U")), Some(s("unsupported"))),
        (Some(s("AANobbMI")), Some(s("optional"))),
        (None, Some(s("unsupported"))),
    ];
    let client = client_only_projects(&replies);
    assert_eq!(client, vec![s("YL57xq9U")]);
    let (copied, skipped) = mods_to_copy(c.unlisted, &c.listed, &client);
    assert_eq!(copied, vec![s("custom.jar"), s("empty.jar"), s("sodium.jar")]);
    assert_eq!(skipped, 2);
}

fn obj(members: Vec<(&str, JsonValue)>) -> JsonValue {
    JsonValue::Object(members.into_iter().map(|(k, v)| (k.to_string(), v)).collect())
}

fn st(x: &str) -> JsonValue {
    JsonValue::Str(x.to_string())
}

#[test]
fn server_descriptions() {
    assert_eq!(description_text(None), None);
    assert_eq!(description_text(Some(&st("Hello"))), Some(s("Hello")));
    let comp = obj(vec![
        ("text", st("A ")),
        ("extra", JsonValue::Array(vec![obj(vec![("text", st("B"))]), JsonValue::Number, obj(vec![("text", st("C"))])])),
    ]);
    assert_eq!(description_text(Some(&comp)), Some(s("A BC")));
    assert_eq!(description_text(Some(&obj(vec![("extra", JsonValue::Array(vec![]))]))), None);
    assert_eq!(description_text(Some(&JsonValue::Null)), None);
    let r = ping_result(Some(&comp), Some((3, 20, vec![s("Steve")])), None, Some(s("1.21.1")));
    assert_eq!(r.motd.as_deref(), Some("A BC"));
    assert_eq!((r.players_online, r.players_max), (3, 20));
    let r = ping_result(None, None, Some(s("data:x")), None);
    assert_eq!((r.players_online, r.players_max, r.players.len()), (0, 0, 0));
}

#[test]
fn mod_json_metadata() {
    let fabric = obj(vec![("name", st("Sodium")), ("version", st("0.5")), ("icon", st("assets/icon.png"))]);
    assert_eq!(mod_json_fields(&fabric, false), (Some(s("Sodium")), Some(s("0.5")), Some(s("assets/icon.png"))));
    let quilt = obj(vec![(
        "quilt_loader",
        obj(vec![("version", st("1.2")), ("metadata", obj(vec![("name", st("Q")), ("icon", JsonValue::Bool(true))]))]),
    )]);
    assert_eq!(mod_json_fields(&quilt, true), (Some(s("Q")), Some(s("1.2")), None));
    assert_eq!(mod_json_fields(&fabric, true), (None, None, None));
}

#[test]
fn forge_mods_toml() {
    let toml = "modLoader=\"javafml\"\n[[mods]]\nversion=\"${file.jarVersion}\"\n  displayName=\"Just Enough Items\"\nversion=\"19.5.0\"\ndisplayName=\"Other\"\n";
    assert_eq!(parse_mods_toml(toml), (Some(s("Just Enough Items")), Some(s("19.5.0"))));
    assert_eq!(parse_mods_toml("nothing here"), (None, None));
    assert_eq!(mods_toml_metadata(toml.as_bytes()), (Some(s("Just Enough Items")), Some(s("19.5.0"))));
    assert_eq!(mods_toml_metadata(&[0xff, 0xfe]), (None, None));
}

#[test]
fn checksums_and_icons() {
    assert_eq!(hex_lower(&[0x00, 0x0f, 0xab, 0xff]), "000fabff");
    assert_eq!(sha1_hex(b"abc"), "a9993e364706816aba3e25717850c26c9cd0d89d");
    assert_eq!(sha1_hex(b""), "da39a3ee5e6b4b0d3255bfef95601890afd80709");
    assert_eq!(check_download_sha1("u", None, b"abc"), Ok(()));
    assert_eq!(check_download_sha1("u", Some("a9993e364706816aba3e25717850c26c9cd0d89d"), b"abc"), Ok(()));
    assert_eq!(
        check_download_sha1("https://x/s.jar", Some("00"), b"abc"),
        Err(ErrorKind::InputError(
            "Downloaded https://x/s.jar has wrong SHA-1 (expected 00, got a9993e364706816aba3e25717850c26c9cd0d89d)".to_string()
        ))
    );
    assert_eq!(icon_data_url(b"Man"), "data:image/png;base64,TWFu");
    assert_eq!(icon_data_url(b"Ma"), "data:image/png;base64,TWE=");
    assert_eq!(icon_data_url(b"M"), "data:image/png;base64,TQ==");
    assert_eq!(icon_data_url(&[0xfb, 0xff]), "data:image/png;base64,+/8=");
    assert_eq!(icon_data_url(b""), "data:image/png;base64,");
}
