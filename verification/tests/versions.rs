use theseus_core::loader::ErrorKind;
use theseus_core::versions::{
    fabric_quilt_loader_version, fabric_quilt_offered, fabric_server_jar_url, fabric_version_label,
    forge_installer_name, forge_installer_url, forge_offered, forge_version_choice,
    installer_version, neoforge_installer_name, neoforge_installer_url, neoforge_matching_versions,
    neoforge_offered, neoforge_version_choice, neoforge_version_prefix, paper_build_choice,
    paper_offered, promo_lookup, purpur_build, purpur_download_url, purpur_file_name,
    purpur_offered, release_versions, vanilla_version_url, VersionKind, FABRIC_META,
};

fn strings(v: &[&str]) -> Vec<String> {
    v.iter().map(|s| s.to_string()).collect()
}

fn offers(v: &[theseus_core::versions::ServerLoaderVersion]) -> Vec<(String, bool)> {
    v.iter().map(|x| (x.id.clone(), x.recommended)).collect()
}

#[test]
fn fabric_and_quilt() {
    assert_eq!(installer_version(&strings(&["1.0.1", "1.0.0"])), "1.0.1");
    assert_eq!(installer_version(&vec![]), "latest");
    assert_eq!(offers(&fabric_quilt_offered(&vec![])), vec![("latest".to_string(), true)]);
    assert_eq!(
        fabric_quilt_loader_version(None, &strings(&["0.16.5", "0.16.4"]), false, "1.21.1"),
        Ok("0.16.5".to_string())
    );
    assert_eq!(
        fabric_quilt_loader_version(Some("0.15".into()), &vec![], false, "1.21.1"),
        Ok("0.15".to_string())
    );
    assert_eq!(
        fabric_quilt_loader_version(None, &vec![], true, "1.21.1"),
        Err(ErrorKind::InputError("No quilt loader version found for Minecraft 1.21.1".to_string()))
    );
    assert_eq!(
        fabric_server_jar_url(FABRIC_META, "1.21.1", "0.16.5", "1.0.1"),
        "https://meta.fabricmc.net/v2/versions/loader/1.21.1/0.16.5/1.0.1/server/jar"
    );
    assert_eq!(fabric_version_label("0.16.5", "1.0.1"), "0.16.5 (installer 1.0.1)");
}

fn promos() -> Vec<(String, String)> {
    vec![
        ("1.20.1-recommended".to_string(), "47.2.0".to_string()),
        ("1.20.1-latest".to_string(), "47.3.0".to_string()),
        ("1.19.2-latest".to_string(), "43.4.0".to_string()),
        ("1.18.2-recommended".to_string(), "40.2.0".to_string()),
        ("1.18.2-latest".to_string(), "40.2.0".to_string()),
    ]
}

#[test]
fn forge_promotions() {
    assert_eq!(promo_lookup(&promos(), "1.19.2-latest"), Some("43.4.0".to_string()));
    assert_eq!(promo_lookup(&promos(), "1.19.2-recommended"), None);
    assert_eq!(
        offers(&forge_offered(&promos(), "1.20.1")),
        vec![("47.2.0".to_string(), true), ("47.3.0".to_string(), false)]
    );
    assert_eq!(offers(&forge_offered(&promos(), "1.19.2")), vec![("43.4.0".to_string(), false)]);
    assert_eq!(offers(&forge_offered(&promos(), "1.18.2")), vec![("40.2.0".to_string(), true)]);
    assert!(forge_offered(&promos(), "1.7.10").is_empty());
    assert_eq!(forge_version_choice(None, &promos(), "1.20.1"), Ok("47.2.0".to_string()));
    assert_eq!(forge_version_choice(None, &promos(), "1.19.2"), Ok("43.4.0".to_string()));
    assert_eq!(forge_version_choice(Some("1".into()), &promos(), "x"), Ok("1".to_string()));
    assert_eq!(
        forge_version_choice(None, &promos(), "1.7.10"),
        Err(ErrorKind::InputError("No Forge version found for Minecraft 1.7.10".to_string()))
    );
    assert_eq!(forge_installer_name("1.20.1", "47.2.0"), "forge-1.20.1-47.2.0-installer.jar");
    assert_eq!(
        forge_installer_url("1.20.1", "47.2.0", "forge-1.20.1-47.2.0-installer.jar"),
        "https://maven.minecraftforge.net/net/minecraftforge/forge/1.20.1-47.2.0/forge-1.20.1-47.2.0-installer.jar"
    );
}

#[test]
fn neoforge_versions() {
    assert_eq!(neoforge_version_prefix("1.21.1"), vec!['2', '1', '.', '1']);
    assert_eq!(neoforge_version_prefix("24w14a"), "24w14a".chars().collect::<Vec<_>>());
    let list = strings(&["20.4.1", "21.1.1", "21.1.10-beta", "21.10.1", "21.1.2", "21.1"]);
    assert_eq!(neoforge_matching_versions(&list, "1.21.1"), strings(&["21.1.1", "21.1.10-beta", "21.1.2"]));
    assert_eq!(
        offers(&neoforge_offered(&list, "1.21.1")),
        vec![("21.1.2".to_string(), false), ("21.1.10-beta".to_string(), false), ("21.1.1".to_string(), false)]
    );
    assert_eq!(neoforge_version_choice(None, &list, "1.21.1"), Ok("21.1.2".to_string()));
    assert_eq!(
        neoforge_version_choice(None, &list, "1.12.2"),
        Err(ErrorKind::InputError("No NeoForge version found for Minecraft 1.12.2".to_string()))
    );
    assert_eq!(neoforge_installer_name("21.1.2"), "neoforge-21.1.2-installer.jar");
    assert_eq!(
        neoforge_installer_url("21.1.2", "neoforge-21.1.2-installer.jar"),
        "https://maven.neoforged.net/releases/net/neoforged/neoforge/21.1.2/neoforge-21.1.2-installer.jar"
    );
}

#[test]
fn paper_builds() {
    let builds = vec![100u32, 101, 120];
    assert_eq!(
        offers(&paper_offered(&builds)),
        vec![("120".to_string(), false), ("101".to_string(), false), ("100".to_string(), false)]
    );
    assert_eq!(paper_build_choice(&builds, None, "1.21.1"), Ok(2));
    assert_eq!(paper_build_choice(&builds, Some("101"), "1.21.1"), Ok(1));
    assert_eq!(
        paper_build_choice(&builds, Some("0101"), "1.21.1"),
        Err(ErrorKind::InputError("No Paper build found for Minecraft 1.21.1".to_string()))
    );
    assert_eq!(
        paper_build_choice(&vec![], None, "1.8"),
        Err(ErrorKind::InputError("No Paper build found for Minecraft 1.8".to_string()))
    );
}

#[test]
fn purpur_builds() {
    assert_eq!(purpur_build(None, "2300".into()), "2300");
    assert_eq!(purpur_build(Some("2299".into()), "2300".into()), "2299");
    assert_eq!(purpur_download_url("1.21.1", "2300"), "https://api.purpurmc.org/v2/purpur/1.21.1/2300/download");
    assert_eq!(purpur_file_name("1.21.1", "2300"), "purpur-1.21.1-2300.jar");
    assert_eq!(offers(&purpur_offered("2300".into())), vec![("2300".to_string(), true)]);
}

#[test]
fn vanilla_versions() {
    let manifest = vec![
        ("1.21.1".to_string(), VersionKind::Release),
        ("24w33a".to_string(), VersionKind::Snapshot),
        ("1.21".to_string(), VersionKind::Release),
        ("b1.7.3".to_string(), VersionKind::OldBeta),
    ];
    assert_eq!(release_versions(&manifest), strings(&["1.21.1", "1.21"]));
    let urls = vec![("1.21.1".to_string(), "https://x/1.21.1.json".to_string())];
    assert_eq!(vanilla_version_url(&urls, "1.21.1"), Ok("https://x/1.21.1.json".to_string()));
    assert_eq!(
        vanilla_version_url(&urls, "2.0"),
        Err(ErrorKind::InputError("Unknown Minecraft version 2.0".to_string()))
    );
}
