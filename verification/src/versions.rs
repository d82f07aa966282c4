//! Versions of the server software: which ones are offered for a game
//! version, given what the loaders' metadata services list, which one a
//! download takes when none is asked for, and the download locations and
//! file names derived from them.
use vstd::prelude::*;
use crate::loader::ErrorKind;
use crate::numbers::{decimal, decimal_string};
use crate::text::{
    chars_of, push_char, same_text, starts_with, string_of_range, vec_starts_with,
};

verus! {

pub const FABRIC_META: &'static str = "https://meta.fabricmc.net/v2";

pub const QUILT_META: &'static str = "https://meta.quiltmc.org/v3";

pub const FORGE_MAVEN: &'static str = "https://maven.minecraftforge.net/net/minecraftforge/forge";

pub const NEOFORGE_MAVEN: &'static str = "https://maven.neoforged.net/releases/net/neoforged/neoforge";

pub const PAPER_API: &'static str = "https://api.papermc.io/v2/projects/paper";

pub const PURPUR_API: &'static str = "https://api.purpurmc.org/v2/purpur";

/// A loader version offered for a game version.
#[derive(Clone, Debug)]
pub struct ServerLoaderVersion {
    pub id: String,
    pub recommended: bool,
}

pub open spec fn str_views(v: Seq<String>) -> Seq<Seq<char>> {
    v.map_values(|s: String| s@)
}

pub open spec fn offer_views(v: Seq<ServerLoaderVersion>) -> Seq<(Seq<char>, bool)> {
    v.map_values(|x: ServerLoaderVersion| (x.id@, x.recommended))
}

/// The first listed installer version, or `latest` where none is listed.
pub open spec fn first_or_latest(v: Seq<Seq<char>>) -> Seq<char> {
    if v.len() > 0 {
        v[0]
    } else {
        "latest"@
    }
}

pub fn installer_version(installers: &Vec<String>) -> (r: String)
    ensures
        r@ == first_or_latest(str_views(installers@)),
{
    if installers.len() > 0 {
        installers[0].clone()
    } else {
        String::from_str("latest")
    }
}

/// The versions offered for Fabric and Quilt: the installer that would be
/// used, as the one recommended version.
pub fn fabric_quilt_offered(installers: &Vec<String>) -> (r: Vec<ServerLoaderVersion>)
    ensures
        offer_views(r@) == seq![(first_or_latest(str_views(installers@)), true)],
{
    let mut r = Vec::new();
    r.push(ServerLoaderVersion { id: installer_version(installers), recommended: true });
    assert(offer_views(r@) =~= seq![(first_or_latest(str_views(installers@)), true)]);
    r
}

/// The loader version a Fabric or Quilt server is built with: the one asked
/// for, else the first one listed for the game version; an input error
/// where neither exists.
pub fn fabric_quilt_loader_version(
    requested: Option<String>,
    listed: &Vec<String>,
    is_quilt: bool,
    game_version: &str,
) -> (r: Result<String, ErrorKind>)
    ensures
        match requested {
            Some(v) => r == Ok::<String, ErrorKind>(v),
            None => if listed@.len() > 0 {
                r == Ok::<String, ErrorKind>(listed@[0])
            } else {
                r matches Err(ErrorKind::InputError(m)) && m@ == "No "@ + (if is_quilt {
                    "quilt"@
                } else {
                    "fabric"@
                }) + " loader version found for Minecraft "@ + game_version@
            },
        },
{
    match requested {
        Some(v) => Ok(v),
        None => {
            if listed.len() > 0 {
                Ok(listed[0].clone())
            } else {
                let mut m = String::from_str("No ");
                if is_quilt {
                    m.append("quilt");
                } else {
                    m.append("fabric");
                }
                m.append(" loader version found for Minecraft ");
                m.append(game_version);
                Err(ErrorKind::InputError(m))
            }
        },
    }
}

/// The server jar location of Fabric (or Quilt, with `meta` its service)
/// for a game, loader and installer version.
pub fn fabric_server_jar_url(meta: &str, game_version: &str, loader_version: &str, installer: &str) -> (r:
    String)
    ensures
        r@ == meta@ + "/versions/loader/"@ + game_version@ + "/"@ + loader_version@ + "/"@
            + installer@ + "/server/jar"@,
{
    let mut r = String::from_str(meta);
    r.append("/versions/loader/");
    r.append(game_version);
    r.append("/");
    r.append(loader_version);
    r.append("/");
    r.append(installer);
    r.append("/server/jar");
    r
}

/// The loader version recorded for a Fabric or Quilt server.
pub fn fabric_version_label(loader_version: &str, installer: &str) -> (r: String)
    ensures
        r@ == loader_version@ + " (installer "@ + installer@ + ")"@,
{
    let mut r = String::from_str(loader_version);
    r.append(" (installer ");
    r.append(installer);
    r.append(")");
    r
}

/// The value of the first entry of `promos` under `key`.
pub open spec fn promo(promos: Seq<(Seq<char>, Seq<char>)>, key: Seq<char>) -> Option<Seq<char>>
    decreases promos.len(),
{
    if promos.len() == 0 {
        None
    } else if promos[0].0 == key {
        Some(promos[0].1)
    } else {
        promo(promos.drop_first(), key)
    }
}

pub open spec fn promo_views(p: Seq<(String, String)>) -> Seq<(Seq<char>, Seq<char>)> {
    p.map_values(|x: (String, String)| (x.0@, x.1@))
}

/// Looks up a promotion of Forge's promotions list.
pub fn promo_lookup(promos: &Vec<(String, String)>, key: &str) -> (r: Option<String>)
    ensures
        match r {
            Some(v) => promo(promo_views(promos@), key@) == Some(v@),
            None => promo(promo_views(promos@), key@) is None,
        },
{
    let mut i: usize = 0;
    assert(promo_views(promos@).skip(0) =~= promo_views(promos@));
    while i < promos.len()
        invariant
            i <= promos.len(),
            promo(promo_views(promos@), key@) == promo(promo_views(promos@).skip(i as int), key@),
        decreases promos.len() - i,
    {
        let ghost rest = promo_views(promos@).skip(i as int);
        assert(rest.drop_first() =~= promo_views(promos@).skip(i + 1));
        if same_text(promos[i].0.as_str(), key) {
            return Some(promos[i].1.clone());
        }
        i = i + 1;
    }
    None
}

/// The promotions key of Forge for a game version: `<version>-<kind>`.
pub open spec fn promo_key(game_version: Seq<char>, kind: Seq<char>) -> Seq<char> {
    game_version + "-"@ + kind
}

fn make_promo_key(game_version: &str, kind: &str) -> (r: String)
    ensures
        r@ == promo_key(game_version@, kind@),
{
    let mut r = String::from_str(game_version);
    r.append("-");
    r.append(kind);
    r
}

/// The Forge versions offered for a game version: the recommended
/// promotion (marked recommended), then the latest one where it differs.
pub open spec fn forge_offers(promos: Seq<(Seq<char>, Seq<char>)>, gv: Seq<char>) -> Seq<
    (Seq<char>, bool),
> {
    let rec = promo(promos, promo_key(gv, "recommended"@));
    let lat = promo(promos, promo_key(gv, "latest"@));
    let first: Seq<(Seq<char>, bool)> = match rec {
        Some(r) => seq![(r, true)],
        None => seq![],
    };
    match lat {
        Some(l) => if rec == Some(l) {
            first
        } else {
            first.push((l, false))
        },
        None => first,
    }
}

pub fn forge_offered(promos: &Vec<(String, String)>, game_version: &str) -> (r: Vec<
    ServerLoaderVersion,
>)
    ensures
        offer_views(r@) == forge_offers(promo_views(promos@), game_version@),
{
    let rk = make_promo_key(game_version, "recommended");
    let lk = make_promo_key(game_version, "latest");
    let rec = promo_lookup(promos, rk.as_str());
    let lat = promo_lookup(promos, lk.as_str());
    let mut r: Vec<ServerLoaderVersion> = Vec::new();
    let mut rec_id: Option<String> = None;
    match rec {
        Some(v) => {
            rec_id = Some(v.clone());
            r.push(ServerLoaderVersion { id: v, recommended: true });
        },
        None => {},
    }
    match lat {
        Some(l) => {
            let same = match &rec_id {
                Some(x) => same_text(x.as_str(), l.as_str()),
                None => false,
            };
            if !same {
                r.push(ServerLoaderVersion { id: l, recommended: false });
            }
        },
        None => {},
    }
    assert(offer_views(r@) =~= forge_offers(promo_views(promos@), game_version@));
    r
}

/// The Forge version a server is built with where none is asked for: the
/// recommended promotion, else the latest.
pub open spec fn forge_default(promos: Seq<(Seq<char>, Seq<char>)>, gv: Seq<char>) -> Option<
    Seq<char>,
> {
    match promo(promos, promo_key(gv, "recommended"@)) {
        Some(r) => Some(r),
        None => promo(promos, promo_key(gv, "latest"@)),
    }
}

/// The Forge version to install: the one asked for, else the default; an
/// input error where there is none.
pub fn forge_version_choice(
    requested: Option<String>,
    promos: &Vec<(String, String)>,
    game_version: &str,
) -> (r: Result<String, ErrorKind>)
    ensures
        match requested {
            Some(v) => r == Ok::<String, ErrorKind>(v),
            None => match forge_default(promo_views(promos@), game_version@) {
                Some(d) => r matches Ok(s) && s@ == d,
                None => r matches Err(ErrorKind::InputError(m)) && m@
                    == "No Forge version found for Minecraft "@ + game_version@,
            },
        },
{
    match requested {
        Some(v) => Ok(v),
        None => {
            let rk = make_promo_key(game_version, "recommended");
            match promo_lookup(promos, rk.as_str()) {
                Some(v) => Ok(v),
                None => {
                    let lk = make_promo_key(game_version, "latest");
                    match promo_lookup(promos, lk.as_str()) {
                        Some(v) => Ok(v),
                        None => {
                            let mut m = String::from_str("No Forge version found for Minecraft ");
                            m.append(game_version);
                            Err(ErrorKind::InputError(m))
                        },
                    }
                },
            }
        },
    }
}

/// Where no Forge version is asked for, the one installed is the first one
/// offered.
pub proof fn law_forge_default_is_first_offered(promos: Seq<(Seq<char>, Seq<char>)>, gv: Seq<char>)
    ensures
        forge_default(promos, gv) is Some <==> forge_offers(promos, gv).len() > 0,
        forge_default(promos, gv) matches Some(d) ==> forge_offers(promos, gv)[0].0 == d,
{
}

/// The installer file of a Forge version.
pub fn forge_installer_name(game_version: &str, forge_version: &str) -> (r: String)
    ensures
        r@ == "forge-"@ + game_version@ + "-"@ + forge_version@ + "-installer.jar"@,
{
    let mut r = String::from_str("forge-");
    r.append(game_version);
    r.append("-");
    r.append(forge_version);
    r.append("-installer.jar");
    r
}

/// Where the Forge installer is downloaded from.
pub fn forge_installer_url(game_version: &str, forge_version: &str, installer_name: &str) -> (r:
    String)
    ensures
        r@ == FORGE_MAVEN@ + "/"@ + game_version@ + "-"@ + forge_version@ + "/"@
            + installer_name@,
{
    let mut r = String::from_str(FORGE_MAVEN);
    r.append("/");
    r.append(game_version);
    r.append("-");
    r.append(forge_version);
    r.append("/");
    r.append(installer_name);
    r
}

/// The NeoForge version prefix of a game version: NeoForge versions are
/// built per game version with the leading `1.` dropped (1.21.1 -> 21.1).
pub open spec fn neoforge_prefix(gv: Seq<char>) -> Seq<char> {
    if starts_with(gv, "1."@) {
        gv.skip(2)
    } else {
        gv
    }
}

/// Whether a NeoForge version belongs to the prefix: it starts with the
/// prefix followed by `.` or `-`.
pub open spec fn neoforge_matches(v: Seq<char>, prefix: Seq<char>) -> bool {
    starts_with(v, prefix + "."@) || starts_with(v, prefix + "-"@)
}

/// The listed NeoForge versions that belong to the prefix, in list order.
pub open spec fn neoforge_matching(list: Seq<Seq<char>>, prefix: Seq<char>) -> Seq<Seq<char>>
    decreases list.len(),
{
    if list.len() == 0 {
        seq![]
    } else {
        let r = neoforge_matching(list.drop_last(), prefix);
        if neoforge_matches(list.last(), prefix) {
            r.push(list.last())
        } else {
            r
        }
    }
}

pub fn neoforge_version_prefix(game_version: &str) -> (r: Vec<char>)
    ensures
        r@ == neoforge_prefix(game_version@),
{
    let v = chars_of(game_version);
    let p = chars_of("1.");
    if vec_starts_with(&v, &p) {
        proof {
            reveal_strlit("1.");
        }
        let mut r = Vec::new();
        let mut i: usize = 2;
        while i < v.len()
            invariant
                2 <= i <= v.len(),
                r@ == v@.subrange(2, i as int),
            decreases v.len() - i,
        {
            r.push(v[i]);
            i = i + 1;
            assert(r@ =~= v@.subrange(2, i as int));
        }
        assert(v@.skip(2) =~= v@.subrange(2, v.len() as int));
        r
    } else {
        v
    }
}

fn neoforge_version_matches(v: &str, prefix: &Vec<char>) -> (b: bool)
    ensures
        b == neoforge_matches(v@, prefix@),
{
    let c = chars_of(v);
    let mut dot = prefix.clone();
    dot.push('.');
    let mut dash = prefix.clone();
    dash.push('-');
    proof {
        reveal_strlit(".");
        reveal_strlit("-");
        assert(dot@ =~= prefix@ + "."@);
        assert(dash@ =~= prefix@ + "-"@);
    }
    vec_starts_with(&c, &dot) || vec_starts_with(&c, &dash)
}

/// The NeoForge versions of the list that belong to a game version.
pub fn neoforge_matching_versions(list: &Vec<String>, game_version: &str) -> (r: Vec<String>)
    ensures
        str_views(r@) == neoforge_matching(str_views(list@), neoforge_prefix(game_version@)),
{
    let prefix = neoforge_version_prefix(game_version);
    let mut r: Vec<String> = Vec::new();
    let mut i: usize = 0;
    while i < list.len()
        invariant
            i <= list.len(),
            prefix@ == neoforge_prefix(game_version@),
            str_views(r@) == neoforge_matching(str_views(list@).take(i as int), prefix@),
        decreases list.len() - i,
    {
        let ghost before = r@;
        let ghost t = str_views(list@).take(i + 1);
        assert(t.drop_last() =~= str_views(list@).take(i as int));
        assert(t.last() == list@[i as int]@);
        if neoforge_version_matches(list[i].as_str(), &prefix) {
            r.push(list[i].clone());
            assert(str_views(r@) =~= str_views(before).push(list@[i as int]@));
        }
        i = i + 1;
    }
    assert(str_views(list@).take(list.len() as int) =~= str_views(list@));
    r
}

/// The NeoForge versions offered for a game version: those that belong to
/// it, newest (last listed) first, none marked recommended.
pub fn neoforge_offered(list: &Vec<String>, game_version: &str) -> (r: Vec<ServerLoaderVersion>)
    ensures
        offer_views(r@) == neoforge_matching(
            str_views(list@),
            neoforge_prefix(game_version@),
        ).reverse().map_values(|v: Seq<char>| (v, false)),
{
    let m = neoforge_matching_versions(list, game_version);
    let ghost target = str_views(m@).reverse().map_values(|v: Seq<char>| (v, false));
    let mut r: Vec<ServerLoaderVersion> = Vec::new();
    let mut i: usize = m.len();
    while i > 0
        invariant
            i <= m.len(),
            target == str_views(m@).reverse().map_values(|v: Seq<char>| (v, false)),
            offer_views(r@) == target.take(m.len() - i),
        decreases i,
    {
        let ghost before = r@;
        r.push(ServerLoaderVersion { id: m[i - 1].clone(), recommended: false });
        assert(target[m.len() - i] == (m@[i - 1]@, false));
        assert(offer_views(r@) =~= offer_views(before).push((m@[i - 1]@, false)));
        assert(offer_views(r@) =~= target.take(m.len() - i + 1));
        i = i - 1;
    }
    assert(target.take(m.len() as int) =~= target);
    r
}

/// The NeoForge version to install: the one asked for, else the last one
/// listed for the game version; an input error where there is none.
pub fn neoforge_version_choice(requested: Option<String>, list: &Vec<String>, game_version: &str) -> (r:
    Result<String, ErrorKind>)
    ensures
        ({
            let m = neoforge_matching(str_views(list@), neoforge_prefix(game_version@));
            match requested {
                Some(v) => r == Ok::<String, ErrorKind>(v),
                None => if m.len() > 0 {
                    r matches Ok(s) && s@ == m.last()
                } else {
                    r matches Err(ErrorKind::InputError(e)) && e@
                        == "No NeoForge version found for Minecraft "@ + game_version@
                },
            }
        }),
{
    match requested {
        Some(v) => Ok(v),
        None => {
            let m = neoforge_matching_versions(list, game_version);
            if m.len() > 0 {
                Ok(m[m.len() - 1].clone())
            } else {
                let mut e = String::from_str("No NeoForge version found for Minecraft ");
                e.append(game_version);
                Err(ErrorKind::InputError(e))
            }
        },
    }
}

/// Where no NeoForge version is asked for, the one installed is the first
/// one offered.
pub proof fn law_neoforge_default_is_first_offered(list: Seq<Seq<char>>, gv: Seq<char>)
    ensures
        ({
            let m = neoforge_matching(list, neoforge_prefix(gv));
            let offers = m.reverse().map_values(|v: Seq<char>| (v, false));
            m.len() > 0 ==> offers[0].0 == m.last()
        }),
{
}

/// The NeoForge installer file of a version.
pub fn neoforge_installer_name(neoforge_version: &str) -> (r: String)
    ensures
        r@ == "neoforge-"@ + neoforge_version@ + "-installer.jar"@,
{
    let mut r = String::from_str("neoforge-");
    r.append(neoforge_version);
    r.append("-installer.jar");
    r
}

/// Where the NeoForge installer is downloaded from.
pub fn neoforge_installer_url(neoforge_version: &str, installer_name: &str) -> (r: String)
    ensures
        r@ == NEOFORGE_MAVEN@ + "/"@ + neoforge_version@ + "/"@ + installer_name@,
{
    let mut r = String::from_str(NEOFORGE_MAVEN);
    r.append("/");
    r.append(neoforge_version);
    r.append("/");
    r.append(installer_name);
    r
}

/// The Paper builds offered: newest (last listed) first, by build number.
pub fn paper_offered(builds: &Vec<u32>) -> (r: Vec<ServerLoaderVersion>)
    ensures
        r@.len() == builds@.len(),
        forall|i: int|
            0 <= i < r@.len() ==> #[trigger] r@[i].id@ == decimal(builds@[builds@.len() - 1 - i] as nat)
                && !r@[i].recommended,
{
    let mut r: Vec<ServerLoaderVersion> = Vec::new();
    let mut i: usize = builds.len();
    while i > 0
        invariant
            i <= builds.len(),
            r@.len() == builds.len() - i,
            forall|k: int|
                0 <= k < r@.len() ==> #[trigger] r@[k].id@ == decimal(
                    builds@[builds@.len() - 1 - k] as nat,
                ) && !r@[k].recommended,
        decreases i,
    {
        let ghost before = r@;
        r.push(ServerLoaderVersion { id: decimal_string(builds[i - 1] as u64), recommended: false });
        assert(forall|k: int| 0 <= k < before.len() ==> r@[k] == before[k]);
        i = i - 1;
    }
    r
}

/// The Paper build to install: where one is asked for, the first listed
/// build whose number is written so; else the last listed build. `None`
/// where there is no such build.
pub open spec fn paper_choice(builds: Seq<u32>, requested: Option<Seq<char>>) -> Option<int> {
    match requested {
        Some(b) => if exists|i: int| 0 <= i < builds.len() && decimal(builds[i] as nat) == b {
            Some(
                choose|i: int|
                    0 <= i < builds.len() && decimal(builds[i] as nat) == b && forall|j: int|
                        0 <= j < i ==> decimal(builds[j] as nat) != b,
            )
        } else {
            None
        },
        None => if builds.len() > 0 {
            Some(builds.len() - 1)
        } else {
            None
        },
    }
}

/// The position of the Paper build to install; an input error where there
/// is none.
pub fn paper_build_choice(builds: &Vec<u32>, requested: Option<&str>, game_version: &str) -> (r:
    Result<usize, ErrorKind>)
    ensures
        match paper_choice(builds@, opt_view(requested)) {
            Some(i) => r == Ok::<usize, ErrorKind>(i as usize),
            None => r matches Err(ErrorKind::InputError(m)) && m@
                == "No Paper build found for Minecraft "@ + game_version@,
        },
{
    let found: Option<usize> = match requested {
        Some(b) => {
            let mut i: usize = 0;
            let mut found = false;
            while i < builds.len() && !found
                invariant
                    i <= builds.len(),
                    forall|j: int| 0 <= j < i ==> decimal(builds@[j] as nat) != b@,
                    found ==> i < builds.len() && decimal(builds@[i as int] as nat) == b@,
                decreases builds.len() - i + (if found {
                    0int
                } else {
                    1int
                }),
            {
                let s = decimal_string(builds[i] as u64);
                if same_text(s.as_str(), b) {
                    found = true;
                } else {
                    i = i + 1;
                }
            }
            proof {
                if found {
                    let c = choose|c: int|
                        0 <= c < builds@.len() && decimal(builds@[c] as nat) == b@ && forall|j: int|
                            0 <= j < c ==> decimal(builds@[j] as nat) != b@;
                    if c < i {
                        assert(decimal(builds@[c] as nat) != b@);
                    } else if c > i {
                        assert(decimal(builds@[i as int] as nat) != b@);
                    }
                }
            }
            if found {
                Some(i)
            } else {
                None
            }
        },
        None => if builds.len() > 0 {
            Some(builds.len() - 1)
        } else {
            None
        },
    };
    match found {
        Some(i) => Ok(i),
        None => {
            let mut m = String::from_str("No Paper build found for Minecraft ");
            m.append(game_version);
            Err(ErrorKind::InputError(m))
        },
    }
}

pub open spec fn opt_view(o: Option<&str>) -> Option<Seq<char>> {
    match o {
        Some(s) => Some(s@),
        None => None,
    }
}

/// Where no Paper build is asked for, the one installed is the first one
/// offered; asking for an offered build installs that build.
pub proof fn law_paper_choice(builds: Seq<u32>, k: int)
    requires
        0 <= k < builds.len(),
    ensures
        paper_choice(builds, None) == Some(builds.len() - 1),
        paper_choice(builds, Some(decimal(builds[k] as nat))) matches Some(i) && builds[i]
            == builds[k],
{
    let b = decimal(builds[k] as nat);
    assert(decimal(builds[k] as nat) == b);
    let i = choose|i: int|
        0 <= i < builds.len() && decimal(builds[i] as nat) == b && forall|j: int|
            0 <= j < i ==> decimal(builds[j] as nat) != b;
    // the smallest position holding that number exists
    assert(exists|i: int|
        0 <= i < builds.len() && decimal(builds[i] as nat) == b && forall|j: int|
            0 <= j < i ==> decimal(builds[j] as nat) != b) by {
        lemma_first_match(builds, b, k);
    }
    crate::numbers::law_parse_decimal(builds[i]);
    crate::numbers::law_parse_decimal(builds[k]);
}

proof fn lemma_first_match(builds: Seq<u32>, b: Seq<char>, k: int)
    requires
        0 <= k < builds.len(),
        decimal(builds[k] as nat) == b,
    ensures
        exists|i: int|
            0 <= i < builds.len() && decimal(builds[i] as nat) == b && forall|j: int|
                0 <= j < i ==> decimal(builds[j] as nat) != b,
    decreases k,
{
    if exists|j: int| 0 <= j < k && decimal(builds[j] as nat) == b {
        let j = choose|j: int| 0 <= j < k && decimal(builds[j] as nat) == b;
        lemma_first_match(builds, b, j);
    } else {
        assert(forall|j: int| 0 <= j < k ==> decimal(builds[j] as nat) != b);
    }
}

/// The Purpur build to install: the one asked for, else the latest.
pub fn purpur_build(requested: Option<String>, latest: String) -> (r: String)
    ensures
        r == match requested {
            Some(b) => b,
            None => latest,
        },
{
    match requested {
        Some(b) => b,
        None => latest,
    }
}

/// Where a Purpur build is downloaded from.
pub fn purpur_download_url(game_version: &str, build: &str) -> (r: String)
    ensures
        r@ == PURPUR_API@ + "/"@ + game_version@ + "/"@ + build@ + "/download"@,
{
    let mut r = String::from_str(PURPUR_API);
    r.append("/");
    r.append(game_version);
    r.append("/");
    r.append(build);
    r.append("/download");
    r
}

/// The jar file of a Purpur build.
pub fn purpur_file_name(game_version: &str, build: &str) -> (r: String)
    ensures
        r@ == "purpur-"@ + game_version@ + "-"@ + build@ + ".jar"@,
{
    let mut r = String::from_str("purpur-");
    r.append(game_version);
    r.append("-");
    r.append(build);
    r.append(".jar");
    r
}

/// The Purpur versions offered: the latest build, recommended.
pub fn purpur_offered(latest: String) -> (r: Vec<ServerLoaderVersion>)
    ensures
        offer_views(r@) == seq![(latest@, true)],
{
    let ghost l = latest@;
    let mut r = Vec::new();
    r.push(ServerLoaderVersion { id: latest, recommended: true });
    assert(offer_views(r@) =~= seq![(l, true)]);
    r
}

/// The kind of a Minecraft version in Mojang's manifest.
#[derive(Clone, Copy, Debug, PartialEq, Eq, Structural)]
pub enum VersionKind {
    Release,
    Snapshot,
    OldBeta,
    OldAlpha,
}

/// The ids of the release versions of a manifest, in manifest order.
pub open spec fn release_ids(versions: Seq<(Seq<char>, VersionKind)>) -> Seq<Seq<char>>
    decreases versions.len(),
{
    if versions.len() == 0 {
        seq![]
    } else {
        let r = release_ids(versions.drop_last());
        if versions.last().1 == VersionKind::Release {
            r.push(versions.last().0)
        } else {
            r
        }
    }
}

pub open spec fn manifest_views(v: Seq<(String, VersionKind)>) -> Seq<(Seq<char>, VersionKind)> {
    v.map_values(|x: (String, VersionKind)| (x.0@, x.1))
}

/// The Minecraft versions servers can be created for: the releases.
pub fn release_versions(versions: &Vec<(String, VersionKind)>) -> (r: Vec<String>)
    ensures
        str_views(r@) == release_ids(manifest_views(versions@)),
{
    let mut r: Vec<String> = Vec::new();
    let mut i: usize = 0;
    while i < versions.len()
        invariant
            i <= versions.len(),
            str_views(r@) == release_ids(manifest_views(versions@).take(i as int)),
        decreases versions.len() - i,
    {
        let ghost before = r@;
        let ghost t = manifest_views(versions@).take(i + 1);
        assert(t.drop_last() =~= manifest_views(versions@).take(i as int));
        if versions[i].1 == VersionKind::Release {
            r.push(versions[i].0.clone());
            assert(str_views(r@) =~= str_views(before).push(versions@[i as int].0@));
        }
        i = i + 1;
    }
    assert(manifest_views(versions@).take(versions.len() as int) =~= manifest_views(versions@));
    r
}

/// The metadata location of a game version in a manifest of
/// `(id, url)` entries: the first entry with that id.
pub open spec fn manifest_url(entries: Seq<(Seq<char>, Seq<char>)>, id: Seq<char>) -> Option<
    Seq<char>,
> {
    promo(entries, id)
}

/// The metadata location of the game version to download; an input error
/// for a version the manifest does not list.
pub fn vanilla_version_url(entries: &Vec<(String, String)>, game_version: &str) -> (r: Result<
    String,
    ErrorKind,
>)
    ensures
        match manifest_url(promo_views(entries@), game_version@) {
            Some(u) => r matches Ok(s) && s@ == u,
            None => r matches Err(ErrorKind::InputError(m)) && m@ == "Unknown Minecraft version "@
                + game_version@,
        },
{
    match promo_lookup(entries, game_version) {
        Some(u) => Ok(u),
        None => {
            let mut m = String::from_str("Unknown Minecraft version ");
            m.append(game_version);
            Err(ErrorKind::InputError(m))
        },
    }
}

} // verus!
