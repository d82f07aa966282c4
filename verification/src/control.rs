//! Decisions around running servers and importing profiles: when a server
//! may be moved or started, how a stop request ends, and how a profile of
//! the official Modrinth App is registered.
use vstd::prelude::*;
use crate::loader::{ErrorKind, ModLoader};
use crate::text::same_text;
use crate::versions::str_views;

verus! {

/// Whether any of `ids` is among `running`.
pub open spec fn any_running(ids: Seq<Seq<char>>, running: Seq<Seq<char>>) -> bool {
    exists|i: int| 0 <= i < ids.len() && running.contains(#[trigger] ids[i])
}

fn is_running(running: &Vec<String>, id: &str) -> (b: bool)
    ensures
        b == str_views(running@).contains(id@),
{
    let mut i: usize = 0;
    while i < running.len()
        invariant
            i <= running.len(),
            forall|j: int| 0 <= j < i ==> running@[j]@ != id@,
        decreases running.len() - i,
    {
        if same_text(running[i].as_str(), id) {
            assert(str_views(running@)[i as int] == id@);
            return true;
        }
        i = i + 1;
    }
    proof {
        if str_views(running@).contains(id@) {
            let j = choose|j: int| 0 <= j < str_views(running@).len() && str_views(running@)[j] == id@;
            assert(running@[j]@ == id@);
        }
    }
    false
}

/// Servers are moved only while none of them runs.
pub fn check_move_allowed(ids: &Vec<String>, running: &Vec<String>) -> (r: Result<(), String>)
    ensures
        any_running(str_views(ids@), str_views(running@)) ==> (r matches Err(m) && m@
            == "A selected server is still running; stop it before moving it"@),
        !any_running(str_views(ids@), str_views(running@)) ==> r is Ok,
{
    let mut i: usize = 0;
    while i < ids.len()
        invariant
            i <= ids.len(),
            forall|j: int| 0 <= j < i ==> !str_views(running@).contains(#[trigger] str_views(ids@)[j]),
        decreases ids.len() - i,
    {
        if is_running(running, ids[i].as_str()) {
            assert(str_views(running@).contains(str_views(ids@)[i as int]));
            return Err(String::from_str("A selected server is still running; stop it before moving it"));
        }
        i = i + 1;
    }
    Ok(())
}

/// A server is started only where it is not running yet.
pub fn check_start_allowed(running: &Vec<String>, id: &str) -> (r: Result<(), String>)
    ensures
        str_views(running@).contains(id@) ==> (r matches Err(m) && m@ == "Server is already running"@),
        !str_views(running@).contains(id@) ==> r is Ok,
{
    if is_running(running, id) {
        Err(String::from_str("Server is already running"))
    } else {
        Ok(())
    }
}

/// How many times a stopping server is checked (every half second) before
/// it is killed.
pub const STOP_POLLS: u32 = 30;

/// What to do after a stopping server was checked.
#[derive(PartialEq, Eq, Structural, Debug, Clone, Copy)]
pub enum StopStep {
    /// It has exited: the stop is done.
    Stopped,
    /// Wait half a second and check again.
    Wait,
    /// It ignored the `stop` command: kill it.
    Kill,
}

pub open spec fn stop_step(polls_done: u32, exited: bool) -> StopStep {
    if exited {
        StopStep::Stopped
    } else if polls_done < STOP_POLLS {
        StopStep::Wait
    } else {
        StopStep::Kill
    }
}

/// The step after the `polls_done`-th check of a stopping server.
pub fn next_stop_step(polls_done: u32, exited: bool) -> (s: StopStep)
    requires
        1 <= polls_done <= STOP_POLLS,
    ensures
        s == stop_step(polls_done, exited),
{
    if exited {
        StopStep::Stopped
    } else if polls_done < STOP_POLLS {
        StopStep::Wait
    } else {
        StopStep::Kill
    }
}

/// A stop request ends within `STOP_POLLS` checks: the server is killed
/// only at the last check, and only where it has not exited.
pub proof fn law_stop_ends(polls_done: u32, exited: bool)
    requires
        1 <= polls_done <= STOP_POLLS,
    ensures
        stop_step(polls_done, exited) == StopStep::Kill <==> (polls_done == STOP_POLLS && !exited),
        stop_step(polls_done, exited) == StopStep::Wait ==> polls_done + 1 <= STOP_POLLS,
{
}

/// The loader of a profile recorded by name in the official app's
/// database: the loader so named, else vanilla.
pub open spec fn mod_loader_named(s: Seq<char>) -> ModLoader {
    if s == "forge"@ {
        ModLoader::Forge
    } else if s == "fabric"@ {
        ModLoader::Fabric
    } else if s == "quilt"@ {
        ModLoader::Quilt
    } else if s == "neoforge"@ {
        ModLoader::NeoForge
    } else {
        ModLoader::Vanilla
    }
}

pub fn mod_loader_from_name(s: &str) -> (l: ModLoader)
    ensures
        l == mod_loader_named(s@),
{
    if same_text(s, "forge") {
        ModLoader::Forge
    } else if same_text(s, "fabric") {
        ModLoader::Fabric
    } else if same_text(s, "quilt") {
        ModLoader::Quilt
    } else if same_text(s, "neoforge") {
        ModLoader::NeoForge
    } else {
        ModLoader::Vanilla
    }
}

/// The lowercase name under which a profile's mod loader is recorded.
pub open spec fn mod_loader_name(l: ModLoader) -> Seq<char> {
    match l {
        ModLoader::Vanilla => "vanilla"@,
        ModLoader::Forge => "forge"@,
        ModLoader::Fabric => "fabric"@,
        ModLoader::Quilt => "quilt"@,
        ModLoader::NeoForge => "neoforge"@,
    }
}

/// Each recorded loader name is read back as its loader: `forge`,
/// `fabric`, `quilt` and `neoforge` give Forge, Fabric, Quilt and NeoForge,
/// and any other name gives vanilla.
pub proof fn law_mod_loader_names(s: Seq<char>)
    ensures
        mod_loader_named("forge"@) == ModLoader::Forge,
        mod_loader_named("fabric"@) == ModLoader::Fabric,
        mod_loader_named("quilt"@) == ModLoader::Quilt,
        mod_loader_named("neoforge"@) == ModLoader::NeoForge,
        s != "forge"@ && s != "fabric"@ && s != "quilt"@ && s != "neoforge"@ ==> mod_loader_named(s)
            == ModLoader::Vanilla,
{
    reveal_strlit("forge");
    reveal_strlit("fabric");
    reveal_strlit("quilt");
    reveal_strlit("neoforge");
    assert("fabric"@ != "forge"@) by {
        assert("fabric"@.len() != "forge"@.len());
    }
    assert("quilt"@ != "forge"@) by {
        assert("quilt"@[0] != "forge"@[0]);
    }
    assert("quilt"@ != "fabric"@) by {
        assert("quilt"@.len() != "fabric"@.len());
    }
    assert("neoforge"@ != "forge"@ && "neoforge"@ != "fabric"@ && "neoforge"@ != "quilt"@) by {
        assert("neoforge"@.len() == 8);
    }
}

/// A mod loader's recorded name reads back as that loader, so an imported
/// profile keeps its loader and depends on it.
pub proof fn law_mod_loader_round_trip(l: ModLoader)
    requires
        l != ModLoader::Vanilla,
    ensures
        mod_loader_named(mod_loader_name(l)) == l,
        loader_dependency(mod_loader_named(mod_loader_name(l))) is Some,
{
    law_mod_loader_names(mod_loader_name(l));
}

/// What an imported profile depends on.
#[derive(PartialEq, Eq, Structural, Debug, Clone, Copy)]
pub enum PackDependency {
    Minecraft,
    Forge,
    NeoForge,
    FabricLoader,
    QuiltLoader,
}

/// A profile of the official app, as it is registered here.
#[derive(Debug)]
pub struct ImportPlan {
    pub name: String,
    pub loader: ModLoader,
    pub dependencies: Vec<(PackDependency, String)>,
}

pub open spec fn loader_dependency(l: ModLoader) -> Option<PackDependency> {
    match l {
        ModLoader::Fabric => Some(PackDependency::FabricLoader),
        ModLoader::Forge => Some(PackDependency::Forge),
        ModLoader::Quilt => Some(PackDependency::QuiltLoader),
        ModLoader::NeoForge => Some(PackDependency::NeoForge),
        ModLoader::Vanilla => None,
    }
}

/// How a profile of the official app is registered, from its database row
/// (`None` where there is no row): named as recorded (else after its
/// folder), with its loader (vanilla where none is recorded), depending on
/// its game version and, for a mod loader with a recorded version, on that
/// loader version. Refused where the row or its game version is missing.
pub fn plan_import(
    instance_folder: &str,
    row: Option<(Option<String>, Option<String>, Option<String>, Option<String>)>,
) -> (r: Result<ImportPlan, ErrorKind>)
    ensures
        match row {
            None => r matches Err(ErrorKind::InputError(m)) && m@ == "Profile '"@ + instance_folder@
                + "' was not found in the Modrinth App database"@,
            Some((name, game_version, loader, loader_version)) => match game_version {
                None => r matches Err(ErrorKind::InputError(m)) && m@ == "Profile '"@
                    + instance_folder@ + "' has no Minecraft version recorded"@,
                Some(gv) => r matches Ok(p) && {
                    let l = match loader {
                        Some(s) => mod_loader_named(s@),
                        None => ModLoader::Vanilla,
                    };
                    &&& p.name@ == match name {
                        Some(n) => n@,
                        None => instance_folder@,
                    }
                    &&& p.loader == l
                    &&& p.dependencies@.len() >= 1
                    &&& p.dependencies@[0].0 == PackDependency::Minecraft
                    &&& p.dependencies@[0].1 == gv
                    &&& match (loader_dependency(l), loader_version) {
                        (Some(d), Some(v)) => p.dependencies@.len() == 2 && p.dependencies@[1].0
                            == d && p.dependencies@[1].1 == v,
                        _ => p.dependencies@.len() == 1,
                    }
                },
            },
        },
{
    let (name, game_version, loader, loader_version) = match row {
        Some(r) => r,
        None => {
            let mut m = String::from_str("Profile '");
            m.append(instance_folder);
            m.append("' was not found in the Modrinth App database");
            return Err(ErrorKind::InputError(m));
        },
    };
    let gv = match game_version {
        Some(g) => g,
        None => {
            let mut m = String::from_str("Profile '");
            m.append(instance_folder);
            m.append("' has no Minecraft version recorded");
            return Err(ErrorKind::InputError(m));
        },
    };
    let name = match name {
        Some(n) => n,
        None => String::from_str(instance_folder),
    };
    let l = match &loader {
        Some(s) => mod_loader_from_name(s.as_str()),
        None => ModLoader::Vanilla,
    };
    let mut deps: Vec<(PackDependency, String)> = Vec::new();
    deps.push((PackDependency::Minecraft, gv));
    let dep = match l {
        ModLoader::Fabric => Some(PackDependency::FabricLoader),
        ModLoader::Forge => Some(PackDependency::Forge),
        ModLoader::Quilt => Some(PackDependency::QuiltLoader),
        ModLoader::NeoForge => Some(PackDependency::NeoForge),
        ModLoader::Vanilla => None,
    };
    match (dep, loader_version) {
        (Some(d), Some(v)) => {
            deps.push((d, v));
        },
        _ => {},
    }
    Ok(ImportPlan { name, loader: l, dependencies: deps })
}

} // verus!
