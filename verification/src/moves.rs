//! Moving server folders and profile folders to another directory: what
//! is decided for each folder from what was found on disk, and the reports
//! handed back to the user.
use vstd::prelude::*;
use crate::loader::ErrorKind;
use crate::servers::ChocoServer;

verus! {

#[derive(Debug)]
pub struct MoveServersMoved {
    pub server_id: String,
    pub name: String,
    pub new_path: String,
}

#[derive(Debug)]
pub struct MoveServersFailure {
    pub server_id: String,
    pub name: String,
    pub error: String,
}

#[derive(Debug)]
pub struct MoveServersReport {
    pub moved: Vec<MoveServersMoved>,
    pub failed: Vec<MoveServersFailure>,
}

#[derive(Debug)]
pub struct RelocatedInstance {
    pub instance_id: String,
    pub name: String,
    pub new_path: String,
}

#[derive(Debug)]
pub struct MoveFailure {
    pub instance_id: String,
    pub name: String,
    pub error: String,
}

#[derive(Debug)]
pub struct MoveProfilesReport {
    pub moved: Vec<RelocatedInstance>,
    pub failed: Vec<MoveFailure>,
}

/// What becomes of one folder that is asked to move.
#[derive(Debug)]
pub struct FolderMove {
    /// Whether its content is copied to the destination (and the source
    /// removed); not where it is there already.
    pub copy: bool,
    /// The path stored for it afterwards.
    pub new_path: String,
}

/// The stored path of a folder in its new place: its folder name alone in
/// the default directory (which stored paths are relative to), else its
/// full destination.
pub open spec fn stored_path(into_default: bool, folder_name: Seq<char>, dest: Seq<char>) -> Seq<
    char,
> {
    if into_default {
        folder_name
    } else {
        dest
    }
}

pub open spec fn already_exists_message(folder_name: Seq<char>) -> Seq<char> {
    "A folder named '"@ + folder_name + "' already exists in the target location"@
}

fn already_exists(folder_name: &str) -> (m: String)
    ensures
        m@ == already_exists_message(folder_name@),
{
    let mut m = String::from_str("A folder named '");
    m.append(folder_name);
    m.append("' already exists in the target location");
    m
}

/// The decision for one server folder: a failure message where its folder
/// is missing or the destination is taken by another folder, else whether
/// to copy and the path to store.
pub fn plan_server_move(
    source_is_dir: bool,
    folder_name: &str,
    dest: &str,
    source_is_dest: bool,
    dest_exists: bool,
    into_default: bool,
) -> (r: Result<FolderMove, String>)
    ensures
        !source_is_dir ==> (r matches Err(m) && m@ == "Server folder was not found"@),
        source_is_dir && !source_is_dest && dest_exists ==> (r matches Err(m) && m@
            == already_exists_message(folder_name@)),
        source_is_dir && (source_is_dest || !dest_exists) ==> (r matches Ok(p) && p.copy
            == !source_is_dest && p.new_path@ == stored_path(into_default, folder_name@, dest@)),
{
    if !source_is_dir {
        return Err(String::from_str("Server folder was not found"));
    }
    if !source_is_dest && dest_exists {
        return Err(already_exists(folder_name));
    }
    let new_path = if into_default {
        String::from_str(folder_name)
    } else {
        String::from_str(dest)
    };
    Ok(FolderMove { copy: !source_is_dest, new_path })
}

/// Records the outcome for the server at `pos` of the index: its new path
/// and an entry under `moved`, or an entry under `failed` with the index
/// left as it was.
pub fn record_server_move(
    servers: &mut Vec<ChocoServer>,
    pos: usize,
    server_id: String,
    outcome: Result<FolderMove, String>,
    report: &mut MoveServersReport,
)
    requires
        pos < old(servers).len(),
    ensures
        final(servers)@.len() == old(servers)@.len(),
        match outcome {
            Ok(p) => {
                &&& final(servers)@ == old(servers)@.update(
                    pos as int,
                    ChocoServer { path: p.new_path, ..old(servers)@[pos as int] },
                )
                &&& final(report).failed@ == old(report).failed@
                &&& final(report).moved@.len() == old(report).moved@.len() + 1
                &&& final(report).moved@.drop_last() == old(report).moved@
                &&& final(report).moved@.last().server_id == server_id
                &&& final(report).moved@.last().name == old(servers)@[pos as int].name
                &&& final(report).moved@.last().new_path == p.new_path
            },
            Err(e) => {
                &&& final(servers)@ == old(servers)@
                &&& final(report).moved@ == old(report).moved@
                &&& final(report).failed@.len() == old(report).failed@.len() + 1
                &&& final(report).failed@.drop_last() == old(report).failed@
                &&& final(report).failed@.last().server_id == server_id
                &&& final(report).failed@.last().name == old(servers)@[pos as int].name
                &&& final(report).failed@.last().error == e
            },
        },
{
    let name = servers[pos].name.clone();
    match outcome {
        Ok(p) => {
            let mut s = servers[pos].duplicate();
            s.path = p.new_path.clone();
            servers.set(pos, s);
            report.moved.push(MoveServersMoved { server_id, name, new_path: p.new_path });
            assert(report.moved@.drop_last() =~= old(report).moved@);
        },
        Err(e) => {
            report.failed.push(MoveServersFailure { server_id, name, error: e });
            assert(report.failed@.drop_last() =~= old(report).failed@);
        },
    }
}

/// What is refused for a profile folder, in the order the checks are made.
pub open spec fn instance_move_error(
    name: Seq<char>,
    running: bool,
    compressed: bool,
    has_folder_name: bool,
    folder_name: Seq<char>,
    source_is_dest: bool,
    dest_exists: bool,
) -> Option<Seq<char>> {
    if running {
        Some("'"@ + name + "' is currently running; stop it before moving it"@)
    } else if compressed {
        Some("'"@ + name + "' is compressed; decompress it before moving it"@)
    } else if !has_folder_name {
        Some("Cannot determine folder name for '"@ + name + "'"@)
    } else if !source_is_dest && dest_exists {
        Some(already_exists_message(folder_name))
    } else {
        None
    }
}

/// The decision for one profile folder: refused while the profile runs or
/// is compressed, or where its folder has no name or the destination is
/// taken; else whether to copy and the path to store.
pub fn plan_instance_move(
    name: &str,
    running: bool,
    compressed: bool,
    folder_name: Option<String>,
    source_is_dest: bool,
    dest: &str,
    dest_exists: bool,
    into_default: bool,
) -> (r: Result<FolderMove, ErrorKind>)
    ensures
        ({
            let f = match folder_name {
                Some(f) => f@,
                None => Seq::<char>::empty(),
            };
            match instance_move_error(
                name@,
                running,
                compressed,
                folder_name is Some,
                f,
                source_is_dest,
                dest_exists,
            ) {
                Some(m) => r matches Err(ErrorKind::InputError(e)) && e@ == m,
                None => r matches Ok(p) && p.copy == !source_is_dest && p.new_path@ == stored_path(
                    into_default,
                    f,
                    dest@,
                ),
            }
        }),
{
    if running {
        let mut m = String::from_str("'");
        m.append(name);
        m.append("' is currently running; stop it before moving it");
        return Err(ErrorKind::InputError(m));
    }
    if compressed {
        let mut m = String::from_str("'");
        m.append(name);
        m.append("' is compressed; decompress it before moving it");
        return Err(ErrorKind::InputError(m));
    }
    let folder = match folder_name {
        Some(f) => f,
        None => {
            let mut m = String::from_str("Cannot determine folder name for '");
            m.append(name);
            m.append("'");
            return Err(ErrorKind::InputError(m));
        },
    };
    if !source_is_dest && dest_exists {
        return Err(ErrorKind::InputError(already_exists(folder.as_str())));
    }
    let new_path = if into_default {
        folder
    } else {
        String::from_str(dest)
    };
    Ok(FolderMove { copy: !source_is_dest, new_path })
}

} // verus!
