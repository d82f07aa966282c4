//! Local servers as the launcher records them in its servers index, and
//! the changes made to that index: lookups, EULA acceptance, removal, new
//! entries, and moving server folders to another directory.
use vstd::prelude::*;
use crate::content::contains_text;
use crate::loader::{plain_jar, ErrorKind, ModLoader, ServerLoader};
use crate::names::{numbered_name, numbered_server_path, sanitize_level_name, sanitized_level_name};
use crate::numbers::{decimal, lemma_decimal_digits};
use crate::text::same_text;
use crate::versions::str_views;

verus! {

/// One local server of the servers index.
#[derive(Clone, Debug)]
pub struct ChocoServer {
    pub id: String,
    pub name: String,
    /// Its folder: relative to the default servers directory, or absolute.
    pub path: String,
    pub game_version: String,
    pub loader: ServerLoader,
    pub loader_version: Option<String>,
    /// Main jar file name inside the server folder (e.g. server.jar).
    pub jar_file: Option<String>,
    pub ram_mb: u32,
    pub port: u16,
    pub eula_accepted: bool,
    /// The Java runtime the launcher set the server up with.
    pub java_path: Option<String>,
    /// The profile this server was made from and stays linked to.
    pub linked_instance_id: Option<String>,
    /// Server icon file inside the server folder.
    pub icon_file: Option<String>,
    /// Creation time: seconds since the Unix epoch, and nanoseconds.
    pub created_secs: i64,
    pub created_nanos: u32,
}

/// What the user asks for when creating a server.
#[derive(Clone, Debug)]
pub struct CreateServerOptions {
    pub name: String,
    pub game_version: String,
    pub loader: ServerLoader,
    pub loader_version: Option<String>,
    pub ram_mb: u32,
    pub port: u16,
    pub motd: Option<String>,
    pub difficulty: Option<String>,
    pub gamemode: Option<String>,
    pub max_players: Option<u32>,
    pub online_mode: Option<bool>,
    pub accept_eula: bool,
    pub level_name: Option<String>,
    pub linked_instance_id: Option<String>,
    /// Source icon file (e.g. the profile icon) to copy into the server folder.
    pub icon_path: Option<String>,
}

fn copy_opt(o: &Option<String>) -> (r: Option<String>)
    ensures
        r == *o,
{
    match o {
        Some(s) => Some(s.clone()),
        None => None,
    }
}

impl ChocoServer {
    /// An equal copy of this record.
    pub fn duplicate(&self) -> (r: ChocoServer)
        ensures
            r == *self,
    {
        ChocoServer {
            id: self.id.clone(),
            name: self.name.clone(),
            path: self.path.clone(),
            game_version: self.game_version.clone(),
            loader: self.loader,
            loader_version: copy_opt(&self.loader_version),
            jar_file: copy_opt(&self.jar_file),
            ram_mb: self.ram_mb,
            port: self.port,
            eula_accepted: self.eula_accepted,
            java_path: copy_opt(&self.java_path),
            linked_instance_id: copy_opt(&self.linked_instance_id),
            icon_file: copy_opt(&self.icon_file),
            created_secs: self.created_secs,
            created_nanos: self.created_nanos,
        }
    }
}

/// The position of the first server with id `id`, if any.
pub open spec fn server_position(servers: Seq<ChocoServer>, id: Seq<char>) -> Option<int> {
    if exists|i: int| 0 <= i < servers.len() && #[trigger] servers[i].id@ == id {
        Some(
            choose|i: int|
                0 <= i < servers.len() && #[trigger] servers[i].id@ == id && forall|j: int|
                    0 <= j < i ==> servers[j].id@ != id,
        )
    } else {
        None
    }
}

/// The first server whose id is `id` is at `k` (none, where `k` is the
/// length): no server before `k` has that id and the one at `k` has it.
pub proof fn lemma_server_position(servers: Seq<ChocoServer>, id: Seq<char>, k: int)
    requires
        0 <= k <= servers.len(),
        forall|j: int| 0 <= j < k ==> servers[j].id@ != id,
        k < servers.len() ==> servers[k].id@ == id,
    ensures
        server_position(servers, id) == if k < servers.len() {
            Some(k)
        } else {
            None::<int>
        },
{
    if k < servers.len() {
        assert(servers[k].id@ == id);
        let c = choose|i: int|
            0 <= i < servers.len() && #[trigger] servers[i].id@ == id && forall|j: int|
                0 <= j < i ==> servers[j].id@ != id;
        if c < k {
            assert(servers[c].id@ != id);
        } else if c > k {
            assert(servers[k].id@ != id);
        }
    }
}

/// Finds the first server with the given id.
pub fn find_server(servers: &Vec<ChocoServer>, id: &str) -> (r: Option<usize>)
    ensures
        match r {
            Some(i) => i < servers.len() && server_position(servers@, id@) == Some(i as int),
            None => server_position(servers@, id@) is None,
        },
{
    let mut i: usize = 0;
    while i < servers.len()
        invariant
            i <= servers.len(),
            forall|j: int| 0 <= j < i ==> servers@[j].id@ != id@,
        decreases servers.len() - i,
    {
        if same_text(servers[i].id.as_str(), id) {
            proof {
                lemma_server_position(servers@, id@, i as int);
            }
            return Some(i);
        }
        i = i + 1;
    }
    proof {
        lemma_server_position(servers@, id@, i as int);
    }
    None
}

/// The server with the given id, or an input error naming the id.
pub fn get_server_by_id(servers: &Vec<ChocoServer>, server_id: &str) -> (r: Result<
    ChocoServer,
    ErrorKind,
>)
    ensures
        match server_position(servers@, server_id@) {
            Some(i) => r == Ok::<ChocoServer, ErrorKind>(servers@[i]),
            None => r matches Err(ErrorKind::InputError(m)) && m@ == "Server "@ + server_id@
                + " was not found"@,
        },
{
    match find_server(servers, server_id) {
        Some(i) => Ok(servers[i].duplicate()),
        None => {
            let mut m = String::from_str("Server ");
            m.append(server_id);
            m.append(" was not found");
            Err(ErrorKind::InputError(m))
        },
    }
}

/// Whether some server of the index is stored under `path`.
pub fn path_in_use(servers: &Vec<ChocoServer>, path: &str) -> (b: bool)
    ensures
        b == exists|i: int| 0 <= i < servers@.len() && #[trigger] servers@[i].path@ == path@,
{
    let mut i: usize = 0;
    while i < servers.len()
        invariant
            i <= servers.len(),
            forall|j: int| 0 <= j < i ==> #[trigger] servers@[j].path@ != path@,
        decreases servers.len() - i,
    {
        if same_text(servers[i].path.as_str(), path) {
            return true;
        }
        i = i + 1;
    }
    false
}

/// Records that the EULA of the first server with id `id` was accepted;
/// returns its position, or `None` (and changes nothing) where there is no
/// such server.
pub fn accept_eula_in_index(servers: &mut Vec<ChocoServer>, id: &str) -> (r: Option<usize>)
    ensures
        match server_position(old(servers)@, id@) {
            Some(i) => r == Some(i as usize) && final(servers)@ == old(servers)@.update(
                i,
                ChocoServer { eula_accepted: true, ..old(servers)@[i] },
            ),
            None => r is None && final(servers)@ == old(servers)@,
        },
{
    match find_server(servers, id) {
        Some(i) => {
            let mut s = servers[i].duplicate();
            s.eula_accepted = true;
            servers.set(i, s);
            Some(i)
        },
        None => None,
    }
}

/// Takes the first server with id `id` out of the index and hands it back;
/// where there is none, the index stays as it was.
pub fn remove_from_index(servers: &mut Vec<ChocoServer>, id: &str) -> (r: Option<ChocoServer>)
    ensures
        match server_position(old(servers)@, id@) {
            Some(i) => r == Some(old(servers)@[i]) && final(servers)@ == old(servers)@.remove(i),
            None => r is None && final(servers)@ == old(servers)@,
        },
{
    match find_server(servers, id) {
        Some(i) => Some(servers.remove(i)),
        None => None,
    }
}

/// The profile a server is linked to, for syncing its content: an input
/// error where the server is not in the index or not linked.
pub fn linked_profile(servers: &Vec<ChocoServer>, server_id: &str) -> (r: Result<
    (ChocoServer, String),
    ErrorKind,
>)
    ensures
        match server_position(servers@, server_id@) {
            Some(i) => match servers@[i].linked_instance_id {
                Some(p) => r == Ok::<(ChocoServer, String), ErrorKind>((servers@[i], p)),
                None => r matches Err(ErrorKind::InputError(m)) && m@
                    == "This server is not linked to a profile"@,
            },
            None => r matches Err(ErrorKind::InputError(m)) && m@ == "Server not found"@,
        },
{
    match find_server(servers, server_id) {
        Some(i) => {
            let server = servers[i].duplicate();
            match copy_opt(&server.linked_instance_id) {
                Some(p) => Ok((server, p)),
                None => Err(
                    ErrorKind::InputError(String::from_str("This server is not linked to a profile")),
                ),
            }
        },
        None => Err(ErrorKind::InputError(String::from_str("Server not found"))),
    }
}

/// The jar file a new server's index entry names: none for Forge and
/// NeoForge, which start through the scripts their installers write, and
/// none where no jar name is given; else the downloaded jar.
pub open spec fn stored_jar(loader: ServerLoader, jar_file: String) -> Option<String> {
    if !plain_jar(loader) || jar_file@.len() == 0 {
        None
    } else {
        Some(jar_file)
    }
}

/// The jar file stored for a new server with the given loader and
/// downloaded jar name.
pub fn stored_jar_file(loader: ServerLoader, jar_file: String) -> (r: Option<String>)
    ensures
        r == stored_jar(loader, jar_file),
        jar_file@.len() > 0 ==> (r is None <==> !plain_jar(loader)),
{
    if !loader.uses_plain_jar() || jar_file.unicode_len() == 0 {
        None
    } else {
        Some(jar_file)
    }
}

/// The id of a local server: `local:` and a UUID.
pub fn local_server_id(uuid: &str) -> (id: String)
    ensures
        id@ == "local:"@ + uuid@,
{
    let mut id = String::from_str("local:");
    id.append(uuid);
    proof {
        reveal_strlit("local:");
    }
    id
}

/// The index entry of a newly created server: its id is `local:` and the
/// UUID it was given; the loader version is the one the download resolved,
/// else the one asked for; the jar is the downloaded one, none for Forge
/// and NeoForge.
pub fn new_server_record(
    opts: &CreateServerOptions,
    uuid: &str,
    path: String,
    jar_file: String,
    resolved_loader_version: Option<String>,
    java_path: String,
    icon_file: Option<String>,
    created_secs: i64,
    created_nanos: u32,
) -> (s: ChocoServer)
    ensures
        s.id@ == "local:"@ + uuid@,
        s.name == opts.name,
        s.path == path,
        s.game_version == opts.game_version,
        s.loader == opts.loader,
        s.loader_version == match resolved_loader_version {
            Some(v) => Some(v),
            None => opts.loader_version,
        },
        s.jar_file == stored_jar(opts.loader, jar_file),
        s.ram_mb == opts.ram_mb,
        s.port == opts.port,
        s.eula_accepted == opts.accept_eula,
        s.java_path == Some(java_path),
        s.linked_instance_id == opts.linked_instance_id,
        s.icon_file == icon_file,
        s.created_secs == created_secs,
        s.created_nanos == created_nanos,
{
    let loader_version = match resolved_loader_version {
        Some(v) => Some(v),
        None => copy_opt(&opts.loader_version),
    };
    ChocoServer {
        id: local_server_id(uuid),
        name: opts.name.clone(),
        path,
        game_version: opts.game_version.clone(),
        loader: opts.loader,
        loader_version,
        jar_file: stored_jar_file(opts.loader, jar_file),
        ram_mb: opts.ram_mb,
        port: opts.port,
        eula_accepted: opts.accept_eula,
        java_path: Some(java_path),
        linked_instance_id: copy_opt(&opts.linked_instance_id),
        icon_file,
        created_secs,
        created_nanos,
    }
}

/// The folder name tried `k`-th for a new server named `name`: the name
/// itself first, then `name (2)`, `name (3)`, ...
pub open spec fn candidate_path(name: Seq<char>, k: nat) -> Seq<char> {
    if k <= 1 {
        name
    } else {
        numbered_name(name, k)
    }
}

/// The folder names of the servers of an index.
pub open spec fn server_paths(servers: Seq<ChocoServer>) -> Seq<Seq<char>> {
    servers.map_values(|s: ChocoServer| s.path@)
}

/// Whether a folder name is taken: stored for a server of the index, or
/// among `taken` (names found on disk).
pub open spec fn path_taken(servers: Seq<ChocoServer>, taken: Seq<String>, p: Seq<char>) -> bool {
    server_paths(servers).contains(p) || str_views(taken).contains(p)
}

/// Whether `x` is the name tried `s`-th or later.
spec fn later_candidate(name: Seq<char>, x: Seq<char>, s: nat) -> bool {
    exists|k: nat| k >= s && #[trigger] candidate_path(name, k) == x
}

/// How many of `xs` are names tried `s`-th or later.
spec fn later_count(name: Seq<char>, xs: Seq<Seq<char>>, s: nat) -> nat
    decreases xs.len(),
{
    if xs.len() == 0 {
        0
    } else {
        later_count(name, xs.drop_last(), s) + if later_candidate(name, xs.last(), s) {
            1nat
        } else {
            0nat
        }
    }
}

/// Different tries give different names.
pub proof fn lemma_candidate_injective(name: Seq<char>, j: nat, k: nat)
    requires
        1 <= j,
        1 <= k,
        candidate_path(name, j) == candidate_path(name, k),
    ensures
        j == k,
{
    reveal_strlit(" (");
    reveal_strlit(")");
    lemma_decimal_digits(j);
    lemma_decimal_digits(k);
    let a = candidate_path(name, j);
    if j >= 2 && k >= 2 {
        let lo: int = name.len() as int + 2;
        assert(a.subrange(lo, a.len() - 1) =~= decimal(j));
        assert(a.subrange(lo, a.len() - 1) =~= decimal(k));
    } else if j >= 2 {
        assert(candidate_path(name, j).len() > name.len());
    } else if k >= 2 {
        assert(candidate_path(name, k).len() > name.len());
    }
}

proof fn lemma_later_count(name: Seq<char>, xs: Seq<Seq<char>>, s: nat)
    requires
        s >= 1,
    ensures
        later_count(name, xs, s + 1) <= later_count(name, xs, s),
        later_count(name, xs, s) <= xs.len(),
        xs.contains(candidate_path(name, s)) ==> later_count(name, xs, s + 1) < later_count(
            name,
            xs,
            s,
        ),
    decreases xs.len(),
{
    if xs.len() > 0 {
        let x = xs.last();
        let c = candidate_path(name, s);
        lemma_later_count(name, xs.drop_last(), s);
        if later_candidate(name, x, s + 1) {
            let k = choose|k: nat| k >= s + 1 && #[trigger] candidate_path(name, k) == x;
            assert(candidate_path(name, k) == x);
            assert(later_candidate(name, x, s));
            if x == c {
                lemma_candidate_injective(name, k, s);
            }
        }
        if x == c {
            assert(candidate_path(name, s) == x);
            assert(later_candidate(name, x, s));
        }
        if xs.contains(c) && x != c {
            let i = choose|i: int| 0 <= i < xs.len() && xs[i] == c;
            assert(xs.drop_last()[i] == c);
        }
    }
}

/// The folder name of a new server named `name` (already sanitized): the
/// first of `name`, `name (2)`, `name (3)`, ... that no server of the index
/// is stored under and that is not among `taken`, with its place in that
/// order (1 for `name` itself).
pub fn free_server_path(name: &str, servers: &Vec<ChocoServer>, taken: &Vec<String>) -> (r: (
    String,
    u64,
))
    requires
        servers@.len() + taken@.len() < u64::MAX,
    ensures
        r.1 >= 1,
        r.0@ == candidate_path(name@, r.1 as nat),
        !path_taken(servers@, taken@, r.0@),
        forall|k: nat|
            1 <= k < r.1 ==> path_taken(servers@, taken@, #[trigger] candidate_path(name@, k)),
{
    let ghost all = server_paths(servers@) + str_views(taken@);
    let mut k: u64 = 1;
    let mut p = String::from_str(name);
    proof {
        lemma_later_count(name@, all, 1);
    }
    while path_in_use(servers, p.as_str()) || contains_text(taken, p.as_str())
        invariant
            1 <= k,
            p@ == candidate_path(name@, k as nat),
            all == server_paths(servers@) + str_views(taken@),
            servers@.len() + taken@.len() < u64::MAX,
            k + later_count(name@, all, k as nat) <= all.len() + 1,
            forall|j: nat|
                1 <= j < k ==> path_taken(servers@, taken@, #[trigger] candidate_path(name@, j)),
        decreases later_count(name@, all, k as nat),
    {
        proof {
            let n = servers@.len();
            if exists|i: int| 0 <= i < servers@.len() && #[trigger] servers@[i].path@ == p@ {
                let i = choose|i: int| 0 <= i < servers@.len() && #[trigger] servers@[i].path@ == p@;
                assert(server_paths(servers@)[i] == p@);
                assert(all[i] == p@);
            } else {
                let i = choose|i: int| 0 <= i < str_views(taken@).len() && str_views(taken@)[i] == p@;
                assert(all[n + i] == p@);
                assert(str_views(taken@).contains(p@));
            }
            assert(path_taken(servers@, taken@, candidate_path(name@, k as nat)));
            lemma_later_count(name@, all, k as nat);
            lemma_later_count(name@, all, (k + 1) as nat);
        }
        k = k + 1;
        p = numbered_server_path(name, k);
    }
    proof {
        if server_paths(servers@).contains(p@) {
            let i = choose|i: int| 0 <= i < server_paths(servers@).len() && server_paths(servers@)[i] == p@;
            assert(servers@[i].path@ == p@);
        }
    }
    (p, k)
}

/// The creation request for a server made from a profile: named after the
/// profile, with its game version and loader, the chosen save (its name
/// sanitized) as world and MOTD, default gameplay settings, and a link back
/// to the profile.
pub fn profile_server_options(
    profile_name: &str,
    game_version: String,
    loader: ModLoader,
    loader_version: Option<String>,
    save_name: Option<String>,
    accept_eula: bool,
    ram_mb: u32,
    port: u16,
    instance_id: String,
    icon_path: Option<String>,
) -> (o: CreateServerOptions)
    ensures
        o.name@ == profile_name@ + " Server"@,
        o.game_version == game_version,
        o.loader == ServerLoader::from_mod_loader_spec(loader),
        o.loader_version == loader_version,
        o.ram_mb == ram_mb,
        o.port == port,
        match save_name {
            Some(s) => o.motd matches Some(m) && m@ == sanitized_level_name(s@) && o.level_name
                == o.motd,
            None => o.motd is None && o.level_name is None,
        },
        o.difficulty matches Some(d) && d@ == "normal"@,
        o.gamemode matches Some(g) && g@ == "survival"@,
        o.max_players == Some(20u32),
        o.online_mode == Some(true),
        o.accept_eula == accept_eula,
        o.linked_instance_id == Some(instance_id),
        o.icon_path == icon_path,
{
    let save = match &save_name {
        Some(s) => Some(sanitize_level_name(s.as_str())),
        None => None,
    };
    let mut name = String::from_str(profile_name);
    name.append(" Server");
    CreateServerOptions {
        name,
        game_version,
        loader: ServerLoader::from_mod_loader(loader),
        loader_version,
        ram_mb,
        port,
        motd: copy_opt(&save),
        difficulty: Some(String::from_str("normal")),
        gamemode: Some(String::from_str("survival")),
        max_players: Some(20),
        online_mode: Some(true),
        accept_eula,
        level_name: save,
        linked_instance_id: Some(instance_id),
        icon_path,
    }
}

impl ServerLoader {
    pub open spec fn from_mod_loader_spec(loader: ModLoader) -> ServerLoader {
        match loader {
            ModLoader::Vanilla => ServerLoader::Vanilla,
            ModLoader::Fabric => ServerLoader::Fabric,
            ModLoader::Forge => ServerLoader::Forge,
            ModLoader::Quilt => ServerLoader::Quilt,
            ModLoader::NeoForge => ServerLoader::NeoForge,
        }
    }
}

} // verus!
