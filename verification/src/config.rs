//! The files written into a new server's folder (`eula.txt`,
//! `server.properties`, the start script) and the command that starts a
//! server.
use vstd::prelude::*;
use crate::loader::{plain_jar, ServerLoader};
use crate::numbers::{decimal, decimal_string};
use crate::properties::{
    append_entries, lemma_entries_round_trip, lemma_lines_cons, lemma_trim_noop, pair_views,
    parse_properties, parse_property_line, render_entries, round_trips,
};
use crate::servers::{ChocoServer, CreateServerOptions};
use crate::text::{is_ws, lines, push_char, strip_cr};

verus! {

pub open spec fn bool_text(b: bool) -> Seq<char> {
    if b {
        "true"@
    } else {
        "false"@
    }
}

fn bool_string(b: bool) -> (s: String)
    ensures
        s@ == bool_text(b),
{
    if b {
        String::from_str("true")
    } else {
        String::from_str("false")
    }
}

/// `eula.txt`: a comment with the time of creation, and whether the EULA
/// was accepted.
pub fn eula_text(timestamp: &str, accepted: bool) -> (s: String)
    ensures
        s@ == "# Accepted via ChocoModrinth server creator on "@ + timestamp@ + "\neula="@
            + bool_text(accepted) + "\n"@,
{
    let mut s = String::from_str("# Accepted via ChocoModrinth server creator on ");
    s.append(timestamp);
    s.append("\neula=");
    let b = bool_string(accepted);
    s.append(b.as_str());
    s.append("\n");
    s
}

pub open spec fn opt_or(o: Option<String>, d: Seq<char>) -> Seq<char> {
    match o {
        Some(s) => s@,
        None => d,
    }
}

/// The settings of a new server's `server.properties`, in order, with the
/// defaults for what was not asked for.
pub open spec fn initial_property_pairs(o: CreateServerOptions) -> Seq<(Seq<char>, Seq<char>)> {
    seq![
        ("server-port"@, decimal(o.port as nat)),
        ("motd"@, opt_or(o.motd, "A ChocoModrinth server"@)),
        ("difficulty"@, opt_or(o.difficulty, "normal"@)),
        ("gamemode"@, opt_or(o.gamemode, "survival"@)),
        ("max-players"@, decimal(
            match o.max_players {
                Some(m) => m as nat,
                None => 20,
            },
        )),
        ("online-mode"@, bool_text(
            match o.online_mode {
                Some(b) => b,
                None => true,
            },
        )),
        ("enable-rcon"@, "false"@),
        ("view-distance"@, "10"@),
        ("level-name"@, opt_or(o.level_name, "world"@)),
    ]
}

pub open spec fn initial_header() -> Seq<char> {
    "#server.properties generated by ChocoModrinth"@
}

/// The `server.properties` of a new server: a comment line, then one
/// `key=value` line per setting.
pub open spec fn initial_properties(o: CreateServerOptions) -> Seq<char> {
    initial_header() + seq!['\n'] + render_entries(initial_property_pairs(o))
}

fn opt_or_string(o: &Option<String>, d: &str) -> (s: String)
    ensures
        s@ == opt_or(*o, d@),
{
    match o {
        Some(x) => x.clone(),
        None => String::from_str(d),
    }
}

pub fn server_properties_text(opts: &CreateServerOptions) -> (s: String)
    ensures
        s@ == initial_properties(*opts),
{
    let mut pairs: Vec<(String, String)> = Vec::new();
    pairs.push((String::from_str("server-port"), decimal_string(opts.port as u64)));
    pairs.push((String::from_str("motd"), opt_or_string(&opts.motd, "A ChocoModrinth server")));
    pairs.push((String::from_str("difficulty"), opt_or_string(&opts.difficulty, "normal")));
    pairs.push((String::from_str("gamemode"), opt_or_string(&opts.gamemode, "survival")));
    let max = match opts.max_players {
        Some(m) => m,
        None => 20,
    };
    pairs.push((String::from_str("max-players"), decimal_string(max as u64)));
    let online = match opts.online_mode {
        Some(b) => b,
        None => true,
    };
    pairs.push((String::from_str("online-mode"), bool_string(online)));
    pairs.push((String::from_str("enable-rcon"), String::from_str("false")));
    pairs.push((String::from_str("view-distance"), String::from_str("10")));
    pairs.push((String::from_str("level-name"), opt_or_string(&opts.level_name, "world")));
    assert(pair_views(pairs@) =~= initial_property_pairs(*opts));
    let mut s = String::from_str("#server.properties generated by ChocoModrinth");
    push_char(&mut s, '\n');
    append_entries(&mut s, &pairs);
    s
}

/// The settings a new server's `server.properties` is written with: the
/// port asked for; what was asked for the MOTD, difficulty, game mode,
/// player limit, online mode and world, and else `A ChocoModrinth server`,
/// `normal`, `survival`, 20 players, online mode on and `world`; RCON off
/// and a view distance of 10.
pub proof fn law_initial_property_defaults(o: CreateServerOptions)
    ensures
        ({
            let p = initial_property_pairs(o);
            &&& p.len() == 9
            &&& p[0] == ("server-port"@, decimal(o.port as nat))
            &&& p[1] == ("motd"@, if o.motd is Some {
                (o.motd->0)@
            } else {
                "A ChocoModrinth server"@
            })
            &&& p[2] == ("difficulty"@, if o.difficulty is Some {
                (o.difficulty->0)@
            } else {
                "normal"@
            })
            &&& p[3] == ("gamemode"@, if o.gamemode is Some {
                (o.gamemode->0)@
            } else {
                "survival"@
            })
            &&& p[4] == ("max-players"@, if o.max_players is Some {
                decimal((o.max_players->0) as nat)
            } else {
                "20"@
            })
            &&& p[5] == ("online-mode"@, if o.online_mode == Some(false) {
                "false"@
            } else {
                "true"@
            })
            &&& p[6] == ("enable-rcon"@, "false"@)
            &&& p[7] == ("view-distance"@, "10"@)
            &&& p[8] == ("level-name"@, if o.level_name is Some {
                (o.level_name->0)@
            } else {
                "world"@
            })
        }),
{
    reveal_strlit("20");
    assert(decimal(2) == seq!['2']);
    assert(decimal(20) =~= "20"@);
}

/// A value that reads back as written after its key: no line feed, and no
/// whitespace at its end.
pub open spec fn plain_value(v: Seq<char>) -> bool {
    !v.contains('\n') && (v.len() > 0 ==> !is_ws(v.last()))
}

proof fn lemma_literal_key(k: Seq<char>)
    requires
        k.len() > 0,
        forall|i: int| 0 <= i < k.len() ==> 97 <= (#[trigger] k[i]) as u32 <= 122 || k[i] == '-',
    ensures
        !k.contains('\n'),
        !k.contains('='),
        !is_ws(k[0]),
        k[0] != '#',
{
    assert(97 <= k[0] as u32 <= 122 || k[0] == '-');
}

proof fn lemma_decimal_plain(n: nat)
    ensures
        plain_value(decimal(n)),
    decreases n,
{
    if n >= 10 {
        lemma_decimal_plain(n / 10);
        assert(decimal(n).drop_last() == decimal(n / 10));
        assert forall|i: int| 0 <= i < decimal(n).len() implies decimal(n)[i] != '\n' by {
            if i < decimal(n).len() - 1 {
                assert(decimal(n)[i] == decimal(n / 10)[i]);
            }
        }
    }
}

/// What the server dashboard reads from a new server's `server.properties`
/// is the settings the server was created with, where the texts given for
/// the MOTD, difficulty, game mode and world name read back unchanged.
pub proof fn law_initial_properties_read_back(o: CreateServerOptions)
    requires
        plain_value(opt_or(o.motd, "A ChocoModrinth server"@)),
        plain_value(opt_or(o.difficulty, "normal"@)),
        plain_value(opt_or(o.gamemode, "survival"@)),
        plain_value(opt_or(o.level_name, "world"@)),
    ensures
        parse_properties(initial_properties(o)) == initial_property_pairs(o),
{
    reveal_strlit("server-port");
    reveal_strlit("motd");
    reveal_strlit("difficulty");
    reveal_strlit("gamemode");
    reveal_strlit("max-players");
    reveal_strlit("online-mode");
    reveal_strlit("enable-rcon");
    reveal_strlit("view-distance");
    reveal_strlit("level-name");
    reveal_strlit("false");
    reveal_strlit("true");
    reveal_strlit("10");
    reveal_strlit("#server.properties generated by ChocoModrinth");
    let p = initial_property_pairs(o);
    lemma_decimal_plain(o.port as nat);
    lemma_decimal_plain(
        match o.max_players {
            Some(m) => m as nat,
            None => 20,
        },
    );
    assert forall|i: int| 0 <= i < p.len() implies round_trips(#[trigger] p[i].0, p[i].1) by {
        lemma_literal_key(p[i].0);
        if p[i].1 == "false"@ || p[i].1 == "true"@ || p[i].1 == "10"@ {
            assert(!p[i].1.contains('\n')) by {
                if p[i].1.contains('\n') {
                    let j = choose|j: int| 0 <= j < p[i].1.len() && p[i].1[j] == '\n';
                    assert(p[i].1[j] != '\n');
                }
            }
        }
    }
    let h = initial_header();
    assert(!h.contains('\n')) by {
        if h.contains('\n') {
            let j = choose|j: int| 0 <= j < h.len() && h[j] == '\n';
            assert(h[j] != '\n');
        }
    }
    lemma_lines_cons(h, render_entries(p));
    assert(strip_cr(h) == h);
    lemma_trim_noop(h);
    assert(parse_property_line(h) is None);
    lemma_entries_round_trip(p);
    let ls = seq![h] + lines(render_entries(p));
    assert(ls.drop_first() =~= lines(render_entries(p)));
}

/// The Java arguments that start a server whose jar is run directly; the
/// Forge and NeoForge scripts only take `nogui`.
pub open spec fn java_command(loader: ServerLoader, ram_mb: u32, jar_file: Seq<char>) -> Seq<char> {
    if plain_jar(loader) {
        "-Xmx"@ + decimal(ram_mb as nat) + "M -Xms"@ + decimal(ram_mb as nat) + "M -jar "@ + jar_file
            + " nogui"@
    } else {
        "nogui"@
    }
}

/// The start script written into a new server's folder: on Windows a batch
/// file, elsewhere a bash script; it runs the jar with the server's Java,
/// or the run script that Forge and NeoForge install.
pub open spec fn start_script(
    loader: ServerLoader,
    ram_mb: u32,
    jar_file: Seq<char>,
    java: Seq<char>,
    windows: bool,
) -> Seq<char> {
    let cmd = java_command(loader, ram_mb, jar_file);
    if windows {
        if plain_jar(loader) {
            "@echo off\r\ncd /d \"%~dp0\"\r\n\""@ + java + "\" "@ + cmd + "\r\npause\r\n"@
        } else {
            "call run.bat\r\npause\r\n"@
        }
    } else {
        if plain_jar(loader) {
            "#!/usr/bin/env bash\ncd \"$(dirname \"$0\")\"\n\""@ + java + "\" "@ + cmd + "\n"@
        } else {
            "./run.sh\n"@
        }
    }
}

fn java_command_text(loader: ServerLoader, ram_mb: u32, jar_file: &str) -> (s: String)
    ensures
        s@ == java_command(loader, ram_mb, jar_file@),
{
    if loader.uses_plain_jar() {
        let ram = decimal_string(ram_mb as u64);
        let mut s = String::from_str("-Xmx");
        s.append(ram.as_str());
        s.append("M -Xms");
        s.append(ram.as_str());
        s.append("M -jar ");
        s.append(jar_file);
        s.append(" nogui");
        s
    } else {
        String::from_str("nogui")
    }
}

pub fn start_script_text(
    loader: ServerLoader,
    ram_mb: u32,
    jar_file: &str,
    java_path: &str,
    windows: bool,
) -> (s: String)
    ensures
        s@ == start_script(loader, ram_mb, jar_file@, java_path@, windows),
{
    let cmd = java_command_text(loader, ram_mb, jar_file);
    let plain = loader.uses_plain_jar();
    if windows {
        if plain {
            let mut s = String::from_str("@echo off\r\ncd /d \"%~dp0\"\r\n\"");
            s.append(java_path);
            s.append("\" ");
            s.append(cmd.as_str());
            s.append("\r\npause\r\n");
            s
        } else {
            String::from_str("call run.bat\r\npause\r\n")
        }
    } else {
        if plain {
            let mut s = String::from_str("#!/usr/bin/env bash\ncd \"$(dirname \"$0\")\"\n\"");
            s.append(java_path);
            s.append("\" ");
            s.append(cmd.as_str());
            s.append("\n");
            s
        } else {
            String::from_str("./run.sh\n")
        }
    }
}

/// The program and arguments that start a server, run in its folder:
/// the installed run script for Forge and NeoForge (through `cmd` on
/// Windows), else its Java (`java` where none is recorded) with the memory
/// setting, its jar (`server.jar` where none is recorded) and `nogui`.
pub open spec fn spawn_spec(s: ChocoServer, windows: bool) -> (Seq<char>, Seq<Seq<char>>) {
    if plain_jar(s.loader) {
        (
            opt_or(s.java_path, "java"@),
            seq![
                "-Xmx"@ + decimal(s.ram_mb as nat) + "M"@,
                "-Xms"@ + decimal(s.ram_mb as nat) + "M"@,
                "-jar"@,
                opt_or(s.jar_file, "server.jar"@),
                "nogui"@,
            ],
        )
    } else if windows {
        ("cmd"@, seq!["/c"@, "run.bat"@])
    } else {
        ("./run.sh"@, seq![])
    }
}

pub fn spawn_command(server: &ChocoServer, windows: bool) -> (r: (String, Vec<String>))
    ensures
        (r.0@, r.1@.map_values(|a: String| a@)) == spawn_spec(*server, windows),
{
    let mut args: Vec<String> = Vec::new();
    if server.loader.uses_plain_jar() {
        let ram = decimal_string(server.ram_mb as u64);
        let mut xmx = String::from_str("-Xmx");
        xmx.append(ram.as_str());
        xmx.append("M");
        let mut xms = String::from_str("-Xms");
        xms.append(ram.as_str());
        xms.append("M");
        args.push(xmx);
        args.push(xms);
        args.push(String::from_str("-jar"));
        args.push(opt_or_string(&server.jar_file, "server.jar"));
        args.push(String::from_str("nogui"));
        let java = opt_or_string(&server.java_path, "java");
        assert(args@.map_values(|a: String| a@) =~= spawn_spec(*server, windows).1);
        (java, args)
    } else if windows {
        args.push(String::from_str("/c"));
        args.push(String::from_str("run.bat"));
        assert(args@.map_values(|a: String| a@) =~= spawn_spec(*server, windows).1);
        (String::from_str("cmd"), args)
    } else {
        assert(args@.map_values(|a: String| a@) =~= spawn_spec(*server, windows).1);
        (String::from_str("./run.sh"), args)
    }
}

/// The progress message shown while a server's software is downloaded;
/// none for Forge and NeoForge, whose installers report their own step.
pub open spec fn download_message(loader: ServerLoader, gv: Seq<char>) -> Option<Seq<char>> {
    let label = match loader {
        ServerLoader::Vanilla => Some("Minecraft"@),
        ServerLoader::Fabric => Some("Fabric"@),
        ServerLoader::Quilt => Some("Quilt"@),
        ServerLoader::Paper => Some("Paper"@),
        ServerLoader::Purpur => Some("Purpur"@),
        _ => None,
    };
    match label {
        Some(l) => Some("Downloading "@ + l + " "@ + gv + " server..."@),
        None => None,
    }
}

pub fn download_message_text(loader: ServerLoader, game_version: &str) -> (r: Option<String>)
    ensures
        crate::metadata::opt_text(r) == download_message(loader, game_version@),
{
    let label = match loader {
        ServerLoader::Vanilla => "Minecraft",
        ServerLoader::Fabric => "Fabric",
        ServerLoader::Quilt => "Quilt",
        ServerLoader::Paper => "Paper",
        ServerLoader::Purpur => "Purpur",
        _ => return None,
    };
    let mut m = String::from_str("Downloading ");
    m.append(label);
    m.append(" ");
    m.append(game_version);
    m.append(" server...");
    Some(m)
}

/// The progress message shown while the Forge or NeoForge installer runs.
pub fn installer_message(loader: ServerLoader) -> (r: &'static str)
    requires
        !plain_jar(loader),
    ensures
        loader == ServerLoader::Forge ==> r@ == "Running the Forge installer (this can take a minute)..."@,
        loader == ServerLoader::NeoForge ==> r@ == "Running the NeoForge installer (this can take a minute)..."@,
{
    match loader {
        ServerLoader::Forge => "Running the Forge installer (this can take a minute)...",
        _ => "Running the NeoForge installer (this can take a minute)...",
    }
}

} // verus!
