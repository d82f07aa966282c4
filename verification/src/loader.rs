//! Server software kinds (vanilla and the mod/plugin loaders), their names
//! as stored and exchanged, and the launcher's error kinds.
use vstd::prelude::*;
use crate::text::same_text;

verus! {

/// What went wrong, with a message for the user.
#[derive(Debug, PartialEq, Eq)]
pub enum ErrorKind {
    /// The request or its data cannot be used.
    InputError(String),
    /// A file or folder could not be read or written.
    FSError(String),
    /// A tool that the launcher runs failed.
    LauncherError(String),
    /// Anything else.
    OtherError(String),
}

/// The server software of a local server.
#[derive(Clone, Copy, Debug, PartialEq, Eq, Structural)]
pub enum ServerLoader {
    Vanilla,
    Fabric,
    Forge,
    NeoForge,
    Quilt,
    Paper,
    Purpur,
}

/// The mod loader of a launcher profile.
#[derive(Clone, Copy, Debug, PartialEq, Eq, Structural)]
pub enum ModLoader {
    Vanilla,
    Forge,
    Fabric,
    Quilt,
    NeoForge,
}

/// The lowercase name under which a loader is stored and exchanged.
pub open spec fn loader_name(l: ServerLoader) -> Seq<char> {
    match l {
        ServerLoader::Vanilla => "vanilla"@,
        ServerLoader::Fabric => "fabric"@,
        ServerLoader::Forge => "forge"@,
        ServerLoader::NeoForge => "neoforge"@,
        ServerLoader::Quilt => "quilt"@,
        ServerLoader::Paper => "paper"@,
        ServerLoader::Purpur => "purpur"@,
    }
}

/// The loader that a name stands for, if any.
pub open spec fn loader_named(s: Seq<char>) -> Option<ServerLoader> {
    if s == "vanilla"@ {
        Some(ServerLoader::Vanilla)
    } else if s == "fabric"@ {
        Some(ServerLoader::Fabric)
    } else if s == "forge"@ {
        Some(ServerLoader::Forge)
    } else if s == "neoforge"@ {
        Some(ServerLoader::NeoForge)
    } else if s == "quilt"@ {
        Some(ServerLoader::Quilt)
    } else if s == "paper"@ {
        Some(ServerLoader::Paper)
    } else if s == "purpur"@ {
        Some(ServerLoader::Purpur)
    } else {
        None
    }
}

/// Loaders whose server jar is started directly with `java -jar`.
pub open spec fn plain_jar(l: ServerLoader) -> bool {
    !(l == ServerLoader::Forge || l == ServerLoader::NeoForge)
}

impl ServerLoader {
    pub fn as_str(self) -> (s: &'static str)
        ensures
            s@ == loader_name(self),
    {
        match self {
            ServerLoader::Vanilla => "vanilla",
            ServerLoader::Fabric => "fabric",
            ServerLoader::Forge => "forge",
            ServerLoader::NeoForge => "neoforge",
            ServerLoader::Quilt => "quilt",
            ServerLoader::Paper => "paper",
            ServerLoader::Purpur => "purpur",
        }
    }

    /// The loader a stored name stands for; an input error for any other
    /// text.
    pub fn from_str_value(value: &str) -> (r: Result<ServerLoader, ErrorKind>)
        ensures
            match loader_named(value@) {
                Some(l) => r == Ok::<ServerLoader, ErrorKind>(l),
                None => r matches Err(ErrorKind::InputError(m)) && m@ == "Unknown server loader "@
                    + value@,
            },
    {
        if same_text(value, "vanilla") {
            Ok(ServerLoader::Vanilla)
        } else if same_text(value, "fabric") {
            Ok(ServerLoader::Fabric)
        } else if same_text(value, "forge") {
            Ok(ServerLoader::Forge)
        } else if same_text(value, "neoforge") {
            Ok(ServerLoader::NeoForge)
        } else if same_text(value, "quilt") {
            Ok(ServerLoader::Quilt)
        } else if same_text(value, "paper") {
            Ok(ServerLoader::Paper)
        } else if same_text(value, "purpur") {
            Ok(ServerLoader::Purpur)
        } else {
            let mut m = String::from_str("Unknown server loader ");
            m.append(value);
            Err(ErrorKind::InputError(m))
        }
    }

    /// Loaders whose server jar is run directly via `java -jar`.
    pub fn uses_plain_jar(self) -> (b: bool)
        ensures
            b == plain_jar(self),
    {
        match self {
            ServerLoader::Forge | ServerLoader::NeoForge => false,
            _ => true,
        }
    }

    /// The server software for a profile's mod loader.
    pub fn from_mod_loader(loader: ModLoader) -> (l: ServerLoader)
        ensures
            l == match loader {
                ModLoader::Vanilla => ServerLoader::Vanilla,
                ModLoader::Fabric => ServerLoader::Fabric,
                ModLoader::Forge => ServerLoader::Forge,
                ModLoader::Quilt => ServerLoader::Quilt,
                ModLoader::NeoForge => ServerLoader::NeoForge,
            },
    {
        match loader {
            ModLoader::Vanilla => ServerLoader::Vanilla,
            ModLoader::Fabric => ServerLoader::Fabric,
            ModLoader::Forge => ServerLoader::Forge,
            ModLoader::Quilt => ServerLoader::Quilt,
            ModLoader::NeoForge => ServerLoader::NeoForge,
        }
    }
}

/// The server folder holding mods or plugins: `plugins` for Paper and
/// Purpur, `mods` for the others.
pub open spec fn content_folder(l: ServerLoader) -> Seq<char> {
    if l == ServerLoader::Paper || l == ServerLoader::Purpur {
        "plugins"@
    } else {
        "mods"@
    }
}

pub fn content_folder_name(loader: ServerLoader) -> (s: &'static str)
    ensures
        s@ == content_folder(loader),
{
    match loader {
        ServerLoader::Paper | ServerLoader::Purpur => "plugins",
        _ => "mods",
    }
}

/// Every loader is read back from its stored name, and a name that is read
/// as a loader is that loader's stored name.
pub proof fn law_loader_name_round_trip(l: ServerLoader, s: Seq<char>)
    ensures
        loader_named(loader_name(l)) == Some(l),
        loader_named(s) matches Some(m) ==> loader_name(m) == s,
{
    reveal_strlit("vanilla");
    reveal_strlit("fabric");
    reveal_strlit("forge");
    reveal_strlit("neoforge");
    reveal_strlit("quilt");
    reveal_strlit("paper");
    reveal_strlit("purpur");
    let n = loader_name(l);
    assert(n.len() > 0);
    assert(n[0] == "vanilla"@[0] ==> n == "vanilla"@);
    assert(n[0] == "neoforge"@[0] ==> n == "neoforge"@);
    assert(n[0] == "quilt"@[0] ==> n == "quilt"@);
    assert(n[0] == "fabric"@[0] ==> n == "fabric"@ || n == "forge"@);
    assert(n[0] == "paper"@[0] ==> n == "paper"@ || n == "purpur"@);
}

} // verus!
