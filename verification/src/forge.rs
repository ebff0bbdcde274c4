//! How a server of the Forge family is launched: what its installer left behind.
use vstd::prelude::*;

use crate::sorting;
use crate::text;
use crate::text_laws;
use crate::text::{debug_string_list, join_path};

verus! {

/// A loader of the Forge family.
#[derive(Debug, Clone, Copy, PartialEq, Eq, Structural)]
pub enum ModLoaderKind {
    Forge,
    NeoForge,
}

/// What launches the server.
#[derive(Debug, Clone, PartialEq, Eq)]
pub enum ModLoaderLaunch {
    /// A script, which reads its arguments from a file.
    Script(String),
    /// A JAR in the server directory.
    LegacyJar(String),
}

/// The name of a loader in file names.
pub open spec fn loader_prefix(kind: ModLoaderKind) -> Seq<char> {
    match kind {
        ModLoaderKind::Forge => "forge"@,
        ModLoaderKind::NeoForge => "neoforge"@,
    }
}

/// Where a loader's libraries stand below the server directory.
pub open spec fn loader_libraries(kind: ModLoaderKind) -> Seq<char> {
    match kind {
        ModLoaderKind::Forge => "libraries/net/minecraftforge/forge"@,
        ModLoaderKind::NeoForge => "libraries/net/neoforged/neoforge"@,
    }
}

/// The name of the script.
pub open spec fn script_name(windows: bool) -> Seq<char> {
    if windows {
        "run.bat"@
    } else {
        "run.sh"@
    }
}

/// The name of the file with the script's arguments.
pub open spec fn args_name(windows: bool) -> Seq<char> {
    if windows {
        "win_args.txt"@
    } else {
        "unix_args.txt"@
    }
}

impl ModLoaderKind {
    /// The name of the loader in file names.
    pub fn prefix(self) -> (r: &'static str)
        ensures
            r@ == loader_prefix(self),
    {
        match self {
            ModLoaderKind::Forge => "forge",
            ModLoaderKind::NeoForge => "neoforge",
        }
    }

    /// Where the libraries of a version stand.
    pub fn library_dir(self, server_dir: &str, version_key: &str) -> (r: String)
        ensures
            r@ == text::under(text::under(server_dir@, loader_libraries(self)), version_key@),
    {
        let libraries = match self {
            ModLoaderKind::Forge => "libraries/net/minecraftforge/forge",
            ModLoaderKind::NeoForge => "libraries/net/neoforged/neoforge",
        };
        let dir = join_path(server_dir, libraries);
        join_path(dir.as_str(), version_key)
    }
}

/// The files that decide how a server is launched.
#[derive(Debug, Clone)]
pub struct LaunchPaths {
    pub script: String,
    pub args_file: String,
    /// The JAR of an old release.
    pub jar: String,
    /// The JAR of a still older one.
    pub universal_jar: String,
}

/// Which of the files are there.
#[derive(Debug, Clone, Copy, PartialEq, Eq, Structural)]
pub struct LaunchFiles {
    pub script: bool,
    pub args_file: bool,
    pub jar: bool,
    pub universal_jar: bool,
}

/// The files that decide how a server is launched.
pub open spec fn launch_paths_are(
    p: LaunchPaths,
    server_dir: Seq<char>,
    kind: ModLoaderKind,
    version_key: Seq<char>,
    windows: bool,
) -> bool {
    &&& p.script@ == text::under(server_dir, script_name(windows))
    &&& p.args_file@ == text::under(
        text::under(text::under(server_dir, loader_libraries(kind)), version_key),
        args_name(windows),
    )
    &&& p.jar@ == text::under(server_dir, loader_prefix(kind) + "-"@ + version_key + ".jar"@)
    &&& p.universal_jar@ == text::under(
        server_dir,
        loader_prefix(kind) + "-"@ + version_key + "-universal.jar"@,
    )
}

/// The files that decide how a server is launched.
pub fn launch_paths(server_dir: &str, kind: ModLoaderKind, version_key: &str, windows: bool) -> (r:
    LaunchPaths)
    ensures
        launch_paths_are(r, server_dir@, kind, version_key@, windows),
{
    let (script, args) = if windows {
        ("run.bat", "win_args.txt")
    } else {
        ("run.sh", "unix_args.txt")
    };
    let dir = kind.library_dir(server_dir, version_key);
    let mut jar = String::from_str(kind.prefix());
    jar.append("-");
    jar.append(version_key);
    let mut universal = jar.clone();
    jar.append(".jar");
    universal.append("-universal.jar");
    LaunchPaths {
        script: join_path(server_dir, script),
        args_file: join_path(dir.as_str(), args),
        jar: join_path(server_dir, jar.as_str()),
        universal_jar: join_path(server_dir, universal.as_str()),
    }
}

/// How a server is launched, or what is missing. The script counts only with
/// its arguments, and a JAR of the game is not asked for. `found` is what else
/// stands in the server directory.
pub fn detect_modloader_launch(
    server_dir: &str,
    kind: ModLoaderKind,
    version_key: &str,
    windows: bool,
    files: LaunchFiles,
    found: &Vec<String>,
) -> (r: Result<ModLoaderLaunch, String>)
    ensures
        r is Ok <==> (files.script && files.args_file) || files.jar || files.universal_jar,
        exists|p: LaunchPaths| #[trigger]
            launch_paths_are(p, server_dir@, kind, version_key@, windows) && match r {
                Ok(ModLoaderLaunch::Script(s)) => files.script && files.args_file && s == p.script,
                Ok(ModLoaderLaunch::LegacyJar(j)) => !(files.script && files.args_file) && j == (
                if files.jar {
                    p.jar
                } else {
                    p.universal_jar
                }),
                Err(e) => exists|names: Seq<String>|
                    {
                        &&& sorting::in_order(#[trigger] text::views(names))
                        &&& names.to_multiset() == found@.to_multiset()
                        &&& e@ == loader_prefix(kind) + " installation is incomplete: expected "@
                            + script_name(windows) + " with "@ + p.args_file@
                            + " or a legacy launcher jar in "@ + server_dir@ + ". Files found: "@
                            + text::debug_strings(text::views(names))
                    },
            },
{
    let p = launch_paths(server_dir, kind, version_key, windows);
    if files.script && files.args_file {
        return Ok(ModLoaderLaunch::Script(p.script));
    }
    if files.jar {
        return Ok(ModLoaderLaunch::LegacyJar(p.jar));
    }
    if files.universal_jar {
        return Ok(ModLoaderLaunch::LegacyJar(p.universal_jar));
    }
    let names = sorting::sorted_strings(found);
    let mut s = String::from_str(kind.prefix());
    s.append(" installation is incomplete: expected ");
    if windows {
        s.append("run.bat");
    } else {
        s.append("run.sh");
    }
    s.append(" with ");
    s.append(p.args_file.as_str());
    s.append(" or a legacy launcher jar in ");
    s.append(server_dir);
    s.append(". Files found: ");
    s.append(debug_string_list(&names).as_str());
    Err(s)
}

/// Each loader has its own name and its own place for libraries, and each system
/// its own script.
pub proof fn law_loaders_have_their_places()
    ensures
        loader_prefix(ModLoaderKind::Forge) == "forge"@,
        loader_prefix(ModLoaderKind::NeoForge) == "neoforge"@,
        loader_libraries(ModLoaderKind::Forge) == "libraries/net/minecraftforge/forge"@,
        loader_libraries(ModLoaderKind::NeoForge) == "libraries/net/neoforged/neoforge"@,
        script_name(true) == "run.bat"@,
        script_name(false) == "run.sh"@,
        args_name(true) == "win_args.txt"@,
        args_name(false) == "unix_args.txt"@,
{
}

/// The files that decide how a server is launched stand in its directory, or in the
/// loader's below it, under the loader's name and the version.
pub proof fn law_launch_paths(
    p: LaunchPaths,
    dir: Seq<char>,
    kind: ModLoaderKind,
    key: Seq<char>,
    windows: bool,
)
    requires
        launch_paths_are(p, dir, kind, key, windows),
        dir.len() > 0,
        dir.last() != '/',
        key.len() > 0,
        key[0] != '/',
        key.last() != '/',
    ensures
        text::starts_with(p.script@, dir),
        text::ends_with(p.script@, script_name(windows)),
        text::starts_with(p.jar@, dir),
        text::ends_with(p.jar@, loader_prefix(kind) + "-"@ + key + ".jar"@),
        text::ends_with(p.universal_jar@, loader_prefix(kind) + "-"@ + key + "-universal.jar"@),
        text::ends_with(p.args_file@, args_name(windows)),
{
    reveal_strlit("run.bat");
    reveal_strlit("run.sh");
    reveal_strlit("win_args.txt");
    reveal_strlit("unix_args.txt");
    reveal_strlit("forge");
    reveal_strlit("neoforge");
    reveal_strlit("libraries/net/minecraftforge/forge");
    reveal_strlit("libraries/net/neoforged/neoforge");
    assert(script_name(windows)[0] == 'r');
    text_laws::law_under(dir, script_name(windows));
    let j = loader_prefix(kind) + "-"@ + key + ".jar"@;
    let u = loader_prefix(kind) + "-"@ + key + "-universal.jar"@;
    assert(j[0] == loader_prefix(kind)[0] && u[0] == loader_prefix(kind)[0]);
    assert(loader_prefix(kind)[0] != '/');
    text_laws::law_under(dir, j);
    text_laws::law_under(dir, u);
    let lib = loader_libraries(kind);
    assert(lib[0] == 'l');
    text_laws::law_under(dir, lib);
    let a = text::under(dir, lib);
    assert(a.last() == lib.last());
    assert(lib.last() == 'e');
    text_laws::law_under(a, key);
    let b = text::under(a, key);
    assert(b.last() == key.last());
    assert(args_name(windows)[0] != '/');
    text_laws::law_under(b, args_name(windows));
}

} // verus!
