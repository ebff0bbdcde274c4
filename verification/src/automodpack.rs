//! AutoModpack: the mod that brings the mods of players in step with those of
//! the server. Which release fits, whether one is installed, and what goes into
//! the pack for players.
use vstd::prelude::*;

use crate::config;
use crate::config::ServerType;
use crate::text;
use crate::text_laws;
use crate::text::{from_chars, has_sub, has_suffix, join_path, lower_chars, str_eq, to_chars, trimmed};

verus! {

/// Where the releases are listed.
pub const GITHUB_API: &'static str = "https://api.github.com/repos/Skidamek/AutoModpack/releases";

/// Whether AutoModpack is installed, and what could be.
#[derive(Debug, Clone)]
pub struct AutoModpackStatus {
    /// Whether it is among the server's mods.
    pub installed: bool,
    pub installed_file: Option<String>,
    /// The latest release that fits.
    pub latest_compatible: Option<String>,
    /// The file of that release.
    pub latest_asset_name: Option<String>,
    /// Whether there can be one at all for the kind of server.
    pub loader_supported: bool,
}

impl Default for AutoModpackStatus {
    fn default() -> (r: Self)
        ensures
            !r.installed,
            r.installed_file is None,
            r.latest_compatible is None,
            r.latest_asset_name is None,
            !r.loader_supported,
    {
        AutoModpackStatus {
            installed: false,
            installed_file: None,
            latest_compatible: None,
            latest_asset_name: None,
            loader_supported: false,
        }
    }
}

/// A release.
#[derive(Debug, Clone)]
pub struct GhRelease {
    pub tag_name: String,
    pub prerelease: bool,
    pub draft: bool,
    pub assets: Vec<GhAsset>,
}

/// A file of a release.
#[derive(Debug, Clone)]
pub struct GhAsset {
    pub name: String,
    pub browser_download_url: String,
}

impl GhAsset {
    /// A copy.
    pub fn copied(&self) -> (r: Self)
        ensures
            r == *self,
    {
        GhAsset {
            name: self.name.clone(),
            browser_download_url: self.browser_download_url.clone(),
        }
    }
}

/// How a kind of server is called in the names of files; nothing where it is not
/// supported.
pub open spec fn token_of(t: ServerType) -> Option<Seq<char>> {
    match t {
        ServerType::Forge => Some("forge"@),
        ServerType::NeoForge => Some("neoforge"@),
        ServerType::Fabric => Some("fabric"@),
        ServerType::SpongeForge => Some("sponge"@),
        _ => None,
    }
}

/// Whether a kind of server is supported.
pub fn loader_supported(loader: &ServerType) -> (r: bool)
    ensures
        r == token_of(*loader) is Some,
{
    match *loader {
        ServerType::Forge | ServerType::NeoForge | ServerType::Fabric | ServerType::SpongeForge => true,
        _ => false,
    }
}

/// How a kind of server is called in the names of files.
pub fn loader_token(loader: &ServerType) -> (r: Option<&'static str>)
    ensures
        match r {
            Some(t) => token_of(*loader) == Some(t@),
            None => token_of(*loader) is None,
        },
{
    match *loader {
        ServerType::Forge => Some("forge"),
        ServerType::NeoForge => Some("neoforge"),
        ServerType::Fabric => Some("fabric"),
        ServerType::SpongeForge => Some("sponge"),
        _ => None,
    }
}

/// Where the server's mods are.
pub fn mods_dir(server_path: &str) -> (r: Result<String, String>)
    ensures
        r is Ok <==> text::trim(server_path@).len() > 0,
        r is Ok ==> r->Ok_0@ == text::under(server_path@, "mods"@),
        r is Err ==> r->Err_0@ == "Choose a server folder first."@,
{
    let chars = to_chars(server_path);
    if trimmed(&chars).len() == 0 {
        Err(String::from_str("Choose a server folder first."))
    } else {
        Ok(join_path(server_path, "mods"))
    }
}

/// Whether a file is AutoModpack's.
pub open spec fn is_automodpack(name: Seq<char>) -> bool {
    text::ends_with(text::lowered(name), ".jar"@) && text::contains(
        text::lowered(name),
        "automodpack"@,
    )
}

/// The first file that is AutoModpack's.
pub fn find_installed(names: &Vec<String>) -> (r: Option<String>)
    ensures
        match r {
            Some(n) => exists|i: int|
                {
                    &&& 0 <= i < names@.len()
                    &&& #[trigger] names@[i] == n
                    &&& is_automodpack(n@)
                    &&& forall|k: int| 0 <= k < i ==> !is_automodpack(#[trigger] names@[k]@)
                },
            None => forall|k: int| 0 <= k < names@.len() ==> !is_automodpack(
                #[trigger] names@[k]@,
            ),
        },
{
    let mut i: usize = 0;
    while i < names.len()
        invariant
            i <= names.len(),
            forall|k: int| 0 <= k < i ==> !is_automodpack(#[trigger] names@[k]@),
        decreases names.len() - i,
    {
        let chars = to_chars(names[i].as_str());
        let lower = lower_chars(&chars);
        if has_suffix(&lower, ".jar") && has_sub(&lower, "automodpack") {
            let n = names[i].clone();
            assert(names@[i as int] == n);
            return Some(n);
        }
        i = i + 1;
    }
    None
}

/// The files among the first `n` that are AutoModpack's.
pub open spec fn installed_below(names: Seq<String>, n: int) -> Seq<String>
    decreases n,
{
    if n <= 0 {
        seq![]
    } else if is_automodpack(names[n - 1]@) {
        installed_below(names, n - 1).push(names[n - 1])
    } else {
        installed_below(names, n - 1)
    }
}

/// All files that are AutoModpack's: those that go when it is removed or
/// replaced.
pub fn find_all_installed(names: &Vec<String>) -> (r: Vec<String>)
    ensures
        r@ == installed_below(names@, names@.len() as int),
{
    let mut out: Vec<String> = Vec::new();
    let mut i: usize = 0;
    while i < names.len()
        invariant
            i <= names.len(),
            out@ == installed_below(names@, i as int),
        decreases names.len() - i,
    {
        let chars = to_chars(names[i].as_str());
        let lower = lower_chars(&chars);
        if has_suffix(&lower, ".jar") && has_sub(&lower, "automodpack") {
            out.push(names[i].clone());
        }
        i = i + 1;
    }
    out
}

/// What goes when AutoModpack is removed are its files and no others, so that
/// none of them is left.
pub proof fn law_removal_leaves_none(names: Seq<String>, n: int, name: String)
    requires
        0 <= n <= names.len(),
    ensures
        installed_below(names, n).contains(name) <==> is_automodpack(name@) && names.take(
            n,
        ).contains(name),
    decreases n,
{
    if n > 0 {
        law_removal_leaves_none(names, n - 1, name);
        let before = installed_below(names, n - 1);
        let after = installed_below(names, n);
        if before.contains(name) {
            let k = choose|k: int| 0 <= k < before.len() && before[k] == name;
            assert(after[k] == name);
        }
        let some = names.take(n - 1);
        let more = names.take(n);
        if some.contains(name) {
            let k = choose|k: int| 0 <= k < some.len() && some[k] == name;
            assert(more[k] == name);
        }
        if more.contains(name) && !some.contains(name) {
            let k = choose|k: int| 0 <= k < more.len() && more[k] == name;
            if k < n - 1 {
                assert(some[k] == name);
            }
            if is_automodpack(name@) {
                assert(after[before.len() as int] == name);
            }
        }
        if after.contains(name) && !before.contains(name) {
            assert(more[n - 1] == name);
        }
    }
}

/// A text with its dashes as dots.
pub open spec fn dotted(s: Seq<char>) -> Seq<char> {
    s.map_values(
        |c: char|
            if c == '-' {
                '.'
            } else {
                c
            },
    )
}

/// Whether a file is for a version of the game and a loader. A version may be
/// written with dashes in place of dots. NeoForge's name holds Forge's, so that
/// one is told apart.
pub open spec fn asset_fits(name: Seq<char>, mc_version: Seq<char>, token: Seq<char>) -> bool {
    let lower = text::lowered(name);
    &&& text::ends_with(lower, ".jar"@)
    &&& text::contains(dotted(lower), dotted(text::lowered(mc_version)))
    &&& !(token == "forge"@ && text::contains(lower, "neoforge"@))
    &&& text::contains(lower, token)
}

/// A text with its dashes as dots.
fn dotted_chars(s: &[char]) -> (r: Vec<char>)
    ensures
        r@ == dotted(s@),
{
    let mut out: Vec<char> = Vec::new();
    let mut i: usize = 0;
    while i < s.len()
        invariant
            i <= s.len(),
            out@ == dotted(s@).take(i as int),
        decreases s.len() - i,
    {
        let c = if s[i] == '-' {
            '.'
        } else {
            s[i]
        };
        out.push(c);
        assert(dotted(s@).take(i as int + 1) =~= dotted(s@).take(i as int).push(c));
        i = i + 1;
    }
    assert(dotted(s@).take(s@.len() as int) =~= dotted(s@));
    out
}

/// Whether a file is for a version of the game and a loader.
pub fn matches_asset(name: &str, mc_version: &str, token: &str) -> (r: bool)
    ensures
        r == asset_fits(name@, mc_version@, token@),
{
    let chars = to_chars(name);
    let lower = lower_chars(&chars);
    let mc_chars = to_chars(mc_version);
    let mc = from_chars(&dotted_chars(&lower_chars(&mc_chars)));
    if !has_suffix(&lower, ".jar") {
        return false;
    }
    if !has_sub(&dotted_chars(&lower), mc.as_str()) {
        return false;
    }
    if str_eq(token, "forge") && has_sub(&lower, "neoforge") {
        return false;
    }
    has_sub(&lower, token)
}

/// The first file of a release that fits, from one place on.
pub open spec fn asset_from(
    assets: Seq<GhAsset>,
    mc_version: Seq<char>,
    token: Seq<char>,
    i: int,
) -> Option<GhAsset>
    decreases assets.len() - i,
{
    if i < 0 || i >= assets.len() {
        None
    } else if asset_fits(assets[i].name@, mc_version, token) {
        Some(assets[i])
    } else {
        asset_from(assets, mc_version, token, i + 1)
    }
}

/// The first release from one place on that has a file that fits, with that
/// file. Drafts do not count; releases in testing only where `early` holds.
pub open spec fn release_from(
    releases: Seq<GhRelease>,
    mc_version: Seq<char>,
    token: Seq<char>,
    early: bool,
    i: int,
) -> Option<(Seq<char>, GhAsset)>
    decreases releases.len() - i,
{
    if i < 0 || i >= releases.len() {
        None
    } else {
        let asset = asset_from(releases[i].assets@, mc_version, token, 0);
        if !releases[i].draft && (early || !releases[i].prerelease) && asset is Some {
            Some((releases[i].tag_name@, asset->0))
        } else {
            release_from(releases, mc_version, token, early, i + 1)
        }
    }
}

/// The release and the file to install: the first finished release that fits,
/// or else the first one at all.
pub open spec fn best_asset(
    releases: Seq<GhRelease>,
    mc_version: Seq<char>,
    token: Seq<char>,
) -> Option<(Seq<char>, GhAsset)> {
    match release_from(releases, mc_version, token, false, 0) {
        Some(x) => Some(x),
        None => release_from(releases, mc_version, token, true, 0),
    }
}

fn first_asset(assets: &Vec<GhAsset>, mc_version: &str, token: &str) -> (r: Option<GhAsset>)
    ensures
        r == asset_from(assets@, mc_version@, token@, 0),
{
    let mut i: usize = 0;
    while i < assets.len()
        invariant
            i <= assets.len(),
            asset_from(assets@, mc_version@, token@, 0) == asset_from(
                assets@,
                mc_version@,
                token@,
                i as int,
            ),
        decreases assets.len() - i,
    {
        if matches_asset(assets[i].name.as_str(), mc_version, token) {
            return Some(assets[i].copied());
        }
        i = i + 1;
    }
    None
}

fn first_release(releases: &Vec<GhRelease>, mc_version: &str, token: &str, early: bool) -> (r: Option<
    (String, GhAsset),
>)
    ensures
        match r {
            Some(x) => release_from(releases@, mc_version@, token@, early, 0) == Some((x.0@, x.1)),
            None => release_from(releases@, mc_version@, token@, early, 0) is None,
        },
{
    let mut i: usize = 0;
    while i < releases.len()
        invariant
            i <= releases.len(),
            release_from(releases@, mc_version@, token@, early, 0) == release_from(
                releases@,
                mc_version@,
                token@,
                early,
                i as int,
            ),
        decreases releases.len() - i,
    {
        let release = &releases[i];
        if !release.draft && (early || !release.prerelease) {
            match first_asset(&release.assets, mc_version, token) {
                Some(a) => {
                    return Some((release.tag_name.clone(), a));
                },
                None => {},
            }
        }
        i = i + 1;
    }
    None
}

/// What is said where a kind of server is not supported, when a release is
/// looked for.
pub open spec fn unsupported_text(t: ServerType) -> Seq<char> {
    "AutoModpack doesn't support "@ + config::type_word(t)
        + " servers (Forge, NeoForge, and Fabric only)."@
}

/// What is said where no release fits.
pub open spec fn no_release_text(mc_version: Seq<char>, token: Seq<char>) -> Seq<char> {
    "No AutoModpack release found for Minecraft "@ + mc_version + " on "@ + token
        + ". The mod may not have been updated for this version yet — check https://github.com/Skidamek/AutoModpack/releases."@
}

/// The release and the file to install.
pub fn find_compatible_asset(
    mc_version: &str,
    loader: &ServerType,
    releases: &Vec<GhRelease>,
) -> (r: Result<(String, GhAsset), String>)
    ensures
        match token_of(*loader) {
            None => r is Err && r->Err_0@ == unsupported_text(*loader),
            Some(token) => match best_asset(releases@, mc_version@, token) {
                Some(x) => r is Ok && (r->Ok_0).0@ == x.0 && (r->Ok_0).1 == x.1,
                None => r is Err && r->Err_0@ == no_release_text(mc_version@, token),
            },
        },
{
    let token = match loader_token(loader) {
        Some(t) => t,
        None => {
            let mut s = String::from_str("AutoModpack doesn't support ");
            s.append(loader.name());
            s.append(" servers (Forge, NeoForge, and Fabric only).");
            return Err(s);
        },
    };
    match first_release(releases, mc_version, token, false) {
        Some(x) => Ok(x),
        None => match first_release(releases, mc_version, token, true) {
            Some(x) => Ok(x),
            None => {
                let mut s = String::from_str("No AutoModpack release found for Minecraft ");
                s.append(mc_version);
                s.append(" on ");
                s.append(token);
                s.append(". The mod may not have been updated for this version yet — check https://github.com/Skidamek/AutoModpack/releases.");
                Err(s)
            },
        },
    }
}

/// The file that is chosen fits.
proof fn lemma_asset_fits(assets: Seq<GhAsset>, mc_version: Seq<char>, token: Seq<char>, i: int)
    ensures
        asset_from(assets, mc_version, token, i) is Some ==> asset_fits(
            asset_from(assets, mc_version, token, i)->0.name@,
            mc_version,
            token,
        ),
    decreases assets.len() - i,
{
    if 0 <= i < assets.len() {
        lemma_asset_fits(assets, mc_version, token, i + 1);
    }
}

proof fn lemma_release_fits(
    releases: Seq<GhRelease>,
    mc_version: Seq<char>,
    token: Seq<char>,
    early: bool,
    i: int,
)
    ensures
        release_from(releases, mc_version, token, early, i) is Some ==> asset_fits(
            (release_from(releases, mc_version, token, early, i)->0).1.name@,
            mc_version,
            token,
        ),
        release_from(releases, mc_version, token, true, i) is None ==> release_from(
            releases,
            mc_version,
            token,
            false,
            i,
        ) is None,
    decreases releases.len() - i,
{
    if 0 <= i < releases.len() {
        lemma_asset_fits(releases[i].assets@, mc_version, token, 0);
        lemma_release_fits(releases, mc_version, token, early, i + 1);
    }
}

/// What is chosen fits the version of the game and the loader: a file for
/// NeoForge is never chosen for Forge. Where a finished release fits, none in
/// testing is chosen.
pub proof fn law_chosen_asset_fits(
    releases: Seq<GhRelease>,
    mc_version: Seq<char>,
    token: Seq<char>,
)
    ensures
        best_asset(releases, mc_version, token) is Some ==> asset_fits(
            (best_asset(releases, mc_version, token)->0).1.name@,
            mc_version,
            token,
        ),
        release_from(releases, mc_version, token, false, 0) is Some ==> best_asset(
            releases,
            mc_version,
            token,
        ) == release_from(releases, mc_version, token, false, 0),
{
    lemma_release_fits(releases, mc_version, token, false, 0);
    lemma_release_fits(releases, mc_version, token, true, 0);
}

/// Whether AutoModpack is installed, and what could be: `latest` is what was
/// found, where a look made sense and did not fail.
pub fn status(
    loader: &ServerType,
    installed_file: Option<String>,
    latest: Option<(String, GhAsset)>,
) -> (r: AutoModpackStatus)
    ensures
        r.installed == installed_file is Some,
        r.installed_file == installed_file,
        r.loader_supported == token_of(*loader) is Some,
        match latest {
            Some(x) => r.latest_compatible == Some(x.0) && r.latest_asset_name == Some(x.1.name),
            None => r.latest_compatible is None && r.latest_asset_name is None,
        },
{
    let supported = loader_supported(loader);
    let installed = installed_file.is_some();
    match latest {
        Some(x) => AutoModpackStatus {
            installed,
            installed_file,
            latest_compatible: Some(x.0),
            latest_asset_name: Some(x.1.name),
            loader_supported: supported,
        },
        None => AutoModpackStatus {
            installed,
            installed_file,
            latest_compatible: None,
            latest_asset_name: None,
            loader_supported: supported,
        },
    }
}

/// Whether a look for a release makes sense.
pub fn worth_looking(loader: &ServerType, mc_version: &str) -> (r: bool)
    ensures
        r == (token_of(*loader) is Some && mc_version@.len() > 0),
{
    let chars = to_chars(mc_version);
    loader_supported(loader) && chars.len() > 0
}

/// Whether AutoModpack can be installed, or packed for players.
pub fn check_installable(loader: &ServerType, mc_version: &str) -> (r: Result<(), String>)
    ensures
        r is Ok <==> token_of(*loader) is Some && text::trim(mc_version@).len() > 0,
        r is Err ==> r->Err_0@ == (if token_of(*loader) is None {
            "AutoModpack supports Forge, NeoForge, and Fabric servers only. Current server type: "@
                + config::type_word(*loader) + "."@
        } else {
            "Pick a Minecraft version first."@
        }),
{
    if !loader_supported(loader) {
        let mut s = String::from_str(
            "AutoModpack supports Forge, NeoForge, and Fabric servers only. Current server type: ",
        );
        s.append(loader.name());
        s.append(".");
        return Err(s);
    }
    let chars = to_chars(mc_version);
    if trimmed(&chars).len() == 0 {
        return Err(String::from_str("Pick a Minecraft version first."));
    }
    Ok(())
}

/// The status once a file is installed.
pub fn installed_status(tag: String, asset_name: String) -> (r: AutoModpackStatus)
    ensures
        r.installed,
        r.installed_file == Some(asset_name),
        r.latest_compatible == Some(tag),
        r.latest_asset_name == Some(asset_name),
        r.loader_supported,
{
    AutoModpackStatus {
        installed: true,
        installed_file: Some(asset_name.clone()),
        latest_compatible: Some(tag),
        latest_asset_name: Some(asset_name),
        loader_supported: true,
    }
}

// ---------------------------------------------------------------------
// The pack for players
// ---------------------------------------------------------------------

/// How a kind of server is called in the text for players.
pub open spec fn pretty_loader(t: ServerType) -> Seq<char> {
    match t {
        ServerType::Forge => "Forge"@,
        ServerType::NeoForge => "NeoForge"@,
        ServerType::Fabric => "Fabric"@,
        ServerType::SpongeForge => "SpongeForge"@,
        _ => "(unsupported)"@,
    }
}

/// The line with the address of the server.
pub open spec fn address_line(address: Option<Seq<char>>) -> Seq<char> {
    if address is Some && text::trim(address->0).len() > 0 {
        "    Server address:  "@ + address->0
    } else {
        "    Server address:  <ask your host>"@
    }
}

/// A text, or another one where it is blank.
pub open spec fn or_else(s: Seq<char>, other: Seq<char>) -> Seq<char> {
    if text::trim(s).len() == 0 {
        other
    } else {
        s
    }
}

/// The text for players.
pub open spec fn readme_text(
    server_name: Seq<char>,
    server_line: Seq<char>,
    mc: Seq<char>,
    loader: Seq<char>,
    loader_ver: Seq<char>,
    jar: Seq<char>,
) -> Seq<char> {
    "How to join "@
        + server_name
        + "\n================================\n\n"@
        + server_line
        + "\n\nMinecraft version:  "@
        + mc
        + "\nLoader:             "@
        + loader
        + " "@
        + loader_ver
        + "\n\n── 1.  Install "@
        + loader
        + " for Minecraft "@
        + mc
        + " ──\nIf you don't already have "@
        + loader
        + " for "@
        + mc
        + ", install it via your\nlauncher (Modrinth App, Prism, CurseForge, vanilla launcher with\nthe "@
        + loader
        + " installer). Make sure you can launch a profile that\nuses "@
        + loader
        + " "@
        + loader_ver
        + ".\n\n── 2.  Drop the included .jar into your mods folder ──\nCopy `"@
        + jar
        + "` into your Minecraft `mods/` folder. On macOS / Linux\nthat's usually `~/Library/Application Support/minecraft/mods/` or\n`~/.minecraft/mods/`. On Windows it's `%APPDATA%/.minecraft/mods/`.\n(Your launcher may show a button labelled \"Open mods folder\".)\n\n── 3.  Launch Minecraft, then connect to the server ──\nMultiplayer → Add Server → paste the address above → Done → Join.\nAutoModpack will pop up automatically the first time, listing the\nmods the server requires. Click Update, wait for the download,\nrestart Minecraft when prompted, and you're in.\n\nFuture mod changes will sync automatically on join — you'll only\nsee this prompt once per change.\n\n── Need help? ──\nAsk your server host. They can re-export this pack any time from\nLbby → Mods → Installed → Auto-sync with players → Generate.\n\n— Generated by Lbby\n"@
}

fn write_readme(
    server_name: &str,
    server_line: &str,
    mc: &str,
    loader: &str,
    loader_ver: &str,
    jar: &str,
) -> (r: String)
    ensures
        r@ == readme_text(server_name@, server_line@, mc@, loader@, loader_ver@, jar@),
{
    let mut s = String::from_str("How to join ");
    s.append(server_name);
    s.append("\n================================\n\n");
    s.append(server_line);
    s.append("\n\nMinecraft version:  ");
    s.append(mc);
    s.append("\nLoader:             ");
    s.append(loader);
    s.append(" ");
    s.append(loader_ver);
    s.append("\n\n── 1.  Install ");
    s.append(loader);
    s.append(" for Minecraft ");
    s.append(mc);
    s.append(" ──\nIf you don't already have ");
    s.append(loader);
    s.append(" for ");
    s.append(mc);
    s.append(", install it via your\nlauncher (Modrinth App, Prism, CurseForge, vanilla launcher with\nthe ");
    s.append(loader);
    s.append(" installer). Make sure you can launch a profile that\nuses ");
    s.append(loader);
    s.append(" ");
    s.append(loader_ver);
    s.append(".\n\n── 2.  Drop the included .jar into your mods folder ──\nCopy `");
    s.append(jar);
    s.append("` into your Minecraft `mods/` folder. On macOS / Linux\nthat's usually `~/Library/Application Support/minecraft/mods/` or\n`~/.minecraft/mods/`. On Windows it's `%APPDATA%/.minecraft/mods/`.\n(Your launcher may show a button labelled \"Open mods folder\".)\n\n── 3.  Launch Minecraft, then connect to the server ──\nMultiplayer → Add Server → paste the address above → Done → Join.\nAutoModpack will pop up automatically the first time, listing the\nmods the server requires. Click Update, wait for the download,\nrestart Minecraft when prompted, and you're in.\n\nFuture mod changes will sync automatically on join — you'll only\nsee this prompt once per change.\n\n── Need help? ──\nAsk your server host. They can re-export this pack any time from\nLbby → Mods → Installed → Auto-sync with players → Generate.\n\n— Generated by Lbby\n");
    s
}

/// The text for players: how to join, with which loader, and where the file
/// goes.
pub fn client_pack_readme(
    server_name: &str,
    server_address: Option<&str>,
    mc_version: &str,
    server_type: &ServerType,
    loader_version: Option<&str>,
    jar: &str,
) -> (r: String)
    ensures
        r@ == readme_text(
            or_else(server_name@, "this server"@),
            address_line(
                text::str_view(server_address),
            ),
            mc_version@,
            pretty_loader(*server_type),
            match loader_version {
                Some(v) => or_else(v@, "(latest)"@),
                None => "(latest)"@,
            },
            jar@,
        ),
{
    let loader = match *server_type {
        ServerType::Forge => "Forge",
        ServerType::NeoForge => "NeoForge",
        ServerType::Fabric => "Fabric",
        ServerType::SpongeForge => "SpongeForge",
        _ => "(unsupported)",
    };
    let line = match server_address {
        Some(a) => {
            let chars = to_chars(a);
            if trimmed(&chars).len() > 0 {
                let mut s = String::from_str("    Server address:  ");
                s.append(a);
                s
            } else {
                String::from_str("    Server address:  <ask your host>")
            }
        },
        None => String::from_str("    Server address:  <ask your host>"),
    };
    let name_chars = to_chars(server_name);
    let name = if trimmed(&name_chars).len() == 0 {
        "this server"
    } else {
        server_name
    };
    let version = match loader_version {
        Some(v) => {
            let chars = to_chars(v);
            if trimmed(&chars).len() == 0 {
                "(latest)"
            } else {
                v
            }
        },
        None => "(latest)",
    };
    write_readme(name, line.as_str(), mc_version, loader, version, jar)
}

/// The loaders that are supported, and how each is called in the names of files.
pub proof fn law_loader_tokens(t: ServerType)
    ensures
        token_of(ServerType::Forge) == Some("forge"@),
        token_of(ServerType::NeoForge) == Some("neoforge"@),
        token_of(ServerType::Fabric) == Some("fabric"@),
        token_of(ServerType::SpongeForge) == Some("sponge"@),
        token_of(t) is Some ==> t == ServerType::Forge || t == ServerType::NeoForge || t
            == ServerType::Fabric || t == ServerType::SpongeForge,
{
}

proof fn lemma_lowered_parts(a: Seq<char>, w: Seq<char>, b: Seq<char>)
    ensures
        text::lowered(a + w + b) == text::lowered(a) + text::lowered(w) + text::lowered(b),
{
    assert(text::lowered(a + w + b) =~= text::lowered(a) + text::lowered(w) + text::lowered(b));
}

/// A JAR in whose name `automodpack` stands, in whatever case, is AutoModpack's;
/// no other file is.
pub proof fn law_its_files_are_known_by_name(
    a: Seq<char>,
    w: Seq<char>,
    b: Seq<char>,
    ending: Seq<char>,
    other: Seq<char>,
)
    requires
        text::lowered(w) == "automodpack"@,
        text::lowered(ending) == ".jar"@,
    ensures
        is_automodpack(a + w + b + ending),
        !text::contains(text::lowered(other), "automodpack"@) ==> !is_automodpack(other),
        !text::ends_with(text::lowered(other), ".jar"@) ==> !is_automodpack(other),
{
    let name = a + w + b + ending;
    lemma_lowered_parts(a, w, b + ending);
    assert(a + w + (b + ending) =~= name);
    text_laws::law_contains_what_was_put_in(
        text::lowered(a),
        "automodpack"@,
        text::lowered(b + ending),
    );
    lemma_lowered_parts(a + w + b, ending, seq![]);
    assert(name + Seq::<char>::empty() =~= name);
    assert(text::lowered(Seq::<char>::empty()) =~= Seq::<char>::empty());
    assert(text::lowered(name) =~= text::lowered(a + w + b) + ".jar"@);
    text_laws::law_ends(text::lowered(a + w + b), ".jar"@);
}

/// A file fits where it is a JAR and both the version of the game and the loader
/// stand in its name, the version with dots or with dashes; a file for NeoForge
/// never fits Forge.
pub proof fn law_which_files_fit(
    a: Seq<char>,
    token: Seq<char>,
    b: Seq<char>,
    version: Seq<char>,
    c: Seq<char>,
    name: Seq<char>,
)
    requires
        token == "neoforge"@ || token == "fabric"@ || token == "sponge"@,
        text::lowered(a) == a,
        text::lowered(token) == token,
        text::lowered(b) == b,
        text::lowered(version) == version,
        text::lowered(c) == c,
    ensures
        asset_fits(a + token + b + version + c + ".jar"@, version, token),
        text::contains(text::lowered(name), "neoforge"@) ==> !asset_fits(name, version, "forge"@),
        !text::ends_with(text::lowered(name), ".jar"@) ==> !asset_fits(name, version, token),
        !text::contains(text::lowered(name), token) ==> !asset_fits(name, version, token),
        !text::contains(dotted(text::lowered(name)), dotted(version)) ==> !asset_fits(
            name,
            version,
            token,
        ),
{
    reveal_strlit(".jar");
    reveal_strlit("forge");
    reveal_strlit("neoforge");
    reveal_strlit("fabric");
    reveal_strlit("sponge");
    assert("forge"@.len() == 5 && "neoforge"@.len() == 8 && "fabric"@.len() == 6 && "sponge"@.len()
        == 6);
    let j = ".jar"@;
    let n = a + token + b + version + c + j;
    assert(text::lowered(j) =~= j);
    let rest = b + version + c + j;
    lemma_lowered_parts(b, version, c + j);
    lemma_lowered_parts(c, j, seq![]);
    assert(c + j + Seq::<char>::empty() =~= c + j);
    assert(text::lowered(Seq::<char>::empty()) =~= Seq::<char>::empty());
    assert(text::lowered(c + j) =~= c + j);
    assert(b + version + (c + j) =~= rest);
    assert(text::lowered(rest) =~= rest);
    lemma_lowered_parts(a, token, rest);
    assert(a + token + rest =~= n);
    assert(text::lowered(n) =~= n);
    text_laws::law_contains_what_was_put_in(a, token, rest);
    text_laws::law_ends(a + token + b + version + c, j);
    let p = a + token + b;
    let q = c + j;
    assert(p + version + q =~= n);
    assert(dotted(n) =~= dotted(p) + dotted(version) + dotted(q));
    text_laws::law_contains_what_was_put_in(dotted(p), dotted(version), dotted(q));
}

/// Where some finished release has a file that fits, one is chosen from a finished
/// release; where only releases in testing have, from one of those; from a draft
/// never.
pub proof fn law_a_fitting_release_is_found(
    releases: Seq<GhRelease>,
    version: Seq<char>,
    token: Seq<char>,
    i: int,
    k: int,
)
    requires
        0 <= i < releases.len(),
        0 <= k < releases[i].assets@.len(),
        asset_fits(releases[i].assets@[k].name@, version, token),
        !releases[i].draft,
    ensures
        best_asset(releases, version, token) is Some,
        !releases[i].prerelease ==> release_from(releases, version, token, false, 0) is Some,
{
    lemma_asset_found(releases[i].assets@, version, token, 0, k);
    lemma_release_found(releases, version, token, true, 0, i);
    if !releases[i].prerelease {
        lemma_release_found(releases, version, token, false, 0, i);
    }
}

proof fn lemma_asset_found(
    assets: Seq<GhAsset>,
    version: Seq<char>,
    token: Seq<char>,
    i: int,
    k: int,
)
    requires
        0 <= i <= k < assets.len(),
        asset_fits(assets[k].name@, version, token),
    ensures
        asset_from(assets, version, token, i) is Some,
    decreases k - i,
{
    if i < k {
        lemma_asset_found(assets, version, token, i + 1, k);
    }
}

proof fn lemma_release_found(
    releases: Seq<GhRelease>,
    version: Seq<char>,
    token: Seq<char>,
    early: bool,
    i: int,
    k: int,
)
    requires
        0 <= i <= k < releases.len(),
        asset_from(releases[k].assets@, version, token, 0) is Some,
        !releases[k].draft,
        early || !releases[k].prerelease,
    ensures
        release_from(releases, version, token, early, i) is Some,
    decreases k - i,
{
    if i < k {
        lemma_release_found(releases, version, token, early, i + 1, k);
    }
}

/// What is chosen is a file of one of the releases, under that release's tag, which
/// is no draft and, where finished ones were asked for, finished; no earlier
/// release would have done.
pub proof fn law_the_first_release_that_fits(
    releases: Seq<GhRelease>,
    version: Seq<char>,
    token: Seq<char>,
    early: bool,
    i: int,
)
    requires
        0 <= i <= releases.len(),
        release_from(releases, version, token, early, i) is Some,
    ensures
        exists|k: int|
            i <= k < releases.len() && (#[trigger] releases[k]).tag_name@ == (release_from(
                releases,
                version,
                token,
                early,
                i,
            )->0).0 && !releases[k].draft && (early || !releases[k].prerelease)
                && releases[k].assets@.contains(
                (release_from(releases, version, token, early, i)->0).1,
            ),
    decreases releases.len() - i,
{
    let r = releases[i];
    let asset = asset_from(r.assets@, version, token, 0);
    if !r.draft && (early || !r.prerelease) && asset is Some {
        lemma_asset_is_one(r.assets@, version, token, 0);
        assert(releases[i].tag_name@ == (release_from(releases, version, token, early, i)->0).0);
    } else {
        law_the_first_release_that_fits(releases, version, token, early, i + 1);
    }
}

proof fn lemma_asset_is_one(assets: Seq<GhAsset>, version: Seq<char>, token: Seq<char>, i: int)
    requires
        0 <= i <= assets.len(),
        asset_from(assets, version, token, i) is Some,
    ensures
        assets.contains(asset_from(assets, version, token, i)->0),
    decreases assets.len() - i,
{
    if asset_fits(assets[i].name@, version, token) {
        assert(assets[i] == asset_from(assets, version, token, i)->0);
    } else {
        lemma_asset_is_one(assets, version, token, i + 1);
    }
}

/// Players are told the address where there is one, and to ask where there is none.
pub proof fn law_address_line(address: Seq<char>, blank: Seq<char>, name: Seq<char>)
    requires
        text_laws::is_core(address),
        text_laws::is_blank(blank),
    ensures
        text::ends_with(address_line(Some(address)), address),
        address_line(None) == address_line(Some(blank)),
        !text::contains(address_line(None), address) || text::contains(
            "    Server address:  <ask your host>"@,
            address,
        ),
        or_else(address, name) == address,
        or_else(blank, name) == name,
{
    text_laws::lemma_trim_plain(address);
    text_laws::law_trim(blank, seq![], seq![]);
    assert(blank + Seq::<char>::empty() + Seq::<char>::empty() =~= blank);
    text_laws::law_ends("    Server address:  "@, address);
}

/// The text for players names the server, the address, the version of the game and
/// the file.
pub proof fn law_readme_says_how_to_join(
    name: Seq<char>,
    line: Seq<char>,
    mc: Seq<char>,
    loader: Seq<char>,
    loader_ver: Seq<char>,
    jar: Seq<char>,
)
    ensures
        text::starts_with(
            readme_text(name, line, mc, loader, loader_ver, jar),
            "How to join "@ + name + "\n================================\n\n"@ + line
                + "\n\nMinecraft version:  "@ + mc + "\nLoader:             "@ + loader,
        ),
{
    let p = "How to join "@ + name + "\n================================\n\n"@ + line
        + "\n\nMinecraft version:  "@ + mc + "\nLoader:             "@ + loader;
    let t = readme_text(name, line, mc, loader, loader_ver, jar);
    assert(t.subrange(0, p.len() as int) =~= p);
}

/// What is said where nothing can be installed names the kind of server, or the
/// version and the loader that were looked for.
pub proof fn law_refusals_name_the_reason(t: ServerType, version: Seq<char>, token: Seq<char>)
    ensures
        text::contains(unsupported_text(t), config::type_word(t)),
        text::contains(no_release_text(version, token), version),
        text::contains(no_release_text(version, token), token),
{
    text_laws::law_contains_what_was_put_in(
        "AutoModpack doesn't support "@,
        config::type_word(t),
        " servers (Forge, NeoForge, and Fabric only)."@,
    );
    let a = "No AutoModpack release found for Minecraft "@;
    let b = " on "@;
    let c =
        ". The mod may not have been updated for this version yet — check https://github.com/Skidamek/AutoModpack/releases."@;
    text_laws::law_contains_what_was_put_in(a, version, b + token + c);
    assert(a + version + (b + token + c) =~= a + version + b + token + c);
    text_laws::law_contains_what_was_put_in(a + version + b, token, c);
}

} // verus!
