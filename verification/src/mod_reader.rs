//! What mod JARs say of themselves: names, versions, authors, icons, IDs and
//! dependencies, from the metadata of Fabric and of Forge and NeoForge.
use vstd::prelude::*;

use crate::app_state;
use crate::app_state::{ModInfo, ModStatus};
use crate::jar_metadata;
use crate::jar_metadata::is_platform_id;
use crate::structured;
use crate::structured::{parse_json, parse_toml, Data, DataView};
use crate::text;
use crate::text::{
    contains_str, file_name_of, from_chars, has_prefix, lower_chars, split_stops, str_eq, to_chars,
    trimmed, trimmed_end_str, trimmed_start_char,
};
use crate::text_laws;

verus! {

/// The largest icon that is shown, in bytes.
pub const MAX_ICON_BYTES: usize = 262144;

// ---------------------------------------------------------------------
// Archives
// ---------------------------------------------------------------------

/// Whether the `zip` crate takes bytes for an archive.
pub uninterp spec fn zip_opens(archive: Seq<u8>) -> bool;

/// What the `zip` crate finds in an archive under a name; nothing where the bytes
/// are no archive, or the name is not in it or cannot be read.
pub uninterp spec fn zip_holds(archive: Seq<u8>, name: Seq<char>) -> Option<Seq<u8>>;

/// Calls `zip::ZipArchive::new`. Claimed: whether it succeeds depends on the bytes
/// alone.
#[verifier::external_body]
fn is_archive(archive: &[u8]) -> (r: bool)
    ensures
        r == zip_opens(archive@),
{
    zip::ZipArchive::new(std::io::Cursor::new(archive)).is_ok()
}

/// Calls `zip::ZipArchive::new` and `zip::ZipArchive::by_name`, and reads the entry
/// to its end. Claimed: what comes back depends on the bytes and the name alone.
#[verifier::external_body]
fn zip_entry(archive: &[u8], name: &str) -> (r: Option<Vec<u8>>)
    ensures
        match r {
            Some(b) => zip_holds(archive@, name@) == Some(b@),
            None => zip_holds(archive@, name@) is None,
        },
{
    let mut zip = zip::ZipArchive::new(std::io::Cursor::new(archive)).ok()?;
    let mut file = zip.by_name(name).ok()?;
    let mut bytes = Vec::new();
    std::io::Read::read_to_end(&mut file, &mut bytes).ok()?;
    Some(bytes)
}

/// Calls `String::from_utf8`. Claimed: it succeeds on valid UTF-8 and on nothing
/// else, and gives the characters that the bytes encode.
#[verifier::external_body]
fn utf8_text(bytes: Vec<u8>) -> (r: Option<String>)
    ensures
        match r {
            Some(s) => vstd::utf8::valid_utf8(bytes@) && s@ == vstd::utf8::decode_utf8(bytes@),
            None => !vstd::utf8::valid_utf8(bytes@),
        },
{
    String::from_utf8(bytes).ok()
}

/// The text that bytes encode.
pub open spec fn bytes_text(bytes: Option<Seq<u8>>) -> Option<Seq<char>> {
    match bytes {
        Some(b) => if vstd::utf8::valid_utf8(b) {
            Some(vstd::utf8::decode_utf8(b))
        } else {
            None
        },
        None => None,
    }
}

/// The text of an entry of an archive.
pub open spec fn zip_text(archive: Seq<u8>, name: Seq<char>) -> Option<Seq<char>> {
    bytes_text(zip_holds(archive, name))
}

/// The text of an entry of an archive.
pub fn read_zip_text(archive: &[u8], name: &str) -> (r: Option<String>)
    ensures
        text::opt_view(r) == zip_text(archive@, name@),
{
    match zip_entry(archive, name) {
        Some(bytes) => utf8_text(bytes),
        None => None,
    }
}

/// The description that Forge and NeoForge read, at the first of the places
/// where it may stand.
pub open spec fn forge_text(archive: Seq<u8>) -> Option<Seq<char>> {
    match zip_text(archive, "META-INF/neoforge.mods.toml"@) {
        Some(t) => Some(t),
        None => match zip_text(archive, "META-INF/mods.toml"@) {
            Some(t) => Some(t),
            None => zip_text(archive, "mods.toml"@),
        },
    }
}

fn read_forge_text(archive: &[u8]) -> (r: Option<String>)
    ensures
        text::opt_view(r) == forge_text(archive@),
{
    match read_zip_text(archive, "META-INF/neoforge.mods.toml") {
        Some(t) => Some(t),
        None => match read_zip_text(archive, "META-INF/mods.toml") {
            Some(t) => Some(t),
            None => read_zip_text(archive, "mods.toml"),
        },
    }
}

/// The description that Forge and NeoForge read, taken apart.
pub open spec fn forge_data(archive: Seq<u8>) -> Option<DataView> {
    match forge_text(archive) {
        Some(t) => structured::toml_read(t),
        None => None,
    }
}

fn read_forge_data(archive: &[u8]) -> (r: Option<Data>)
    ensures
        match r {
            Some(d) => forge_data(archive@) == Some(d@),
            None => forge_data(archive@) is None,
        },
{
    match read_forge_text(archive) {
        Some(t) => parse_toml(t.as_str()),
        None => None,
    }
}

/// The description that Fabric reads, taken apart.
pub open spec fn fabric_data(archive: Seq<u8>) -> Option<DataView> {
    match zip_text(archive, "fabric.mod.json"@) {
        Some(t) => structured::json_read(t),
        None => None,
    }
}

fn read_fabric_data(archive: &[u8]) -> (r: Option<Data>)
    ensures
        match r {
            Some(d) => fabric_data(archive@) == Some(d@),
            None => fabric_data(archive@) is None,
        },
{
    match read_zip_text(archive, "fabric.mod.json") {
        Some(t) => parse_json(t.as_str()),
        None => None,
    }
}

// ---------------------------------------------------------------------
// Single values
// ---------------------------------------------------------------------

/// The text under a key, empty where there is none.
pub open spec fn string_field(v: DataView, key: Seq<char>) -> Seq<char> {
    match structured::text_of(structured::field(v, key)) {
        Some(s) => s,
        None => Seq::empty(),
    }
}

/// The text under a key of a JSON value, empty where there is none.
pub fn json_string(value: &Data, key: &str) -> (r: String)
    ensures
        r@ == string_field(value@, key@),
{
    match value.get(key) {
        Some(d) => match d.as_str() {
            Some(s) => s.to_string(),
            None => {
                let e = String::new();
                assert(e@ =~= Seq::<char>::empty());
                e
            },
        },
        None => {
            let e = String::new();
            assert(e@ =~= Seq::<char>::empty());
            e
        },
    }
}

/// The text under a key of a TOML value, empty where there is none.
pub fn toml_string(value: &Data, key: &str) -> (r: String)
    ensures
        r@ == string_field(value@, key@),
{
    json_string(value, key)
}

/// A file name without the endings of mod files.
pub open spec fn bare_name(file_name: Seq<char>) -> Seq<char> {
    text::trim_end_str(text::trim_end_str(file_name, ".jar"@), ".tmod"@)
}

fn bare_name_of(file_name: &str) -> (r: String)
    ensures
        r@ == bare_name(file_name@),
{
    let chars = to_chars(file_name);
    from_chars(trimmed_end_str(trimmed_end_str(&chars, ".jar"), ".tmod"))
}

// ---------------------------------------------------------------------
// Icons
// ---------------------------------------------------------------------

/// The Base64 text of bytes, with the standard alphabet and padding.
pub uninterp spec fn base64_of(bytes: Seq<u8>) -> Seq<char>;

/// Calls `base64`'s standard engine to encode. Claimed: the text depends on the
/// bytes alone.
#[verifier::external_body]
fn base64_encode(bytes: &[u8]) -> (r: String)
    ensures
        r@ == base64_of(bytes@),
{
    base64::Engine::encode(&base64::engine::general_purpose::STANDARD, bytes)
}

/// Whether bytes begin as PNG pictures do.
pub open spec fn is_png(b: Seq<u8>) -> bool {
    b.len() >= 8 && b[0] == 0x89 && b[1] == 0x50 && b[2] == 0x4e && b[3] == 0x47 && b[4] == 0x0d
        && b[5] == 0x0a && b[6] == 0x1a && b[7] == 0x0a
}

/// Whether bytes begin as JPEG pictures do.
pub open spec fn is_jpeg(b: Seq<u8>) -> bool {
    b.len() >= 3 && b[0] == 0xff && b[1] == 0xd8 && b[2] == 0xff
}

/// The kind of picture that bytes are, where it can be shown.
pub open spec fn icon_kind(b: Seq<u8>) -> Option<Seq<char>> {
    if b.len() == 0 || b.len() > MAX_ICON_BYTES {
        None
    } else if is_png(b) {
        Some("image/png"@)
    } else if is_jpeg(b) {
        Some("image/jpeg"@)
    } else {
        None
    }
}

/// The URL that holds a picture.
pub open spec fn icon_url(b: Seq<u8>) -> Option<Seq<char>> {
    match icon_kind(b) {
        Some(kind) => Some("data:"@ + kind + ";base64,"@ + base64_of(b)),
        None => None,
    }
}

/// The kind of picture that bytes are, where it can be shown.
pub fn icon_mime(b: &[u8]) -> (r: Option<&'static str>)
    ensures
        match r {
            Some(kind) => icon_kind(b@) == Some(kind@),
            None => icon_kind(b@) is None,
        },
{
    let n = b.len();
    if n == 0 || n > MAX_ICON_BYTES {
        None
    } else if n >= 8 && b[0] == 0x89 && b[1] == 0x50 && b[2] == 0x4e && b[3] == 0x47 && b[4] == 0x0d
        && b[5] == 0x0a && b[6] == 0x1a && b[7] == 0x0a {
        Some("image/png")
    } else if n >= 3 && b[0] == 0xff && b[1] == 0xd8 && b[2] == 0xff {
        Some("image/jpeg")
    } else {
        None
    }
}

/// The URL that holds a picture of an archive.
pub open spec fn zip_icon(archive: Seq<u8>, path: Seq<char>) -> Option<Seq<char>> {
    let clean = text::trim_start_char(text::trim(path), '/');
    if clean.len() == 0 {
        None
    } else {
        match zip_holds(archive, clean) {
            Some(b) => icon_url(b),
            None => None,
        }
    }
}

/// The URL that holds a picture of an archive: a PNG or a JPEG that is not too
/// large.
pub fn read_zip_icon_data_url(archive: &[u8], path: &str) -> (r: Option<String>)
    ensures
        text::opt_view(r) == zip_icon(archive@, path@),
{
    let chars = to_chars(path);
    let clean = trimmed_start_char(trimmed(&chars), '/');
    if clean.len() == 0 {
        return None;
    }
    let name = from_chars(clean);
    let bytes = match zip_entry(archive, name.as_str()) {
        Some(b) => b,
        None => {
            return None;
        },
    };
    match icon_mime(&bytes) {
        Some(kind) => {
            let mut s = String::from_str("data:");
            s.append(kind);
            s.append(";base64,");
            s.append(base64_encode(&bytes).as_str());
            Some(s)
        },
        None => None,
    }
}

// ---------------------------------------------------------------------
// Cards
// ---------------------------------------------------------------------

/// What is shown of a mod.
pub struct ModCard {
    pub file_name: Seq<char>,
    pub display_name: Seq<char>,
    pub version: Seq<char>,
    pub authors: Seq<Seq<char>>,
    pub description: Seq<char>,
    pub icon: Option<Seq<char>>,
    pub status: ModStatus,
}

/// What is shown of a mod.
pub open spec fn card(m: ModInfo) -> ModCard {
    ModCard {
        file_name: m.file_name@,
        display_name: m.display_name@,
        version: m.version@,
        authors: text::views(m.authors@),
        description: m.description@,
        icon: text::opt_view(m.icon_data_url),
        status: m.status,
    }
}

/// A mod of which only a card is known.
fn with_card(
    file_name: String,
    display_name: String,
    version: String,
    authors: Vec<String>,
    description: String,
    icon_data_url: Option<String>,
    status: ModStatus,
) -> (r: ModInfo)
    ensures
        app_state::identity_unknown(r),
        card(r) == (ModCard {
            file_name: file_name@,
            display_name: display_name@,
            version: version@,
            authors: text::views(authors@),
            description: description@,
            icon: text::opt_view(icon_data_url),
            status,
        }),
{
    let mut m: ModInfo = Default::default();
    m.file_name = file_name;
    m.display_name = display_name;
    m.version = version;
    m.authors = authors;
    m.description = description;
    m.icon_data_url = icon_data_url;
    m.status = status;
    m
}

/// The author that an entry of Fabric's list names: a text, or a table with a
/// name.
pub open spec fn author_of(item: DataView) -> Option<Seq<char>> {
    match item {
        DataView::Text(s) => Some(s),
        _ => structured::text_of(structured::field(item, "name"@)),
    }
}

/// The authors that the first `n` entries of Fabric's list name.
pub open spec fn authors_in(items: Seq<DataView>, n: int) -> Seq<Seq<char>>
    decreases n,
{
    if n <= 0 {
        Seq::empty()
    } else {
        let before = authors_in(items, n - 1);
        match author_of(items[n - 1]) {
            Some(a) => before.push(a),
            None => before,
        }
    }
}

/// Fabric's authors.
pub open spec fn fabric_authors(v: DataView) -> Seq<Seq<char>> {
    match structured::field(v, "authors"@) {
        Some(DataView::List(items)) => authors_in(items, items.len() as int),
        _ => Seq::empty(),
    }
}

fn read_fabric_authors(value: &Data) -> (r: Vec<String>)
    ensures
        text::views(r@) == fabric_authors(value@),
{
    let mut out: Vec<String> = Vec::new();
    assert(text::views(out@) =~= Seq::<Seq<char>>::empty());
    match value.get("authors") {
        Some(list) => match list {
            Data::List(items) => {
                let ghost views = list@->List_0;
                assert(structured::field(value@, "authors"@) == Some(DataView::List(views)));
                let mut i: usize = 0;
                while i < items.len()
                    invariant
                        i <= items.len(),
                        views.len() == items@.len(),
                        forall|k: int| 0 <= k < items@.len() ==> views[k] == #[trigger] items@[k]@,
                        text::views(out@) == authors_in(views, i as int),
                    decreases items.len() - i,
                {
                    let item = &items[i];
                    let ghost before = out@;
                    let author = match item.as_str() {
                        Some(s) => Some(s.to_string()),
                        None => match item.get("name") {
                            Some(d) => match d.as_str() {
                                Some(s) => Some(s.to_string()),
                                None => None,
                            },
                            None => None,
                        },
                    };
                    assert(text::opt_view(author) == author_of(item@));
                    assert(views[i as int] == items@[i as int]@);
                    match author {
                        Some(a) => {
                            out.push(a);
                            assert(text::views(out@) =~= text::views(before).push(a@));
                        },
                        None => {},
                    }
                    i = i + 1;
                }
                out
            },
            _ => out,
        },
        None => out,
    }
}

/// Where Fabric's icon stands: at a path, or at one of several paths by size.
pub open spec fn fabric_icon_path(v: DataView) -> Option<Seq<char>> {
    match structured::field(v, "icon"@) {
        Some(DataView::Text(s)) => Some(s),
        Some(DataView::Table(t)) => match structured::entry_from(t, "64"@, 0) {
            Some(d) => structured::text_of(Some(d)),
            None => if t.len() > 0 {
                structured::text_of(Some(t[0].1))
            } else {
                None
            },
        },
        _ => None,
    }
}

/// Where Fabric's icon stands.
pub fn read_fabric_icon_path(value: &Data) -> (r: Option<String>)
    ensures
        text::opt_view(r) == fabric_icon_path(value@),
{
    match value.get("icon") {
        Some(d) => match d {
            Data::Text(s) => Some(s.clone()),
            Data::Table(entries) => {
                let ghost t = d@->Table_0;
                assert(t.len() == entries@.len());
                let chosen = match d.get("64") {
                    Some(x) => x,
                    None => {
                        if entries.len() > 0 {
                            assert(t[0] == (entries@[0].0@, entries@[0].1@));
                            &entries[0].1
                        } else {
                            return None;
                        }
                    },
                };
                match chosen.as_str() {
                    Some(s) => Some(s.to_string()),
                    None => None,
                }
            },
            _ => None,
        },
        None => None,
    }
}

/// The card of a mod that Fabric's description describes.
pub open spec fn fabric_card(
    v: DataView,
    file_name: Seq<char>,
    icon: Option<Seq<char>>,
) -> ModCard {
    let name = string_field(v, "name"@);
    let shown = if name.len() == 0 {
        string_field(v, "id"@)
    } else {
        name
    };
    ModCard {
        file_name,
        display_name: if shown.len() == 0 {
            bare_name(file_name)
        } else {
            shown
        },
        version: string_field(v, "version"@),
        authors: fabric_authors(v),
        description: string_field(v, "description"@),
        icon,
        status: ModStatus::Readable,
    }
}

fn is_blank(s: &str) -> (r: bool)
    ensures
        r == (s@.len() == 0),
{
    let chars = to_chars(s);
    chars.len() == 0
}

/// What Fabric's description says of a mod, given its icon.
pub fn fabric_mod_info(value: &Data, file_name: &str, icon: Option<String>) -> (r: ModInfo)
    ensures
        app_state::identity_unknown(r),
        card(r) == fabric_card(value@, file_name@, text::opt_view(icon)),
{
    let name = json_string(value, "name");
    let shown = if is_blank(name.as_str()) {
        json_string(value, "id")
    } else {
        name
    };
    let display_name = if is_blank(shown.as_str()) {
        bare_name_of(file_name)
    } else {
        shown
    };
    with_card(
        file_name.to_string(),
        display_name,
        json_string(value, "version"),
        read_fabric_authors(value),
        json_string(value, "description"),
        icon,
        ModStatus::Readable,
    )
}

/// Whether a text begins as a variable does that the build was to fill in.
pub open spec fn unfilled(s: Seq<char>) -> bool {
    text::starts_with(s, "${"@)
}

/// The names in a list, trimmed, without the empty ones.
pub open spec fn names_in(pieces: Seq<Seq<char>>, n: int) -> Seq<Seq<char>>
    decreases n,
{
    if n <= 0 {
        Seq::empty()
    } else {
        let before = names_in(pieces, n - 1);
        let name = text::trim(pieces[n - 1]);
        if name.len() == 0 {
            before
        } else {
            before.push(name)
        }
    }
}

/// The names in a text between commas and semicolons.
pub open spec fn listed_names(s: Seq<char>) -> Seq<Seq<char>> {
    let pieces = text::split_any(s, ",;"@);
    names_in(pieces, pieces.len() as int)
}

/// The names in a text between commas and semicolons.
pub fn read_listed_names(s: &str) -> (r: Vec<String>)
    ensures
        text::views(r@) == listed_names(s@),
{
    let chars = to_chars(s);
    let pieces = split_stops(&chars, ",;");
    let ghost all = text::split_any(s@, ",;"@);
    let mut out: Vec<String> = Vec::new();
    assert(text::views(out@) =~= Seq::<Seq<char>>::empty());
    let mut i: usize = 0;
    while i < pieces.len()
        invariant
            i <= pieces.len(),
            text::slices(pieces@) == all,
            text::views(out@) == names_in(all, i as int),
        decreases pieces.len() - i,
    {
        let ghost before = out@;
        let p: &[char] = pieces[i];
        assert(text::slices(pieces@)[i as int] == p@);
        let name = trimmed(p);
        if name.len() > 0 {
            out.push(from_chars(name));
            assert(text::views(out@) =~= text::views(before).push(name@));
        }
        i = i + 1;
    }
    assert(text::slices(pieces@).len() == all.len());
    out
}

/// The first mod that Forge's description lists.
pub open spec fn first_mod(v: DataView) -> Option<DataView> {
    match structured::field(v, "mods"@) {
        Some(DataView::List(items)) => if items.len() > 0 {
            Some(items[0])
        } else {
            None
        },
        _ => None,
    }
}

/// The first mod that Forge's description lists.
pub fn first_forge_mod(value: &Data) -> (r: Option<&Data>)
    ensures
        match r {
            Some(d) => first_mod(value@) == Some(d@),
            None => first_mod(value@) is None,
        },
{
    match value.get("mods") {
        Some(list) => match list {
            Data::List(items) => {
                let ghost views = list@->List_0;
                assert(views.len() == items@.len());
                if items.len() > 0 {
                    assert(views[0] == items@[0]@);
                    Some(&items[0])
                } else {
                    None
                }
            },
            _ => None,
        },
        None => None,
    }
}

/// The card of a mod that Forge's description lists.
pub open spec fn forge_card(
    first: DataView,
    file_name: Seq<char>,
    icon: Option<Seq<char>>,
) -> ModCard {
    let name = string_field(first, "displayName"@);
    let version = string_field(first, "version"@);
    ModCard {
        file_name,
        display_name: if name.len() == 0 {
            string_field(first, "modId"@)
        } else {
            name
        },
        version: if unfilled(version) {
            Seq::empty()
        } else {
            version
        },
        authors: listed_names(string_field(first, "authors"@)),
        description: string_field(first, "description"@),
        icon,
        status: ModStatus::Readable,
    }
}

/// What Forge's description says of a mod, given its icon.
pub fn forge_mod_info(first: &Data, file_name: &str, icon: Option<String>) -> (r: ModInfo)
    ensures
        app_state::identity_unknown(r),
        card(r) == forge_card(first@, file_name@, text::opt_view(icon)),
{
    let name = toml_string(first, "displayName");
    let display_name = if is_blank(name.as_str()) {
        toml_string(first, "modId")
    } else {
        name
    };
    let raw_version = toml_string(first, "version");
    let version_chars = to_chars(raw_version.as_str());
    let version = if has_prefix(&version_chars, "${") {
        let e = String::new();
        assert(e@ =~= Seq::<char>::empty());
        e
    } else {
        raw_version
    };
    let authors_raw = toml_string(first, "authors");
    with_card(
        file_name.to_string(),
        display_name,
        version,
        read_listed_names(authors_raw.as_str()),
        toml_string(first, "description"),
        icon,
        ModStatus::Readable,
    )
}

/// Whether an author's name is shown.
pub open spec fn is_name(s: Seq<char>) -> bool {
    s.len() > 0 && !unfilled(s)
}

/// The authors that are shown of the first `n`, trimmed.
pub open spec fn shown_authors(authors: Seq<Seq<char>>, n: int) -> Seq<Seq<char>>
    decreases n,
{
    if n <= 0 {
        Seq::empty()
    } else {
        let before = shown_authors(authors, n - 1);
        let name = text::trim(authors[n - 1]);
        if is_name(name) {
            before.push(name)
        } else {
            before
        }
    }
}

/// A card made fit to be shown.
pub open spec fn tidy(c: ModCard) -> ModCard {
    ModCard {
        display_name: if text::trim(c.display_name).len() == 0 {
            bare_name(c.file_name)
        } else {
            c.display_name
        },
        version: text::trim(c.version),
        authors: shown_authors(c.authors, c.authors.len() as int),
        ..c
    }
}

/// Makes what is known of a mod fit to be shown.
pub fn normalize_mod_info(info: ModInfo) -> (r: ModInfo)
    ensures
        card(r) == tidy(card(info)),
        app_state::identity_unknown(info) ==> app_state::identity_unknown(r),
        r == (ModInfo {
            display_name: r.display_name,
            version: r.version,
            authors: r.authors,
            ..info
        }),
{
    let mut m = info;
    let display = to_chars(m.display_name.as_str());
    if trimmed(&display).len() == 0 {
        m.display_name = bare_name_of(m.file_name.as_str());
    }
    let version = to_chars(m.version.as_str());
    m.version = from_chars(trimmed(&version));
    let mut authors: Vec<String> = Vec::new();
    let ghost names = text::views(info.authors@);
    assert(text::views(authors@) =~= Seq::<Seq<char>>::empty());
    let mut i: usize = 0;
    while i < m.authors.len()
        invariant
            i <= m.authors.len(),
            m.authors == info.authors,
            names == text::views(info.authors@),
            text::views(authors@) == shown_authors(names, i as int),
        decreases m.authors.len() - i,
    {
        let ghost before = authors@;
        let chars = to_chars(m.authors[i].as_str());
        let name = trimmed(&chars);
        assert(names[i as int] == m.authors@[i as int]@);
        if name.len() > 0 && !has_prefix(name, "${") {
            authors.push(from_chars(name));
            assert(text::views(authors@) =~= text::views(before).push(name@));
        }
        i = i + 1;
    }
    assert(names.len() == info.authors@.len());
    m.authors = authors;
    m
}

/// No empty author and none that the build was to fill in is shown.
pub proof fn law_shown_authors_are_names(authors: Seq<Seq<char>>, n: int)
    requires
        0 <= n <= authors.len(),
    ensures
        shown_authors(authors, n).len() <= n,
        forall|k: int|
            0 <= k < shown_authors(authors, n).len() ==> is_name(
                #[trigger] shown_authors(authors, n)[k],
            ),
    decreases n,
{
    if n > 0 {
        law_shown_authors_are_names(authors, n - 1);
    }
}

// ---------------------------------------------------------------------
// Mods
// ---------------------------------------------------------------------

/// The icon at a path, where there is one.
pub open spec fn icon_at(archive: Seq<u8>, path: Option<Seq<char>>) -> Option<Seq<char>> {
    match path {
        Some(p) => zip_icon(archive, p),
        None => None,
    }
}

/// The card that an archive gives by Fabric's description.
pub open spec fn fabric_card_of(archive: Seq<u8>, file_name: Seq<char>) -> Option<ModCard> {
    match fabric_data(archive) {
        Some(v) => Some(fabric_card(v, file_name, icon_at(archive, fabric_icon_path(v)))),
        None => None,
    }
}

/// The card that an archive gives by Forge's description.
pub open spec fn forge_card_of(archive: Seq<u8>, file_name: Seq<char>) -> Option<ModCard> {
    match forge_data(archive) {
        Some(v) => match first_mod(v) {
            Some(first) => Some(
                forge_card(
                    first,
                    file_name,
                    zip_icon(archive, string_field(first, "logoFile"@)),
                ),
            ),
            None => None,
        },
        None => None,
    }
}

/// The name under which a path is shown: its file name, or else all of it.
pub open spec fn shown_name(path: Seq<char>) -> Seq<char> {
    match text::file_name(path) {
        Some(n) => n,
        None => path,
    }
}

/// The card of a mod that says nothing of itself.
pub open spec fn plain_card(file_name: Seq<char>, status: ModStatus) -> ModCard {
    ModCard {
        file_name,
        display_name: bare_name(file_name),
        version: Seq::empty(),
        authors: Seq::empty(),
        description: Seq::empty(),
        icon: None,
        status,
    }
}

/// The card of a mod, given the bytes of its file where they could be read.
pub open spec fn mod_card(path: Seq<char>, archive: Option<Seq<u8>>) -> ModCard {
    let name = shown_name(path);
    match archive {
        None => plain_card(name, ModStatus::Unreadable),
        Some(a) => if !zip_opens(a) {
            plain_card(name, ModStatus::Unreadable)
        } else {
            match fabric_card_of(a, name) {
                Some(c) => tidy(c),
                None => match forge_card_of(a, name) {
                    Some(c) => tidy(c),
                    None => plain_card(name, ModStatus::Readable),
                },
            }
        },
    }
}

fn read_fabric_mod_info(archive: &[u8], file_name: &str) -> (r: Option<ModInfo>)
    ensures
        match r {
            Some(m) => app_state::identity_unknown(m) && fabric_card_of(archive@, file_name@)
                == Some(card(m)),
            None => fabric_card_of(archive@, file_name@) is None,
        },
{
    match read_fabric_data(archive) {
        Some(value) => {
            let icon = match read_fabric_icon_path(&value) {
                Some(p) => read_zip_icon_data_url(archive, p.as_str()),
                None => None,
            };
            Some(fabric_mod_info(&value, file_name, icon))
        },
        None => None,
    }
}

fn read_forge_mod_info(archive: &[u8], file_name: &str) -> (r: Option<ModInfo>)
    ensures
        match r {
            Some(m) => app_state::identity_unknown(m) && forge_card_of(archive@, file_name@)
                == Some(card(m)),
            None => forge_card_of(archive@, file_name@) is None,
        },
{
    match read_forge_data(archive) {
        Some(value) => match first_forge_mod(&value) {
            Some(first) => {
                let icon_path = toml_string(first, "logoFile");
                let icon = read_zip_icon_data_url(archive, icon_path.as_str());
                Some(forge_mod_info(first, file_name, icon))
            },
            None => None,
        },
        None => None,
    }
}

fn plain_mod(file_name: &str, status: ModStatus) -> (r: ModInfo)
    ensures
        app_state::identity_unknown(r),
        card(r) == plain_card(file_name@, status),
{
    let version = String::new();
    let description = String::new();
    let authors: Vec<String> = Vec::new();
    assert(version@ =~= Seq::<char>::empty());
    assert(description@ =~= Seq::<char>::empty());
    assert(text::views(authors@) =~= Seq::<Seq<char>>::empty());
    with_card(
        file_name.to_string(),
        bare_name_of(file_name),
        version,
        authors,
        description,
        None,
        status,
    )
}

/// What a mod's file says of it. There is always an answer: where the file says
/// nothing, its name has to do.
pub fn read_mod_info(path: &str, archive: Option<&[u8]>) -> (r: ModInfo)
    ensures
        app_state::identity_unknown(r),
        card(r) == mod_card(
            path@,
            match archive {
                Some(x) => Some(x@),
                None => None,
            },
        ),
{
    let chars = to_chars(path);
    let file_name = match file_name_of(&chars) {
        Some(n) => from_chars(n),
        None => path.to_string(),
    };
    match archive {
        None => plain_mod(file_name.as_str(), ModStatus::Unreadable),
        Some(a) => {
            if !is_archive(a) {
                return plain_mod(file_name.as_str(), ModStatus::Unreadable);
            }
            match read_fabric_mod_info(a, file_name.as_str()) {
                Some(m) => normalize_mod_info(m),
                None => match read_forge_mod_info(a, file_name.as_str()) {
                    Some(m) => normalize_mod_info(m),
                    None => plain_mod(file_name.as_str(), ModStatus::Readable),
                },
            }
        },
    }
}

// ---------------------------------------------------------------------
// IDs and dependencies
// ---------------------------------------------------------------------

/// The IDs of the first `n` mods that Forge's description lists, each once, in
/// order.
pub open spec fn ids_in(items: Seq<DataView>, n: int) -> Seq<Seq<char>>
    decreases n,
{
    if n <= 0 {
        Seq::empty()
    } else {
        let before = ids_in(items, n - 1);
        match structured::text_of(structured::field(items[n - 1], "modId"@)) {
            Some(s) => if text::trim(s).len() == 0 || before.contains(text::trim(s)) {
                before
            } else {
                before.push(text::trim(s))
            },
            None => before,
        }
    }
}

/// The IDs that Forge's description declares.
pub open spec fn declared_ids(v: DataView) -> Seq<Seq<char>> {
    match structured::field(v, "mods"@) {
        Some(DataView::List(items)) => ids_in(items, items.len() as int),
        _ => Seq::empty(),
    }
}

/// The IDs that Forge's description declares, each once.
pub fn forge_mod_ids(value: &Data) -> (r: Vec<String>)
    ensures
        text::views(r@) == declared_ids(value@),
{
    let mut out: Vec<String> = Vec::new();
    assert(text::views(out@) =~= Seq::<Seq<char>>::empty());
    match value.get("mods") {
        Some(list) => match list {
            Data::List(items) => {
                let ghost views = list@->List_0;
                let mut i: usize = 0;
                while i < items.len()
                    invariant
                        i <= items.len(),
                        views.len() == items@.len(),
                        forall|k: int| 0 <= k < items@.len() ==> views[k] == #[trigger] items@[k]@,
                        text::views(out@) == ids_in(views, i as int),
                    decreases items.len() - i,
                {
                    let ghost before = out@;
                    assert(views[i as int] == items@[i as int]@);
                    match items[i].get("modId") {
                        Some(d) => match d.as_str() {
                            Some(s) => {
                                let chars = to_chars(s);
                                let id = from_chars(trimmed(&chars));
                                if !is_blank(id.as_str()) && !contains_str(&out, id.as_str()) {
                                    out.push(id);
                                    assert(text::views(out@) =~= text::views(before).push(id@));
                                }
                            },
                            None => {},
                        },
                        None => {},
                    }
                    i = i + 1;
                }
                out
            },
            _ => out,
        },
        None => out,
    }
}

/// The IDs that a JAR declares to Forge or NeoForge, each once.
pub fn read_all_forge_mod_ids(archive: &[u8]) -> (r: Vec<String>)
    ensures
        text::views(r@) == (match forge_data(archive@) {
            Some(v) => declared_ids(v),
            None => Seq::empty(),
        }),
{
    match read_forge_data(archive) {
        Some(value) => forge_mod_ids(&value),
        None => {
            let out: Vec<String> = Vec::new();
            assert(text::views(out@) =~= Seq::<Seq<char>>::empty());
            out
        },
    }
}

/// No ID is declared twice or empty.
pub proof fn law_declared_ids_distinct(items: Seq<DataView>, n: int)
    requires
        0 <= n <= items.len(),
    ensures
        ids_in(items, n).no_duplicates(),
        forall|k: int| 0 <= k < ids_in(items, n).len() ==> #[trigger] ids_in(items, n)[k].len() > 0,
    decreases n,
{
    if n > 0 {
        law_declared_ids_distinct(items, n - 1);
    }
}

/// A list of dependencies, each with the range of versions that it asks for.
pub open spec fn pairs(v: Seq<(String, String)>) -> Seq<(Seq<char>, Seq<char>)> {
    v.map_values(|p: (String, String)| (p.0@, p.1@))
}

/// Whether an entry of Forge's dependencies must be there. Only one that says
/// that it is not mandatory need not, unless its type says otherwise.
pub open spec fn must_be_there(dep: DataView) -> bool {
    (match structured::field(dep, "mandatory"@) {
        Some(DataView::Bool(b)) => b,
        _ => true,
    }) || text::lowered(string_field(dep, "type"@)) == "required"@
}

/// The dependency that an entry of Forge's dependencies is.
pub open spec fn forge_dependency(dep: DataView) -> Option<(Seq<char>, Seq<char>)> {
    let id = string_field(dep, "modId"@);
    if must_be_there(dep) && id.len() > 0 && !jar_metadata::platform_id(id) {
        Some((id, string_field(dep, "versionRange"@)))
    } else {
        None
    }
}

/// The dependencies among the first `n` entries of a list.
pub open spec fn dependencies_in(items: Seq<DataView>, n: int) -> Seq<(Seq<char>, Seq<char>)>
    decreases n,
{
    if n <= 0 {
        Seq::empty()
    } else {
        let before = dependencies_in(items, n - 1);
        match forge_dependency(items[n - 1]) {
            Some(d) => before.push(d),
            None => before,
        }
    }
}

/// The dependencies of the first `n` mods of a table.
pub open spec fn dependencies_of(t: Seq<(Seq<char>, DataView)>, n: int) -> Seq<
    (Seq<char>, Seq<char>),
>
    decreases n,
{
    if n <= 0 {
        Seq::empty()
    } else {
        dependencies_of(t, n - 1) + (match t[n - 1].1 {
            DataView::List(items) => dependencies_in(items, items.len() as int),
            _ => Seq::empty(),
        })
    }
}

/// The dependencies that Forge's description declares.
pub open spec fn forge_dependencies_of(v: DataView) -> Seq<(Seq<char>, Seq<char>)> {
    match structured::field(v, "dependencies"@) {
        Some(DataView::Table(t)) => dependencies_of(t, t.len() as int),
        _ => Seq::empty(),
    }
}

fn read_forge_dependency(dep: &Data) -> (r: Option<(String, String)>)
    ensures
        match r {
            Some(p) => forge_dependency(dep@) == Some((p.0@, p.1@)),
            None => forge_dependency(dep@) is None,
        },
{
    let id = toml_string(dep, "modId");
    let mandatory = match dep.get("mandatory") {
        Some(d) => match d {
            Data::Bool(b) => *b,
            _ => true,
        },
        None => true,
    };
    let kind = toml_string(dep, "type");
    let kind_chars = to_chars(kind.as_str());
    let lowered = from_chars(&lower_chars(&kind_chars));
    let required = mandatory || str_eq(lowered.as_str(), "required");
    if required && !is_blank(id.as_str()) && !is_platform_id(id.as_str()) {
        Some((id, toml_string(dep, "versionRange")))
    } else {
        None
    }
}

/// The dependencies that Forge's description declares, without those on what
/// mods run on.
pub fn forge_dependencies(value: &Data) -> (r: Vec<(String, String)>)
    ensures
        pairs(r@) == forge_dependencies_of(value@),
{
    let mut out: Vec<(String, String)> = Vec::new();
    assert(pairs(out@) =~= Seq::<(Seq<char>, Seq<char>)>::empty());
    match value.get("dependencies") {
        Some(deps) => match deps {
            Data::Table(entries) => {
                let ghost t = deps@->Table_0;
                let mut i: usize = 0;
                while i < entries.len()
                    invariant
                        i <= entries.len(),
                        t.len() == entries@.len(),
                        forall|k: int|
                            0 <= k < entries@.len() ==> t[k] == (
                                (#[trigger] entries@[k]).0@,
                                entries@[k].1@,
                            ),
                        pairs(out@) == dependencies_of(t, i as int),
                    decreases entries.len() - i,
                {
                    let ghost start = out@;
                    assert(t[i as int] == (entries@[i as int].0@, entries@[i as int].1@));
                    match &entries[i].1 {
                        Data::List(items) => {
                            let ghost views = entries@[i as int].1@->List_0;
                            let mut j: usize = 0;
                            assert(pairs(start) + dependencies_in(views, 0) =~= pairs(start));
                            while j < items.len()
                                invariant
                                    j <= items.len(),
                                    views.len() == items@.len(),
                                    forall|k: int|
                                        0 <= k < items@.len() ==> views[k]
                                            == #[trigger] items@[k]@,
                                    pairs(out@) == pairs(start) + dependencies_in(views, j as int),
                                decreases items.len() - j,
                            {
                                let ghost before = out@;
                                assert(views[j as int] == items@[j as int]@);
                                match read_forge_dependency(&items[j]) {
                                    Some(p) => {
                                        out.push(p);
                                        assert(pairs(out@) =~= pairs(before).push((p.0@, p.1@)));
                                        assert(pairs(out@) =~= pairs(start) + dependencies_in(
                                            views,
                                            j + 1,
                                        ));
                                    },
                                    None => {},
                                }
                                j = j + 1;
                            }
                        },
                        _ => {
                            assert(pairs(start) + Seq::<(Seq<char>, Seq<char>)>::empty()
                                =~= pairs(start));
                        },
                    }
                    i = i + 1;
                }
                out
            },
            _ => out,
        },
        None => out,
    }
}

/// The dependencies that a JAR declares to Forge or NeoForge: IDs with ranges of
/// versions.
pub fn read_forge_dependencies(archive: &[u8]) -> (r: Vec<(String, String)>)
    ensures
        pairs(r@) == (match forge_data(archive@) {
            Some(v) => forge_dependencies_of(v),
            None => Seq::empty(),
        }),
{
    match read_forge_data(archive) {
        Some(value) => forge_dependencies(&value),
        None => {
            let out: Vec<(String, String)> = Vec::new();
            assert(pairs(out@) =~= Seq::<(Seq<char>, Seq<char>)>::empty());
            out
        },
    }
}

/// The dependencies among the first `n` entries of Fabric's table.
pub open spec fn needs_in(t: Seq<(Seq<char>, DataView)>, n: int) -> Seq<(Seq<char>, Seq<char>)>
    decreases n,
{
    if n <= 0 {
        Seq::empty()
    } else {
        let before = needs_in(t, n - 1);
        if jar_metadata::platform_id(t[n - 1].0) {
            before
        } else {
            before.push(
                (
                    t[n - 1].0,
                    match t[n - 1].1 {
                        DataView::Text(s) => s,
                        _ => "*"@,
                    },
                ),
            )
        }
    }
}

/// The dependencies that Fabric's description declares.
pub open spec fn fabric_dependencies_of(v: DataView) -> Seq<(Seq<char>, Seq<char>)> {
    match structured::field(v, "depends"@) {
        Some(DataView::Table(t)) => needs_in(t, t.len() as int),
        _ => Seq::empty(),
    }
}

/// The dependencies that Fabric's description declares, without those on what
/// mods run on.
pub fn fabric_dependencies(value: &Data) -> (r: Vec<(String, String)>)
    ensures
        pairs(r@) == fabric_dependencies_of(value@),
{
    let mut out: Vec<(String, String)> = Vec::new();
    assert(pairs(out@) =~= Seq::<(Seq<char>, Seq<char>)>::empty());
    match value.get("depends") {
        Some(deps) => match deps {
            Data::Table(entries) => {
                let ghost t = deps@->Table_0;
                let mut i: usize = 0;
                while i < entries.len()
                    invariant
                        i <= entries.len(),
                        t.len() == entries@.len(),
                        forall|k: int|
                            0 <= k < entries@.len() ==> t[k] == (
                                (#[trigger] entries@[k]).0@,
                                entries@[k].1@,
                            ),
                        pairs(out@) == needs_in(t, i as int),
                    decreases entries.len() - i,
                {
                    let ghost before = out@;
                    assert(t[i as int] == (entries@[i as int].0@, entries@[i as int].1@));
                    if !is_platform_id(entries[i].0.as_str()) {
                        let range = match entries[i].1.as_str() {
                            Some(s) => s.to_string(),
                            None => String::from_str("*"),
                        };
                        let p = (entries[i].0.clone(), range);
                        out.push(p);
                        assert(pairs(out@) =~= pairs(before).push((p.0@, p.1@)));
                    }
                    i = i + 1;
                }
                out
            },
            _ => out,
        },
        None => out,
    }
}

/// The dependencies that a JAR declares to Fabric: IDs with ranges of versions.
pub fn read_fabric_dependencies(archive: &[u8]) -> (r: Vec<(String, String)>)
    ensures
        pairs(r@) == (match fabric_data(archive@) {
            Some(v) => fabric_dependencies_of(v),
            None => Seq::empty(),
        }),
{
    match read_fabric_data(archive) {
        Some(value) => fabric_dependencies(&value),
        None => {
            let out: Vec<(String, String)> = Vec::new();
            assert(pairs(out@) =~= Seq::<(Seq<char>, Seq<char>)>::empty());
            out
        },
    }
}

/// Whether a list of dependencies holds none on what mods run on.
pub open spec fn no_platform(deps: Seq<(Seq<char>, Seq<char>)>) -> bool {
    forall|k: int| 0 <= k < deps.len() ==> !jar_metadata::platform_id((#[trigger] deps[k]).0)
}

proof fn lemma_no_platform_in(items: Seq<DataView>, n: int)
    requires
        0 <= n <= items.len(),
    ensures
        no_platform(dependencies_in(items, n)),
    decreases n,
{
    if n > 0 {
        lemma_no_platform_in(items, n - 1);
        let before = dependencies_in(items, n - 1);
        assert forall|k: int| 0 <= k < dependencies_in(items, n).len() implies
            !jar_metadata::platform_id((#[trigger] dependencies_in(items, n)[k]).0) by {
            if k < before.len() {
                assert(dependencies_in(items, n)[k] == before[k]);
            }
        }
    }
}

proof fn lemma_no_platform_of(t: Seq<(Seq<char>, DataView)>, n: int)
    requires
        0 <= n <= t.len(),
    ensures
        no_platform(dependencies_of(t, n)),
    decreases n,
{
    if n > 0 {
        lemma_no_platform_of(t, n - 1);
        let before = dependencies_of(t, n - 1);
        let own = match t[n - 1].1 {
            DataView::List(items) => dependencies_in(items, items.len() as int),
            _ => Seq::empty(),
        };
        match t[n - 1].1 {
            DataView::List(items) => {
                lemma_no_platform_in(items, items.len() as int);
            },
            _ => {},
        }
        assert forall|k: int| 0 <= k < dependencies_of(t, n).len() implies
            !jar_metadata::platform_id((#[trigger] dependencies_of(t, n)[k]).0) by {
            if k < before.len() {
                assert(dependencies_of(t, n)[k] == before[k]);
            } else {
                assert(dependencies_of(t, n)[k] == own[k - before.len()]);
            }
        }
    }
}

proof fn lemma_no_platform_needs(t: Seq<(Seq<char>, DataView)>, n: int)
    requires
        0 <= n <= t.len(),
    ensures
        no_platform(needs_in(t, n)),
    decreases n,
{
    if n > 0 {
        lemma_no_platform_needs(t, n - 1);
        let before = needs_in(t, n - 1);
        assert forall|k: int| 0 <= k < needs_in(t, n).len() implies !jar_metadata::platform_id(
            (#[trigger] needs_in(t, n)[k]).0,
        ) by {
            if k < before.len() {
                assert(needs_in(t, n)[k] == before[k]);
            }
        }
    }
}

/// What mods run on is never a dependency to be fetched, whichever loader a
/// description is for.
pub proof fn law_platform_is_no_dependency(v: DataView)
    ensures
        no_platform(forge_dependencies_of(v)),
        no_platform(fabric_dependencies_of(v)),
{
    match structured::field(v, "dependencies"@) {
        Some(DataView::Table(t)) => {
            lemma_no_platform_of(t, t.len() as int);
        },
        _ => {},
    }
    match structured::field(v, "depends"@) {
        Some(DataView::Table(t)) => {
            lemma_no_platform_needs(t, t.len() as int);
        },
        _ => {},
    }
}

// ---------------------------------------------------------------------
// What is read from descriptions
// ---------------------------------------------------------------------

/// The description for NeoForge counts before that for Forge, and the one in
/// `META-INF` before the one at the top.
pub proof fn law_forge_descriptions(archive: Seq<u8>)
    ensures
        zip_text(archive, "META-INF/neoforge.mods.toml"@) is Some ==> forge_text(archive)
            == zip_text(archive, "META-INF/neoforge.mods.toml"@),
        zip_text(archive, "META-INF/neoforge.mods.toml"@) is None && zip_text(
            archive,
            "META-INF/mods.toml"@,
        ) is Some ==> forge_text(archive) == zip_text(archive, "META-INF/mods.toml"@),
        zip_text(archive, "META-INF/neoforge.mods.toml"@) is None && zip_text(
            archive,
            "META-INF/mods.toml"@,
        ) is None ==> forge_text(archive) == zip_text(archive, "mods.toml"@),
{
}

/// A picture is shown where its first bytes are those of a PNG or of a JPEG and it
/// takes at most 256 KiB; no other is.
pub proof fn law_icons(b: Seq<u8>)
    ensures
        MAX_ICON_BYTES == 256 * 1024,
        b.len() > 256 * 1024 ==> icon_url(b) is None,
        icon_kind(b) == Some("image/png"@) || icon_kind(b) == Some("image/jpeg"@) || icon_kind(b)
            is None,
        8 <= b.len() && b.len() <= 256 * 1024 && b.take(8) == seq![
            0x89u8,
            0x50,
            0x4e,
            0x47,
            0x0d,
            0x0a,
            0x1a,
            0x0a,
        ] ==> icon_url(b) == Some("data:image/png;base64,"@ + base64_of(b)),
        3 <= b.len() && b.len() <= 256 * 1024 && b.take(3) == seq![0xffu8, 0xd8, 0xff]
            ==> icon_url(b) == Some("data:image/jpeg;base64,"@ + base64_of(b)),
        icon_url(b) is Some ==> (b.len() >= 3 && b[0] == 0xff && b[1] == 0xd8) || (b.len() >= 8
            && b[0] == 0x89 && b[1] == 0x50),
{
    reveal_strlit("data:");
    reveal_strlit("image/png");
    reveal_strlit("image/jpeg");
    reveal_strlit(";base64,");
    reveal_strlit("data:image/png;base64,");
    reveal_strlit("data:image/jpeg;base64,");
    assert("data:"@ + "image/png"@ + ";base64,"@ =~= "data:image/png;base64,"@);
    assert("data:"@ + "image/jpeg"@ + ";base64,"@ =~= "data:image/jpeg;base64,"@);
    let png = seq![0x89u8, 0x50, 0x4e, 0x47, 0x0d, 0x0a, 0x1a, 0x0a];
    let jpeg = seq![0xffu8, 0xd8, 0xff];
    if b.len() >= 8 && b.take(8) == png {
        let h = b.take(8);
        assert(h[0] == b[0] && h[1] == b[1] && h[2] == b[2] && h[3] == b[3] && h[4] == b[4] && h[5]
            == b[5] && h[6] == b[6] && h[7] == b[7]);
    }
    if b.len() >= 3 && b.take(3) == jpeg {
        let h = b.take(3);
        assert(h[0] == b[0] && h[1] == b[1] && h[2] == b[2]);
    }
}

/// An icon is looked for at its path, blanks around it and slashes before it
/// aside.
pub proof fn law_icon_path(archive: Seq<u8>, l: Seq<char>, path: Seq<char>, r: Seq<char>)
    requires
        text_laws::is_blank(l),
        text_laws::is_blank(r),
        text_laws::is_core(path),
        path[0] != '/',
    ensures
        zip_icon(archive, l + path + r) == (match zip_holds(archive, path) {
            Some(b) => icon_url(b),
            None => None,
        }),
        zip_icon(archive, l + (seq!['/'] + path) + r) == zip_icon(archive, path),
        zip_icon(archive, l) is None,
{
    text_laws::law_trim(l, path, r);
    let q = seq!['/'] + path;
    assert(q.last() == path.last());
    assert(q[0] == '/');
    text_laws::law_trim(l, q, r);
    assert(text_laws::is_blank(Seq::<char>::empty()));
    text_laws::law_trim(seq![], path, seq![]);
    assert(Seq::<char>::empty() + path + Seq::<char>::empty() =~= path);
    reveal_with_fuel(text::skip, 3);
    assert(path.subrange(0, path.len() as int) =~= path);
    assert(q[1] == path[0]);
    assert(q.subrange(1, q.len() as int) =~= path);
    text_laws::law_trim(l, seq![], seq![]);
    assert(l + Seq::<char>::empty() + Seq::<char>::empty() =~= l);
}

/// What a table holds under a key is what the first entry with that key holds.
pub proof fn law_first_entry_counts(t: Seq<(Seq<char>, DataView)>, key: Seq<char>, k: int)
    ensures
        0 <= k < t.len() && t[k].0 == key && (forall|n: int|
            0 <= n < k ==> (#[trigger] t[n]).0 != key) ==> structured::field(
            DataView::Table(t),
            key,
        ) == Some(t[k].1),
        (forall|n: int| 0 <= n < t.len() ==> (#[trigger] t[n]).0 != key) ==> structured::field(
            DataView::Table(t),
            key,
        ) is None,
{
    if 0 <= k < t.len() && t[k].0 == key && (forall|n: int|
        0 <= n < k ==> (#[trigger] t[n]).0 != key) {
        lemma_entry_at(t, key, 0, k);
    }
    if forall|n: int| 0 <= n < t.len() ==> (#[trigger] t[n]).0 != key {
        lemma_entry_at(t, key, 0, t.len() as int);
    }
}

proof fn lemma_entry_at(t: Seq<(Seq<char>, DataView)>, key: Seq<char>, i: int, k: int)
    requires
        0 <= i <= k <= t.len(),
        forall|n: int| i <= n < k ==> (#[trigger] t[n]).0 != key,
        k < t.len() ==> t[k].0 == key,
    ensures
        k < t.len() ==> structured::entry_from(t, key, i) == Some(t[k].1),
        k == t.len() ==> structured::entry_from(t, key, i) is None,
    decreases k - i,
{
    if i < k {
        lemma_entry_at(t, key, i + 1, k);
    }
}

/// A mod that Fabric describes is shown by its name, else by its ID, else by its
/// file's name without the ending, with the version and the description given.
pub proof fn law_fabric_cards(v: DataView, file: Seq<char>, icon: Option<Seq<char>>)
    ensures
        ({
            let c = fabric_card(v, file, icon);
            let name = string_field(v, "name"@);
            let id = string_field(v, "id"@);
            &&& name.len() > 0 ==> c.display_name == name
            &&& name.len() == 0 && id.len() > 0 ==> c.display_name == id
            &&& name.len() == 0 && id.len() == 0 ==> c.display_name == bare_name(file)
            &&& c.version == string_field(v, "version"@)
            &&& c.description == string_field(v, "description"@)
            &&& c.file_name == file
            &&& c.icon == icon
            &&& c.status == ModStatus::Readable
        }),
{
}

/// A mod that Forge describes is shown by its display name, else by its ID; a
/// version that the build was to fill in is left out.
pub proof fn law_forge_cards(v: DataView, file: Seq<char>, icon: Option<Seq<char>>, rest: Seq<char>)
    ensures
        ({
            let c = forge_card(v, file, icon);
            let name = string_field(v, "displayName"@);
            let version = string_field(v, "version"@);
            &&& name.len() > 0 ==> c.display_name == name
            &&& name.len() == 0 ==> c.display_name == string_field(v, "modId"@)
            &&& version == "${"@ + rest ==> c.version.len() == 0
            &&& version.len() > 0 && version[0] != '$' ==> c.version == version
            &&& c.description == string_field(v, "description"@)
            &&& c.authors == listed_names(string_field(v, "authors"@))
            &&& c.file_name == file
            &&& c.icon == icon
            &&& c.status == ModStatus::Readable
        }),
{
    reveal_strlit("${");
    text_laws::law_ends("${"@, rest);
    let version = string_field(v, "version"@);
    if text::starts_with(version, "${"@) {
        text_laws::lemma_occurs_char(version, "${"@, 0, 0);
    }
}

proof fn lemma_names_join(a: Seq<Seq<char>>, b: Seq<Seq<char>>, n: int)
    requires
        0 <= n <= b.len(),
    ensures
        names_in(a + b, a.len() + n) == names_in(a, a.len() as int) + names_in(b, n),
    decreases n,
{
    let all = a + b;
    if n > 0 {
        lemma_names_join(a, b, n - 1);
        assert(all[a.len() + n - 1] == b[n - 1]);
        let p = names_in(a, a.len() as int);
        let q = names_in(b, n - 1);
        let name = text::trim(b[n - 1]);
        assert((p + q).push(name) =~= p + q.push(name));
    } else {
        lemma_names_front(a, b, a.len() as int);
        assert(names_in(a, a.len() as int) + names_in(b, 0) =~= names_in(a, a.len() as int));
    }
}

proof fn lemma_names_front(a: Seq<Seq<char>>, b: Seq<Seq<char>>, n: int)
    requires
        0 <= n <= a.len(),
    ensures
        names_in(a + b, n) == names_in(a, n),
    decreases n,
{
    if n > 0 {
        lemma_names_front(a, b, n - 1);
        assert((a + b)[n - 1] == a[n - 1]);
    }
}

/// Names stand between commas and semicolons: those before one and those after it
/// are the names, each without the blanks around it, and blanks alone are none.
pub proof fn law_names_between_commas(
    a: Seq<char>,
    b: Seq<char>,
    l: Seq<char>,
    name: Seq<char>,
    r: Seq<char>,
)
    requires
        text_laws::is_blank(l),
        text_laws::is_blank(r),
        text_laws::is_core(name),
        forall|k: int| 0 <= k < name.len() ==> name[k] != ',' && name[k] != ';',
    ensures
        listed_names(a + seq![','] + b) == listed_names(a) + listed_names(b),
        listed_names(a + seq![';'] + b) == listed_names(a) + listed_names(b),
        listed_names(l + name + r) == seq![name],
        listed_names(l) == Seq::<Seq<char>>::empty(),
{
    reveal_strlit(",;");
    let set = ",;"@;
    assert(set[0] == ',' && set[1] == ';');
    assert(set.contains(',') && set.contains(';'));
    text_laws::law_pieces_of_parts(a, ',', b, set);
    text_laws::law_pieces_of_parts(a, ';', b, set);
    let x = text::split_any(a, set);
    let y = text::split_any(b, set);
    lemma_names_join(x, y, y.len() as int);
    let s = l + name + r;
    lemma_no_separator(l);
    lemma_no_separator(r);
    assert forall|k: int| 0 <= k < s.len() implies !set.contains(#[trigger] s[k]) by {
        if k < l.len() {
            assert(s[k] == l[k]);
        } else if k < l.len() + name.len() {
            assert(s[k] == name[k - l.len()]);
            if set.contains(s[k]) {
                let q = choose|q: int| 0 <= q < set.len() && set[q] == s[k];
                assert(q == 0 || q == 1);
            }
        } else {
            assert(s[k] == r[k - l.len() - name.len()]);
        }
    }
    text_laws::law_one_piece(s, set);
    text_laws::law_trim(l, name, r);
    assert(names_in(seq![s], 0) =~= Seq::<Seq<char>>::empty());
    assert(names_in(seq![s], 1) =~= seq![name]);
    text_laws::law_one_piece(l, set);
    text_laws::law_trim(l, seq![], seq![]);
    assert(l + Seq::<char>::empty() + Seq::<char>::empty() =~= l);
    assert(names_in(seq![l], 0) =~= Seq::<Seq<char>>::empty());
    assert(names_in(seq![l], 1) =~= Seq::<Seq<char>>::empty());
}

proof fn lemma_no_separator(l: Seq<char>)
    requires
        text_laws::is_blank(l),
    ensures
        forall|k: int| 0 <= k < l.len() ==> !",;"@.contains(#[trigger] l[k]),
{
    reveal_strlit(",;");
    let set = ",;"@;
    assert forall|k: int| 0 <= k < l.len() implies !set.contains(#[trigger] l[k]) by {
        assert(text::is_ws(l[k]));
        if set.contains(l[k]) {
            let q = choose|q: int| 0 <= q < set.len() && set[q] == l[k];
            assert(q == 0 || q == 1);
        }
    }
}

/// Every mod that Forge's description lists with an ID is declared by it, without
/// the blanks around it; nothing else is.
pub proof fn law_every_listed_id_is_declared(items: Seq<DataView>, n: int, k: int, id: Seq<char>)
    requires
        0 <= k < n <= items.len(),
    ensures
        structured::text_of(structured::field(items[k], "modId"@)) is Some && text::trim(
            structured::text_of(structured::field(items[k], "modId"@))->0,
        ) == id && id.len() > 0 ==> ids_in(items, n).contains(id),
        ids_in(items, n).contains(id) ==> id.len() > 0 && exists|x: int|
            0 <= x < n && structured::text_of(
                structured::field(#[trigger] items[x], "modId"@),
            ) is Some && text::trim(
                structured::text_of(structured::field(items[x], "modId"@))->0,
            ) == id,
    decreases n,
{
    let prev = ids_in(items, n - 1);
    let now = ids_in(items, n);
    if n > 1 {
        let k2 = if k < n - 1 {
            k
        } else {
            0
        };
        law_every_listed_id_is_declared(items, n - 1, k2, id);
    } else {
        assert(prev.len() == 0);
    }
    if prev.contains(id) {
        let j = choose|j: int| 0 <= j < prev.len() && prev[j] == id;
        assert(now[j] == id);
    }
    let own = structured::text_of(structured::field(items[n - 1], "modId"@));
    if now.contains(id) && !prev.contains(id) {
        let j = choose|j: int| 0 <= j < now.len() && now[j] == id;
        if j < prev.len() {
            assert(prev[j] == id);
        }
        assert(own is Some && text::trim(own->0) == id);
    }
    if own is Some && text::trim(own->0) == id && id.len() > 0 && !prev.contains(id) {
        assert(now.last() == id);
    }
}

/// A dependency that Forge's description declares must be there unless it says
/// that it is not mandatory; one whose type is `required`, in whatever case, must
/// be there all the same.
pub proof fn law_mandatory_dependencies(dep: DataView)
    ensures
        structured::field(dep, "mandatory"@) is None ==> must_be_there(dep),
        structured::field(dep, "mandatory"@) == Some(DataView::Bool(true)) ==> must_be_there(dep),
        text::lowered(string_field(dep, "type"@)) == "required"@ ==> must_be_there(dep),
        structured::field(dep, "mandatory"@) == Some(DataView::Bool(false)) && text::lowered(
            string_field(dep, "type"@),
        ) != "required"@ ==> !must_be_there(dep),
{
}

/// Every mandatory dependency that Forge's description lists is declared, with the
/// range of versions given, unless it is what mods run on.
pub proof fn law_every_forge_dependency_is_read(items: Seq<DataView>, n: int, k: int)
    requires
        0 <= k < n <= items.len(),
        must_be_there(items[k]),
        string_field(items[k], "modId"@).len() > 0,
        !jar_metadata::platform_id(string_field(items[k], "modId"@)),
    ensures
        dependencies_in(items, n).contains(
            (string_field(items[k], "modId"@), string_field(items[k], "versionRange"@)),
        ),
    decreases n,
{
    let d = (string_field(items[k], "modId"@), string_field(items[k], "versionRange"@));
    let now = dependencies_in(items, n);
    if k == n - 1 {
        assert(now.last() == d);
    } else {
        law_every_forge_dependency_is_read(items, n - 1, k);
        let prev = dependencies_in(items, n - 1);
        let j = choose|j: int| 0 <= j < prev.len() && prev[j] == d;
        assert(now[j] == d);
    }
}

/// The dependencies of every mod of the description are read, not only those of
/// the first.
pub proof fn law_dependencies_of_every_mod_are_read(
    t: Seq<(Seq<char>, DataView)>,
    n: int,
    k: int,
    items: Seq<DataView>,
    d: (Seq<char>, Seq<char>),
)
    requires
        0 <= k < n <= t.len(),
        t[k].1 == DataView::List(items),
        dependencies_in(items, items.len() as int).contains(d),
    ensures
        dependencies_of(t, n).contains(d),
    decreases n,
{
    let prev = dependencies_of(t, n - 1);
    let now = dependencies_of(t, n);
    if k == n - 1 {
        let own = dependencies_in(items, items.len() as int);
        let j = choose|j: int| 0 <= j < own.len() && own[j] == d;
        assert(now[prev.len() + j] == d);
    } else {
        law_dependencies_of_every_mod_are_read(t, n - 1, k, items, d);
        let j = choose|j: int| 0 <= j < prev.len() && prev[j] == d;
        assert(now[j] == d);
    }
}

/// Every dependency that Fabric's description lists is read, with the range given,
/// or any version where that is no text, unless it is what mods run on.
pub proof fn law_every_fabric_dependency_is_read(t: Seq<(Seq<char>, DataView)>, n: int, k: int)
    requires
        0 <= k < n <= t.len(),
        !jar_metadata::platform_id(t[k].0),
    ensures
        t[k].1 is Text ==> needs_in(t, n).contains((t[k].0, t[k].1->Text_0)),
        !(t[k].1 is Text) ==> needs_in(t, n).contains((t[k].0, "*"@)),
        needs_in(t, n).len() <= n,
    decreases n,
{
    let d = (
        t[k].0,
        match t[k].1 {
            DataView::Text(s) => s,
            _ => "*"@,
        },
    );
    let now = needs_in(t, n);
    let prev = needs_in(t, n - 1);
    if k == n - 1 {
        lemma_needs_bounded(t, n - 1);
        assert(now.last() == d);
    } else {
        law_every_fabric_dependency_is_read(t, n - 1, k);
        let j = choose|j: int| 0 <= j < prev.len() && prev[j] == d;
        assert(now[j] == d);
    }
}

proof fn lemma_needs_bounded(t: Seq<(Seq<char>, DataView)>, n: int)
    requires
        0 <= n <= t.len(),
    ensures
        needs_in(t, n).len() <= n,
    decreases n,
{
    if n > 0 {
        lemma_needs_bounded(t, n - 1);
    }
}

/// What mods run on are the game, Java and the loaders, by these IDs and no other.
pub proof fn law_platform(id: Seq<char>)
    ensures
        jar_metadata::platform_id(id) <==> id == "java"@ || id == "minecraft"@ || id == "forge"@
            || id == "neoforge"@ || id == "fabric"@ || id == "fabricloader"@,
{
}

/// A file without any readable description is shown by its name; one that is no
/// archive, or could not be read, is said to be unreadable. Fabric's description
/// counts before Forge's.
pub proof fn law_every_file_has_a_card(path: Seq<char>, a: Seq<u8>)
    ensures
        mod_card(path, None).status == ModStatus::Unreadable,
        !zip_opens(a) ==> mod_card(path, Some(a)).status == ModStatus::Unreadable,
        zip_opens(a) ==> mod_card(path, Some(a)).status == ModStatus::Readable,
        mod_card(path, Some(a)).file_name == shown_name(path),
        mod_card(path, None).display_name == bare_name(shown_name(path)),
        zip_opens(a) && fabric_card_of(a, shown_name(path)) is Some ==> mod_card(path, Some(a))
            == tidy(fabric_card_of(a, shown_name(path))->0),
        zip_opens(a) && fabric_card_of(a, shown_name(path)) is None && forge_card_of(
            a,
            shown_name(path),
        ) is Some ==> mod_card(path, Some(a)) == tidy(forge_card_of(a, shown_name(path))->0),
{
}

/// A card is tidied by trimming its version and by giving it a name; the authors
/// that are names stay, in order, without the blanks around them.
pub proof fn law_tidy_cards(c: ModCard, n: int, k: int)
    requires
        0 <= k < n <= c.authors.len(),
    ensures
        tidy(c).version == text::trim(c.version),
        text_laws::is_core(c.display_name) ==> tidy(c).display_name == c.display_name,
        tidy(c).description == c.description,
        tidy(c).file_name == c.file_name,
        tidy(c).icon == c.icon,
        tidy(c).status == c.status,
        text::trim(c.authors[k]).len() > 0 && text::trim(c.authors[k])[0] != '$' ==> shown_authors(
            c.authors,
            n,
        ).contains(text::trim(c.authors[k])),
    decreases n,
{
    if text_laws::is_core(c.display_name) {
        text_laws::lemma_trim_plain(c.display_name);
    }
    let name = text::trim(c.authors[k]);
    if name.len() > 0 && name[0] != '$' {
        reveal_strlit("${");
        if text::starts_with(name, "${"@) {
            text_laws::lemma_occurs_char(name, "${"@, 0, 0);
        }
        let now = shown_authors(c.authors, n);
        if k == n - 1 {
            assert(now.last() == name);
        } else {
            law_tidy_cards(c, n - 1, k);
            let prev = shown_authors(c.authors, n - 1);
            let j = choose|j: int| 0 <= j < prev.len() && prev[j] == name;
            assert(now[j] == name);
        }
    }
}

/// The authors in Fabric's list are read whether they are texts or tables with a
/// name.
pub proof fn law_fabric_authors_are_read(items: Seq<DataView>, n: int, k: int, a: Seq<char>)
    requires
        0 <= k < n <= items.len(),
        items[k] == DataView::Text(a) || (items[k] is Table && structured::field(
            items[k],
            "name"@,
        ) == Some(DataView::Text(a))),
    ensures
        authors_in(items, n).contains(a),
    decreases n,
{
    let now = authors_in(items, n);
    if k == n - 1 {
        assert(now.last() == a);
    } else {
        law_fabric_authors_are_read(items, n - 1, k, a);
        let prev = authors_in(items, n - 1);
        let j = choose|j: int| 0 <= j < prev.len() && prev[j] == a;
        assert(now[j] == a);
    }
}

/// The endings of mod files are taken off a name.
pub proof fn law_bare_names(name: Seq<char>)
    requires
        !text::ends_with(name, ".jar"@),
        !text::ends_with(name, ".tmod"@),
    ensures
        bare_name(name) == name,
        bare_name(name + ".jar"@) == name,
        bare_name(name + ".tmod"@) == name,
{
    reveal_strlit(".jar");
    reveal_strlit(".tmod");
    reveal_with_fuel(text::trim_end_str, 2);
    text_laws::law_ends(name, ".jar"@);
    text_laws::law_ends(name, ".tmod"@);
    let j = name + ".jar"@;
    let m = name + ".tmod"@;
    assert(j.take(j.len() - 4) =~= name);
    assert(m.take(m.len() - 5) =~= name);
    assert(text::trim_end_str(j, ".jar"@) == name);
    if text::ends_with(m, ".jar"@) {
        let n = m.len() - 4;
        text_laws::lemma_occurs_char(m, ".jar"@, n, 3);
        assert(m[n + 3] == ".tmod"@[4]);
    }
    assert(text::trim_end_str(m, ".jar"@) == m);
}

/// Fabric's icon is the path that is given, or of several by size the one for 64
/// pixels, or else the first.
pub proof fn law_fabric_icon(v: DataView, path: Seq<char>, t: Seq<(Seq<char>, DataView)>)
    ensures
        structured::field(v, "icon"@) == Some(DataView::Text(path)) ==> fabric_icon_path(v)
            == Some(path),
        structured::field(v, "icon"@) == Some(DataView::Table(t)) && structured::field(
            DataView::Table(t),
            "64"@,
        ) == Some(DataView::Text(path)) ==> fabric_icon_path(v) == Some(path),
        structured::field(v, "icon"@) == Some(DataView::Table(t)) && structured::field(
            DataView::Table(t),
            "64"@,
        ) is None && t.len() > 0 && t[0].1 == DataView::Text(path) ==> fabric_icon_path(v) == Some(
            path,
        ),
        structured::field(v, "icon"@) is None ==> fabric_icon_path(v) is None,
{
}

/// Forge's description speaks of the first mod that it lists, declares the IDs of
/// all of them, and its dependencies and Fabric's stand where they are looked for.
pub proof fn law_where_descriptions_are_read(v: DataView, items: Seq<DataView>, t: Seq<(Seq<char>, DataView)>)
    ensures
        structured::field(v, "mods"@) == Some(DataView::List(items)) && items.len() > 0
            ==> first_mod(v) == Some(items[0]) && declared_ids(v) == ids_in(
            items,
            items.len() as int,
        ),
        structured::field(v, "mods"@) is None ==> first_mod(v) is None && declared_ids(v).len()
            == 0,
        structured::field(v, "dependencies"@) == Some(DataView::Table(t))
            ==> forge_dependencies_of(v) == dependencies_of(t, t.len() as int),
        structured::field(v, "depends"@) == Some(DataView::Table(t)) ==> fabric_dependencies_of(v)
            == needs_in(t, t.len() as int),
        structured::field(v, "authors"@) == Some(DataView::List(items)) ==> fabric_authors(v)
            == authors_in(items, items.len() as int),
{
}

/// Fabric's description is the JSON in `fabric.mod.json`, Forge's the TOML where
/// that is found; what is no text says nothing.
pub proof fn law_descriptions(archive: Seq<u8>)
    ensures
        zip_text(archive, "fabric.mod.json"@) is Some ==> fabric_data(archive)
            == structured::json_read(zip_text(archive, "fabric.mod.json"@)->0),
        zip_text(archive, "fabric.mod.json"@) is None ==> fabric_data(archive) is None,
        forge_text(archive) is Some ==> forge_data(archive) == structured::toml_read(
            forge_text(archive)->0,
        ),
        forge_text(archive) is None ==> forge_data(archive) is None,
{
}

/// The text of an entry is what its bytes encode, where they do.
pub proof fn law_entry_texts(archive: Seq<u8>, name: Seq<char>, b: Seq<u8>)
    ensures
        zip_holds(archive, name) is None ==> zip_text(archive, name) is None,
        zip_holds(archive, name) == Some(b) && vstd::utf8::valid_utf8(b) ==> zip_text(
            archive,
            name,
        ) == Some(vstd::utf8::decode_utf8(b)),
        zip_holds(archive, name) == Some(b) && !vstd::utf8::valid_utf8(b) ==> zip_text(
            archive,
            name,
        ) is None,
{
}

} // verus!
