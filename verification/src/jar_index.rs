//! Which JARs of a mods directory provide which mod IDs and resources.
use vstd::prelude::*;

use crate::mod_compat::{CompatibilityConfidence, ModCompatibility, ServerCompatibility};
use crate::text;
use crate::text_laws;
use crate::text::{
    clone_strings, contains_str, file_name_of, from_chars, has_sub, has_suffix, str_eq, to_chars,
};

verus! {

/// A file of the mods directory, as it was read.
#[derive(Debug, Clone)]
pub struct ScannedJar {
    /// File path.
    pub path: String,
    /// The mod IDs that it declares.
    pub mod_ids: Vec<String>,
    /// The names of the entries in the archive.
    pub entries: Vec<String>,
    /// Its classification.
    pub compatibility: ModCompatibility,
}

/// The texts of names, where there are any.
pub open spec fn name_views(v: Seq<Option<String>>) -> Seq<Option<Seq<char>>> {
    v.map_values(
        |o: Option<String>|
            match o {
                Some(s) => Some(s@),
                None => None,
            },
    )
}

/// The entries that the `zip` crate finds in an archive, in the order of the
/// archive's directory, each with its name or, where it cannot be opened, without
/// one; none where the bytes are no archive.
pub uninterp spec fn zip_names(archive: Seq<u8>) -> Option<Seq<Option<Seq<char>>>>;

/// Calls `zip::ZipArchive::new`, and `zip::ZipArchive::by_index` for each entry.
/// Claimed: what they give depends on the bytes alone.
#[verifier::external_body]
fn entry_names(archive: &[u8]) -> (r: Option<Vec<Option<String>>>)
    ensures
        match r {
            Some(v) => zip_names(archive@) == Some(name_views(v@)),
            None => zip_names(archive@) is None,
        },
{
    let mut zip = zip::ZipArchive::new(std::io::Cursor::new(archive)).ok()?;
    Some((0..zip.len()).map(|i| zip.by_index(i).ok().map(|e| e.name().to_string())).collect())
}

/// The names among the first `n` entries that could be opened.
pub open spec fn opened_below(names: Seq<Option<Seq<char>>>, n: int) -> Seq<Seq<char>>
    decreases n,
{
    if n <= 0 {
        seq![]
    } else {
        match names[n - 1] {
            Some(name) => opened_below(names, n - 1).push(name),
            None => opened_below(names, n - 1),
        }
    }
}

/// The names of an archive's entries that can be opened.
pub open spec fn opened_names(archive: Seq<u8>) -> Seq<Seq<char>> {
    match zip_names(archive) {
        Some(names) => opened_below(names, names.len() as int),
        None => seq![],
    }
}

/// Keeps the names of the entries that could be opened.
fn keep_opened(names: &Vec<Option<String>>) -> (r: Vec<String>)
    ensures
        text::views(r@) == opened_below(name_views(names@), names@.len() as int),
{
    let mut out: Vec<String> = Vec::new();
    let mut i: usize = 0;
    assert(text::views(out@) =~= seq![]);
    while i < names.len()
        invariant
            i <= names.len(),
            text::views(out@) == opened_below(name_views(names@), i as int),
        decreases names.len() - i,
    {
        if let Some(name) = &names[i] {
            let ghost before = out@;
            out.push(name.clone());
            assert(text::views(out@) =~= text::views(before).push(name@));
        }
        i = i + 1;
    }
    out
}

impl ScannedJar {
    /// What is known of a file, given its bytes where they could be read.
    pub fn scan(
        path: String,
        archive: Option<&[u8]>,
        mod_ids: Vec<String>,
        compatibility: ModCompatibility,
    ) -> (r: Self)
        ensures
            r.path == path,
            r.mod_ids == mod_ids,
            r.compatibility == compatibility,
            text::views(r.entries@) == (match archive {
                Some(a) => opened_names(a@),
                None => Seq::empty(),
            }),
    {
        let mut entries: Vec<String> = Vec::new();
        assert(text::views(entries@) =~= Seq::<Seq<char>>::empty());
        if let Some(a) = archive {
            if let Some(names) = entry_names(a) {
                entries = keep_opened(&names);
            }
        }
        ScannedJar { path, mod_ids, entries, compatibility }
    }
}

/// What the index keeps of a JAR.
#[derive(Debug, Clone)]
pub struct IndexedJar {
    pub path: String,
    pub mod_ids: Vec<String>,
    /// File names of the mixin configurations in it.
    pub resources: Vec<String>,
    pub compatibility: ModCompatibility,
}

/// The JARs of a mods directory, in the order in which they were read.
#[derive(Debug, Clone)]
pub struct JarOwnershipIndex {
    pub jars: Vec<IndexedJar>,
}

/// Whether a path names a JAR file: its file name is more than `.jar` and ends
/// in it.
pub open spec fn is_jar(path: Seq<char>) -> bool {
    match text::file_name(path) {
        Some(f) => f.len() > 4 && text::ends_with(f, ".jar"@),
        None => false,
    }
}

/// Computes [`is_jar`].
pub fn is_jar_path(path: &str) -> (r: bool)
    ensures
        r == is_jar(path@),
{
    let chars = to_chars(path);
    match file_name_of(&chars) {
        Some(f) => f.len() > 4 && has_suffix(f, ".jar"),
        None => false,
    }
}

/// Whether the name of an archive entry is that of a mixin configuration.
pub open spec fn is_mixin_config(name: Seq<char>) -> bool {
    text::ends_with(name, ".mixins.json"@) || text::ends_with(name, ".mixins.json5"@) || (
    text::contains(name, "mixin"@) && text::ends_with(name, ".json"@))
}

/// The file name of a path, empty where it has none.
pub open spec fn basename(path: Seq<char>) -> Seq<char> {
    match text::file_name(path) {
        Some(f) => f,
        None => seq![],
    }
}

/// Computes [`basename`].
pub fn basename_of(path: &[char]) -> (r: String)
    ensures
        r@ == basename(path@),
{
    match file_name_of(path) {
        Some(f) => from_chars(f),
        None => String::new(),
    }
}

/// The file names of the mixin configurations among the first `n` entries.
pub open spec fn mixin_names(entries: Seq<String>, n: int) -> Seq<Seq<char>>
    decreases n,
{
    if n <= 0 {
        seq![]
    } else if is_mixin_config(entries[n - 1]@) {
        mixin_names(entries, n - 1).push(basename(entries[n - 1]@))
    } else {
        mixin_names(entries, n - 1)
    }
}

/// The file names of the mixin configurations of a JAR.
fn mixin_resources(entries: &Vec<String>) -> (r: Vec<String>)
    ensures
        text::views(r@) == mixin_names(entries@, entries@.len() as int),
{
    let mut out: Vec<String> = Vec::new();
    let mut i: usize = 0;
    assert(text::views(out@) =~= seq![]);
    while i < entries.len()
        invariant
            i <= entries.len(),
            text::views(out@) == mixin_names(entries@, i as int),
        decreases entries.len() - i,
    {
        let name = to_chars(entries[i].as_str());
        if has_suffix(&name, ".mixins.json") || has_suffix(&name, ".mixins.json5") || (has_sub(
            &name,
            "mixin",
        ) && has_suffix(&name, ".json")) {
            let ghost before = out@;
            let b = basename_of(&name);
            out.push(b);
            assert(text::views(out@) =~= text::views(before).push(b@));
        }
        i = i + 1;
    }
    out
}

/// What is known of a JAR.
pub struct JarView {
    pub path: Seq<char>,
    pub mod_ids: Seq<Seq<char>>,
    pub resources: Seq<Seq<char>>,
    pub compatibility: ServerCompatibility,
    pub confidence: CompatibilityConfidence,
}

impl View for IndexedJar {
    type V = JarView;

    open spec fn view(&self) -> JarView {
        JarView {
            path: self.path@,
            mod_ids: text::views(self.mod_ids@),
            resources: text::views(self.resources@),
            compatibility: self.compatibility.compatibility,
            confidence: self.compatibility.confidence,
        }
    }
}

impl View for JarOwnershipIndex {
    type V = Seq<JarView>;

    open spec fn view(&self) -> Seq<JarView> {
        self.jars@.map_values(|j: IndexedJar| j@)
    }
}

/// What the index keeps of a scanned file.
pub open spec fn jar_of(f: ScannedJar) -> JarView {
    JarView {
        path: f.path@,
        mod_ids: text::views(f.mod_ids@),
        resources: mixin_names(f.entries@, f.entries@.len() as int),
        compatibility: f.compatibility.compatibility,
        confidence: f.compatibility.confidence,
    }
}

/// The JARs among the first `n` files.
pub open spec fn jars_below(files: Seq<ScannedJar>, n: int) -> Seq<JarView>
    decreases n,
{
    if n <= 0 {
        seq![]
    } else if is_jar(files[n - 1].path@) {
        jars_below(files, n - 1).push(jar_of(files[n - 1]))
    } else {
        jars_below(files, n - 1)
    }
}

/// The JARs among the files of a mods directory.
pub open spec fn jars_of(files: Seq<ScannedJar>) -> Seq<JarView> {
    jars_below(files, files.len() as int)
}

/// The positions, below `n`, of the JARs that declare a mod ID.
pub open spec fn owners_below(jars: Seq<JarView>, id: Seq<char>, n: int) -> Seq<int>
    decreases n,
{
    if n <= 0 {
        seq![]
    } else if jars[n - 1].mod_ids.contains(id) {
        owners_below(jars, id, n - 1).push(n - 1)
    } else {
        owners_below(jars, id, n - 1)
    }
}

/// The positions of the JARs that declare a mod ID.
pub open spec fn owners_of(jars: Seq<JarView>, id: Seq<char>) -> Seq<int> {
    owners_below(jars, id, jars.len() as int)
}

/// The position `pos`, once for each of the first `m` names that is this one.
pub open spec fn name_hits(names: Seq<Seq<char>>, name: Seq<char>, pos: int, m: int) -> Seq<int>
    decreases m,
{
    if m <= 0 {
        seq![]
    } else if names[m - 1] == name {
        name_hits(names, name, pos, m - 1).push(pos)
    } else {
        name_hits(names, name, pos, m - 1)
    }
}

/// The positions, below `n`, of the JARs that hold a mixin configuration of
/// this file name, once for each that they hold.
pub open spec fn holders_below(jars: Seq<JarView>, name: Seq<char>, n: int) -> Seq<int>
    decreases n,
{
    if n <= 0 {
        seq![]
    } else {
        holders_below(jars, name, n - 1) + name_hits(
            jars[n - 1].resources,
            name,
            n - 1,
            jars[n - 1].resources.len() as int,
        )
    }
}

/// The first position from `i` on of a JAR with this path; the number of JARs
/// where there is none.
pub open spec fn jar_index(jars: Seq<JarView>, path: Seq<char>, i: int) -> int
    decreases jars.len() - i,
{
    if i < 0 || i >= jars.len() {
        jars.len() as int
    } else if jars[i].path == path {
        i
    } else {
        jar_index(jars, path, i + 1)
    }
}

/// The JAR with this path.
pub open spec fn jar_at(jars: Seq<JarView>, path: Seq<char>) -> Option<JarView> {
    let i = jar_index(jars, path, 0);
    if 0 <= i < jars.len() {
        Some(jars[i])
    } else {
        None
    }
}

/// The first position from `i` on of a JAR with this file name; the number of
/// JARs where there is none.
pub open spec fn named_index(jars: Seq<JarView>, name: Seq<char>, i: int) -> int
    decreases jars.len() - i,
{
    if i < 0 || i >= jars.len() {
        jars.len() as int
    } else if text::file_name(jars[i].path) == Some(name) {
        i
    } else {
        named_index(jars, name, i + 1)
    }
}

/// The JAR that a path of a log means: the one with that path, else the first
/// one with that file name.
pub open spec fn found_jar(jars: Seq<JarView>, path: Seq<char>) -> Option<JarView> {
    if jar_at(jars, path) is Some {
        jar_at(jars, path)
    } else {
        match text::file_name(path) {
            Some(name) => {
                let i = named_index(jars, name, 0);
                if 0 <= i < jars.len() {
                    Some(jars[i])
                } else {
                    None
                }
            },
            None => None,
        }
    }
}

impl JarOwnershipIndex {
    /// Indexes the files of a mods directory that are JARs.
    pub fn build(files: &[ScannedJar]) -> (r: Self)
        ensures
            r@ == jars_of(files@),
    {
        let mut jars: Vec<IndexedJar> = Vec::new();
        let mut i: usize = 0;
        let ghost v = |j: IndexedJar| j@;
        assert(jars@.map_values(v) =~= seq![]);
        while i < files.len()
            invariant
                i <= files.len(),
                v == (|j: IndexedJar| j@),
                jars@.map_values(v) == jars_below(files@, i as int),
            decreases files.len() - i,
        {
            let f = &files[i];
            if is_jar_path(f.path.as_str()) {
                let ghost before = jars@;
                let j = IndexedJar {
                    path: f.path.clone(),
                    mod_ids: clone_strings(&f.mod_ids),
                    resources: mixin_resources(&f.entries),
                    compatibility: f.compatibility.copied(),
                };
                assert(j@ == jar_of(*f));
                jars.push(j);
                assert(jars@.map_values(v) =~= before.map_values(v).push(j@));
            }
            i = i + 1;
        }
        JarOwnershipIndex { jars }
    }

    /// The positions of the JARs that declare a mod ID.
    pub fn owners(&self, id: &str) -> (r: Vec<usize>)
        ensures
            r@.map_values(|i: usize| i as int) == owners_of(self@, id@),
            r@.len() == owners_of(self@, id@).len(),
            forall|k: int|
                0 <= k < r@.len() ==> 0 <= #[trigger] r@[k] < self.jars@.len() && r@[k]
                    == owners_of(self@, id@)[k],
    {
        let mut out: Vec<usize> = Vec::new();
        let mut i: usize = 0;
        let ghost v = |i: usize| i as int;
        assert(out@.map_values(v) =~= seq![]);
        while i < self.jars.len()
            invariant
                i <= self.jars.len(),
                v == (|i: usize| i as int),
                out@.map_values(v) == owners_below(self@, id@, i as int),
                forall|k: int| 0 <= k < out@.len() ==> 0 <= #[trigger] out@[k] < self.jars@.len(),
            decreases self.jars.len() - i,
        {
            assert(self@[i as int] == self.jars@[i as int]@);
            if contains_str(&self.jars[i].mod_ids, id) {
                let ghost before = out@;
                out.push(i);
                assert(out@.map_values(v) =~= before.map_values(v).push(i as int));
            }
            i = i + 1;
        }
        proof {
            assert forall|k: int| 0 <= k < out@.len() implies #[trigger] out@[k] == owners_of(
                self@,
                id@,
            )[k] by {
                assert(out@.map_values(v)[k] == out@[k]);
            }
        }
        out
    }

    /// The positions of the JARs that hold a mixin configuration of this name.
    pub fn holders(&self, name: &str) -> (r: Vec<usize>)
        ensures
            r@.map_values(|i: usize| i as int) == holders_below(
                self@,
                name@,
                self@.len() as int,
            ),
            forall|k: int| 0 <= k < r@.len() ==> 0 <= #[trigger] r@[k] < self.jars@.len(),
    {
        let mut out: Vec<usize> = Vec::new();
        let mut n: usize = 0;
        let ghost v = |i: usize| i as int;
        assert(out@.map_values(v) =~= seq![]);
        while n < self.jars.len()
            invariant
                n <= self.jars.len(),
                v == (|i: usize| i as int),
                out@.map_values(v) == holders_below(self@, name@, n as int),
                forall|k: int| 0 <= k < out@.len() ==> 0 <= #[trigger] out@[k] < self.jars@.len(),
            decreases self.jars.len() - n,
        {
            let names = &self.jars[n].resources;
            let ghost nv = text::views(names@);
            let ghost o = holders_below(self@, name@, n as int);
            assert(self@[n as int] == self.jars@[n as int]@);
            let mut m: usize = 0;
            assert(o + name_hits(nv, name@, n as int, 0) =~= o);
            while m < names.len()
                invariant
                    m <= names.len(),
                    n < self.jars.len(),
                    nv == text::views(names@),
                    v == (|i: usize| i as int),
                    out@.map_values(v) == o + name_hits(nv, name@, n as int, m as int),
                    forall|k: int|
                        0 <= k < out@.len() ==> 0 <= #[trigger] out@[k] < self.jars@.len(),
                decreases names.len() - m,
            {
                if str_eq(names[m].as_str(), name) {
                    let ghost before = out@;
                    out.push(n);
                    proof {
                        assert(out@.map_values(v) =~= before.map_values(v).push(n as int));
                        let h = name_hits(nv, name@, n as int, m as int);
                        assert((o + h).push(n as int) =~= o + h.push(n as int));
                    }
                }
                m = m + 1;
            }
            n = n + 1;
        }
        out
    }

    /// The JAR with this path.
    pub fn with_path(&self, path: &str) -> (r: Option<&IndexedJar>)
        ensures
            r is Some <==> jar_at(self@, path@) is Some,
            r is Some ==> jar_at(self@, path@) == Some(r->0@),
    {
        let mut i: usize = 0;
        while i < self.jars.len()
            invariant
                i <= self.jars.len(),
                jar_index(self@, path@, 0) == jar_index(self@, path@, i as int),
            decreases self.jars.len() - i,
        {
            assert(self@[i as int] == self.jars@[i as int]@);
            if str_eq(self.jars[i].path.as_str(), path) {
                return Some(&self.jars[i]);
            }
            i = i + 1;
        }
        None
    }

    /// The JAR that a path of a log means.
    pub fn find_jar(&self, path: &str) -> (r: Option<&IndexedJar>)
        ensures
            r is Some <==> found_jar(self@, path@) is Some,
            r is Some ==> found_jar(self@, path@) == Some(r->0@),
    {
        let exact = self.with_path(path);
        if exact.is_some() {
            return exact;
        }
        let chars = to_chars(path);
        match file_name_of(&chars) {
            None => None,
            Some(name) => {
                let wanted = from_chars(name);
                let mut i: usize = 0;
                while i < self.jars.len()
                    invariant
                        i <= self.jars.len(),
                        text::file_name(path@) == Some(wanted@),
                        jar_at(self@, path@) is None,
                        named_index(self@, wanted@, 0) == named_index(self@, wanted@, i as int),
                    decreases self.jars.len() - i,
                {
                    assert(self@[i as int] == self.jars@[i as int]@);
                    let other = to_chars(self.jars[i].path.as_str());
                    if let Some(f) = file_name_of(&other) {
                        if str_eq(from_chars(f).as_str(), wanted.as_str()) {
                            return Some(&self.jars[i]);
                        }
                    }
                    i = i + 1;
                }
                None
            },
        }
    }
}

/// A file is a JAR where its name ends in `.jar` and is more than that, in whatever
/// directory it is.
pub proof fn law_jars_are_known_by_name(dir: Seq<char>, name: Seq<char>, other: Seq<char>)
    requires
        name.len() > 0,
        forall|k: int| 0 <= k < name.len() ==> name[k] != '/',
        other.len() > 0,
        forall|k: int| 0 <= k < other.len() ==> other[k] != '/',
        other != seq!['.'],
        other != seq!['.', '.'],
        !text::ends_with(other, ".jar"@),
    ensures
        is_jar(dir + seq!['/'] + (name + ".jar"@)),
        is_jar(name + ".jar"@),
        !is_jar(dir + seq!['/'] + other),
{
    reveal_strlit(".jar");
    let file = name + ".jar"@;
    assert forall|k: int| 0 <= k < file.len() implies file[k] != '/' by {
        if k < name.len() {
            assert(file[k] == name[k]);
        } else {
            let q = k - name.len();
            assert(file[k] == ".jar"@[q]);
            assert(q == 0 || q == 1 || q == 2 || q == 3);
        }
    }
    assert(file.len() >= 5);
    text_laws::law_file_name(dir, file);
    text_laws::law_ends(name, ".jar"@);
    text_laws::law_file_name(dir, other);
}

/// The index holds every JAR among the files, as it is and in order, and nothing
/// else.
pub proof fn law_every_jar_is_indexed(files: Seq<ScannedJar>, n: int, i: int)
    requires
        0 <= i < n <= files.len(),
    ensures
        is_jar(files[i].path@) ==> {
            let at = jars_below(files, i).len() as int;
            &&& at < jars_below(files, n).len()
            &&& jars_below(files, n)[at].path == files[i].path@
            &&& jars_below(files, n)[at].mod_ids == text::views(files[i].mod_ids@)
            &&& jars_below(files, n)[at].compatibility == files[i].compatibility.compatibility
        },
        jars_below(files, n).len() <= n,
    decreases n,
{
    if n > 1 {
        law_every_jar_is_indexed(
            files,
            n - 1,
            if i < n - 1 {
                i
            } else {
                0
            },
        );
    } else {
        assert(jars_below(files, 0).len() == 0);
    }
}

/// A mixin configuration is known by its name: it ends in `.mixins.json` or
/// `.mixins.json5`, or in `.json` with `mixin` in it.
pub proof fn law_mixin_configurations(a: Seq<char>, b: Seq<char>, other: Seq<char>)
    ensures
        is_mixin_config(a + ".mixins.json"@),
        is_mixin_config(a + ".mixins.json5"@),
        is_mixin_config(a + "mixin"@ + b + ".json"@),
        !text::contains(other, "mixin"@) && !text::ends_with(other, ".mixins.json"@)
            && !text::ends_with(other, ".mixins.json5"@) ==> !is_mixin_config(other),
        !text::ends_with(other, ".json"@) && !text::ends_with(other, ".mixins.json5"@)
            && !text::ends_with(other, ".mixins.json"@) ==> !is_mixin_config(other),
{
    text_laws::law_ends(a, ".mixins.json"@);
    text_laws::law_ends(a, ".mixins.json5"@);
    text_laws::law_ends(a + "mixin"@ + b, ".json"@);
    text_laws::law_contains_what_was_put_in(a, "mixin"@, b + ".json"@);
    assert(a + "mixin"@ + (b + ".json"@) =~= a + "mixin"@ + b + ".json"@);
}

/// A JAR's mixin configurations are listed by their file names, each that it holds
/// and no other.
pub proof fn law_every_mixin_configuration_is_listed(
    entries: Seq<String>,
    n: int,
    i: int,
    j: int,
)
    requires
        0 <= i < n <= entries.len(),
    ensures
        is_mixin_config(entries[i]@) ==> mixin_names(entries, n).contains(basename(entries[i]@)),
        0 <= j < mixin_names(entries, n).len() ==> exists|k: int|
            0 <= k < n && is_mixin_config((#[trigger] entries[k])@) && basename(entries[k]@)
                == mixin_names(entries, n)[j],
    decreases n,
{
    let prev = mixin_names(entries, n - 1);
    let now = mixin_names(entries, n);
    if n > 1 {
        law_every_mixin_configuration_is_listed(
            entries,
            n - 1,
            if i < n - 1 {
                i
            } else {
                0
            },
            j,
        );
    } else {
        assert(prev.len() == 0);
    }
    if is_mixin_config(entries[i]@) {
        if i < n - 1 {
            let k = choose|k: int| 0 <= k < prev.len() && prev[k] == basename(entries[i]@);
            assert(now[k] == basename(entries[i]@));
        } else {
            assert(now.last() == basename(entries[i]@));
        }
    }
    if 0 <= j < now.len() {
        if j < prev.len() {
            assert(now[j] == prev[j]);
        } else {
            assert(now[j] == basename(entries[n - 1]@));
        }
    }
}

/// The JARs that declare a mod ID are found, each once and in order.
pub proof fn law_every_owner_is_found(jars: Seq<JarView>, id: Seq<char>, n: int, i: int, j: int)
    requires
        0 <= i < n <= jars.len(),
    ensures
        (exists|m: int| 0 <= m < jars[i].mod_ids.len() && #[trigger] jars[i].mod_ids[m] == id)
            ==> owners_below(jars, id, n).contains(i),
        0 <= j < owners_below(jars, id, n).len() ==> 0 <= owners_below(jars, id, n)[j] < n
            && jars[owners_below(jars, id, n)[j]].mod_ids.contains(id),
        0 < j < owners_below(jars, id, n).len() ==> owners_below(jars, id, n)[j - 1]
            < owners_below(jars, id, n)[j],
    decreases n,
{
    let prev = owners_below(jars, id, n - 1);
    let now = owners_below(jars, id, n);
    if n > 1 {
        let i2 = if i < n - 1 {
            i
        } else {
            0
        };
        law_every_owner_is_found(jars, id, n - 1, i2, j);
        if prev.len() > 0 {
            law_every_owner_is_found(jars, id, n - 1, i2, prev.len() - 1);
        }
    } else {
        assert(prev.len() == 0);
    }
    if exists|m: int| 0 <= m < jars[i].mod_ids.len() && #[trigger] jars[i].mod_ids[m] == id {
        assert(jars[i].mod_ids.contains(id));
        if i < n - 1 {
            let k = choose|k: int| 0 <= k < prev.len() && prev[k] == i;
            assert(now[k] == i);
        } else {
            assert(now.last() == i);
        }
    }
    if 0 <= j < now.len() && j < prev.len() {
        assert(now[j] == prev[j]);
    }
}

/// The names of an archive's entries that can be opened are listed, all of them and
/// in order, and no others.
pub proof fn law_opened_entries_are_listed(names: Seq<Option<Seq<char>>>, n: int, i: int)
    requires
        0 <= i < n <= names.len(),
    ensures
        names[i] is Some ==> {
            let at = opened_below(names, i).len() as int;
            at < opened_below(names, n).len() && opened_below(names, n)[at] == names[i]->0
        },
        opened_below(names, n).len() <= n,
    decreases n,
{
    if n > 1 {
        law_opened_entries_are_listed(
            names,
            n - 1,
            if i < n - 1 {
                i
            } else {
                0
            },
        );
    } else {
        assert(opened_below(names, 0).len() == 0);
    }
}

} // verus!
