//! The file `server.properties`: lines `key=value`, and the settings that stand
//! in it while a build is tried out.
use vstd::prelude::*;

use crate::text;
use crate::text_laws;
use crate::text::{
    dec_string, find_char, from_chars, has_prefix, part, split_lines, str_eq, to_chars, trimmed,
};

verus! {

/// The key of a line `key=value`, trimmed.
pub open spec fn key_of(line: Seq<char>) -> Option<Seq<char>> {
    let e = text::stop_index(line, false, seq!['='], 0);
    if e < line.len() {
        Some(text::trim(line.subrange(0, e)))
    } else {
        None
    }
}

/// The value of a line `key=value`, trimmed.
pub open spec fn value_of(line: Seq<char>) -> Seq<char> {
    let e = text::stop_index(line, false, seq!['='], 0);
    text::trim(line.subrange(e + 1, line.len() as int))
}

/// Reads the key and the value of a line.
pub fn key_and_value(line: &[char]) -> (r: Option<(String, String)>)
    ensures
        r is Some <==> key_of(line@) is Some,
        r is Some ==> key_of(line@) == Some((r->0).0@) && value_of(line@) == (r->0).1@,
{
    let e = find_char(line, '=', 0);
    if e < line.len() {
        let key = from_chars(trimmed(part(line, 0, e)));
        let value = from_chars(trimmed(part(line, e + 1, line.len())));
        Some((key, value))
    } else {
        None
    }
}

/// The value of the first line from `i` on with this key.
pub open spec fn prop_from(lines: Seq<Seq<char>>, key: Seq<char>, i: int) -> Option<Seq<char>>
    decreases lines.len() - i,
{
    if i < 0 || i >= lines.len() {
        None
    } else if key_of(lines[i]) == Some(key) {
        Some(value_of(lines[i]))
    } else {
        prop_from(lines, key, i + 1)
    }
}

/// The value that a file gives to a key.
pub open spec fn prop(content: Seq<char>, key: Seq<char>) -> Option<Seq<char>> {
    prop_from(text::lines(content), key, 0)
}

/// The value that a file gives to a key.
pub fn extract_prop(content: &str, key: &str) -> (r: Option<String>)
    ensures
        text::opt_view(r) == prop(content@, key@),
{
    let chars = to_chars(content);
    let list = split_lines(&chars);
    let ghost l = text::lines(content@);
    assert(list@.len() == l.len());
    let mut i: usize = 0;
    while i < list.len()
        invariant
            i <= list.len(),
            list@.len() == l.len(),
            text::slices(list@) == l,
            l == text::lines(content@),
            prop(content@, key@) == prop_from(l, key@, i as int),
        decreases list.len() - i,
    {
        assert(text::slices(list@)[i as int] == list@[i as int]@);
        if let Some((k, v)) = key_and_value(list[i]) {
            if str_eq(k.as_str(), key) {
                return Some(v);
            }
        }
        i = i + 1;
    }
    None
}

// ---------------------------------------------------------------------
// The settings for a trial
// ---------------------------------------------------------------------

/// The value that a trial gives to a key: the server listens on this machine
/// alone, at a given port, with a world of its own, and without remote access.
pub open spec fn trial_value(key: Seq<char>, port: u16, world: Seq<char>) -> Option<Seq<char>> {
    if key == "server-ip"@ {
        Some("127.0.0.1"@)
    } else if key == "server-port"@ {
        Some(text::dec(port as nat))
    } else if key == "level-name"@ {
        Some(world)
    } else if key == "enable-rcon"@ {
        Some("false"@)
    } else if key == "enable-query"@ {
        Some("false"@)
    } else {
        None
    }
}

/// Whether a line is a comment or blank.
pub open spec fn is_remark(line: Seq<char>) -> bool {
    text::starts_with(line, "#"@) || text::trim(line).len() == 0
}

/// A line `key=value`.
pub open spec fn setting(key: Seq<char>, value: Seq<char>) -> Seq<char> {
    key + "="@ + value
}

/// What becomes of a line: comments, blank lines and other keys stay, the keys
/// of the trial get its values, and a line that is none of these goes.
pub open spec fn trial_line(line: Seq<char>, port: u16, world: Seq<char>) -> Option<Seq<char>> {
    if is_remark(line) {
        Some(line)
    } else {
        match key_of(line) {
            None => None,
            Some(key) => match trial_value(key, port, world) {
                Some(v) => Some(setting(key, v)),
                None => Some(line),
            },
        }
    }
}

/// What becomes of the first `n` lines.
pub open spec fn trial_lines(lines: Seq<Seq<char>>, port: u16, world: Seq<char>, n: int) -> Seq<
    Seq<char>,
>
    decreases n,
{
    if n <= 0 {
        seq![]
    } else {
        match trial_line(lines[n - 1], port, world) {
            Some(l) => trial_lines(lines, port, world, n - 1).push(l),
            None => trial_lines(lines, port, world, n - 1),
        }
    }
}

/// Whether one of the first `n` lines sets a key.
pub open spec fn sets_key(lines: Seq<Seq<char>>, key: Seq<char>, n: int) -> bool {
    exists|i: int| 0 <= i < n && !is_remark(#[trigger] lines[i]) && key_of(lines[i]) == Some(key)
}

/// A line for a key of the trial, if the file does not set it.
pub open spec fn missing_line(
    lines: Seq<Seq<char>>,
    key: Seq<char>,
    port: u16,
    world: Seq<char>,
) -> Seq<Seq<char>> {
    if sets_key(lines, key, lines.len() as int) {
        seq![]
    } else {
        seq![setting(key, trial_value(key, port, world)->0)]
    }
}

/// The lines of the file for a trial: those of the file, and the keys of the
/// trial that it lacks.
pub open spec fn trial_file(lines: Seq<Seq<char>>, port: u16, world: Seq<char>) -> Seq<Seq<char>> {
    trial_lines(lines, port, world, lines.len() as int) + missing_line(
        lines,
        "server-ip"@,
        port,
        world,
    ) + missing_line(lines, "server-port"@, port, world) + missing_line(
        lines,
        "level-name"@,
        port,
        world,
    ) + missing_line(lines, "enable-rcon"@, port, world) + missing_line(
        lines,
        "enable-query"@,
        port,
        world,
    )
}

/// Lines as a text, each ended by a line feed.
pub open spec fn as_text(lines: Seq<Seq<char>>) -> Seq<char>
    decreases lines.len(),
{
    if lines.len() == 0 {
        seq![]
    } else {
        as_text(lines.drop_last()) + lines.last() + seq!['\n']
    }
}

/// The content of the file for a trial; a file that is not there is empty.
pub open spec fn trial_content(existing: Seq<char>, port: u16, world: Seq<char>) -> Seq<char> {
    as_text(trial_file(text::lines(existing), port, world))
}

/// The value that a trial gives to a key.
fn trial_value_of(key: &str, port: u16, world: &str) -> (r: Option<String>)
    ensures
        text::opt_view(r) == trial_value(key@, port, world@),
{
    if str_eq(key, "server-ip") {
        Some("127.0.0.1".to_string())
    } else if str_eq(key, "server-port") {
        Some(dec_string(port as u64))
    } else if str_eq(key, "level-name") {
        Some(world.to_string())
    } else if str_eq(key, "enable-rcon") {
        Some("false".to_string())
    } else if str_eq(key, "enable-query") {
        Some("false".to_string())
    } else {
        None
    }
}

fn setting_of(key: &str, value: &str) -> (r: String)
    ensures
        r@ == setting(key@, value@),
{
    let mut s = key.to_string();
    s.append("=");
    s.append(value);
    s
}

/// What becomes of a line.
fn trial_line_of(line: &[char], port: u16, world: &str) -> (r: Option<String>)
    ensures
        text::opt_view(r) == trial_line(line@, port, world@),
{
    if has_prefix(line, "#") || trimmed(line).len() == 0 {
        return Some(from_chars(line));
    }
    match key_and_value(line) {
        None => None,
        Some((key, _value)) => match trial_value_of(key.as_str(), port, world) {
            Some(v) => Some(setting_of(key.as_str(), v.as_str())),
            None => Some(from_chars(line)),
        },
    }
}

/// Whether a line of the file sets a key.
fn sets(list: &Vec<&[char]>, key: &str) -> (r: bool)
    ensures
        r == sets_key(text::slices(list@), key@, text::slices(list@).len() as int),
{
    let ghost l = text::slices(list@);
    let mut i: usize = 0;
    while i < list.len()
        invariant
            i <= list.len(),
            l == text::slices(list@),
            forall|k: int|
                0 <= k < i ==> !(!is_remark(#[trigger] l[k]) && key_of(l[k]) == Some(key@)),
        decreases list.len() - i,
    {
        let line = list[i];
        assert(l[i as int] == line@);
        if !has_prefix(line, "#") && trimmed(line).len() > 0 {
            if let Some((k, _v)) = key_and_value(line) {
                if str_eq(k.as_str(), key) {
                    return true;
                }
            }
        }
        i = i + 1;
    }
    assert(l.len() == list@.len());
    false
}

/// Adds a line to a text.
fn add_line(out: &mut String, line: &str, Ghost(before): Ghost<Seq<Seq<char>>>)
    requires
        old(out)@ == as_text(before),
    ensures
        final(out)@ == as_text(before.push(line@)),
{
    out.append(line);
    out.push('\n');
    proof {
        assert(before.push(line@).drop_last() =~= before);
        assert(out@ =~= as_text(before) + line@ + seq!['\n']);
    }
}

/// Adds the line for a key of the trial, if the file does not set it.
fn add_missing(
    out: &mut String,
    list: &Vec<&[char]>,
    key: &str,
    port: u16,
    world: &str,
    Ghost(before): Ghost<Seq<Seq<char>>>,
)
    requires
        old(out)@ == as_text(before),
        trial_value(key@, port, world@) is Some,
    ensures
        final(out)@ == as_text(
            before + missing_line(text::slices(list@), key@, port, world@),
        ),
{
    if !sets(list, key) {
        match trial_value_of(key, port, world) {
            Some(v) => {
                let line = setting_of(key, v.as_str());
                add_line(out, line.as_str(), Ghost(before));
                assert(before.push(line@) =~= before + seq![line@]);
            },
            None => {},
        }
    } else {
        assert(before + Seq::<Seq<char>>::empty() =~= before);
    }
}

/// The content of the file for a trial, made from what it holds.
pub fn validation_properties(existing: &str, port: u16, validation_world: &str) -> (r: String)
    ensures
        r@ == trial_content(existing@, port, validation_world@),
{
    let chars = to_chars(existing);
    let list = split_lines(&chars);
    let ghost l = text::lines(existing@);
    let ghost world = validation_world@;
    assert(list@.len() == l.len());
    let mut out = String::new();
    let ghost mut done: Seq<Seq<char>> = seq![];
    let mut i: usize = 0;
    while i < list.len()
        invariant
            i <= list.len(),
            list@.len() == l.len(),
            text::slices(list@) == l,
            world == validation_world@,
            done == trial_lines(l, port, world, i as int),
            out@ == as_text(done),
        decreases list.len() - i,
    {
        assert(text::slices(list@)[i as int] == list@[i as int]@);
        if let Some(line) = trial_line_of(list[i], port, validation_world) {
            add_line(&mut out, line.as_str(), Ghost(done));
            proof {
                done = done.push(line@);
            }
        }
        i = i + 1;
    }
    let ghost d1 = done + missing_line(l, "server-ip"@, port, world);
    let ghost d2 = d1 + missing_line(l, "server-port"@, port, world);
    let ghost d3 = d2 + missing_line(l, "level-name"@, port, world);
    let ghost d4 = d3 + missing_line(l, "enable-rcon"@, port, world);
    add_missing(&mut out, &list, "server-ip", port, validation_world, Ghost(done));
    add_missing(&mut out, &list, "server-port", port, validation_world, Ghost(d1));
    add_missing(&mut out, &list, "level-name", port, validation_world, Ghost(d2));
    add_missing(&mut out, &list, "enable-rcon", port, validation_world, Ghost(d3));
    add_missing(&mut out, &list, "enable-query", port, validation_world, Ghost(d4));
    out
}

// ---------------------------------------------------------------------
// Keeping the original
// ---------------------------------------------------------------------

/// The two files that a trial touches: `server.properties`, and the copy that
/// is kept of it. A file that is not there is `None`.
#[derive(Debug, Clone)]
pub struct PropertiesFiles {
    pub properties: Option<String>,
    pub original: Option<String>,
}

/// What the files hold.
pub struct FilesView {
    pub properties: Option<Seq<char>>,
    pub original: Option<Seq<char>>,
}

impl View for PropertiesFiles {
    type V = FilesView;

    open spec fn view(&self) -> FilesView {
        FilesView {
            properties: text::opt_view(self.properties),
            original: text::opt_view(self.original),
        }
    }
}

/// The files with the settings of a trial, and nothing kept.
pub open spec fn overlaid(f: FilesView, port: u16, world: Seq<char>) -> FilesView {
    FilesView {
        properties: Some(
            trial_content(
                match f.properties {
                    Some(c) => c,
                    None => seq![],
                },
                port,
                world,
            ),
        ),
        original: f.original,
    }
}

/// The files with the settings of a trial, and a copy of what was there.
pub open spec fn overlaid_with_backup(f: FilesView, port: u16, world: Seq<char>) -> FilesView {
    FilesView {
        original: if f.properties is Some {
            f.properties
        } else {
            f.original
        },
        ..overlaid(f, port, world)
    }
}

/// The files after the trial: the copy goes back to its place, and where none
/// was kept, the file goes.
pub open spec fn restored(f: FilesView) -> FilesView {
    FilesView { properties: f.original, original: None }
}

/// Puts the settings of a trial into the file.
pub fn write_validation_properties(
    files: &mut PropertiesFiles,
    port: u16,
    validation_world: &str,
)
    ensures
        final(files)@ == overlaid(old(files)@, port, validation_world@),
{
    let content = match &files.properties {
        Some(c) => validation_properties(c.as_str(), port, validation_world),
        None => {
            let empty = String::new();
            validation_properties(empty.as_str(), port, validation_world)
        },
    };
    files.properties = Some(content);
}

/// Keeps a copy of the file, and puts the settings of a trial into it.
pub fn write_validation_properties_with_backup(
    files: &mut PropertiesFiles,
    port: u16,
    validation_world: &str,
)
    ensures
        final(files)@ == overlaid_with_backup(old(files)@, port, validation_world@),
{
    if files.properties.is_some() {
        files.original = files.properties.clone();
    }
    write_validation_properties(files, port, validation_world);
}

/// Puts the file back as it was.
pub fn restore_server_properties(files: &mut PropertiesFiles)
    ensures
        final(files)@ == restored(old(files)@),
{
    files.properties = files.original.take();
}

/// Restoring after a trial gives back exactly what was there, also where
/// nothing was, and leaves no copy behind.
pub proof fn law_restore_undoes_the_trial(f: FilesView, port: u16, world: Seq<char>)
    requires
        f.original is None,
    ensures
        restored(overlaid_with_backup(f, port, world)) == f,
{
}

// ---------------------------------------------------------------------
// What the file for a trial says
// ---------------------------------------------------------------------

proof fn lemma_stop_skips(s: Seq<char>, c: char, i: int, e: int)
    requires
        0 <= i <= e <= s.len(),
        forall|k: int| i <= k < e ==> s[k] != c,
        e < s.len() ==> s[e] == c,
    ensures
        text::stop_index(s, false, seq![c], i) == e,
{
    text_laws::lemma_stop_skips(s, c, i, e);
}

/// Lines from a position on depend on the rest of the text alone.
proof fn lemma_lines_shift(a: Seq<char>, b: Seq<char>, i: int)
    requires
        0 <= i <= b.len(),
    ensures
        text::lines_from(a + b, a.len() + i) == text::lines_from(b, i),
{
    text_laws::lemma_lines_shift(a, b, i);
}

proof fn lemma_stop_bounds(s: Seq<char>, c: char, i: int)
    requires
        0 <= i <= s.len(),
    ensures
        i <= text::stop_index(s, false, seq![c], i) <= s.len(),
        text::stop_index(s, false, seq![c], i) < s.len() ==> s[text::stop_index(
            s,
            false,
            seq![c],
            i,
        )] == c,
        forall|k: int| i <= k < text::stop_index(s, false, seq![c], i) ==> s[k] != c,
{
    text_laws::lemma_stop_bounds(s, c, i);
}

proof fn lemma_stop_shift(a: Seq<char>, b: Seq<char>, c: char, i: int)
    requires
        0 <= i <= b.len(),
    ensures
        text::stop_index(a + b, false, seq![c], a.len() + i) == a.len() + text::stop_index(
            b,
            false,
            seq![c],
            i,
        ),
{
    text_laws::lemma_stop_shift(a, b, c, i);
}

/// A text that starts with a line has that line and those of the rest.
proof fn lemma_first_line(line: Seq<char>, rest: Seq<char>)
    requires
        forall|k: int| 0 <= k < line.len() ==> line[k] != '\n',
    ensures
        text::lines(line + seq!['\n'] + rest) == seq![text::strip_cr(line)] + text::lines(rest),
{
    text_laws::lemma_first_line(line, rest);
}

/// No line of a text holds a line feed.
proof fn lemma_lines_have_no_feed(s: Seq<char>, i: int)
    requires
        0 <= i <= s.len(),
    ensures
        forall|n: int, k: int|
            0 <= n < text::lines_from(s, i).len() && 0 <= k < text::lines_from(s, i)[n].len()
                ==> text::lines_from(s, i)[n][k] != '\n',
{
    text_laws::lemma_lines_have_no_feed(s, i);
}

proof fn lemma_trim_plain(s: Seq<char>)
    requires
        s.len() > 0,
        !text::is_ws(s[0]),
        !text::is_ws(s.last()),
    ensures
        text::trim(s) == s,
{
    text_laws::lemma_trim_plain(s);
}

proof fn lemma_skip_bounds(s: Seq<char>, i: int)
    requires
        0 <= i <= s.len(),
    ensures
        i <= text::skip(s, true, ' ', i) <= s.len(),
{
    text_laws::lemma_skip_bounds(s, i);
}

proof fn lemma_back_bounds(s: Seq<char>, lo: int, hi: int)
    requires
        0 <= lo <= hi <= s.len(),
    ensures
        lo <= text::back(s, true, ' ', lo, hi) <= hi,
        lo < text::back(s, true, ' ', lo, hi) ==> !text::is_ws(
            s[text::back(s, true, ' ', lo, hi) - 1],
        ),
{
    text_laws::lemma_back_bounds(s, lo, hi);
}

/// The text of lines, read again, gives those lines, each without a carriage
/// return at its end.
pub proof fn lemma_lines_of_text(ls: Seq<Seq<char>>)
    requires
        forall|i: int, k: int| 0 <= i < ls.len() && 0 <= k < ls[i].len() ==> ls[i][k] != '\n',
    ensures
        text::lines(as_text(ls)) == ls.map_values(|l: Seq<char>| text::strip_cr(l)),
{
    lemma_lines_of_rest(ls, 0);
    assert(as_text_from(ls, 0) == as_text(ls)) by {
        lemma_as_text_from(ls, 0);
        assert(ls.take(0) =~= seq![]);
        assert(as_text(ls.take(0)) + as_text_from(ls, 0) =~= as_text_from(ls, 0));
    }
    assert(ls.skip(0) =~= ls);
}

/// The text of the lines from `i` on.
spec fn as_text_from(ls: Seq<Seq<char>>, i: int) -> Seq<char>
    decreases ls.len() - i,
{
    if i < 0 || i >= ls.len() {
        seq![]
    } else {
        ls[i] + seq!['\n'] + as_text_from(ls, i + 1)
    }
}

proof fn lemma_as_text_from(ls: Seq<Seq<char>>, i: int)
    requires
        0 <= i <= ls.len(),
    ensures
        as_text(ls) == as_text(ls.take(i)) + as_text_from(ls, i),
    decreases ls.len() - i,
{
    if i < ls.len() {
        lemma_as_text_from(ls, i + 1);
        assert(ls.take(i + 1).drop_last() =~= ls.take(i));
        assert(ls.take(i + 1).last() == ls[i]);
        assert(as_text(ls.take(i)) + ls[i] + seq!['\n'] + as_text_from(ls, i + 1) =~= as_text(
            ls.take(i),
        ) + (ls[i] + seq!['\n'] + as_text_from(ls, i + 1)));
    } else {
        assert(ls.take(i) =~= ls);
        assert(as_text(ls) + Seq::<char>::empty() =~= as_text(ls));
    }
}

proof fn lemma_lines_of_rest(ls: Seq<Seq<char>>, i: int)
    requires
        0 <= i <= ls.len(),
        forall|i: int, k: int| 0 <= i < ls.len() && 0 <= k < ls[i].len() ==> ls[i][k] != '\n',
    ensures
        text::lines(as_text_from(ls, i)) == ls.skip(i).map_values(
            |l: Seq<char>| text::strip_cr(l),
        ),
    decreases ls.len() - i,
{
    let f = |l: Seq<char>| text::strip_cr(l);
    if i < ls.len() {
        lemma_lines_of_rest(ls, i + 1);
        lemma_first_line(ls[i], as_text_from(ls, i + 1));
        assert(ls.skip(i).map_values(f) =~= seq![text::strip_cr(ls[i])] + ls.skip(i + 1).map_values(
            f,
        ));
    } else {
        assert(ls.skip(i).map_values(f) =~= seq![]);
    }
}

/// A key of the trial holds no sign that would end it.
spec fn plain_key(key: Seq<char>) -> bool {
    &&& key.len() > 0
    &&& forall|k: int|
        0 <= k < key.len() ==> key[k] != '=' && key[k] != '\n' && key[k] != '\r' && !text::is_ws(
            key[k],
        )
}

/// A value that stands as it is: trimmed, and on one line.
pub open spec fn plain_value(v: Seq<char>) -> bool {
    &&& text::trim(v) == v
    &&& forall|k: int| 0 <= k < v.len() ==> v[k] != '\n'
}

/// A trimmed text does not end in white space.
proof fn lemma_trimmed_end(v: Seq<char>)
    requires
        text::trim(v) == v,
        v.len() > 0,
    ensures
        !text::is_ws(v.last()),
{
    let a = text::skip(v, true, ' ', 0);
    lemma_skip_bounds(v, 0);
    lemma_back_bounds(v, a, v.len() as int);
    let b = text::back(v, true, ' ', a, v.len() as int);
    assert(v.subrange(a, b).len() == v.len());
}

/// A setting is read as it was written.
proof fn lemma_setting(key: Seq<char>, v: Seq<char>)
    requires
        plain_key(key),
        plain_value(v),
    ensures
        key_of(setting(key, v)) == Some(key),
        value_of(setting(key, v)) == v,
        text::strip_cr(setting(key, v)) == setting(key, v),
        forall|k: int| 0 <= k < setting(key, v).len() ==> setting(key, v)[k] != '\n',
{
    reveal_strlit("=");
    let s = setting(key, v);
    let e = key.len() as int;
    assert(s[e] == '=');
    assert forall|k: int| 0 <= k < e implies s[k] != '=' by {
        assert(s[k] == key[k]);
    }
    lemma_stop_skips(s, '=', 0, e);
    assert(s.subrange(0, e) =~= key);
    assert(s.subrange(e + 1, s.len() as int) =~= v);
    lemma_trim_plain(key);
    assert forall|k: int| 0 <= k < s.len() implies s[k] != '\n' by {
        if k < e {
            assert(s[k] == key[k]);
        } else if k > e {
            assert(s[k] == v[k - e - 1]);
        }
    }
    if v.len() > 0 {
        lemma_trimmed_end(v);
        assert(s.last() == v.last());
    } else {
        assert(s.last() == '=');
    }
}

/// The keys and values of the trial can stand in the file.
proof fn lemma_trial_setting(key: Seq<char>, port: u16, world: Seq<char>)
    requires
        trial_value(key, port, world) is Some,
        plain_value(world),
    ensures
        plain_key(key),
        plain_value(trial_value(key, port, world)->0),
{
    reveal_strlit("server-ip");
    reveal_strlit("server-port");
    reveal_strlit("level-name");
    reveal_strlit("enable-rcon");
    reveal_strlit("enable-query");
    reveal_strlit("127.0.0.1");
    reveal_strlit("false");
    lemma_dec_digits(port as nat);
    let v = trial_value(key, port, world)->0;
    if key != "level-name"@ {
        lemma_trim_plain(v);
    }
}

proof fn lemma_dec_digits(n: nat)
    ensures
        text::dec(n).len() > 0,
        forall|k: int| 0 <= k < text::dec(n).len() ==> '0' <= #[trigger] text::dec(n)[k] <= '9',
    decreases n,
{
    if n >= 10 {
        lemma_dec_digits(n / 10);
    }
}

/// What a line of the file for a trial says about a key of the trial.
spec fn agrees(line: Seq<char>, key: Seq<char>, v: Seq<char>) -> bool {
    key_of(line) == Some(key) ==> value_of(line) == v
}

/// A comment or a blank line sets no key of the trial, with or without a
/// carriage return at its end.
proof fn lemma_remark_sets_nothing(line: Seq<char>, key: Seq<char>)
    requires
        is_remark(line),
        plain_key(key),
        key[0] != '#',
    ensures
        key_of(line) != Some(key),
{
    reveal_strlit("#");
    if key_of(line) is Some {
        lemma_stop_bounds(line, '=', 0);
        let e = text::stop_index(line, false, seq!['='], 0);
        let raw = line.subrange(0, e);
        if text::starts_with(line, "#"@) {
            assert(line.subrange(0, 1)[0] == '#');
            if e > 0 {
                assert(raw[0] == '#');
                assert(text::skip(raw, true, ' ', 0) == 0);
                lemma_back_bounds(raw, 0, raw.len() as int);
                let t = text::trim(raw);
                assert(t.len() > 0 ==> t[0] == '#');
            } else {
                assert(line[0] == '=');
            }
        } else {
            lemma_blank(line, 0);
            assert(text::is_ws(line[e]));
        }
    }
}

/// A text whose trimmed form is empty is white space throughout.
proof fn lemma_blank(s: Seq<char>, i: int)
    requires
        text::trim(s).len() == 0,
        0 <= i <= s.len(),
        text::skip(s, true, ' ', 0) == text::skip(s, true, ' ', i),
    ensures
        forall|k: int| i <= k < s.len() ==> text::is_ws(s[k]),
    decreases s.len() - i,
{
    if i < s.len() {
        if text::is_ws(s[i]) {
            lemma_blank(s, i + 1);
        } else {
            lemma_back_bounds(s, i, s.len() as int);
            lemma_back_keeps(s, i, s.len() as int);
        }
    }
}

/// A character that is not white space stays.
proof fn lemma_back_keeps(s: Seq<char>, lo: int, hi: int)
    requires
        0 <= lo < hi <= s.len(),
        !text::is_ws(s[lo]),
    ensures
        text::back(s, true, ' ', lo, hi) > lo,
    decreases hi - lo,
{
    if text::trims(true, ' ', s[hi - 1]) {
        lemma_back_keeps(s, lo, hi - 1);
    }
}

/// A carriage return at the end of a line changes no key.
proof fn lemma_key_without_cr(line: Seq<char>)
    ensures
        key_of(text::strip_cr(line)) == key_of(line),
{
    if line.len() > 0 && line.last() == '\r' {
        let s = text::strip_cr(line);
        lemma_stop_bounds(line, '=', 0);
        let e = text::stop_index(line, false, seq!['='], 0);
        if e < line.len() {
            assert(line[e] == '=');
            assert(e < s.len());
            assert forall|k: int| 0 <= k < e implies s[k] != '=' by {
                assert(s[k] == line[k]);
            }
            lemma_stop_skips(s, '=', 0, e);
            assert(s.subrange(0, e) =~= line.subrange(0, e));
        } else {
            lemma_stop_skips(s, '=', 0, s.len() as int);
        }
    }
}

/// What each line of the file for a trial says about a key of the trial.
proof fn lemma_trial_lines_agree(
    lines: Seq<Seq<char>>,
    port: u16,
    world: Seq<char>,
    n: int,
    key: Seq<char>,
)
    requires
        0 <= n <= lines.len(),
        plain_value(world),
        trial_value(key, port, world) is Some,
        forall|i: int, k: int|
            0 <= i < lines.len() && 0 <= k < lines[i].len() ==> lines[i][k] != '\n',
    ensures
        forall|i: int|
            0 <= i < trial_lines(lines, port, world, n).len() ==> agrees(
                text::strip_cr(#[trigger] trial_lines(lines, port, world, n)[i]),
                key,
                trial_value(key, port, world)->0,
            ),
        forall|i: int, k: int|
            0 <= i < trial_lines(lines, port, world, n).len() && 0 <= k < trial_lines(
                lines,
                port,
                world,
                n,
            )[i].len() ==> trial_lines(lines, port, world, n)[i][k] != '\n',
        sets_key(lines, key, n) ==> exists|i: int|
            0 <= i < trial_lines(lines, port, world, n).len() && key_of(
                text::strip_cr(#[trigger] trial_lines(lines, port, world, n)[i]),
            ) == Some(key),
    decreases n,
{
    let v = trial_value(key, port, world)->0;
    if n > 0 {
        lemma_trial_lines_agree(lines, port, world, n - 1, key);
        let prev = trial_lines(lines, port, world, n - 1);
        let now = trial_lines(lines, port, world, n);
        let line = lines[n - 1];
        lemma_trial_setting(key, port, world);
        assert(key[0] != '#') by {
            reveal_strlit("server-ip");
            reveal_strlit("server-port");
            reveal_strlit("level-name");
            reveal_strlit("enable-rcon");
            reveal_strlit("enable-query");
        }
        lemma_key_without_cr(line);
        if is_remark(line) {
            lemma_remark_sets_nothing(line, key);
        } else if key_of(line) is Some {
            let k = key_of(line)->0;
            if trial_value(k, port, world) is Some {
                lemma_trial_setting(k, port, world);
                lemma_setting(k, trial_value(k, port, world)->0);
            }
        }
        if sets_key(lines, key, n) {
            let i = choose|i: int|
                0 <= i < n && !is_remark(#[trigger] lines[i]) && key_of(lines[i]) == Some(key);
            if i < n - 1 {
                assert(sets_key(lines, key, n - 1));
                let j = choose|j: int|
                    0 <= j < prev.len() && key_of(text::strip_cr(#[trigger] prev[j])) == Some(key);
                assert(now[j] == prev[j]);
            } else {
                assert(now.last() == setting(key, v));
                assert(now[prev.len() as int] == setting(key, v));
            }
        }
    }
}

/// The first line that sets a key gives the value on which all such lines
/// agree.
proof fn lemma_prop_agrees(ls: Seq<Seq<char>>, key: Seq<char>, v: Seq<char>, i: int)
    requires
        0 <= i <= ls.len(),
        forall|k: int| i <= k < ls.len() ==> agrees(#[trigger] ls[k], key, v),
        exists|k: int| i <= k < ls.len() && key_of(#[trigger] ls[k]) == Some(key),
    ensures
        prop_from(ls, key, i) == Some(v),
    decreases ls.len() - i,
{
    if key_of(ls[i]) != Some(key) {
        lemma_prop_agrees(ls, key, v, i + 1);
    } else {
        assert(agrees(ls[i], key, v));
    }
}

/// Whatever the file held, during a trial the server listens on 127.0.0.1 at
/// the given port, uses the given world, and has neither remote console nor
/// query: each of these keys reads as the trial wants it.
pub proof fn law_trial_settings_hold(existing: Seq<char>, port: u16, world: Seq<char>, key: Seq<char>)
    requires
        plain_value(world),
        trial_value(key, port, world) is Some,
    ensures
        prop(trial_content(existing, port, world), key) == trial_value(key, port, world),
{
    let l = text::lines(existing);
    let v = trial_value(key, port, world)->0;
    lemma_lines_have_no_feed(existing, 0);
    lemma_trial_lines_agree(l, port, world, l.len() as int, key);
    lemma_trial_setting(key, port, world);
    let base = trial_lines(l, port, world, l.len() as int);
    let m1 = missing_line(l, "server-ip"@, port, world);
    let m2 = missing_line(l, "server-port"@, port, world);
    let m3 = missing_line(l, "level-name"@, port, world);
    let m4 = missing_line(l, "enable-rcon"@, port, world);
    let m5 = missing_line(l, "enable-query"@, port, world);
    lemma_missing(l, "server-ip"@, port, world, key);
    lemma_missing(l, "server-port"@, port, world, key);
    lemma_missing(l, "level-name"@, port, world, key);
    lemma_missing(l, "enable-rcon"@, port, world, key);
    lemma_missing(l, "enable-query"@, port, world, key);
    let f1 = base + m1;
    let f2 = f1 + m2;
    let f3 = f2 + m3;
    let f4 = f3 + m4;
    let f5 = f4 + m5;
    assert(f5 == trial_file(l, port, world));
    lemma_good_concat(base, m1, key, v);
    lemma_good_concat(f1, m2, key, v);
    lemma_good_concat(f2, m3, key, v);
    lemma_good_concat(f3, m4, key, v);
    lemma_good_concat(f4, m5, key, v);
    lemma_lines_of_text(f5);
    let g = |l: Seq<char>| text::strip_cr(l);
    let read = f5.map_values(g);
    assert forall|k: int| 0 <= k < read.len() implies agrees(#[trigger] read[k], key, v) by {
        assert(read[k] == text::strip_cr(f5[k]));
    }
    assert(exists|k: int| 0 <= k < read.len() && key_of(#[trigger] read[k]) == Some(key)) by {
        assert(says(f5, key));
        let k = choose|k: int|
            0 <= k < f5.len() && key_of(text::strip_cr(#[trigger] f5[k])) == Some(key);
        assert(read[k] == text::strip_cr(f5[k]));
    }
    lemma_prop_agrees(read, key, v, 0);
}

/// All lines agree on a key, and none holds a line feed.
spec fn good(ls: Seq<Seq<char>>, key: Seq<char>, v: Seq<char>) -> bool {
    &&& forall|i: int| 0 <= i < ls.len() ==> agrees(text::strip_cr(#[trigger] ls[i]), key, v)
    &&& forall|i: int, k: int| 0 <= i < ls.len() && 0 <= k < ls[i].len() ==> ls[i][k] != '\n'
}

/// Some line sets a key.
spec fn says(ls: Seq<Seq<char>>, key: Seq<char>) -> bool {
    exists|i: int| 0 <= i < ls.len() && key_of(text::strip_cr(#[trigger] ls[i])) == Some(key)
}

proof fn lemma_good_concat(a: Seq<Seq<char>>, b: Seq<Seq<char>>, key: Seq<char>, v: Seq<char>)
    requires
        good(a, key, v),
        good(b, key, v),
    ensures
        good(a + b, key, v),
        says(a, key) || says(b, key) ==> says(a + b, key),
{
    let c = a + b;
    assert forall|i: int| 0 <= i < c.len() implies agrees(
        text::strip_cr(#[trigger] c[i]),
        key,
        v,
    ) by {
        if i < a.len() {
            assert(c[i] == a[i]);
        } else {
            assert(c[i] == b[i - a.len()]);
        }
    }
    assert forall|i: int, k: int| 0 <= i < c.len() && 0 <= k < c[i].len() implies c[i][k]
        != '\n' by {
        if i < a.len() {
            assert(c[i] == a[i]);
        } else {
            assert(c[i] == b[i - a.len()]);
        }
    }
    if says(a, key) {
        let i = choose|i: int|
            0 <= i < a.len() && key_of(text::strip_cr(#[trigger] a[i])) == Some(key);
        assert(c[i] == a[i]);
    }
    if says(b, key) {
        let i = choose|i: int|
            0 <= i < b.len() && key_of(text::strip_cr(#[trigger] b[i])) == Some(key);
        assert(c[a.len() + i] == b[i]);
    }
}

proof fn lemma_missing(
    lines: Seq<Seq<char>>,
    k: Seq<char>,
    port: u16,
    world: Seq<char>,
    key: Seq<char>,
)
    requires
        plain_value(world),
        trial_value(k, port, world) is Some,
        trial_value(key, port, world) is Some,
    ensures
        good(missing_line(lines, k, port, world), key, trial_value(key, port, world)->0),
        k == key && !sets_key(lines, key, lines.len() as int) ==> says(
            missing_line(lines, k, port, world),
            key,
        ),
{
    lemma_trial_setting(k, port, world);
    lemma_setting(k, trial_value(k, port, world)->0);
    let m = missing_line(lines, k, port, world);
    if m.len() > 0 {
        assert(m[0] == setting(k, trial_value(k, port, world)->0));
    }
}

proof fn lemma_other_lines_stay(
    lines: Seq<Seq<char>>,
    port: u16,
    world: Seq<char>,
    n: int,
    i: int,
)
    requires
        0 <= i < n <= lines.len(),
        trial_line(lines[i], port, world) == Some(lines[i]),
    ensures
        trial_lines(lines, port, world, n).contains(lines[i]),
    decreases n,
{
    let now = trial_lines(lines, port, world, n);
    if i == n - 1 {
        assert(now.last() == lines[i]);
    } else {
        lemma_other_lines_stay(lines, port, world, n - 1, i);
        let prev = trial_lines(lines, port, world, n - 1);
        let k = choose|k: int| 0 <= k < prev.len() && prev[k] == lines[i];
        assert(now[k] == lines[i]);
    }
}

/// A line that sets another key, a comment or a blank line is in the file for a
/// trial as it was.
pub proof fn law_other_lines_stay(lines: Seq<Seq<char>>, port: u16, world: Seq<char>, i: int)
    requires
        0 <= i < lines.len(),
        is_remark(lines[i]) || (key_of(lines[i]) is Some && trial_value(
            key_of(lines[i])->0,
            port,
            world,
        ) is None),
    ensures
        trial_file(lines, port, world).contains(lines[i]),
{
    lemma_other_lines_stay(lines, port, world, lines.len() as int, i);
    let base = trial_lines(lines, port, world, lines.len() as int);
    let k = choose|k: int| 0 <= k < base.len() && base[k] == lines[i];
    assert(trial_file(lines, port, world)[k] == lines[i]);
}

/// A line `key=value` gives the value to the key, whatever blanks stand around
/// them; the value may hold more equals signs.
pub proof fn law_setting_is_read(
    l: Seq<char>,
    key: Seq<char>,
    r: Seq<char>,
    l2: Seq<char>,
    value: Seq<char>,
    r2: Seq<char>,
)
    requires
        text_laws::is_blank(l),
        text_laws::is_blank(r),
        text_laws::is_blank(l2),
        text_laws::is_blank(r2),
        text_laws::is_core(key),
        forall|k: int| 0 <= k < key.len() ==> key[k] != '=',
        value.len() == 0 || text_laws::is_core(value),
    ensures
        key_of(l + key + r + seq!['='] + l2 + value + r2) == Some(key),
        value_of(l + key + r + seq!['='] + l2 + value + r2) == value,
{
    let a = l + key + r;
    let b = l2 + value + r2;
    let s = l + key + r + seq!['='] + l2 + value + r2;
    assert(s =~= a + seq!['='] + b);
    let e = a.len() as int;
    assert(s[e] == '=');
    assert forall|k: int| 0 <= k < e implies s[k] != '=' by {
        if k < l.len() {
            assert(s[k] == l[k]);
            assert(text::is_ws(l[k]));
        } else if k < l.len() + key.len() {
            assert(s[k] == key[k - l.len()]);
        } else {
            assert(s[k] == r[k - l.len() - key.len()]);
            assert(text::is_ws(r[k - l.len() - key.len()]));
        }
    }
    text_laws::lemma_stop_skips(s, '=', 0, e);
    assert(s.subrange(0, e) =~= a);
    assert(s.subrange(e + 1, s.len() as int) =~= b);
    text_laws::law_trim(l, key, r);
    text_laws::law_trim(l2, value, r2);
}

/// The first line that sets a key is the one that counts; a key that no line sets
/// has no value.
pub proof fn law_first_setting_counts(content: Seq<char>, key: Seq<char>, k: int)
    ensures
        0 <= k < text::lines(content).len() && key_of(text::lines(content)[k]) == Some(key) && (
        forall|n: int| 0 <= n < k ==> key_of(#[trigger] text::lines(content)[n]) != Some(key))
            ==> prop(content, key) == Some(value_of(text::lines(content)[k])),
        (forall|n: int|
            0 <= n < text::lines(content).len() ==> key_of(#[trigger] text::lines(content)[n])
                != Some(key)) ==> prop(content, key) is None,
{
    let ls = text::lines(content);
    if 0 <= k < ls.len() && key_of(ls[k]) == Some(key) && (forall|n: int|
        0 <= n < k ==> key_of(#[trigger] ls[n]) != Some(key)) {
        lemma_prop_at(ls, key, 0, k);
    }
    if forall|n: int| 0 <= n < ls.len() ==> key_of(#[trigger] ls[n]) != Some(key) {
        lemma_prop_at(ls, key, 0, ls.len() as int);
    }
}

proof fn lemma_prop_at(ls: Seq<Seq<char>>, key: Seq<char>, i: int, k: int)
    requires
        0 <= i <= k <= ls.len(),
        forall|n: int| i <= n < k ==> key_of(#[trigger] ls[n]) != Some(key),
        k < ls.len() ==> key_of(ls[k]) == Some(key),
    ensures
        k < ls.len() ==> prop_from(ls, key, i) == Some(value_of(ls[k])),
        k == ls.len() ==> prop_from(ls, key, i) is None,
    decreases k - i,
{
    if i < k {
        lemma_prop_at(ls, key, i + 1, k);
    }
}

/// During a trial the server is to be reached from this machine alone, at the
/// trial's own port, with the trial's own world, and not by remote console or
/// query. No other key is touched.
pub proof fn law_trial_values(key: Seq<char>, port: u16, world: Seq<char>)
    ensures
        trial_value("server-ip"@, port, world) == Some("127.0.0.1"@),
        trial_value("server-port"@, port, world) == Some(text::dec(port as nat)),
        trial_value("level-name"@, port, world) == Some(world),
        trial_value("enable-rcon"@, port, world) == Some("false"@),
        trial_value("enable-query"@, port, world) == Some("false"@),
        key != "server-ip"@ && key != "server-port"@ && key != "level-name"@ && key
            != "enable-rcon"@ && key != "enable-query"@ ==> trial_value(key, port, world) is None,
{
    reveal_strlit("server-ip");
    reveal_strlit("server-port");
    reveal_strlit("level-name");
    reveal_strlit("enable-rcon");
    reveal_strlit("enable-query");
    assert("server-ip"@.len() == 9 && "server-port"@.len() == 11 && "level-name"@.len() == 10);
    assert("enable-rcon"@.len() == 11 && "enable-query"@.len() == 12);
    assert("server-port"@[0] == 's' && "enable-rcon"@[0] == 'e');
}

/// A comment is a line that begins with `#`; a blank line is white space alone.
/// Both stay, and set nothing.
pub proof fn law_remarks(rest: Seq<char>, blank: Seq<char>, line: Seq<char>)
    requires
        text_laws::is_blank(blank),
        text_laws::is_core(line),
        line[0] != '#',
    ensures
        is_remark(seq!['#'] + rest),
        is_remark(blank),
        !is_remark(line),
{
    reveal_strlit("#");
    assert("#"@ =~= seq!['#']);
    text_laws::law_ends("#"@, rest);
    assert("#"@ + rest =~= seq!['#'] + rest);
    text_laws::law_trim(blank, seq![], seq![]);
    assert(blank + Seq::<char>::empty() + Seq::<char>::empty() =~= blank);
    text_laws::lemma_trim_plain(line);
    if text::starts_with(line, "#"@) {
        text_laws::lemma_occurs_char(line, "#"@, 0, 0);
    }
}

} // verus!
