//! Whether a version is in a range, as mods write their ranges: an interval such
//! as `[1.0.0,2.0.0)`, a version that must be met exactly, or a requirement such
//! as `>=1.2`. What a version is and how two of them compare is semantic
//! versioning's.
use vstd::prelude::*;

use crate::text;
use crate::text_laws;
use crate::text::{
    after_last, file_name_of, find_char, find_stop, from_chars, has_sub, part, split_char, to_chars,
    trimmed, trimmed_end_char, trimmed_start_char,
};

verus! {

/// How one version stands to another.
#[derive(Debug, Clone, Copy, PartialEq, Eq, Structural)]
pub enum VersionOrder {
    Before,
    Same,
    After,
}

/// Whether `semver` takes a text for a version.
pub uninterp spec fn semver_valid(text: Seq<char>) -> bool;

/// How `semver` orders two versions.
pub uninterp spec fn semver_order(a: Seq<char>, b: Seq<char>) -> VersionOrder;

/// Whether a text is a requirement to `semver`, and a version meets it.
pub uninterp spec fn semver_meets(requirement: Seq<char>, version: Seq<char>) -> bool;

/// Calls `semver::Version::parse`. Claimed: whether it succeeds depends on the
/// text alone.
#[verifier::external_body]
fn is_version(text: &str) -> (r: bool)
    ensures
        r == semver_valid(text@),
{
    semver::Version::parse(text).is_ok()
}

/// Calls `semver::Version`'s comparison on two texts that it takes for versions.
/// Claimed: the outcome depends on the two texts alone.
#[verifier::external_body]
fn version_order(a: &str, b: &str) -> (r: VersionOrder)
    requires
        semver_valid(a@),
        semver_valid(b@),
    ensures
        r == semver_order(a@, b@),
{
    let first = semver::Version::parse(a).unwrap();
    let second = semver::Version::parse(b).unwrap();
    match first.cmp(&second) {
        std::cmp::Ordering::Less => VersionOrder::Before,
        std::cmp::Ordering::Equal => VersionOrder::Same,
        std::cmp::Ordering::Greater => VersionOrder::After,
    }
}

/// Calls `semver::VersionReq::parse` and `semver::VersionReq::matches`, for a text
/// that is a version. Claimed: the outcome depends on the two texts alone; a
/// text that is no requirement is met by nothing.
#[verifier::external_body]
fn meets_requirement(requirement: &str, version: &str) -> (r: bool)
    requires
        semver_valid(version@),
    ensures
        r == semver_meets(requirement@, version@),
{
    let v = semver::Version::parse(version).unwrap();
    semver::VersionReq::parse(requirement).is_ok_and(|req| req.matches(&v))
}

/// The part of a version before the first hyphen.
pub open spec fn plain_version(version: Seq<char>) -> Seq<char> {
    version.take(text::stop_index(version, false, seq!['-'], 0))
}

/// Whether a trimmed range is an interval.
pub open spec fn is_interval(range: Seq<char>) -> bool {
    text::contains(range, ","@) || text::contains(range, "("@) || text::contains(range, "["@)
}

/// An interval of versions. A bound that is empty does not bind.
pub struct IntervalView {
    pub lower: Seq<char>,
    pub lower_exclusive: bool,
    pub upper: Seq<char>,
    pub upper_exclusive: bool,
}

/// What is between the brackets.
pub open spec fn unbracketed(range: Seq<char>) -> Seq<char> {
    text::trim_end_char(
        text::trim_end_char(
            text::trim_start_char(text::trim_start_char(range, '['), '('),
            ']',
        ),
        ')',
    )
}

/// The interval that a trimmed range writes down: round brackets leave a bound
/// out, square ones take it in.
pub open spec fn interval(range: Seq<char>) -> IntervalView {
    let inner = unbracketed(range);
    let comma = text::stop_index(inner, false, seq![','], 0);
    IntervalView {
        lower: text::trim(inner.take(comma)),
        lower_exclusive: range.len() > 0 && range[0] == '(',
        upper: if comma < inner.len() {
            text::trim(inner.skip(comma + 1))
        } else {
            Seq::empty()
        },
        upper_exclusive: range.len() > 0 && range.last() == ')',
    }
}

/// Whether a version is on the right side of two bounds, given how it stands to
/// each; a bound that is not there does not bind.
pub open spec fn between(
    lower: Option<VersionOrder>,
    lower_exclusive: bool,
    upper: Option<VersionOrder>,
    upper_exclusive: bool,
) -> bool {
    &&& match lower {
        None => true,
        Some(VersionOrder::Before) => false,
        Some(VersionOrder::Same) => !lower_exclusive,
        Some(VersionOrder::After) => true,
    }
    &&& match upper {
        None => true,
        Some(VersionOrder::Before) => true,
        Some(VersionOrder::Same) => !upper_exclusive,
        Some(VersionOrder::After) => false,
    }
}

/// How a version stands to a bound. A bound that is no version does not bind.
pub open spec fn bound_order(version: Seq<char>, bound: Seq<char>) -> Option<VersionOrder> {
    if bound.len() > 0 && semver_valid(bound) {
        Some(semver_order(version, bound))
    } else {
        None
    }
}

/// Whether a version is in a range.
pub open spec fn in_range(version: Seq<char>, range: Seq<char>) -> bool {
    let r = text::trim(range);
    let v = plain_version(version);
    if r.len() == 0 {
        true
    } else if !semver_valid(v) {
        false
    } else if !is_interval(r) {
        if semver_valid(r) {
            semver_order(v, r) == VersionOrder::Same
        } else {
            semver_meets(r, v)
        }
    } else {
        let i = interval(r);
        between(
            bound_order(v, i.lower),
            i.lower_exclusive,
            bound_order(v, i.upper),
            i.upper_exclusive,
        )
    }
}

/// Whether a version is on the right side of two bounds, given how it stands to
/// each.
pub fn is_between(
    lower: Option<VersionOrder>,
    lower_exclusive: bool,
    upper: Option<VersionOrder>,
    upper_exclusive: bool,
) -> (r: bool)
    ensures
        r == between(lower, lower_exclusive, upper, upper_exclusive),
{
    let above = match lower {
        None => true,
        Some(VersionOrder::Before) => false,
        Some(VersionOrder::Same) => !lower_exclusive,
        Some(VersionOrder::After) => true,
    };
    let below = match upper {
        None => true,
        Some(VersionOrder::Before) => true,
        Some(VersionOrder::Same) => !upper_exclusive,
        Some(VersionOrder::After) => false,
    };
    above && below
}

/// An interval of versions, as it is written.
#[derive(Debug, Clone)]
pub struct Interval {
    pub lower: String,
    pub lower_exclusive: bool,
    pub upper: String,
    pub upper_exclusive: bool,
}

impl View for Interval {
    type V = IntervalView;

    open spec fn view(&self) -> IntervalView {
        IntervalView {
            lower: self.lower@,
            lower_exclusive: self.lower_exclusive,
            upper: self.upper@,
            upper_exclusive: self.upper_exclusive,
        }
    }
}

/// Reads an interval.
pub fn parse_interval(range: &[char]) -> (r: Interval)
    ensures
        r@ == interval(range@),
{
    let lower_exclusive = range.len() > 0 && range[0] == '(';
    let upper_exclusive = range.len() > 0 && range[range.len() - 1] == ')';
    let a = trimmed_start_char(range, '[');
    let b = trimmed_start_char(a, '(');
    let c = trimmed_end_char(b, ']');
    let inner = trimmed_end_char(c, ')');
    let comma = find_char(inner, ',', 0);
    let low = part(inner, 0, comma);
    assert(low@ =~= inner@.take(comma as int));
    let lower = from_chars(trimmed(low));
    let upper = if comma < inner.len() {
        let high = part(inner, comma + 1, inner.len());
        assert(high@ =~= inner@.skip(comma + 1));
        from_chars(trimmed(high))
    } else {
        String::new()
    };
    assert(comma >= inner@.len() ==> upper@ =~= Seq::<char>::empty());
    Interval { lower, lower_exclusive, upper, upper_exclusive }
}

fn order_to_bound(version: &str, bound: &str) -> (r: Option<VersionOrder>)
    requires
        semver_valid(version@),
    ensures
        r == bound_order(version@, bound@),
{
    let chars = to_chars(bound);
    if chars.len() > 0 && is_version(bound) {
        Some(version_order(version, bound))
    } else {
        None
    }
}

/// Whether a version is in a range. An empty range binds nothing, and a version
/// that cannot be read is in no other one. What follows a hyphen in the version
/// does not count.
pub fn version_matches_range(version: &str, range: &str) -> (r: bool)
    ensures
        r == in_range(version@, range@),
{
    let range_chars = to_chars(range);
    let rng = trimmed(&range_chars);
    if rng.len() == 0 {
        return true;
    }
    let version_chars = to_chars(version);
    let end = find_char(&version_chars, '-', 0);
    let plain = part(&version_chars, 0, end);
    assert(plain@ =~= plain_version(version@));
    let v = from_chars(plain);
    if !is_version(v.as_str()) {
        return false;
    }
    if !has_sub(rng, ",") && !has_sub(rng, "(") && !has_sub(rng, "[") {
        let whole = from_chars(rng);
        if is_version(whole.as_str()) {
            return version_order(v.as_str(), whole.as_str()) == VersionOrder::Same;
        }
        return meets_requirement(whole.as_str(), v.as_str());
    }
    let i = parse_interval(rng);
    let lower = order_to_bound(v.as_str(), i.lower.as_str());
    let upper = order_to_bound(v.as_str(), i.upper.as_str());
    is_between(lower, i.lower_exclusive, upper, i.upper_exclusive)
}

/// A range that says nothing is met by every version.
pub proof fn law_empty_range_binds_nothing(version: Seq<char>, range: Seq<char>)
    requires
        text::trim(range).len() == 0,
    ensures
        in_range(version, range),
{
}

/// What follows a hyphen in a version does not count.
pub proof fn law_suffix_does_not_count(version: Seq<char>, other: Seq<char>, range: Seq<char>)
    requires
        plain_version(version) == plain_version(other),
    ensures
        in_range(version, range) == in_range(other, range),
{
}

// ---------------------------------------------------------------------
// Versions in file names
// ---------------------------------------------------------------------

/// The name of a file without the part after its last dot. A name that begins
/// with its only dot has no such part.
pub open spec fn stem(name: Seq<char>) -> Seq<char> {
    let dot = text::last_index(name, '.', name.len() as int);
    if dot <= 0 {
        name
    } else {
        name.take(dot)
    }
}

/// Whether a piece begins with a digit.
pub open spec fn begins_with_digit(p: Seq<char>) -> bool {
    p.len() > 0 && '0' <= p[0] <= '9'
}

/// The last of the first `n` pieces that begins with a digit, the first piece
/// aside; 0 where there is none.
pub open spec fn digit_piece(pieces: Seq<Seq<char>>, n: int) -> int
    decreases n,
{
    if n <= 1 {
        0
    } else if begins_with_digit(pieces[n - 1]) {
        n - 1
    } else {
        digit_piece(pieces, n - 1)
    }
}

/// The version in a file name. The stem's pieces between hyphens are a name and
/// what follows it; the version is the last of those that begins with a digit,
/// or else the last one, up to a plus sign or an underscore.
pub open spec fn named_version(filename: Seq<char>) -> Option<Seq<char>> {
    match text::file_name(filename) {
        None => None,
        Some(name) => {
            let pieces = text::split(stem(name), '-');
            let k = digit_piece(pieces, pieces.len() as int);
            if pieces.len() < 2 {
                None
            } else {
                let piece = pieces[if k == 0 {
                    pieces.len() - 1
                } else {
                    k
                }];
                Some(piece.take(text::stop_index(piece, false, "+_"@, 0)))
            }
        },
    }
}

/// The version in a file name, such as `1.1.8` in `tacz-1.1.8-hotfix.jar`.
pub fn extract_mod_version(filename: &str) -> (r: Option<String>)
    ensures
        text::opt_view(r) == named_version(filename@),
{
    let chars = to_chars(filename);
    let name = match file_name_of(&chars) {
        Some(n) => n,
        None => {
            return None;
        },
    };
    let after_dot = after_last(name, '.');
    let s = if after_dot <= 1 {
        name
    } else {
        part(name, 0, after_dot - 1)
    };
    assert(s@ =~= stem(name@));
    let pieces = split_char(s, '-');
    let ghost all = text::split(s@, '-');
    if pieces.len() < 2 {
        assert(text::slices(pieces@).len() < 2);
        return None;
    }
    let mut n: usize = pieces.len();
    while n > 1
        invariant
            n <= pieces.len(),
            text::slices(pieces@) == all,
            all == text::split(s@, '-'),
            s@ == stem(name@),
            text::file_name(filename@) == Some(name@),
            pieces.len() >= 2,
            digit_piece(all, all.len() as int) == digit_piece(all, n as int),
        decreases n,
    {
        let p: &[char] = pieces[n - 1];
        assert(text::slices(pieces@)[n - 1] == p@);
        if p.len() > 0 && '0' <= p[0] && p[0] <= '9' {
            let e = find_stop(p, false, "+_", 0);
            let v = part(p, 0, e);
            assert(v@ =~= p@.take(e as int));
            return Some(from_chars(v));
        }
        n = n - 1;
    }
    let p: &[char] = pieces[pieces.len() - 1];
    assert(text::slices(pieces@)[pieces@.len() - 1] == p@);
    let e = find_stop(p, false, "+_", 0);
    let v = part(p, 0, e);
    assert(v@ =~= p@.take(e as int));
    Some(from_chars(v))
}

// ---------------------------------------------------------------------
// What ranges and names mean
// ---------------------------------------------------------------------

/// Whether a text can be a bound: it has no brackets, commas, hyphens or white
/// space. It may be empty, which leaves the side open.
pub open spec fn is_bound(s: Seq<char>) -> bool {
    forall|k: int|
        0 <= k < s.len() ==> #[trigger] s[k] != '[' && s[k] != ']' && s[k] != '(' && s[k] != ')'
            && s[k] != ',' && s[k] != '-' && !text::is_ws(s[k])
}

proof fn lemma_bound_trims(s: Seq<char>)
    requires
        is_bound(s),
    ensures
        text::trim(s) == s,
{
    if s.len() > 0 {
        assert(!text::is_ws(s[0]) && !text::is_ws(s[s.len() - 1]));
        text_laws::lemma_trim_plain(s);
    } else {
        assert(text::trim(s) =~= s);
    }
}

/// An interval is read from its brackets and bounds: `[` and `]` take a bound in,
/// `(` and `)` leave it out.
pub proof fn law_interval_is_read(open: char, lower: Seq<char>, upper: Seq<char>, close: char)
    requires
        open == '[' || open == '(',
        close == ']' || close == ')',
        is_bound(lower),
        is_bound(upper),
    ensures
        ({
            let i = interval(seq![open] + lower + seq![','] + upper + seq![close]);
            &&& i.lower == lower
            &&& i.upper == upper
            &&& i.lower_exclusive == (open == '(')
            &&& i.upper_exclusive == (close == ')')
        }),
{
    let inner = lower + seq![','] + upper;
    let r = seq![open] + lower + seq![','] + upper + seq![close];
    let tail = inner + seq![close];
    assert(r =~= seq![open] + tail);
    assert(r[0] == open);
    assert(r.last() == close);
    let first = tail[0];
    assert(first == (if lower.len() > 0 {
        lower[0]
    } else {
        ','
    }));
    assert(first != '[' && first != '(');
    assert(r[1] == first);
    let a = text::trim_start_char(r, '[');
    let b = text::trim_start_char(a, '(');
    assert(r.subrange(1, r.len() as int) =~= tail);
    assert(r.subrange(0, r.len() as int) =~= r);
    assert(tail.subrange(0, tail.len() as int) =~= tail);
    reveal_with_fuel(text::skip, 3);
    if open == '[' {
        assert(a == tail);
        assert(b == tail);
    } else {
        assert(a == r);
        assert(b == tail);
    }
    reveal_with_fuel(text::back, 3);
    let n = tail.len() as int;
    assert(tail[n - 1] == close);
    let before = inner.last();
    assert(before == (if upper.len() > 0 {
        upper[upper.len() - 1]
    } else {
        ','
    }));
    assert(before != ']' && before != ')');
    assert(tail[n - 2] == before);
    let c = text::trim_end_char(b, ']');
    let d = text::trim_end_char(c, ')');
    assert(tail.subrange(0, n - 1) =~= inner);
    assert(tail.subrange(0, n) =~= tail);
    assert(inner.subrange(0, n - 1) =~= inner);
    if close == ']' {
        assert(c == inner);
        assert(d == inner);
    } else {
        assert(c == tail);
        assert(d == inner);
    }
    assert(unbracketed(r) == inner);
    let e = lower.len() as int;
    assert(inner[e] == ',');
    assert forall|k: int| 0 <= k < e implies inner[k] != ',' by {
        assert(inner[k] == lower[k]);
    }
    text_laws::lemma_stop_skips(inner, ',', 0, e);
    assert(inner.take(e) =~= lower);
    assert(inner.skip(e + 1) =~= upper);
    lemma_bound_trims(lower);
    lemma_bound_trims(upper);
}

/// Whether a version is not before a bound, or is after it where the bound itself
/// does not count.
pub open spec fn reaches(version: Seq<char>, bound: Seq<char>, exclusive: bool) -> bool {
    semver_order(version, bound) == VersionOrder::After || (semver_order(version, bound)
        == VersionOrder::Same && !exclusive)
}

/// Whether a version is not after a bound, or is before it where the bound itself
/// does not count.
pub open spec fn keeps_below(version: Seq<char>, bound: Seq<char>, exclusive: bool) -> bool {
    semver_order(version, bound) == VersionOrder::Before || (semver_order(version, bound)
        == VersionOrder::Same && !exclusive)
}

/// A version is in an interval if and only if it reaches the lower bound and keeps
/// below the upper one, each as its bracket says; a side that is left open does
/// not bind.
pub proof fn law_interval_bounds_both_sides(
    version: Seq<char>,
    open: char,
    lower: Seq<char>,
    upper: Seq<char>,
    close: char,
)
    requires
        open == '[' || open == '(',
        close == ']' || close == ')',
        is_bound(lower),
        is_bound(upper),
        lower.len() > 0 ==> semver_valid(lower),
        upper.len() > 0 ==> semver_valid(upper),
        is_bound(version),
        semver_valid(version),
    ensures
        in_range(version, seq![open] + lower + seq![','] + upper + seq![close]) <==> (lower.len()
            == 0 || reaches(version, lower, open == '(')) && (upper.len() == 0 || keeps_below(
            version,
            upper,
            close == ')',
        )),
{
    let r = seq![open] + lower + seq![','] + upper + seq![close];
    law_interval_is_read(open, lower, upper, close);
    assert(r[0] == open && r.last() == close);
    text_laws::lemma_trim_plain(r);
    reveal_strlit(",");
    assert(","@ =~= seq![',']);
    text_laws::law_contains_what_was_put_in(seq![open] + lower, ","@, upper + seq![close]);
    assert(seq![open] + lower + ","@ + (upper + seq![close]) =~= r);
    lemma_plain_is_itself(version);
}

proof fn lemma_plain_is_itself(version: Seq<char>)
    requires
        forall|k: int| 0 <= k < version.len() ==> version[k] != '-',
    ensures
        plain_version(version) == version,
{
    text_laws::lemma_stop_skips(version, '-', 0, version.len() as int);
    assert(version.take(version.len() as int) =~= version);
}

/// A bare version means just that version.
pub proof fn law_bare_version_is_exact(version: Seq<char>, range: Seq<char>)
    requires
        is_bound(version),
        semver_valid(version),
        is_bound(range),
        range.len() > 0,
        semver_valid(range),
    ensures
        in_range(version, range) <==> semver_order(version, range) == VersionOrder::Same,
{
    lemma_bound_trims(range);
    lemma_plain_is_itself(version);
    reveal_strlit(",");
    reveal_strlit("(");
    reveal_strlit("[");
    text_laws::lemma_lacks(range, ","@, 0);
    text_laws::lemma_lacks(range, "("@, 0);
    text_laws::lemma_lacks(range, "["@, 0);
}

/// A version that cannot be read is in no range that says anything, and what
/// follows the first hyphen is not part of the version.
pub proof fn law_unreadable_version_is_in_no_range(
    version: Seq<char>,
    suffix: Seq<char>,
    range: Seq<char>,
)
    requires
        is_bound(version),
    ensures
        plain_version(version + seq!['-'] + suffix) == version,
        in_range(version + seq!['-'] + suffix, range) == in_range(version, range),
        !semver_valid(version) && text::trim(range).len() > 0 ==> !in_range(version, range),
{
    let s = version + seq!['-'] + suffix;
    assert(s[version.len() as int] == '-');
    assert forall|k: int| 0 <= k < version.len() implies s[k] != '-' by {
        assert(s[k] == version[k]);
    }
    text_laws::lemma_stop_skips(s, '-', 0, version.len() as int);
    assert(s.take(version.len() as int) =~= version);
    lemma_plain_is_itself(version);
}

/// The version in the name of a file `name-version.jar` is the version, also where
/// words follow it.
pub proof fn law_version_in_a_name(
    name: Seq<char>,
    version: Seq<char>,
    extension: Seq<char>,
)
    requires
        name.len() > 0,
        forall|k: int| 0 <= k < name.len() ==> name[k] != '-' && name[k] != '/',
        version.len() > 0,
        '0' <= version[0] <= '9',
        forall|k: int|
            0 <= k < version.len() ==> version[k] != '-' && version[k] != '/' && version[k] != '+'
                && version[k] != '_',
        forall|k: int| 0 <= k < extension.len() ==> extension[k] != '.' && extension[k] != '/',
    ensures
        named_version(name + seq!['-'] + version + seq!['.'] + extension) == Some(version),
{
    let st = name + seq!['-'] + version;
    let file = st + seq!['.'] + extension;
    assert forall|k: int| 0 <= k < file.len() implies file[k] != '/' by {
        if k < name.len() {
            assert(file[k] == name[k]);
        } else if k == name.len() {
            assert(file[k] == '-');
        } else if k < st.len() {
            assert(file[k] == version[k - name.len() - 1]);
        } else if k == st.len() {
            assert(file[k] == '.');
        } else {
            assert(file[k] == extension[k - st.len() - 1]);
        }
    }
    assert(file.len() > 2);
    text_laws::law_file_name(seq![], file);
    lemma_last_dot(st, extension, extension.len() as int);
    assert(file.take(st.len() as int) =~= st);
    text_laws::law_split_of_parts(name, '-', version);
    text_laws::law_split_of_parts(version, '-', name);
    let pieces = text::split(st, '-');
    assert(pieces =~= seq![name, version]);
    reveal_strlit("+_");
    let set = "+_"@;
    assert(set[0] == '+' && set[1] == '_');
    text_laws::lemma_stop_any(version, set, 0);
    let e = text::stop_index(version, false, set, 0);
    if e < version.len() {
        let q = choose|q: int| 0 <= q < set.len() && set[q] == version[e];
        assert(q == 0 || q == 1);
    }
    assert(version.take(e) =~= version);
    reveal_with_fuel(digit_piece, 2);
}

proof fn lemma_last_dot(st: Seq<char>, extension: Seq<char>, n: int)
    requires
        0 <= n <= extension.len(),
        forall|k: int| 0 <= k < extension.len() ==> extension[k] != '.',
    ensures
        text::last_index(st + seq!['.'] + extension, '.', st.len() as int + 1 + n) == st.len(),
    decreases n,
{
    let s = st + seq!['.'] + extension;
    if n > 0 {
        assert(s[st.len() as int + n] == extension[n - 1]);
        lemma_last_dot(st, extension, n - 1);
    } else {
        assert(s[st.len() as int] == '.');
    }
}

} // verus!
