//! Strings as sequences of characters: searching, trimming, splitting and
//! number formatting, each with a model over `Seq<char>`.
use vstd::prelude::*;
use vstd::slice::slice_subrange;
use vstd::utf8::*;

verus! {

/// `String::push` of the standard library appends one character at the end.
pub assume_specification[ String::push ](s: &mut String, c: char)
    ensures
        final(s)@ == old(s)@.push(c),
;

/// The characters of `s`, in order.
pub fn to_chars(s: &str) -> (r: Vec<char>)
    ensures
        r@ == s@,
{
    let mut out: Vec<char> = Vec::new();
    for c in it: s.chars()
        invariant
            it.seq() == s@,
            out@ == it.seq().take(it.index() as int),
    {
        out.push(c);
        assert(it.seq().take(it.index() as int + 1) =~= it.seq().take(it.index() as int).push(c));
    }
    assert(s@.take(s@.len() as int) =~= s@);
    out
}

/// The string made of the given characters.
pub fn from_chars(v: &[char]) -> (r: String)
    ensures
        r@ == v@,
{
    let mut out = String::new();
    let mut i: usize = 0;
    while i < v.len()
        invariant
            i <= v.len(),
            out@ == v@.take(i as int),
        decreases v.len() - i,
    {
        out.push(v[i]);
        assert(v@.take(i as int + 1) =~= v@.take(i as int).push(v[i as int]));
        i = i + 1;
    }
    assert(v@.take(v@.len() as int) =~= v@);
    out
}

/// Whether two strings hold the same characters.
pub fn str_eq(a: &str, b: &str) -> (r: bool)
    ensures
        r == (a@ == b@),
{
    let x: &[u8] = a.as_bytes();
    let y: &[u8] = b.as_bytes();
    proof {
        encode_utf8_decode_utf8(a@);
        encode_utf8_decode_utf8(b@);
    }
    if x.len() != y.len() {
        return false;
    }
    let mut i: usize = 0;
    while i < x.len()
        invariant
            x.len() == y.len(),
            i <= x.len(),
            x@ == encode_utf8(a@),
            y@ == encode_utf8(b@),
            forall|k: int| 0 <= k < i ==> x[k] == y[k],
        decreases x.len() - i,
    {
        if x[i] != y[i] {
            return false;
        }
        i = i + 1;
    }
    assert(x@ =~= y@);
    true
}

/// A copy of a list of strings.
pub fn clone_strings(v: &Vec<String>) -> (r: Vec<String>)
    ensures
        r@ == v@,
{
    v.clone()
}

/// The characters of each string of a list.
pub open spec fn views(v: Seq<String>) -> Seq<Seq<char>> {
    v.map_values(|s: String| s@)
}

/// The characters of an optional string.
pub open spec fn opt_view(o: Option<String>) -> Option<Seq<char>> {
    match o {
        Some(s) => Some(s@),
        None => None,
    }
}

/// The characters of an optional text.
pub open spec fn str_view(o: Option<&str>) -> Option<Seq<char>> {
    match o {
        Some(s) => Some(s@),
        None => None,
    }
}

/// Whether some string of the list holds exactly these characters.
pub open spec fn has_str(v: Seq<String>, x: Seq<char>) -> bool {
    exists|k: int| 0 <= k < v.len() && (#[trigger] v[k])@ == x
}

/// A list has a string if and only if its texts contain it.
pub proof fn lemma_has_str(v: Seq<String>, x: Seq<char>)
    ensures
        has_str(v, x) <==> views(v).contains(x),
{
    if has_str(v, x) {
        let k = choose|k: int| 0 <= k < v.len() && (#[trigger] v[k])@ == x;
        assert(views(v)[k] == x);
    }
    if views(v).contains(x) {
        let k = choose|k: int| 0 <= k < views(v).len() && views(v)[k] == x;
        assert(v[k]@ == x);
    }
}

/// Whether some string of the list equals `x`.
pub fn contains_str(v: &Vec<String>, x: &str) -> (r: bool)
    ensures
        r == has_str(v@, x@),
        r == views(v@).contains(x@),
{
    proof {
        lemma_has_str(v@, x@);
    }
    let mut i: usize = 0;
    while i < v.len()
        invariant
            i <= v.len(),
            has_str(v@, x@) == views(v@).contains(x@),
            forall|k: int| 0 <= k < i ==> (#[trigger] v[k])@ != x@,
        decreases v.len() - i,
    {
        if str_eq(v[i].as_str(), x) {
            return true;
        }
        i = i + 1;
    }
    false
}

/// What the standard library's `Debug` formatting writes for a string: the
/// text in double quotes, with escapes.
pub uninterp spec fn debug_quoted(s: Seq<char>) -> Seq<char>;

/// `Debug` of `str` in the standard library. Its result is named
/// [`debug_quoted`]; which escapes it writes is not stated.
#[verifier::external_body]
pub(crate) fn debug_str(s: &str) -> (r: String)
    ensures
        r@ == debug_quoted(s@),
{
    format!("{:?}", s)
}

/// A digit of a hexadecimal number.
pub open spec fn hex_digit(n: int) -> char {
    "0123456789abcdef"@[n]
}

fn hex_char(n: u32) -> (r: char)
    requires
        n < 16,
    ensures
        r == hex_digit(n as int),
{
    let digits = to_chars("0123456789abcdef");
    proof {
        reveal_strlit("0123456789abcdef");
    }
    digits[n as usize]
}

/// How a character is written in a string of JSON.
pub open spec fn json_char(c: char) -> Seq<char> {
    if c == '"' {
        "\\\""@
    } else if c == '\\' {
        "\\\\"@
    } else if c == '\n' {
        "\\n"@
    } else if c == '\r' {
        "\\r"@
    } else if c == '\t' {
        "\\t"@
    } else if (c as u32) < 0x20 {
        "\\u00"@ + seq![hex_digit((c as u32) as int / 16), hex_digit((c as u32) as int % 16)]
    } else {
        seq![c]
    }
}

/// How a text is written in a string of JSON, without the quotes.
pub open spec fn json_body(s: Seq<char>) -> Seq<char>
    decreases s.len(),
{
    if s.len() == 0 {
        seq![]
    } else {
        json_body(s.drop_last()) + json_char(s.last())
    }
}

/// A text as a string of JSON.
pub open spec fn json_quoted(s: Seq<char>) -> Seq<char> {
    "\""@ + json_body(s) + "\""@
}

/// A text as a string of JSON.
pub fn json_str(s: &str) -> (r: String)
    ensures
        r@ == json_quoted(s@),
{
    let chars = to_chars(s);
    let mut body = String::new();
    let mut i: usize = 0;
    assert(chars@.take(0) =~= seq![]);
    while i < chars.len()
        invariant
            i <= chars.len(),
            body@ == json_body(chars@.take(i as int)),
        decreases chars.len() - i,
    {
        let c = chars[i];
        let ghost before = body@;
        let code: u32 = c as u32;
        if c == '"' {
            body.append("\\\"");
        } else if c == '\\' {
            body.append("\\\\");
        } else if c == '\n' {
            body.append("\\n");
        } else if c == '\r' {
            body.append("\\r");
        } else if c == '\t' {
            body.append("\\t");
        } else if code < 0x20 {
            body.append("\\u00");
            body.push(hex_char(code / 16));
            body.push(hex_char(code % 16));
        } else {
            body.push(c);
        }
        assert(body@ =~= before + json_char(c));
        assert(chars@.take(i as int + 1).drop_last() =~= chars@.take(i as int));
        i = i + 1;
    }
    assert(chars@.take(chars@.len() as int) =~= chars@);
    let mut r = String::from_str("\"");
    r.append(body.as_str());
    r.append("\"");
    r
}

// ---------------------------------------------------------------------
// Characters
// ---------------------------------------------------------------------

/// Unicode's `White_Space` property.
pub open spec fn is_ws(c: char) -> bool {
    let u = c as u32;
    ||| 0x9 <= u <= 0xd
    ||| u == 0x20
    ||| u == 0x85
    ||| u == 0xa0
    ||| u == 0x1680
    ||| 0x2000 <= u <= 0x200a
    ||| u == 0x2028
    ||| u == 0x2029
    ||| u == 0x202f
    ||| u == 0x205f
    ||| u == 0x3000
}

/// Whether a character is white space.
pub fn is_whitespace(c: char) -> (r: bool)
    ensures
        r == is_ws(c),
{
    let u: u32 = c as u32;
    (0x9 <= u && u <= 0xd) || u == 0x20 || u == 0x85 || u == 0xa0 || u == 0x1680 || (0x2000 <= u
        && u <= 0x200a) || u == 0x2028 || u == 0x2029 || u == 0x202f || u == 0x205f || u == 0x3000
}

/// The lower-case form of a character, as far as it is an ASCII letter: `A` to
/// `Z` become `a` to `z`, and the Kelvin sign, the one other character whose
/// lower case is a single ASCII letter, becomes `k`. All others stay.
pub open spec fn fold(c: char) -> char {
    if 'A' <= c <= 'Z' {
        (c as u32 + 32) as char
    } else if c as u32 == 0x212a {
        'k'
    } else {
        c
    }
}

/// Computes [`fold`].
pub fn fold_char(c: char) -> (r: char)
    ensures
        r == fold(c),
{
    let u: u32 = c as u32;
    if 'A' <= c && c <= 'Z' {
        let b: u8 = (u as u8) + 32;
        b as char
    } else if u == 0x212a {
        'k'
    } else {
        c
    }
}

/// A text with every character folded; the positions stay the same.
pub open spec fn folded(s: Seq<char>) -> Seq<char> {
    s.map_values(|c: char| fold(c))
}

/// Computes [`folded`].
pub fn fold_chars(s: &[char]) -> (r: Vec<char>)
    ensures
        r@ == folded(s@),
{
    let mut out: Vec<char> = Vec::new();
    let mut i: usize = 0;
    while i < s.len()
        invariant
            i <= s.len(),
            out@ == folded(s@).take(i as int),
        decreases s.len() - i,
    {
        out.push(fold_char(s[i]));
        assert(folded(s@).take(i as int + 1) =~= folded(s@).take(i as int).push(fold(s[i as int])));
        i = i + 1;
    }
    assert(folded(s@).take(s@.len() as int) =~= folded(s@));
    out
}

/// An ASCII letter in its small form; any other character as it is.
pub open spec fn ascii_lower(c: char) -> char {
    if 'A' <= c <= 'Z' {
        (c as u32 + 32) as char
    } else {
        c
    }
}

/// A text with its ASCII letters in their small form.
pub open spec fn lowered(s: Seq<char>) -> Seq<char> {
    s.map_values(|c: char| ascii_lower(c))
}

/// Computes [`lowered`].
pub fn lower_chars(s: &[char]) -> (r: Vec<char>)
    ensures
        r@ == lowered(s@),
{
    let mut out: Vec<char> = Vec::new();
    let mut i: usize = 0;
    while i < s.len()
        invariant
            i <= s.len(),
            out@ == lowered(s@).take(i as int),
        decreases s.len() - i,
    {
        let c = s[i];
        let l = if 'A' <= c && c <= 'Z' {
            let u: u32 = c as u32;
            let b: u8 = (u as u8) + 32;
            b as char
        } else {
            c
        };
        out.push(l);
        assert(lowered(s@).take(i as int + 1) =~= lowered(s@).take(i as int).push(l));
        i = i + 1;
    }
    assert(lowered(s@).take(s@.len() as int) =~= lowered(s@));
    out
}

// ---------------------------------------------------------------------
// Searching
// ---------------------------------------------------------------------

/// Whether `p` stands in `s` at position `i`.
pub open spec fn occurs_at(s: Seq<char>, p: Seq<char>, i: int) -> bool {
    0 <= i && i + p.len() <= s.len() && s.subrange(i, i + p.len()) == p
}

/// The first position from `i` on at which `p` stands in `s`.
pub open spec fn find_from(s: Seq<char>, p: Seq<char>, i: int) -> Option<int>
    decreases s.len() + 1 - i,
{
    if i < 0 || i + p.len() > s.len() {
        None
    } else if occurs_at(s, p, i) {
        Some(i)
    } else {
        find_from(s, p, i + 1)
    }
}

/// The first position at which `p` stands in `s`.
pub open spec fn find(s: Seq<char>, p: Seq<char>) -> Option<int> {
    find_from(s, p, 0)
}

/// Whether `p` stands anywhere in `s`.
pub open spec fn contains(s: Seq<char>, p: Seq<char>) -> bool {
    find(s, p) is Some
}

/// What [`find_from`] finds is an occurrence, none stands before it, and it
/// finds nothing only where there is none.
pub proof fn lemma_find_from(s: Seq<char>, p: Seq<char>, i: int)
    requires
        0 <= i,
    ensures
        match find_from(s, p, i) {
            Some(k) => i <= k && occurs_at(s, p, k) && (forall|j: int|
                i <= j < k ==> !#[trigger] occurs_at(s, p, j)),
            None => forall|j: int| i <= j ==> !#[trigger] occurs_at(s, p, j),
        },
    decreases s.len() + 1 - i,
{
    if i + p.len() <= s.len() && !occurs_at(s, p, i) {
        lemma_find_from(s, p, i + 1);
    }
}

/// A text contains `p` if and only if `p` stands at some position of it.
pub proof fn lemma_contains(s: Seq<char>, p: Seq<char>)
    ensures
        contains(s, p) <==> exists|i: int| occurs_at(s, p, i),
{
    lemma_find_from(s, p, 0);
}

/// Whether `p` stands in `s` at `i`.
pub fn occurs(s: &[char], p: &[char], i: usize) -> (r: bool)
    ensures
        r == occurs_at(s@, p@, i as int),
{
    if i > s.len() || s.len() - i < p.len() {
        return false;
    }
    let mut k: usize = 0;
    while k < p.len()
        invariant
            k <= p.len(),
            i + p.len() <= s.len(),
            forall|j: int| 0 <= j < k ==> s[i + j] == p[j],
        decreases p.len() - k,
    {
        if s[i + k] != p[k] {
            assert(s@.subrange(i as int, i + p@.len())[k as int] != p@[k as int]);
            return false;
        }
        k = k + 1;
    }
    assert(s@.subrange(i as int, i + p@.len()) =~= p@);
    true
}

/// The first position from `from` on at which `p` stands in `s`.
pub fn find_str_from(s: &[char], p: &str, from: usize) -> (r: Option<usize>)
    ensures
        r is Some == find_from(s@, p@, from as int) is Some,
        r is Some ==> r->0 == find_from(s@, p@, from as int)->0,
        r is Some ==> from <= r->0 && r->0 + p@.len() <= s@.len() <= usize::MAX,
{
    let pat = to_chars(p);
    let mut i: usize = from;
    while i <= s.len() && pat.len() <= s.len() - i
        invariant
            from <= i,
            pat@ == p@,
            find_from(s@, p@, from as int) == find_from(s@, p@, i as int),
        decreases s.len() - i,
    {
        if occurs(s, &pat, i) {
            return Some(i);
        }
        if i == s.len() {
            assert(s@.subrange(i as int, i as int) =~= p@);
            return None;
        }
        i = i + 1;
    }
    None
}

/// The first position at which `p` stands in `s`.
pub fn find_str(s: &[char], p: &str) -> (r: Option<usize>)
    ensures
        r is Some == find(s@, p@) is Some,
        r is Some ==> r->0 == find(s@, p@)->0,
        r is Some ==> r->0 + p@.len() <= s@.len() <= usize::MAX,
{
    find_str_from(s, p, 0)
}

/// Whether `p` stands anywhere in `s`.
pub fn has_sub(s: &[char], p: &str) -> (r: bool)
    ensures
        r == contains(s@, p@),
{
    find_str(s, p).is_some()
}

/// Whether `s` begins with `p`.
pub open spec fn starts_with(s: Seq<char>, p: Seq<char>) -> bool {
    occurs_at(s, p, 0)
}

/// Whether `s` ends with `p`.
pub open spec fn ends_with(s: Seq<char>, p: Seq<char>) -> bool {
    occurs_at(s, p, s.len() - p.len())
}

/// Whether `s` begins with `p`.
pub fn has_prefix(s: &[char], p: &str) -> (r: bool)
    ensures
        r == starts_with(s@, p@),
        r ==> p@.len() <= s@.len(),
{
    let pat = to_chars(p);
    occurs(s, &pat, 0)
}

/// Whether `s` ends with `p`.
pub fn has_suffix(s: &[char], p: &str) -> (r: bool)
    ensures
        r == ends_with(s@, p@),
        r ==> p@.len() <= s@.len(),
{
    let pat = to_chars(p);
    if pat.len() > s.len() {
        return false;
    }
    occurs(s, &pat, s.len() - pat.len())
}

/// The first position from `i` on of a character of `set`, or of white space
/// where `ws` holds; the length of `s` where there is none.
pub open spec fn stop_index(s: Seq<char>, ws: bool, set: Seq<char>, i: int) -> int
    decreases s.len() - i,
{
    if i < 0 || i >= s.len() {
        s.len() as int
    } else if (ws && is_ws(s[i])) || set.contains(s[i]) {
        i
    } else {
        stop_index(s, ws, set, i + 1)
    }
}

/// Whether the character is one of `set`.
pub fn in_set(c: char, set: &[char]) -> (r: bool)
    ensures
        r == set@.contains(c),
{
    let mut i: usize = 0;
    while i < set.len()
        invariant
            i <= set.len(),
            forall|k: int| 0 <= k < i ==> set[k] != c,
        decreases set.len() - i,
    {
        if set[i] == c {
            assert(set@[i as int] == c);
            return true;
        }
        i = i + 1;
    }
    false
}

/// Computes [`stop_index`].
pub fn find_stop(s: &[char], ws: bool, set: &str, from: usize) -> (r: usize)
    requires
        from <= s@.len(),
    ensures
        r == stop_index(s@, ws, set@, from as int),
        from <= r <= s@.len(),
{
    let chars = to_chars(set);
    let mut i: usize = from;
    while i < s.len()
        invariant
            from <= i <= s.len(),
            chars@ == set@,
            stop_index(s@, ws, set@, from as int) == stop_index(s@, ws, set@, i as int),
        decreases s.len() - i,
    {
        if (ws && is_whitespace(s[i])) || in_set(s[i], &chars) {
            return i;
        }
        i = i + 1;
    }
    i
}

/// The last position before `end` that holds `c`, or -1.
pub open spec fn last_index(s: Seq<char>, c: char, end: int) -> int
    decreases end,
{
    if end <= 0 || end > s.len() {
        -1
    } else if s[end - 1] == c {
        end - 1
    } else {
        last_index(s, c, end - 1)
    }
}

/// The position after the last `c` of `s`, 0 where there is none.
pub fn after_last(s: &[char], c: char) -> (r: usize)
    ensures
        r == last_index(s@, c, s@.len() as int) + 1,
        r <= s@.len(),
{
    let mut i: usize = s.len();
    while i > 0
        invariant
            i <= s.len(),
            last_index(s@, c, s@.len() as int) == last_index(s@, c, i as int),
        decreases i,
    {
        if s[i - 1] == c {
            return i;
        }
        i = i - 1;
    }
    0
}

// ---------------------------------------------------------------------
// Trimming
// ---------------------------------------------------------------------

/// A class of characters to trim: white space, or one character.
pub open spec fn trims(ws: bool, c: char, x: char) -> bool {
    if ws {
        is_ws(x)
    } else {
        x == c
    }
}

/// The first position from `i` on whose character is not trimmed.
pub open spec fn skip(s: Seq<char>, ws: bool, c: char, i: int) -> int
    decreases s.len() - i,
{
    if 0 <= i < s.len() && trims(ws, c, s[i]) {
        skip(s, ws, c, i + 1)
    } else {
        i
    }
}

/// The end of `s` without what is trimmed between `lo` and `hi`.
pub open spec fn back(s: Seq<char>, ws: bool, c: char, lo: int, hi: int) -> int
    decreases hi - lo,
{
    if lo < hi <= s.len() && trims(ws, c, s[hi - 1]) {
        back(s, ws, c, lo, hi - 1)
    } else {
        hi
    }
}

/// `s` without white space at either end.
pub open spec fn trim(s: Seq<char>) -> Seq<char> {
    let a = skip(s, true, ' ', 0);
    s.subrange(a, back(s, true, ' ', a, s.len() as int))
}

/// `s` without the character `c` at either end.
pub open spec fn trim_char(s: Seq<char>, c: char) -> Seq<char> {
    let a = skip(s, false, c, 0);
    s.subrange(a, back(s, false, c, a, s.len() as int))
}

/// `s` without the character `c` at its start.
pub open spec fn trim_start_char(s: Seq<char>, c: char) -> Seq<char> {
    s.subrange(skip(s, false, c, 0), s.len() as int)
}

/// The position at which the repeated prefix `p` of `s` ends.
pub open spec fn skip_str(s: Seq<char>, p: Seq<char>, i: int) -> int
    decreases s.len() - i,
{
    if p.len() > 0 && occurs_at(s, p, i) {
        skip_str(s, p, i + p.len())
    } else {
        i
    }
}

fn skip_exec(s: &[char], ws: bool, c: char) -> (r: usize)
    ensures
        r == skip(s@, ws, c, 0),
        r <= s@.len(),
{
    let mut i: usize = 0;
    while i < s.len() && ((ws && is_whitespace(s[i])) || (!ws && s[i] == c))
        invariant
            i <= s.len(),
            skip(s@, ws, c, 0) == skip(s@, ws, c, i as int),
        decreases s.len() - i,
    {
        i = i + 1;
    }
    i
}

fn back_exec(s: &[char], ws: bool, c: char, lo: usize) -> (r: usize)
    requires
        lo <= s@.len(),
    ensures
        r == back(s@, ws, c, lo as int, s@.len() as int),
        lo <= r <= s@.len(),
{
    let mut i: usize = s.len();
    while i > lo && ((ws && is_whitespace(s[i - 1])) || (!ws && s[i - 1] == c))
        invariant
            lo <= i <= s.len(),
            back(s@, ws, c, lo as int, s@.len() as int) == back(s@, ws, c, lo as int, i as int),
        decreases i,
    {
        i = i - 1;
    }
    i
}

/// The part of `s` from `a` up to `b`.
pub fn part(s: &[char], a: usize, b: usize) -> (r: &[char])
    requires
        a <= b <= s@.len(),
    ensures
        r@ == s@.subrange(a as int, b as int),
{
    slice_subrange(s, a, b)
}

/// Computes [`trim`].
pub fn trimmed(s: &[char]) -> (r: &[char])
    ensures
        r@ == trim(s@),
        r@.len() <= s@.len(),
{
    let a = skip_exec(s, true, ' ');
    let b = back_exec(s, true, ' ', a);
    part(s, a, b)
}

/// Computes [`trim_char`].
pub fn trimmed_char(s: &[char], c: char) -> (r: &[char])
    ensures
        r@ == trim_char(s@, c),
        r@.len() <= s@.len(),
{
    let a = skip_exec(s, false, c);
    let b = back_exec(s, false, c, a);
    part(s, a, b)
}

/// Computes [`trim_start_char`].
pub fn trimmed_start_char(s: &[char], c: char) -> (r: &[char])
    ensures
        r@ == trim_start_char(s@, c),
        r@.len() <= s@.len(),
{
    let a = skip_exec(s, false, c);
    part(s, a, s.len())
}

/// `s` without the character `c` at its end.
pub open spec fn trim_end_char(s: Seq<char>, c: char) -> Seq<char> {
    s.subrange(0, back(s, false, c, 0, s.len() as int))
}

/// Computes [`trim_end_char`].
pub fn trimmed_end_char(s: &[char], c: char) -> (r: &[char])
    ensures
        r@ == trim_end_char(s@, c),
        r@.len() <= s@.len(),
{
    let b = back_exec(s, false, c, 0);
    part(s, 0, b)
}

/// `s` without the suffix `p` as often as it stands there.
pub open spec fn trim_end_str(s: Seq<char>, p: Seq<char>) -> Seq<char>
    decreases s.len(),
{
    if p.len() > 0 && ends_with(s, p) {
        trim_end_str(s.take(s.len() - p.len()), p)
    } else {
        s
    }
}

/// Computes [`trim_end_str`].
pub fn trimmed_end_str<'a>(s: &'a [char], p: &str) -> (r: &'a [char])
    ensures
        r@ == trim_end_str(s@, p@),
        r@.len() <= s@.len(),
{
    let pat = to_chars(p);
    let mut cur: &'a [char] = s;
    while pat.len() > 0 && has_suffix(cur, p)
        invariant
            pat@ == p@,
            cur@.len() <= s@.len(),
            trim_end_str(s@, p@) == trim_end_str(cur@, p@),
        decreases cur@.len(),
    {
        let n = cur.len() - pat.len();
        let next = part(cur, 0, n);
        assert(next@ =~= cur@.take(cur@.len() - p@.len()));
        cur = next;
    }
    cur
}

/// `s` without the prefix `p` as often as it stands there.
pub open spec fn trim_start_str(s: Seq<char>, p: Seq<char>) -> Seq<char> {
    s.subrange(skip_str(s, p, 0), s.len() as int)
}

/// Computes [`trim_start_str`].
pub fn trimmed_start_str<'a>(s: &'a [char], p: &str) -> (r: &'a [char])
    ensures
        r@ == trim_start_str(s@, p@),
        r@.len() <= s@.len(),
{
    let pat = to_chars(p);
    let mut i: usize = 0;
    while pat.len() > 0 && occurs(s, &pat, i)
        invariant
            i <= s.len(),
            pat@ == p@,
            skip_str(s@, p@, 0) == skip_str(s@, p@, i as int),
        decreases s.len() - i,
    {
        i = i + pat.len();
    }
    part(s, i, s.len())
}

// ---------------------------------------------------------------------
// Lines
// ---------------------------------------------------------------------

/// A line without the carriage return that ends it.
pub open spec fn strip_cr(s: Seq<char>) -> Seq<char> {
    if s.len() > 0 && s.last() == '\r' {
        s.drop_last()
    } else {
        s
    }
}

/// The lines of `s` from position `i` on: cut at each line feed, without a
/// carriage return before it; the last one need not end in a line feed.
pub open spec fn lines_from(s: Seq<char>, i: int) -> Seq<Seq<char>>
    decreases s.len() - i,
{
    if i < 0 || i >= s.len() {
        seq![]
    } else {
        let e = stop_index(s, false, seq!['\n'], i);
        if i <= e < s.len() {
            seq![strip_cr(s.subrange(i, e))] + lines_from(s, e + 1)
        } else {
            seq![s.subrange(i, s.len() as int)]
        }
    }
}

/// The lines of a text.
pub open spec fn lines(s: Seq<char>) -> Seq<Seq<char>> {
    lines_from(s, 0)
}

/// The characters of each slice of a list.
pub open spec fn slices(v: Seq<&[char]>) -> Seq<Seq<char>> {
    v.map_values(|s: &[char]| s@)
}

/// Computes [`lines`].
pub fn split_lines(s: &[char]) -> (r: Vec<&[char]>)
    ensures
        slices(r@) == lines(s@),
{
    let mut out: Vec<&[char]> = Vec::new();
    let mut i: usize = 0;
    assert(slices(out@) + lines_from(s@, 0) =~= lines_from(s@, 0));
    while i < s.len()
        invariant
            i <= s.len(),
            slices(out@) + lines_from(s@, i as int) == lines(s@),
        decreases s.len() - i,
    {
        let e = find_stop(s, false, "\n", i);
        proof {
            reveal_strlit("\n");
            assert("\n"@ =~= seq!['\n']);
        }
        let ghost before = out@;
        if e < s.len() {
            let raw = part(s, i, e);
            let line = if raw.len() > 0 && raw[raw.len() - 1] == '\r' {
                part(raw, 0, raw.len() - 1)
            } else {
                raw
            };
            assert(line@ == strip_cr(raw@));
            out.push(line);
            proof {
                assert(slices(out@) =~= slices(before).push(line@));
                assert(slices(before) + (seq![line@] + lines_from(s@, e + 1)) =~= slices(
                    before,
                ).push(line@) + lines_from(s@, e + 1));
            }
            i = e + 1;
        } else {
            let line = part(s, i, s.len());
            out.push(line);
            proof {
                assert(slices(out@) =~= slices(before).push(line@));
                assert(slices(before) + seq![line@] =~= slices(before).push(line@) + seq![]);
                assert(lines_from(s@, s@.len() as int) == Seq::<Seq<char>>::empty());
            }
            i = s.len();
        }
    }
    assert(slices(out@) + lines_from(s@, i as int) =~= slices(out@));
    out
}

/// Texts one after the other, with a separator between them.
pub open spec fn joined(items: Seq<Seq<char>>, sep: Seq<char>) -> Seq<char>
    decreases items.len(),
{
    if items.len() == 0 {
        seq![]
    } else if items.len() == 1 {
        items[0]
    } else {
        joined(items.drop_last(), sep) + sep + items.last()
    }
}

/// Computes [`joined`].
pub fn join(items: &Vec<String>, sep: &str) -> (r: String)
    ensures
        r@ == joined(views(items@), sep@),
{
    let mut out = String::new();
    let mut i: usize = 0;
    let ghost all = views(items@);
    while i < items.len()
        invariant
            i <= items.len(),
            all == views(items@),
            out@ == joined(all.take(i as int), sep@),
        decreases items.len() - i,
    {
        if i > 0 {
            out.append(sep);
        }
        out.append(items[i].as_str());
        proof {
            let now = all.take(i as int + 1);
            assert(now.drop_last() =~= all.take(i as int));
            assert(now.last() == items@[i as int]@);
            if i == 0 {
                assert(out@ =~= items@[0]@);
            }
        }
        i = i + 1;
    }
    assert(all.take(all.len() as int) =~= all);
    out
}

/// What `Debug` formatting writes for a list whose items it writes as given.
pub open spec fn debug_list(items: Seq<Seq<char>>) -> Seq<char> {
    "["@ + joined(items, ", "@) + "]"@
}

/// What `Debug` formatting writes for a list of strings.
pub open spec fn debug_strings(items: Seq<Seq<char>>) -> Seq<char> {
    debug_list(items.map_values(|s: Seq<char>| debug_quoted(s)))
}

/// Writes a list of strings as `Debug` formatting does.
pub(crate) fn debug_string_list(items: &Vec<String>) -> (r: String)
    ensures
        r@ == debug_strings(views(items@)),
{
    let mut quoted: Vec<String> = Vec::new();
    let mut i: usize = 0;
    while i < items.len()
        invariant
            i <= items.len(),
            quoted@.len() == i,
            forall|k: int| 0 <= k < i ==> (#[trigger] quoted@[k])@ == debug_quoted(items@[k]@),
        decreases items.len() - i,
    {
        quoted.push(debug_str(items[i].as_str()));
        i = i + 1;
    }
    assert(views(quoted@) =~= views(items@).map_values(|s: Seq<char>| debug_quoted(s)));
    let mut r = String::from_str("[");
    r.append(join(&quoted, ", ").as_str());
    r.append("]");
    r
}

/// The pieces of `s` from position `i` on between the characters `c`; there is
/// always a last piece, though it may be empty.
pub open spec fn split_from(s: Seq<char>, c: char, i: int) -> Seq<Seq<char>>
    decreases s.len() - i,
{
    let e = stop_index(s, false, seq![c], i);
    if 0 <= i <= e < s.len() {
        seq![s.subrange(i, e)] + split_from(s, c, e + 1)
    } else {
        seq![s.subrange(i, s.len() as int)]
    }
}

/// The pieces of `s` between the characters `c`.
pub open spec fn split(s: Seq<char>, c: char) -> Seq<Seq<char>> {
    split_from(s, c, 0)
}

/// Computes [`stop_index`] for one character.
pub fn find_char(s: &[char], c: char, from: usize) -> (r: usize)
    requires
        from <= s@.len(),
    ensures
        r == stop_index(s@, false, seq![c], from as int),
        from <= r <= s@.len() <= usize::MAX,
        r < s@.len() ==> s@[r as int] == c,
{
    let mut i: usize = from;
    while i < s.len()
        invariant
            from <= i <= s.len(),
            stop_index(s@, false, seq![c], from as int) == stop_index(
                s@,
                false,
                seq![c],
                i as int,
            ),
        decreases s.len() - i,
    {
        if s[i] == c {
            assert(seq![c][0] == c);
            return i;
        }
        assert(!seq![c].contains(s@[i as int]));
        i = i + 1;
    }
    i
}

/// Computes [`split`].
pub fn split_char(s: &[char], c: char) -> (r: Vec<&[char]>)
    ensures
        slices(r@) == split(s@, c),
        r@.len() >= 1,
{
    let mut out: Vec<&[char]> = Vec::new();
    let mut i: usize = 0;
    assert(slices(out@) + split_from(s@, c, 0) =~= split_from(s@, c, 0));
    loop
        invariant
            i <= s@.len(),
            slices(out@) + split_from(s@, c, i as int) == split(s@, c),
        decreases s@.len() - i,
    {
        let e = find_char(s, c, i);
        let ghost before = out@;
        let piece = part(s, i, e);
        out.push(piece);
        proof {
            assert(slices(out@) =~= slices(before).push(piece@));
        }
        if e >= s.len() {
            assert(slices(before) + seq![piece@] =~= slices(out@));
            return out;
        }
        assert(slices(before) + (seq![piece@] + split_from(s@, c, e + 1)) =~= slices(out@)
            + split_from(s@, c, e + 1));
        i = e + 1;
    }
}

/// The pieces of `s` from position `i` on between characters of `set`.
pub open spec fn split_any_from(s: Seq<char>, set: Seq<char>, i: int) -> Seq<Seq<char>>
    decreases s.len() - i,
{
    let e = stop_index(s, false, set, i);
    if 0 <= i <= e < s.len() {
        seq![s.subrange(i, e)] + split_any_from(s, set, e + 1)
    } else {
        seq![s.subrange(i, s.len() as int)]
    }
}

/// The pieces of `s` between characters of `set`.
pub open spec fn split_any(s: Seq<char>, set: Seq<char>) -> Seq<Seq<char>> {
    split_any_from(s, set, 0)
}

/// Computes [`split_any`].
pub fn split_stops<'a>(s: &'a [char], set: &str) -> (r: Vec<&'a [char]>)
    ensures
        slices(r@) == split_any(s@, set@),
        r@.len() >= 1,
{
    let mut out: Vec<&'a [char]> = Vec::new();
    let mut i: usize = 0;
    let n: usize = s.len();
    assert(slices(out@) + split_any_from(s@, set@, 0) =~= split_any_from(s@, set@, 0));
    loop
        invariant
            i <= s@.len(),
            n == s@.len(),
            slices(out@) + split_any_from(s@, set@, i as int) == split_any(s@, set@),
        decreases s@.len() - i,
    {
        let e = find_stop(s, false, set, i);
        let ghost before = out@;
        let piece = part(s, i, e);
        out.push(piece);
        proof {
            assert(slices(out@) =~= slices(before).push(piece@));
        }
        if e >= n {
            assert(slices(before) + seq![piece@] =~= slices(out@));
            return out;
        }
        assert(slices(before) + (seq![piece@] + split_any_from(s@, set@, e + 1)) =~= slices(out@)
            + split_any_from(s@, set@, e + 1));
        i = e + 1;
    }
}

/// The last position before `end` at which `p` stands in `s`, or -1.
pub open spec fn rfind_before(s: Seq<char>, p: Seq<char>, end: int) -> int
    decreases end,
{
    if end <= 0 {
        -1
    } else if occurs_at(s, p, end - 1) {
        end - 1
    } else {
        rfind_before(s, p, end - 1)
    }
}

/// The last position at which `p` stands in `s`, or -1.
pub open spec fn rfind(s: Seq<char>, p: Seq<char>) -> int {
    rfind_before(s, p, s.len() as int + 1)
}

/// Computes [`rfind`].
pub fn rfind_str(s: &[char], p: &str) -> (r: Option<usize>)
    ensures
        r is Some <==> rfind(s@, p@) >= 0,
        r is Some ==> r->0 == rfind(s@, p@),
        r is Some ==> r->0 + p@.len() <= s@.len() <= usize::MAX,
{
    let pat = to_chars(p);
    if occurs(s, &pat, s.len()) {
        return Some(s.len());
    }
    let mut i: usize = s.len();
    while i > 0
        invariant
            i <= s.len(),
            pat@ == p@,
            rfind(s@, p@) == rfind_before(s@, p@, i as int),
        decreases i,
    {
        if occurs(s, &pat, i - 1) {
            return Some(i - 1);
        }
        i = i - 1;
    }
    None
}

/// The last position before `end` of a character of `set`, or of white space
/// where `ws` holds, or -1.
pub open spec fn last_stop(s: Seq<char>, ws: bool, set: Seq<char>, end: int) -> int
    decreases end,
{
    if end <= 0 || end > s.len() {
        -1
    } else if (ws && is_ws(s[end - 1])) || set.contains(s[end - 1]) {
        end - 1
    } else {
        last_stop(s, ws, set, end - 1)
    }
}

/// The position after the last stop (see [`last_stop`]), 0 where there is none.
pub fn after_last_stop(s: &[char], ws: bool, set: &str) -> (r: usize)
    ensures
        r == last_stop(s@, ws, set@, s@.len() as int) + 1,
        r <= s@.len(),
{
    let chars = to_chars(set);
    let mut i: usize = s.len();
    while i > 0
        invariant
            i <= s.len(),
            chars@ == set@,
            last_stop(s@, ws, set@, s@.len() as int) == last_stop(s@, ws, set@, i as int),
        decreases i,
    {
        if (ws && is_whitespace(s[i - 1])) || in_set(s[i - 1], &chars) {
            return i;
        }
        i = i - 1;
    }
    0
}

// ---------------------------------------------------------------------
// Bytes
// ---------------------------------------------------------------------

/// How many bytes UTF-8 takes for a character.
pub open spec fn utf8_width(c: char) -> nat {
    let u = c as u32;
    if u <= 0x7f {
        1
    } else if u <= 0x7ff {
        2
    } else if u <= 0xffff {
        3
    } else {
        4
    }
}

/// Computes [`utf8_width`].
pub fn char_width(c: char) -> (r: usize)
    ensures
        r == utf8_width(c),
{
    let u: u32 = c as u32;
    if u <= 0x7f {
        1
    } else if u <= 0x7ff {
        2
    } else if u <= 0xffff {
        3
    } else {
        4
    }
}

/// How many bytes UTF-8 takes for a text.
pub open spec fn byte_len(s: Seq<char>) -> nat
    decreases s.len(),
{
    if s.len() == 0 {
        0
    } else {
        utf8_width(s[0]) + byte_len(s.drop_first())
    }
}

/// [`byte_len`] is the length of the encoding.
proof fn lemma_byte_len(s: Seq<char>)
    ensures
        byte_len(s) == encode_utf8(s).len(),
    decreases s.len(),
{
    if s.len() > 0 {
        lemma_byte_len(s.drop_first());
        char_is_scalar(s[0]);
    }
}

proof fn lemma_byte_len_push(s: Seq<char>, c: char)
    ensures
        byte_len(s.push(c)) == byte_len(s) + utf8_width(c),
    decreases s.len(),
{
    if s.len() > 0 {
        lemma_byte_len_push(s.drop_first(), c);
        assert(s.push(c).drop_first() =~= s.drop_first().push(c));
    } else {
        reveal_with_fuel(byte_len, 2);
        assert(s.push(c).drop_first() =~= s);
    }
}

/// The position before which at most `max` bytes stand, from `i` on, of which
/// `used` are taken.
pub open spec fn clip_end(s: Seq<char>, max: nat, i: int, used: nat) -> int
    decreases s.len() - i,
{
    if 0 <= i < s.len() && used + utf8_width(s[i]) <= max {
        clip_end(s, max, i + 1, used + utf8_width(s[i]))
    } else {
        i
    }
}

/// The longest start of `s` that takes at most `max` bytes, with dots where
/// something was cut off.
pub open spec fn clip(s: Seq<char>, max: nat) -> Seq<char> {
    let e = clip_end(s, max, 0, 0);
    if e >= s.len() {
        s
    } else {
        s.take(e) + "..."@
    }
}

proof fn lemma_clip_end(s: Seq<char>, max: nat, i: int)
    requires
        0 <= i <= s.len(),
        byte_len(s.take(i)) <= max,
    ensures
        ({
            let e = clip_end(s, max, i, byte_len(s.take(i)));
            &&& i <= e <= s.len()
            &&& byte_len(s.take(e)) <= max
            &&& e < s.len() ==> byte_len(s.take(e + 1)) > max
        }),
    decreases s.len() - i,
{
    if i < s.len() {
        lemma_byte_len_push(s.take(i), s[i]);
        assert(s.take(i).push(s[i]) =~= s.take(i + 1));
        if byte_len(s.take(i + 1)) <= max {
            lemma_clip_end(s, max, i + 1);
        }
    }
}

proof fn lemma_byte_len_take(s: Seq<char>, i: int, n: int)
    requires
        0 <= i <= n <= s.len(),
    ensures
        byte_len(s.take(i)) <= byte_len(s.take(n)),
    decreases n,
{
    if i < n {
        lemma_byte_len_take(s, i, n - 1);
        lemma_byte_len_push(s.take(n - 1), s[n - 1]);
        assert(s.take(n - 1).push(s[n - 1]) =~= s.take(n));
    }
}

/// A text that fits is not clipped; of another one, as much is kept as fits, and
/// not a character more.
pub proof fn law_clip_fits(s: Seq<char>, max: nat)
    ensures
        encode_utf8(s).len() <= max ==> clip(s, max) == s,
        encode_utf8(s).len() > max ==> ({
            let e = clip_end(s, max, 0, 0);
            &&& 0 <= e < s.len()
            &&& clip(s, max) == s.take(e) + "..."@
            &&& encode_utf8(s.take(e)).len() <= max
            &&& encode_utf8(s.take(e + 1)).len() > max
        }),
{
    assert(s.take(0) =~= Seq::<char>::empty());
    lemma_clip_end(s, max, 0);
    let e = clip_end(s, max, 0, 0);
    assert(s.take(s.len() as int) =~= s);
    lemma_byte_len(s);
    lemma_byte_len(s.take(e));
    if e < s.len() {
        lemma_byte_len(s.take(e + 1));
        lemma_byte_len_take(s, e + 1, s.len() as int);
    }
}

/// Computes [`clip`].
pub fn clipped(s: &[char], max: usize) -> (r: String)
    ensures
        r@ == clip(s@, max as nat),
{
    let mut used: usize = 0;
    let mut i: usize = 0;
    while i < s.len() && char_width(s[i]) <= max - used
        invariant
            i <= s.len(),
            used <= max,
            clip_end(s@, max as nat, 0, 0) == clip_end(s@, max as nat, i as int, used as nat),
        decreases s.len() - i,
    {
        used = used + char_width(s[i]);
        i = i + 1;
    }
    if i >= s.len() {
        from_chars(s)
    } else {
        let mut r = from_chars(part(s, 0, i));
        r.append("...");
        assert(s@.take(i as int) =~= s@.subrange(0, i as int));
        r
    }
}

// ---------------------------------------------------------------------
// Unicode properties of the standard library
// ---------------------------------------------------------------------

/// What the standard library makes of a text in lower case.
pub uninterp spec fn lowercased(s: Seq<char>) -> Seq<char>;

/// `str::to_lowercase` of the standard library. Its result is named
/// [`lowercased`]; the mapping itself is Unicode's and is not stated.
#[verifier::external_body]
pub(crate) fn to_lowercase(s: &str) -> (r: String)
    ensures
        r@ == lowercased(s@),
{
    s.to_lowercase()
}

/// Whether the standard library counts a character as a letter or a digit.
pub uninterp spec fn std_alphanumeric(c: char) -> bool;

/// `char::is_alphanumeric` of the standard library. Its result is named
/// [`std_alphanumeric`]; the classes themselves are Unicode's and are not
/// stated.
#[verifier::external_body]
fn char_is_alphanumeric(c: char) -> (r: bool)
    ensures
        r == std_alphanumeric(c),
{
    c.is_alphanumeric()
}

/// Whether a character is a letter or a digit: in ASCII `0` to `9`, `A` to `Z`
/// and `a` to `z`, beyond it as the standard library says.
pub open spec fn is_alnum(c: char) -> bool {
    if c as u32 <= 0x7f {
        '0' <= c <= '9' || 'A' <= c <= 'Z' || 'a' <= c <= 'z'
    } else {
        std_alphanumeric(c)
    }
}

/// Computes [`is_alnum`].
pub fn is_alphanumeric(c: char) -> (r: bool)
    ensures
        r == is_alnum(c),
{
    if c as u32 <= 0x7f {
        ('0' <= c && c <= '9') || ('A' <= c && c <= 'Z') || ('a' <= c && c <= 'z')
    } else {
        char_is_alphanumeric(c)
    }
}

/// Whether a character is an ASCII letter.
pub open spec fn is_ascii_letter(c: char) -> bool {
    'A' <= c <= 'Z' || 'a' <= c <= 'z'
}

/// Computes [`is_ascii_letter`].
pub fn is_letter(c: char) -> (r: bool)
    ensures
        r == is_ascii_letter(c),
{
    ('A' <= c && c <= 'Z') || ('a' <= c && c <= 'z')
}

// ---------------------------------------------------------------------
// Paths
// ---------------------------------------------------------------------

/// The last of the first `n` pieces of a path that is neither empty nor `.`.
pub open spec fn last_piece(pieces: Seq<Seq<char>>, n: int) -> Option<Seq<char>>
    decreases n,
{
    if n <= 0 {
        None
    } else if pieces[n - 1].len() == 0 || pieces[n - 1] == seq!['.'] {
        last_piece(pieces, n - 1)
    } else {
        Some(pieces[n - 1])
    }
}

/// The file name of a path whose parts are divided by slashes: its last part,
/// where empty parts and `.` do not count; none where that is `..`.
pub open spec fn file_name(path: Seq<char>) -> Option<Seq<char>> {
    let pieces = split(path, '/');
    match last_piece(pieces, pieces.len() as int) {
        Some(p) => if p == seq!['.', '.'] {
            None
        } else {
            Some(p)
        },
        None => None,
    }
}

/// Computes [`file_name`].
pub fn file_name_of(path: &[char]) -> (r: Option<&[char]>)
    ensures
        r is Some <==> file_name(path@) is Some,
        r is Some ==> file_name(path@) == Some(r->0@),
{
    let pieces = split_char(path, '/');
    let ghost all = split(path@, '/');
    let mut n: usize = pieces.len();
    while n > 0
        invariant
            n <= pieces.len(),
            slices(pieces@) == all,
            all == split(path@, '/'),
            last_piece(all, all.len() as int) == last_piece(all, n as int),
        decreases n,
    {
        let p: &[char] = pieces[n - 1];
        assert(slices(pieces@)[n - 1] == p@);
        if p.len() == 0 || (p.len() == 1 && p[0] == '.') {
            assert(p@.len() == 0 || p@ =~= seq!['.']);
            n = n - 1;
        } else {
            assert(p@ != seq!['.']) by {
                assert(seq!['.'].len() == 1 && seq!['.'][0] == '.');
            }
            if p.len() == 2 && p[0] == '.' && p[1] == '.' {
                assert(p@ =~= seq!['.', '.']);
                return None;
            }
            assert(p@ != seq!['.', '.']) by {
                assert(seq!['.', '.'].len() == 2 && seq!['.', '.'][0] == '.' && seq!['.', '.'][1]
                    == '.');
            }
            return Some(p);
        }
    }
    None
}

/// A path below a directory, whose parts are divided by slashes: an absolute
/// name stands for itself.
pub open spec fn under(dir: Seq<char>, name: Seq<char>) -> Seq<char> {
    if name.len() > 0 && name[0] == '/' {
        name
    } else if dir.len() == 0 || dir.last() == '/' {
        dir + name
    } else {
        dir + seq!['/'] + name
    }
}

/// Computes [`under`].
pub fn join_path(dir: &str, name: &str) -> (r: String)
    ensures
        r@ == under(dir@, name@),
{
    let d = to_chars(dir);
    let n = to_chars(name);
    if n.len() > 0 && n[0] == '/' {
        return name.to_string();
    }
    let mut s = dir.to_string();
    if d.len() > 0 && d[d.len() - 1] != '/' {
        s.push('/');
        assert(s@ =~= dir@ + seq!['/']);
    }
    s.append(name);
    s
}

// ---------------------------------------------------------------------
// Numbers
// ---------------------------------------------------------------------

/// The character of a decimal digit.
pub open spec fn digit_char(d: int) -> char {
    (d + 48) as char
}

/// A number in decimal, without leading zeros.
pub open spec fn dec(n: nat) -> Seq<char>
    decreases n,
{
    if n < 10 {
        seq![digit_char(n as int)]
    } else {
        dec(n / 10).push(digit_char((n % 10) as int))
    }
}

/// Writes a number in decimal.
pub fn dec_string(n: u64) -> (r: String)
    ensures
        r@ == dec(n as nat),
    decreases n,
{
    let d: u8 = (n % 10) as u8;
    let c: char = (d + 48) as char;
    if n < 10 {
        let mut s = String::new();
        s.push(c);
        assert(s@ =~= seq![digit_char(n as int)]);
        s
    } else {
        let mut s = dec_string(n / 10);
        s.push(c);
        s
    }
}

/// A number in decimal, with a minus sign where it is negative.
pub open spec fn dec_signed(n: int) -> Seq<char> {
    if n < 0 {
        seq!['-'] + dec((-n) as nat)
    } else {
        dec(n as nat)
    }
}

/// Writes a signed number in decimal.
pub fn dec_signed_string(n: i64) -> (r: String)
    ensures
        r@ == dec_signed(n as int),
{
    if n >= 0 {
        dec_string(n as u64)
    } else {
        let m: u64 = if n == i64::MIN {
            0x8000_0000_0000_0000u64
        } else {
            (-n) as u64
        };
        let mut s = String::new();
        s.push('-');
        s.append(dec_string(m).as_str());
        assert(s@ =~= seq!['-'] + dec(m as nat));
        s
    }
}

} // verus!
