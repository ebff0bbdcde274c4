//! What holds of texts: where one stands in another, what trimming leaves, and
//! which lines and pieces a text has.
use vstd::prelude::*;

use crate::text;

verus! {

// ---------------------------------------------------------------------
// Occurrences
// ---------------------------------------------------------------------

/// A text with something before and after it.
pub open spec fn around(a: Seq<char>, p: Seq<char>, b: Seq<char>) -> Seq<char> {
    a + p + b
}

/// A text stands in every text that is put together around it.
pub proof fn law_contains_what_was_put_in(a: Seq<char>, p: Seq<char>, b: Seq<char>)
    ensures
        text::contains(a + p + b, p),
{
    let s = a + p + b;
    assert(s.subrange(a.len() as int, a.len() as int + p.len()) =~= p);
    assert(text::occurs_at(s, p, a.len() as int));
    text::lemma_contains(s, p);
}

/// A text that stands in another still does when more is written around.
pub proof fn law_contains_grows(a: Seq<char>, s: Seq<char>, b: Seq<char>, p: Seq<char>)
    requires
        text::contains(s, p),
    ensures
        text::contains(a + s + b, p),
{
    text::lemma_contains(s, p);
    let i = choose|i: int| text::occurs_at(s, p, i);
    let t = a + s + b;
    assert(t.subrange(a.len() + i, a.len() + i + p.len()) =~= s.subrange(i, i + p.len()));
    assert(text::occurs_at(t, p, a.len() + i));
    text::lemma_contains(t, p);
}

/// A text stands in another exactly where it can be cut out of it.
pub proof fn law_contains_is_a_cut(s: Seq<char>, p: Seq<char>)
    ensures
        text::contains(s, p) <==> exists|a: Seq<char>, b: Seq<char>| s == #[trigger] around(a, p, b),
{
    text::lemma_contains(s, p);
    if text::contains(s, p) {
        let i = choose|i: int| text::occurs_at(s, p, i);
        let a = s.take(i);
        let b = s.skip(i + p.len());
        assert(s =~= around(a, p, b)) by {
            assert forall|k: int| 0 <= k < s.len() implies s[k] == (a + p + b)[k] by {
                if i <= k < i + p.len() {
                    assert(s.subrange(i, i + p.len())[k - i] == p[k - i]);
                }
            }
        }
    }
    if exists|a: Seq<char>, b: Seq<char>| s == #[trigger] around(a, p, b) {
        let (a, b) = choose|a: Seq<char>, b: Seq<char>| s == #[trigger] around(a, p, b);
        law_contains_what_was_put_in(a, p, b);
    }
}

/// Where a text stands, its characters stand.
pub proof fn lemma_occurs_char(s: Seq<char>, p: Seq<char>, i: int, q: int)
    requires
        text::occurs_at(s, p, i),
        0 <= q < p.len(),
    ensures
        s[i + q] == p[q],
{
    assert(s.subrange(i, i + p.len())[q] == p[q]);
}

/// A text without one of the characters of another does not hold the other.
pub proof fn lemma_lacks(s: Seq<char>, p: Seq<char>, q: int)
    requires
        0 <= q < p.len(),
        forall|k: int| 0 <= k < s.len() ==> s[k] != p[q],
    ensures
        !text::contains(s, p),
        forall|i: int| !#[trigger] text::occurs_at(s, p, i),
{
    assert forall|i: int| !#[trigger] text::occurs_at(s, p, i) by {
        if text::occurs_at(s, p, i) {
            lemma_occurs_char(s, p, i, q);
        }
    }
    text::lemma_contains(s, p);
}

/// The first occurrence is where the text was put, if none begins before.
pub proof fn lemma_find_at(a: Seq<char>, p: Seq<char>, b: Seq<char>)
    requires
        forall|i: int| 0 <= i < a.len() ==> !text::occurs_at(a + p + b, p, i),
    ensures
        text::find(a + p + b, p) == Some(a.len() as int),
{
    let s = a + p + b;
    assert(s.subrange(a.len() as int, a.len() as int + p.len()) =~= p);
    assert(text::occurs_at(s, p, a.len() as int));
    text::lemma_find_from(s, p, 0);
}

// ---------------------------------------------------------------------
// Ends
// ---------------------------------------------------------------------

/// A text begins and ends with what it was put together from.
pub proof fn law_ends(a: Seq<char>, b: Seq<char>)
    ensures
        text::starts_with(a + b, a),
        text::ends_with(a + b, b),
{
    let s = a + b;
    assert(s.subrange(0, a.len() as int) =~= a);
    assert(s.subrange(a.len() as int, a.len() as int + b.len()) =~= b);
}

/// A text that begins with another is that one and a rest; likewise at the end.
pub proof fn law_ends_are_cuts(s: Seq<char>, p: Seq<char>)
    ensures
        text::starts_with(s, p) ==> s == p + s.skip(p.len() as int),
        text::ends_with(s, p) ==> s == s.take(s.len() - p.len()) + p,
{
    let n = p.len() as int;
    if text::starts_with(s, p) {
        assert(s =~= s.subrange(0, n) + s.skip(n));
    }
    if text::ends_with(s, p) {
        let m = s.len() - n;
        assert(s =~= s.take(m) + s.subrange(m, m + n));
    }
}

// ---------------------------------------------------------------------
// White space
// ---------------------------------------------------------------------

/// Whether a text is white space alone.
pub open spec fn is_blank(s: Seq<char>) -> bool {
    forall|k: int| 0 <= k < s.len() ==> text::is_ws(#[trigger] s[k])
}

/// Whether a text has something in it and no white space at its ends.
pub open spec fn is_core(s: Seq<char>) -> bool {
    s.len() > 0 && !text::is_ws(s[0]) && !text::is_ws(s.last())
}

/// What is written on a keyboard to part words is white space, and no letter,
/// digit or sign of ASCII is.
pub proof fn law_white_space(c: char)
    ensures
        text::is_ws(' ') && text::is_ws('\t') && text::is_ws('\n') && text::is_ws('\r'),
        '!' <= c <= '~' ==> !text::is_ws(c),
{
}

proof fn lemma_skip_blank(l: Seq<char>, rest: Seq<char>, i: int)
    requires
        0 <= i <= l.len(),
        is_blank(l),
        rest.len() > 0 ==> !text::is_ws(rest[0]),
    ensures
        text::skip(l + rest, true, ' ', i) == l.len(),
    decreases l.len() - i,
{
    let s = l + rest;
    if i < l.len() {
        assert(text::is_ws(l[i]));
        assert(s[i] == l[i]);
        lemma_skip_blank(l, rest, i + 1);
    } else if rest.len() > 0 {
        assert(s[i] == rest[0]);
    }
}

proof fn lemma_back_blank(head: Seq<char>, r: Seq<char>, lo: int, n: int)
    requires
        0 <= n <= r.len(),
        0 <= lo <= head.len(),
        is_blank(r),
        lo < head.len() ==> !text::is_ws(head.last()),
    ensures
        text::back(head + r, true, ' ', lo, head.len() + n) == head.len(),
    decreases n,
{
    let s = head + r;
    if n > 0 {
        assert(text::is_ws(r[n - 1]));
        assert(s[head.len() + n - 1] == r[n - 1]);
        lemma_back_blank(head, r, lo, n - 1);
    } else if lo < head.len() {
        assert(s[head.len() - 1] == head.last());
    }
}

/// Trimming takes the white space around a text, all of it and nothing else.
pub proof fn law_trim(l: Seq<char>, core: Seq<char>, r: Seq<char>)
    requires
        is_blank(l),
        is_blank(r),
        core.len() == 0 || is_core(core),
    ensures
        text::trim(l + core + r) == core,
{
    let s = l + core + r;
    if core.len() > 0 {
        assert(s =~= l + (core + r));
        lemma_skip_blank(l, core + r, 0);
        let head = l + core;
        assert(s =~= head + r);
        lemma_back_blank(head, r, l.len() as int, r.len() as int);
        assert(s.subrange(l.len() as int, head.len() as int) =~= core);
    } else {
        let all = l + r;
        assert(s =~= all);
        assert(is_blank(all));
        assert(all =~= all + Seq::<char>::empty());
        lemma_skip_blank(all, seq![], 0);
        assert(text::trim(s) =~= core);
    }
}

/// What trimming leaves is nothing, or has no white space at its ends; what it
/// takes is white space.
pub proof fn law_trim_leaves_a_core(s: Seq<char>)
    ensures
        text::trim(s).len() == 0 || is_core(text::trim(s)),
        exists|l: Seq<char>, r: Seq<char>|
            is_blank(l) && is_blank(r) && s == #[trigger] around(l, text::trim(s), r),
        text::trim(text::trim(s)) == text::trim(s),
{
    let a = text::skip(s, true, ' ', 0);
    lemma_skip_bounds(s, 0);
    lemma_skipped(s, 0);
    lemma_back_bounds(s, a, s.len() as int);
    lemma_backed(s, a, s.len() as int);
    let b = text::back(s, true, ' ', a, s.len() as int);
    let l = s.take(a);
    let r = s.skip(b);
    let core = text::trim(s);
    if a < s.len() {
        if b == a {
            assert(text::is_ws(r[0]));
        }
        assert(core[0] == s[a]);
        assert(core.last() == s[b - 1]);
    }
    assert(s =~= around(l, core, r));
    law_trim(l, core, r);
    assert(is_blank(Seq::<char>::empty()));
    law_trim(seq![], core, seq![]);
    assert(Seq::<char>::empty() + core + Seq::<char>::empty() =~= core);
}

proof fn lemma_skipped(s: Seq<char>, i: int)
    requires
        0 <= i <= s.len(),
    ensures
        forall|k: int| i <= k < text::skip(s, true, ' ', i) ==> text::is_ws(#[trigger] s[k]),
        text::skip(s, true, ' ', i) < s.len() ==> !text::is_ws(s[text::skip(s, true, ' ', i)]),
    decreases s.len() - i,
{
    if i < s.len() && text::trims(true, ' ', s[i]) {
        lemma_skipped(s, i + 1);
    }
}

proof fn lemma_backed(s: Seq<char>, lo: int, hi: int)
    requires
        0 <= lo <= hi <= s.len(),
    ensures
        forall|k: int|
            text::back(s, true, ' ', lo, hi) <= k < hi ==> text::is_ws(#[trigger] s[k]),
    decreases hi - lo,
{
    if lo < hi && text::trims(true, ' ', s[hi - 1]) {
        lemma_backed(s, lo, hi - 1);
    }
}

pub proof fn lemma_stop_skips(s: Seq<char>, c: char, i: int, e: int)
    requires
        0 <= i <= e <= s.len(),
        forall|k: int| i <= k < e ==> s[k] != c,
        e < s.len() ==> s[e] == c,
    ensures
        text::stop_index(s, false, seq![c], i) == e,
    decreases e - i,
{
    if i < e {
        assert(!seq![c].contains(s[i])) by {
            assert(seq![c][0] == c);
        }
        lemma_stop_skips(s, c, i + 1, e);
    } else if e < s.len() {
        assert(seq![c][0] == c);
    }
}

/// Lines from a position on depend on the rest of the text alone.
pub proof fn lemma_lines_shift(a: Seq<char>, b: Seq<char>, i: int)
    requires
        0 <= i <= b.len(),
    ensures
        text::lines_from(a + b, a.len() + i) == text::lines_from(b, i),
    decreases b.len() - i,
{
    let s = a + b;
    if i < b.len() {
        lemma_stop_shift(a, b, '\n', i);
        lemma_stop_bounds(b, '\n', i);
        let e = text::stop_index(b, false, seq!['\n'], i);
        assert(s.subrange(a.len() + i, a.len() + e) =~= b.subrange(i, e));
        if e < b.len() {
            lemma_lines_shift(a, b, e + 1);
        }
    }
}

pub proof fn lemma_stop_bounds(s: Seq<char>, c: char, i: int)
    requires
        0 <= i <= s.len(),
    ensures
        i <= text::stop_index(s, false, seq![c], i) <= s.len(),
        text::stop_index(s, false, seq![c], i) < s.len() ==> s[text::stop_index(
            s,
            false,
            seq![c],
            i,
        )] == c,
        forall|k: int| i <= k < text::stop_index(s, false, seq![c], i) ==> s[k] != c,
    decreases s.len() - i,
{
    if i < s.len() {
        assert(seq![c][0] == c);
        if !seq![c].contains(s[i]) {
            lemma_stop_bounds(s, c, i + 1);
        }
    }
}

pub proof fn lemma_stop_shift(a: Seq<char>, b: Seq<char>, c: char, i: int)
    requires
        0 <= i <= b.len(),
    ensures
        text::stop_index(a + b, false, seq![c], a.len() + i) == a.len() + text::stop_index(
            b,
            false,
            seq![c],
            i,
        ),
    decreases b.len() - i,
{
    if i < b.len() {
        assert((a + b)[a.len() + i] == b[i]);
        if !seq![c].contains(b[i]) {
            lemma_stop_shift(a, b, c, i + 1);
        }
    }
}

/// A text that starts with a line has that line and those of the rest.
pub proof fn lemma_first_line(line: Seq<char>, rest: Seq<char>)
    requires
        forall|k: int| 0 <= k < line.len() ==> line[k] != '\n',
    ensures
        text::lines(line + seq!['\n'] + rest) == seq![text::strip_cr(line)] + text::lines(rest),
{
    let head = line + seq!['\n'];
    let s = head + rest;
    assert(s[line.len() as int] == '\n');
    assert forall|k: int| 0 <= k < line.len() implies s[k] != '\n' by {
        assert(s[k] == line[k]);
    }
    lemma_stop_skips(s, '\n', 0, line.len() as int);
    assert(s.subrange(0, line.len() as int) =~= line);
    lemma_lines_shift(head, rest, 0);
}

/// No line of a text holds a line feed.
pub proof fn lemma_lines_have_no_feed(s: Seq<char>, i: int)
    requires
        0 <= i <= s.len(),
    ensures
        forall|n: int, k: int|
            0 <= n < text::lines_from(s, i).len() && 0 <= k < text::lines_from(s, i)[n].len()
                ==> text::lines_from(s, i)[n][k] != '\n',
    decreases s.len() - i,
{
    if i < s.len() {
        lemma_stop_bounds(s, '\n', i);
        let e = text::stop_index(s, false, seq!['\n'], i);
        if e < s.len() {
            lemma_lines_have_no_feed(s, e + 1);
            let rest = text::lines_from(s, e + 1);
            let first = text::strip_cr(s.subrange(i, e));
            let all = seq![first] + rest;
            assert forall|n: int, k: int|
                0 <= n < all.len() && 0 <= k < all[n].len() implies all[n][k] != '\n' by {
                if n == 0 {
                    assert(all[0] == first);
                    assert(first[k] == s[i + k]);
                } else {
                    assert(all[n] == rest[n - 1]);
                }
            }
        }
    }
}

pub proof fn lemma_trim_plain(s: Seq<char>)
    requires
        s.len() > 0,
        !text::is_ws(s[0]),
        !text::is_ws(s.last()),
    ensures
        text::trim(s) == s,
{
    assert(text::skip(s, true, ' ', 0) == 0);
    assert(text::back(s, true, ' ', 0, s.len() as int) == s.len());
    assert(s.subrange(0, s.len() as int) =~= s);
}

pub proof fn lemma_skip_bounds(s: Seq<char>, i: int)
    requires
        0 <= i <= s.len(),
    ensures
        i <= text::skip(s, true, ' ', i) <= s.len(),
    decreases s.len() - i,
{
    if i < s.len() && text::trims(true, ' ', s[i]) {
        lemma_skip_bounds(s, i + 1);
    }
}

pub proof fn lemma_back_bounds(s: Seq<char>, lo: int, hi: int)
    requires
        0 <= lo <= hi <= s.len(),
    ensures
        lo <= text::back(s, true, ' ', lo, hi) <= hi,
        lo < text::back(s, true, ' ', lo, hi) ==> !text::is_ws(
            s[text::back(s, true, ' ', lo, hi) - 1],
        ),
    decreases hi - lo,
{
    if lo < hi && text::trims(true, ' ', s[hi - 1]) {
        lemma_back_bounds(s, lo, hi - 1);
    }
}

/// A text on one line is its own only line.
pub proof fn law_one_line(line: Seq<char>)
    requires
        line.len() > 0,
        forall|k: int| 0 <= k < line.len() ==> line[k] != '\n',
    ensures
        text::lines(line) == seq![line],
{
    lemma_stop_skips(line, '\n', 0, line.len() as int);
    assert(line.subrange(0, line.len() as int) =~= line);
}

/// What stands before a line feed and what stands after it have their lines
/// each.
pub proof fn law_lines_of_parts(a: Seq<char>, b: Seq<char>)
    ensures
        text::lines(a + seq!['\n'] + b) == text::lines(a + seq!['\n']) + text::lines(b),
    decreases a.len(),
{
    lemma_stop_bounds(a, '\n', 0);
    let e = text::stop_index(a, false, seq!['\n'], 0);
    let first = a.take(e);
    assert forall|k: int| 0 <= k < first.len() implies first[k] != '\n' by {
        assert(first[k] == a[k]);
    }
    if e == a.len() {
        assert(first =~= a);
        lemma_first_line(a, b);
        lemma_first_line(a, seq![]);
        assert(a + seq!['\n'] + Seq::<char>::empty() =~= a + seq!['\n']);
        assert(text::lines(Seq::<char>::empty()) =~= seq![]);
        assert(seq![text::strip_cr(a)] + Seq::<Seq<char>>::empty() =~= seq![text::strip_cr(a)]);
    } else {
        let rest = a.skip(e + 1);
        law_lines_of_parts(rest, b);
        lemma_first_line(first, rest + seq!['\n'] + b);
        lemma_first_line(first, rest + seq!['\n']);
        assert(a =~= first + seq!['\n'] + rest);
        assert(first + seq!['\n'] + (rest + seq!['\n'] + b) =~= a + seq!['\n'] + b);
        assert(first + seq!['\n'] + (rest + seq!['\n']) =~= a + seq!['\n']);
        let l = seq![text::strip_cr(first)];
        assert(l + (text::lines(rest + seq!['\n']) + text::lines(b)) =~= (l + text::lines(
            rest + seq!['\n'],
        )) + text::lines(b));
    }
}

/// Whether a text stands in a log as a line of its own: after the start or a
/// line feed, and before the end or a line feed.
pub open spec fn stands_as_line(log: Seq<char>, line: Seq<char>) -> bool {
    exists|a: Seq<char>, b: Seq<char>| #[trigger] framed(log, a, line, b)
}

/// Whether a log is what stands before a line, the line, and what stands after
/// it.
pub open spec fn framed(log: Seq<char>, a: Seq<char>, line: Seq<char>, b: Seq<char>) -> bool {
    &&& log == a + line + b
    &&& a.len() == 0 || a.last() == '\n'
    &&& b.len() == 0 || b[0] == '\n'
}

/// Whether a text can be a line: it has something in it, and neither a line feed
/// nor a carriage return.
pub open spec fn can_be_line(line: Seq<char>) -> bool {
    line.len() > 0 && forall|k: int| 0 <= k < line.len() ==> line[k] != '\n' && line[k] != '\r'
}

/// A text that stands in a log as a line of its own is one of its lines.
pub proof fn law_line_is_found(log: Seq<char>, line: Seq<char>)
    requires
        stands_as_line(log, line),
        can_be_line(line),
    ensures
        text::lines(log).contains(line),
{
    let (a, b) = choose|a: Seq<char>, b: Seq<char>| #[trigger] framed(log, a, line, b);
    let tail = line + b;
    let own = text::lines(tail);
    if b.len() == 0 {
        assert(tail =~= line);
        law_one_line(line);
    } else {
        let rest = b.skip(1);
        assert(tail =~= line + seq!['\n'] + rest);
        lemma_first_line(line, rest);
        assert(text::strip_cr(line) == line);
    }
    assert(own[0] == line);
    if a.len() == 0 {
        assert(log =~= tail);
        assert(text::lines(log)[0] == line);
    } else {
        let head = a.drop_last();
        assert(log =~= head + seq!['\n'] + tail);
        law_lines_of_parts(head, tail);
        let n = text::lines(head + seq!['\n']).len();
        assert(text::lines(log)[n as int] == line);
    }
}

// ---------------------------------------------------------------------
// Pieces
// ---------------------------------------------------------------------

/// A text whose pieces are put together again, with the sign between them, is
/// the text; no piece holds the sign.
pub proof fn law_pieces_make_the_text(s: Seq<char>, c: char)
    ensures
        text::joined(text::split(s, c), seq![c]) == s,
        text::split(s, c).len() >= 1,
        forall|i: int, k: int|
            0 <= i < text::split(s, c).len() && 0 <= k < text::split(s, c)[i].len()
                ==> text::split(s, c)[i][k] != c,
{
    lemma_split_from(s, c, 0);
    assert(s.subrange(0, s.len() as int) =~= s);
}

proof fn lemma_split_from(s: Seq<char>, c: char, i: int)
    requires
        0 <= i <= s.len(),
    ensures
        text::joined(text::split_from(s, c, i), seq![c]) == s.subrange(i, s.len() as int),
        text::split_from(s, c, i).len() >= 1,
        forall|n: int, k: int|
            0 <= n < text::split_from(s, c, i).len() && 0 <= k < text::split_from(s, c, i)[n].len()
                ==> text::split_from(s, c, i)[n][k] != c,
    decreases s.len() - i,
{
    lemma_stop_bounds(s, c, i);
    let e = text::stop_index(s, false, seq![c], i);
    if e < s.len() {
        lemma_split_from(s, c, e + 1);
        let rest = text::split_from(s, c, e + 1);
        let first = s.subrange(i, e);
        let all = seq![first] + rest;
        lemma_joined_front(first, rest, seq![c]);
        assert(first + seq![c] + s.subrange(e + 1, s.len() as int) =~= s.subrange(
            i,
            s.len() as int,
        ));
        assert forall|n: int, k: int| 0 <= n < all.len() && 0 <= k < all[n].len() implies all[n][k]
            != c by {
            if n == 0 {
                assert(first[k] == s[i + k]);
            } else {
                assert(all[n] == rest[n - 1]);
            }
        }
    } else {
        let last = s.subrange(i, s.len() as int);
        assert forall|k: int| 0 <= k < last.len() implies last[k] != c by {
            assert(last[k] == s[i + k]);
        }
    }
}

/// Putting texts together with one more in front.
pub proof fn lemma_joined_front(first: Seq<char>, rest: Seq<Seq<char>>, sep: Seq<char>)
    requires
        rest.len() > 0,
    ensures
        text::joined(seq![first] + rest, sep) == first + sep + text::joined(rest, sep),
    decreases rest.len(),
{
    let all = seq![first] + rest;
    if rest.len() == 1 {
        assert(all.drop_last() =~= seq![first]);
        assert(text::joined(seq![first], sep) == first);
        assert(all.last() == rest[0]);
    } else {
        lemma_joined_front(first, rest.drop_last(), sep);
        assert(all.drop_last() =~= seq![first] + rest.drop_last());
        assert(all.last() == rest.last());
        let j = text::joined(rest.drop_last(), sep);
        assert((first + sep + j) + sep + rest.last() =~= first + sep + (j + sep + rest.last()));
    }
}

/// Pieces between one sign are pieces between the signs of a set of one.
pub proof fn lemma_split_is_split_any(s: Seq<char>, c: char, i: int)
    requires
        0 <= i <= s.len(),
    ensures
        text::split_from(s, c, i) == text::split_any_from(s, seq![c], i),
    decreases s.len() - i,
{
    lemma_stop_bounds(s, c, i);
    let e = text::stop_index(s, false, seq![c], i);
    if e < s.len() {
        lemma_split_is_split_any(s, c, e + 1);
    }
}

pub proof fn lemma_stop_any(s: Seq<char>, set: Seq<char>, i: int)
    requires
        0 <= i <= s.len(),
    ensures
        i <= text::stop_index(s, false, set, i) <= s.len(),
        text::stop_index(s, false, set, i) < s.len() ==> set.contains(
            s[text::stop_index(s, false, set, i)],
        ),
        forall|k: int| i <= k < text::stop_index(s, false, set, i) ==> !set.contains(#[trigger] s[k]),
    decreases s.len() - i,
{
    if i < s.len() && !set.contains(s[i]) {
        lemma_stop_any(s, set, i + 1);
    }
}

proof fn lemma_stop_any_at(s: Seq<char>, set: Seq<char>, i: int, e: int)
    requires
        0 <= i <= e <= s.len(),
        forall|k: int| i <= k < e ==> !set.contains(#[trigger] s[k]),
        e < s.len() ==> set.contains(s[e]),
    ensures
        text::stop_index(s, false, set, i) == e,
    decreases e - i,
{
    if i < e {
        assert(!set.contains(s[i]));
        lemma_stop_any_at(s, set, i + 1, e);
    }
}

proof fn lemma_stop_any_shift(a: Seq<char>, b: Seq<char>, set: Seq<char>, i: int)
    requires
        0 <= i <= b.len(),
    ensures
        text::stop_index(a + b, false, set, a.len() + i) == a.len() + text::stop_index(
            b,
            false,
            set,
            i,
        ),
    decreases b.len() - i,
{
    if i < b.len() {
        assert((a + b)[a.len() + i] == b[i]);
        if !set.contains(b[i]) {
            lemma_stop_any_shift(a, b, set, i + 1);
        }
    }
}

proof fn lemma_split_any_shift(a: Seq<char>, b: Seq<char>, set: Seq<char>, i: int)
    requires
        0 <= i <= b.len(),
    ensures
        text::split_any_from(a + b, set, a.len() + i) == text::split_any_from(b, set, i),
    decreases b.len() - i,
{
    let s = a + b;
    lemma_stop_any_shift(a, b, set, i);
    lemma_stop_any(b, set, i);
    let e = text::stop_index(b, false, set, i);
    if e < b.len() {
        assert(s.subrange(a.len() + i, a.len() + e) =~= b.subrange(i, e));
        lemma_split_any_shift(a, b, set, e + 1);
    } else {
        assert(s.subrange(a.len() + i, s.len() as int) =~= b.subrange(i, b.len() as int));
    }
}

/// A text without any of the signs is its own only piece.
pub proof fn law_one_piece(s: Seq<char>, set: Seq<char>)
    requires
        forall|k: int| 0 <= k < s.len() ==> !set.contains(#[trigger] s[k]),
    ensures
        text::split_any(s, set) == seq![s],
{
    lemma_stop_any_at(s, set, 0, s.len() as int);
    assert(s.subrange(0, s.len() as int) =~= s);
}

/// What stands before the first sign is a piece, and the rest has its own.
pub proof fn law_first_piece(a: Seq<char>, c: char, rest: Seq<char>, set: Seq<char>)
    requires
        set.contains(c),
        forall|k: int| 0 <= k < a.len() ==> !set.contains(#[trigger] a[k]),
    ensures
        text::split_any(a + seq![c] + rest, set) == seq![a] + text::split_any(rest, set),
{
    let head = a + seq![c];
    let s = head + rest;
    assert(s[a.len() as int] == c);
    assert forall|k: int| 0 <= k < a.len() implies !set.contains(#[trigger] s[k]) by {
        assert(s[k] == a[k]);
    }
    lemma_stop_any_at(s, set, 0, a.len() as int);
    assert(s.subrange(0, a.len() as int) =~= a);
    lemma_split_any_shift(head, rest, set, 0);
}

/// What stands before a sign and what stands after it have their pieces each.
pub proof fn law_pieces_of_parts(a: Seq<char>, c: char, b: Seq<char>, set: Seq<char>)
    requires
        set.contains(c),
    ensures
        text::split_any(a + seq![c] + b, set) == text::split_any(a, set) + text::split_any(b, set),
    decreases a.len(),
{
    lemma_stop_any(a, set, 0);
    let e = text::stop_index(a, false, set, 0);
    let first = a.take(e);
    assert forall|k: int| 0 <= k < first.len() implies !set.contains(#[trigger] first[k]) by {
        assert(first[k] == a[k]);
    }
    if e == a.len() {
        assert(first =~= a);
        law_first_piece(a, c, b, set);
        law_one_piece(a, set);
    } else {
        let d = a[e];
        let rest = a.skip(e + 1);
        law_pieces_of_parts(rest, c, b, set);
        law_first_piece(first, d, rest + seq![c] + b, set);
        law_first_piece(first, d, rest, set);
        assert(a =~= first + seq![d] + rest);
        assert(first + seq![d] + (rest + seq![c] + b) =~= a + seq![c] + b);
        let f = seq![first];
        assert(f + (text::split_any(rest, set) + text::split_any(b, set)) =~= (f + text::split_any(
            rest,
            set,
        )) + text::split_any(b, set));
    }
}

/// The same of pieces between one sign.
pub proof fn law_split_of_parts(a: Seq<char>, c: char, b: Seq<char>)
    ensures
        text::split(a + seq![c] + b, c) == text::split(a, c) + text::split(b, c),
        (forall|k: int| 0 <= k < a.len() ==> a[k] != c) ==> text::split(a, c) == seq![a],
{
    let set = seq![c];
    assert(set[0] == c);
    lemma_split_is_split_any(a + seq![c] + b, c, 0);
    lemma_split_is_split_any(a, c, 0);
    lemma_split_is_split_any(b, c, 0);
    law_pieces_of_parts(a, c, b, set);
    if forall|k: int| 0 <= k < a.len() ==> a[k] != c {
        assert forall|k: int| 0 <= k < a.len() implies !set.contains(#[trigger] a[k]) by {
            if set.contains(a[k]) {
                let q = choose|q: int| 0 <= q < set.len() && set[q] == a[k];
                assert(q == 0);
            }
        }
        law_one_piece(a, set);
    }
}

/// Every piece stands in the text.
pub proof fn law_pieces_stand_in_the_text(s: Seq<char>, set: Seq<char>, i: int)
    requires
        0 <= i <= s.len(),
    ensures
        forall|k: int|
            0 <= k < text::split_any_from(s, set, i).len() ==> text::contains(
                s,
                #[trigger] text::split_any_from(s, set, i)[k],
            ),
    decreases s.len() - i,
{
    lemma_stop_any(s, set, i);
    let e = text::stop_index(s, false, set, i);
    let all = text::split_any_from(s, set, i);
    if e < s.len() {
        law_pieces_stand_in_the_text(s, set, e + 1);
        let rest = text::split_any_from(s, set, e + 1);
        let first = s.subrange(i, e);
        law_contains_what_was_put_in(s.take(i), first, s.skip(e));
        assert(s.take(i) + first + s.skip(e) =~= s);
        assert forall|k: int| 0 <= k < all.len() implies text::contains(s, #[trigger] all[k]) by {
            if k > 0 {
                assert(all[k] == rest[k - 1]);
            }
        }
    } else {
        let last = s.subrange(i, s.len() as int);
        law_contains_what_was_put_in(s.take(i), last, seq![]);
        assert(s.take(i) + last + Seq::<char>::empty() =~= s);
    }
}

// ---------------------------------------------------------------------
// Paths and numbers
// ---------------------------------------------------------------------

/// The file name of a path is what stands after its last slash.
pub proof fn law_file_name(dir: Seq<char>, name: Seq<char>)
    requires
        name.len() > 0,
        forall|k: int| 0 <= k < name.len() ==> name[k] != '/',
        name != seq!['.'],
        name != seq!['.', '.'],
    ensures
        text::file_name(dir + seq!['/'] + name) == Some(name),
        text::file_name(name) == Some(name),
{
    law_split_of_parts(dir, '/', name);
    law_split_of_parts(name, '/', dir);
    let all = text::split(dir + seq!['/'] + name, '/');
    let front = text::split(dir, '/');
    assert(text::split(name, '/') == seq![name]);
    assert(all.len() == front.len() + 1);
    assert(all[all.len() - 1] == name);
    assert(text::last_piece(seq![name], 1) == Some(name));
}

/// A name below a directory, which divides them by one slash.
pub proof fn law_under(dir: Seq<char>, name: Seq<char>)
    requires
        dir.len() > 0,
        dir.last() != '/',
        name.len() > 0,
        name[0] != '/',
    ensures
        text::under(dir, name) == dir + seq!['/'] + name,
        text::starts_with(text::under(dir, name), dir),
        text::ends_with(text::under(dir, name), name),
{
    law_ends(dir + seq!['/'], name);
    assert(dir + seq!['/'] + name =~= dir + (seq!['/'] + name));
    law_ends(dir, seq!['/'] + name);
}

/// The number that digits write.
pub open spec fn written(s: Seq<char>) -> int
    decreases s.len(),
{
    if s.len() == 0 {
        0
    } else {
        written(s.drop_last()) * 10 + (s.last() as int - '0' as int)
    }
}

/// A number in decimal is digits alone, without a zero in front unless it is zero,
/// and they write the number.
pub proof fn law_decimal(n: nat)
    ensures
        written(text::dec(n)) == n,
        text::dec(n).len() > 0,
        forall|k: int| 0 <= k < text::dec(n).len() ==> '0' <= #[trigger] text::dec(n)[k] <= '9',
        n > 0 ==> text::dec(n)[0] != '0',
    decreases n,
{
    if n >= 10 {
        law_decimal(n / 10);
        let head = text::dec(n / 10);
        let d = text::digit_char((n % 10) as int);
        let all = head.push(d);
        assert(all.drop_last() =~= head);
        assert(all.last() == d);
        assert forall|k: int| 0 <= k < all.len() implies '0' <= #[trigger] all[k] <= '9' by {
            if k < head.len() {
                assert(all[k] == head[k]);
            }
        }
        assert(all[0] == head[0]);
    } else {
        let one = seq![text::digit_char(n as int)];
        assert(one.drop_last() =~= Seq::<char>::empty());
        assert(written(Seq::<char>::empty()) == 0);
        assert(one.last() == text::digit_char(n as int));
    }
}

/// A negative number has a minus sign in front of its decimal digits.
pub proof fn law_signed_decimal(n: int)
    ensures
        n >= 0 ==> text::dec_signed(n) == text::dec(n as nat),
        n < 0 ==> text::dec_signed(n) == seq!['-'] + text::dec((-n) as nat),
{
}

/// Folding turns capital letters of ASCII into small ones and leaves every other
/// character of ASCII.
pub proof fn law_fold(c: char)
    ensures
        'A' <= c <= 'Z' ==> text::fold(c) as int == c as int + 32,
        !('A' <= c <= 'Z') && (c as u32) < 128 ==> text::fold(c) == c,
        'A' <= c <= 'Z' ==> text::ascii_lower(c) as int == c as int + 32,
        !('A' <= c <= 'Z') ==> text::ascii_lower(c) == c,
{
}

/// Texts with a separator are put together one after another.
pub proof fn law_joined(items: Seq<Seq<char>>, last: Seq<char>, sep: Seq<char>)
    ensures
        text::joined(seq![], sep) == Seq::<char>::empty(),
        text::joined(seq![last], sep) == last,
        items.len() > 0 ==> text::joined(items.push(last), sep) == text::joined(items, sep) + sep
            + last,
{
    assert(items.push(last).drop_last() =~= items);
}

// ---------------------------------------------------------------------
// JSON and classes of characters
// ---------------------------------------------------------------------

/// In a string of JSON a quote and a backslash stand behind a backslash, and no
/// control character stands as it is; any other character does.
pub proof fn law_json_characters(c: char)
    ensures
        c == '"' || c == '\\' ==> text::json_char(c) == seq!['\\', c],
        c as u32 >= 0x20 && c != '"' && c != '\\' ==> text::json_char(c) == seq![c],
        (c as u32) < 0x20 ==> text::json_char(c).len() >= 2 && text::json_char(c)[0] == '\\',
        c == '\n' ==> text::json_char(c) == seq!['\\', 'n'],
{
    reveal_strlit("\\\"");
    reveal_strlit("\\\\");
    reveal_strlit("\\n");
    reveal_strlit("\\r");
    reveal_strlit("\\t");
    reveal_strlit("\\u00");
    assert("\\\""@ =~= seq!['\\', '"']);
    assert("\\\\"@ =~= seq!['\\', '\\']);
    assert("\\n"@ =~= seq!['\\', 'n']);
}

/// A text in JSON is its characters one after another, in quotes.
pub proof fn law_json_texts(a: Seq<char>, c: char)
    ensures
        text::json_body(seq![]) == Seq::<char>::empty(),
        text::json_body(a.push(c)) == text::json_body(a) + text::json_char(c),
        text::json_quoted(a) == "\""@ + text::json_body(a) + "\""@,
{
    assert(a.push(c).drop_last() =~= a);
    assert(a.push(c).last() == c);
}

/// In ASCII a letter or a digit is one of the 62.
pub proof fn law_letters_and_digits(c: char)
    requires
        (c as u32) < 128,
    ensures
        text::is_alnum(c) <==> 'a' <= c <= 'z' || 'A' <= c <= 'Z' || '0' <= c <= '9',
        text::is_ascii_letter(c) <==> 'a' <= c <= 'z' || 'A' <= c <= 'Z',
{
}

} // verus!
