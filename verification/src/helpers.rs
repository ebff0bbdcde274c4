//! Small rules that several parts share: checksums, addresses, console text,
//! player names, and what an archive may unpack where.
use vstd::prelude::*;

use crate::identifiers;
use crate::text;
use crate::text_laws;
use crate::text::{
    dec_string, from_chars, has_sub, is_letter, join_path, lower_chars, part, rfind_str,
    split_char, split_stops, str_eq, to_chars, trimmed_end_char,
};

verus! {

/// How far an installation is.
#[derive(Debug, Clone)]
pub struct InstallProgress {
    pub stage: String,
    pub label: String,
    pub current: u32,
    pub total: u32,
}

// ---------------------------------------------------------------------
// Checksums
// ---------------------------------------------------------------------

/// The SHA-256 of bytes, in lower-case hexadecimal digits.
pub uninterp spec fn sha256_of(bytes: Seq<u8>) -> Seq<char>;

/// Calls `sha2::Sha256`'s `digest` and writes the digest in hexadecimal digits.
/// Claimed: the text depends on the bytes alone, and has two digits for each of
/// the digest's 32 bytes.
#[verifier::external_body]
fn sha256_digest(bytes: &[u8]) -> (r: String)
    ensures
        r@ == sha256_of(bytes@),
        identifiers::is_hex_text(r@, 64),
{
    format!("{:x}", <sha2::Sha256 as sha2::Digest>::digest(bytes))
}

/// The SHA-256 of bytes, in lower-case hexadecimal digits.
pub fn sha256_hex_string(bytes: &[u8]) -> (r: String)
    ensures
        r@ == sha256_of(bytes@),
        identifiers::is_hex_text(r@, 64),
{
    sha256_digest(bytes)
}

/// Whether a checksum is as expected. One that is not given, or is empty, is not
/// compared.
pub open spec fn checksum_fits(expected: Option<Seq<char>>, actual: Seq<char>) -> bool {
    match expected {
        Some(e) => e.len() == 0 || e == actual,
        None => true,
    }
}

/// What is said of a checksum that is not as expected.
pub open spec fn mismatch_text(label: Seq<char>, expected: Seq<char>, actual: Seq<char>) -> Seq<
    char,
> {
    label + " checksum mismatch: expected "@ + expected + ", got "@ + actual
}

/// Compares a checksum.
pub fn check_checksum(label: &str, expected: Option<&str>, actual: &str) -> (r: Result<(), String>)
    ensures
        r is Ok <==> checksum_fits(
            text::str_view(expected),
            actual@,
        ),
        r is Err ==> expected is Some && r->Err_0@ == mismatch_text(
            label@,
            expected->0@,
            actual@,
        ),
{
    match expected {
        Some(e) => {
            let chars = to_chars(e);
            if chars.len() == 0 || str_eq(e, actual) {
                return Ok(());
            }
            let mut s = label.to_string();
            s.append(" checksum mismatch: expected ");
            s.append(e);
            s.append(", got ");
            s.append(actual);
            Err(s)
        },
        None => Ok(()),
    }
}

/// Compares what was downloaded with the checksum that it should have. Only
/// what passes may take its place.
pub fn verify_download(label: &str, expected: Option<&str>, bytes: &[u8]) -> (r: Result<
    (),
    String,
>)
    ensures
        r is Ok <==> checksum_fits(
            text::str_view(expected),
            sha256_of(bytes@),
        ),
        r is Err ==> expected is Some && r->Err_0@ == mismatch_text(
            label@,
            expected->0@,
            sha256_of(bytes@),
        ),
{
    let actual = sha256_hex_string(bytes);
    check_checksum(label, expected, actual.as_str())
}

// ---------------------------------------------------------------------
// Places
// ---------------------------------------------------------------------

/// Calls `dirs::home_dir`. Nothing is claimed of the path: it depends on the
/// environment.
#[verifier::external_body]
fn home_dir() -> Option<String> {
    dirs::home_dir().map(|p| p.to_string_lossy().to_string())
}

/// Calls `dirs::download_dir`. Nothing is claimed of the path: it depends on the
/// environment. Where the desktop keeps its directories in a file, the call panics
/// on a file in which a line sets `XDG_DIR`, or gives the directory of downloads
/// the value of one lone double quote.
#[verifier::external_body]
fn download_dir() -> Option<String> {
    dirs::download_dir().map(|p| p.to_string_lossy().to_string())
}

/// Where a server of a game stands by default, below the home directory or,
/// where there is none, the current one.
pub open spec fn server_place(game: Option<Seq<char>>, home: Option<Seq<char>>) -> Seq<char> {
    text::under(
        match home {
            Some(h) => h,
            None => "."@,
        },
        if game == Some("terraria"@) {
            "terraria-server"@
        } else {
            "minecraft-server"@
        },
    )
}

/// Where a server of a game stands by default.
pub fn default_server_path_value(game: Option<&str>) -> (r: String)
    ensures
        exists|home: Option<Seq<char>>|
            r@ == #[trigger] server_place(
                text::str_view(game),
                home,
            ),
{
    let home = home_dir();
    let h = match &home {
        Some(s) => Some(s.as_str()),
        None => None,
    };
    server_path_below(game, h)
}

/// Where a server of a game stands by default, given the home directory.
pub fn server_path_below(game: Option<&str>, home: Option<&str>) -> (r: String)
    ensures
        r@ == server_place(
            text::str_view(game),
            text::str_view(home),
        ),
{
    let folder = match game {
        Some(g) => {
            if str_eq(g, "terraria") {
                "terraria-server"
            } else {
                "minecraft-server"
            }
        },
        None => "minecraft-server",
    };
    match home {
        Some(h) => join_path(h, folder),
        None => join_path(".", folder),
    }
}

/// Where downloads go: to their directory, or else to the home directory, or
/// else to the current one.
pub open spec fn download_place(downloads: Option<Seq<char>>, home: Option<Seq<char>>) -> Seq<
    char,
> {
    match downloads {
        Some(d) => d,
        None => match home {
            Some(h) => h,
            None => "."@,
        },
    }
}

/// The text, where there is one and it is not empty.
pub open spec fn unless_empty(s: Option<Seq<char>>) -> Option<Seq<char>> {
    match s {
        Some(t) if t.len() > 0 => Some(t),
        _ => None,
    }
}

/// The text, where there is one and it is not empty.
fn non_empty(s: &Option<String>) -> (r: Option<&str>)
    ensures
        text::str_view(r) == unless_empty(text::opt_view(*s)),
{
    match s {
        Some(t) => if t.as_str().is_empty() {
            None
        } else {
            Some(t.as_str())
        },
        None => None,
    }
}

/// Where downloads go by default. The path is never empty. Which directory it is
/// depends on the environment; what is made of the two that it gives is what
/// `downloads_dir_of` says.
pub fn default_downloads_dir() -> (r: String)
    ensures
        r@.len() > 0,
{
    let downloads = download_dir();
    let home = home_dir();
    proof {
        reveal_strlit(".");
    }
    downloads_dir_of(non_empty(&downloads), non_empty(&home))
}

/// Where downloads go, given both directories.
pub fn downloads_dir_of(downloads: Option<&str>, home: Option<&str>) -> (r: String)
    ensures
        r@ == download_place(
            text::str_view(downloads),
            text::str_view(home),
        ),
{
    match downloads {
        Some(d) => d.to_string(),
        None => match home {
            Some(h) => h.to_string(),
            None => String::from_str("."),
        },
    }
}

// ---------------------------------------------------------------------
// Addresses
// ---------------------------------------------------------------------

/// Whether a character is a square bracket.
pub open spec fn is_bracket(c: char) -> bool {
    c == '[' || c == ']'
}

/// The first position from `i` on that is no bracket.
pub open spec fn after_brackets(s: Seq<char>, i: int) -> int
    decreases s.len() - i,
{
    if 0 <= i < s.len() && is_bracket(s[i]) {
        after_brackets(s, i + 1)
    } else {
        i
    }
}

/// The end of `s` without the brackets between `lo` and `hi`.
pub open spec fn before_brackets(s: Seq<char>, lo: int, hi: int) -> int
    decreases hi - lo,
{
    if lo < hi <= s.len() && is_bracket(s[hi - 1]) {
        before_brackets(s, lo, hi - 1)
    } else {
        hi
    }
}

/// A host without the brackets around it and the dots behind it, in small
/// letters.
pub open spec fn plain_host(host: Seq<char>) -> Seq<char> {
    let a = after_brackets(host, 0);
    let inner = host.subrange(a, before_brackets(host, a, host.len() as int));
    text::lowered(text::trim_end_char(inner, '.'))
}

fn plain_host_of(host: &[char]) -> (r: Vec<char>)
    ensures
        r@ == plain_host(host@),
{
    let mut a: usize = 0;
    while a < host.len() && (host[a] == '[' || host[a] == ']')
        invariant
            a <= host.len(),
            after_brackets(host@, 0) == after_brackets(host@, a as int),
        decreases host.len() - a,
    {
        a = a + 1;
    }
    let mut b: usize = host.len();
    while b > a && (host[b - 1] == '[' || host[b - 1] == ']')
        invariant
            a <= b <= host.len(),
            before_brackets(host@, a as int, host@.len() as int) == before_brackets(
                host@,
                a as int,
                b as int,
            ),
        decreases b,
    {
        b = b - 1;
    }
    let inner = part(host, a, b);
    lower_chars(trimmed_end_char(inner, '.'))
}

/// Whether a character is a decimal digit.
pub open spec fn is_digit(c: char) -> bool {
    '0' <= c <= '9'
}

/// The number that the first `n` digits write.
pub open spec fn digits_value(s: Seq<char>, n: int) -> int
    decreases n,
{
    if n <= 0 {
        0
    } else {
        digits_value(s, n - 1) * 10 + (s[n - 1] as int - '0' as int)
    }
}

/// Whether a text is digits alone, and at least one.
pub open spec fn all_digits(s: Seq<char>) -> bool {
    s.len() > 0 && forall|k: int| 0 <= k < s.len() ==> is_digit(#[trigger] s[k])
}

/// A text without a plus sign in front.
pub open spec fn unsigned(s: Seq<char>) -> Seq<char> {
    if s.len() > 0 && s[0] == '+' {
        s.skip(1)
    } else {
        s
    }
}

/// The number of at most `max` that a text writes.
pub open spec fn number_within(s: Seq<char>, max: int) -> Option<int> {
    let d = unsigned(s);
    if all_digits(d) && digits_value(d, d.len() as int) <= max {
        Some(digits_value(d, d.len() as int))
    } else {
        None
    }
}

/// The number of at most 255 that a text writes.
pub open spec fn octet(s: Seq<char>) -> Option<int> {
    number_within(s, 255)
}

proof fn lemma_digits_grow(s: Seq<char>, i: int, n: int)
    requires
        0 <= i <= n <= s.len(),
        forall|k: int| 0 <= k < s.len() ==> is_digit(#[trigger] s[k]),
    ensures
        0 <= digits_value(s, i) <= digits_value(s, n),
    decreases n,
{
    if i < n {
        lemma_digits_grow(s, i, n - 1);
        assert(is_digit(s[n - 1]));
    } else if n > 0 {
        lemma_digits_grow(s, n - 1, n - 1);
        assert(is_digit(s[n - 1]));
    }
}

/// The number of at most `max` that a text writes.
pub fn parse_number(s: &[char], max: u32) -> (r: Option<u32>)
    ensures
        match r {
            Some(n) => number_within(s@, max as int) == Some(n as int),
            None => number_within(s@, max as int) is None,
        },
{
    let d = if s.len() > 0 && s[0] == '+' {
        part(s, 1, s.len())
    } else {
        s
    };
    assert(d@ =~= unsigned(s@));
    if d.len() == 0 {
        return None;
    }
    let mut value: u64 = 0;
    let mut i: usize = 0;
    while i < d.len()
        invariant
            i <= d.len(),
            d@ == unsigned(s@),
            value <= max,
            value == digits_value(d@, i as int),
            forall|k: int| 0 <= k < i ==> is_digit(#[trigger] d@[k]),
        decreases d.len() - i,
    {
        let c = d[i];
        if c < '0' || c > '9' {
            assert(!is_digit(d@[i as int]));
            return None;
        }
        value = value * 10 + (c as u64 - '0' as u64);
        assert(value == digits_value(d@, i + 1));
        if value > max as u64 {
            proof {
                if all_digits(d@) {
                    lemma_digits_grow(d@, i + 1, d@.len() as int);
                }
            }
            return None;
        }
        i = i + 1;
    }
    Some(value as u32)
}

/// The number of at most 255 that a text writes.
pub fn parse_octet(s: &[char]) -> (r: Option<u8>)
    ensures
        match r {
            Some(n) => octet(s@) == Some(n as int),
            None => octet(s@) is None,
        },
{
    match parse_number(s, 255) {
        Some(n) => Some(n as u8),
        None => None,
    }
}

/// Whether the numbers of an address are those of a private network or of this
/// machine.
pub open spec fn private_numbers(n: Seq<int>) -> bool {
    ||| n.len() >= 1 && n[0] == 10
    ||| n.len() >= 1 && n[0] == 127
    ||| n.len() >= 2 && n[0] == 169 && n[1] == 254
    ||| n.len() >= 2 && n[0] == 172 && 16 <= n[1] <= 31
    ||| n.len() >= 2 && n[0] == 192 && n[1] == 168
}

/// Whether every piece between the dots is a number of an address.
pub open spec fn all_octets(pieces: Seq<Seq<char>>) -> bool {
    forall|k: int| 0 <= k < pieces.len() ==> octet(#[trigger] pieces[k]) is Some
}

/// The numbers of an address.
pub open spec fn numbers(pieces: Seq<Seq<char>>) -> Seq<int> {
    pieces.map_values(
        |p: Seq<char>|
            match octet(p) {
                Some(n) => n,
                None => 0int,
            },
    )
}

/// Whether a host is this machine or in a private network.
pub open spec fn private_host(host: Seq<char>) -> bool {
    let h = plain_host(host);
    let pieces = text::split(h, '.');
    h == "localhost"@ || h == "::1"@ || (all_octets(pieces) && private_numbers(numbers(pieces)))
}

/// Whether a host is this machine or in a private network.
pub fn is_private_or_local_host(host: &str) -> (r: bool)
    ensures
        r == private_host(host@),
{
    let chars = to_chars(host);
    let h = plain_host_of(&chars);
    let plain = from_chars(&h);
    if str_eq(plain.as_str(), "localhost") || str_eq(plain.as_str(), "::1") {
        return true;
    }
    let pieces = split_char(&h, '.');
    let ghost all = text::split(h@, '.');
    let mut nums: Vec<u8> = Vec::new();
    let mut i: usize = 0;
    while i < pieces.len()
        invariant
            i <= pieces.len(),
            text::slices(pieces@) == all,
            nums@.len() == i,
            forall|k: int| 0 <= k < i ==> octet(#[trigger] all[k]) == Some(nums@[k] as int),
            h@ == plain_host(host@),
            all == text::split(h@, '.'),
            h@ != "localhost"@,
            h@ != "::1"@,
        decreases pieces.len() - i,
    {
        let p: &[char] = pieces[i];
        assert(text::slices(pieces@)[i as int] == p@);
        match parse_octet(p) {
            Some(n) => {
                nums.push(n);
            },
            None => {
                assert(octet(all[i as int]) is None);
                return false;
            },
        }
        i = i + 1;
    }
    assert(text::slices(pieces@).len() == all.len());
    assert(all_octets(all));
    assert forall|k: int| 0 <= k < all.len() implies numbers(all)[k] == nums@[k] as int by {
        assert(octet(all[k]) == Some(nums@[k] as int));
    }
    let n = nums.len();
    (n >= 1 && (nums[0] == 10 || nums[0] == 127)) || (n >= 2 && ((nums[0] == 169 && nums[1] == 254)
        || (nums[0] == 172 && nums[1] >= 16 && nums[1] <= 31) || (nums[0] == 192 && nums[1]
        == 168)))
}

/// Whether an address is one that others can reach through a tunnel.
pub open spec fn public_address(addr: Seq<char>) -> bool {
    let colon = text::rfind(addr, ":"@);
    if colon < 0 {
        text::contains(addr, "playit.gg"@) || text::contains(addr, "playit.cloud"@)
    } else {
        !private_host(addr.take(colon))
    }
}

/// Whether an address is one that others can reach through a tunnel: one with a
/// port whose host is not private, or one of the tunnel's own names.
pub fn is_public_tunnel_address(addr: &str) -> (r: bool)
    ensures
        r == public_address(addr@),
{
    let chars = to_chars(addr);
    match rfind_str(&chars, ":") {
        Some(idx) => {
            let host = part(&chars, 0, idx);
            assert(host@ =~= addr@.take(idx as int));
            let name = from_chars(host);
            !is_private_or_local_host(name.as_str())
        },
        None => has_sub(&chars, "playit.gg") || has_sub(&chars, "playit.cloud"),
    }
}

/// What is said where a port is taken.
pub fn port_in_use(port: u16, reason: &str) -> (r: String)
    ensures
        r@ == "Port "@ + text::dec(port as nat) + " is already in use ("@ + reason@
            + "). Close the other application or change the port in Settings."@,
{
    let mut s = String::from_str("Port ");
    s.append(dec_string(port as u64).as_str());
    s.append(" is already in use (");
    s.append(reason);
    s.append("). Close the other application or change the port in Settings.");
    s
}

// ---------------------------------------------------------------------
// Console text
// ---------------------------------------------------------------------

/// The character that begins an escape sequence.
pub const ESCAPE: char = '\x1b';

/// The character that rings a bell, and ends some sequences.
pub const BELL: char = '\x07';

/// Where a control sequence ends that is under way at `i`: after the next ASCII
/// letter.
pub open spec fn control_end(s: Seq<char>, i: int) -> int
    decreases s.len() - i,
{
    if i < 0 || i >= s.len() {
        s.len() as int
    } else if text::is_ascii_letter(s[i]) {
        i + 1
    } else {
        control_end(s, i + 1)
    }
}

/// Where a command to the terminal ends that is under way at `i`: after the next
/// bell or escape.
pub open spec fn command_end(s: Seq<char>, i: int) -> int
    decreases s.len() - i,
{
    if i < 0 || i >= s.len() {
        s.len() as int
    } else if s[i] == BELL || s[i] == ESCAPE {
        i + 1
    } else {
        command_end(s, i + 1)
    }
}

/// Where the escape sequence at `i` ends. Of one that is not known, only the
/// escape counts.
pub open spec fn sequence_end(s: Seq<char>, i: int) -> int {
    if i + 1 < s.len() && s[i + 1] == '[' {
        control_end(s, i + 2)
    } else if i + 1 < s.len() && s[i + 1] == ']' {
        command_end(s, i + 2)
    } else {
        i + 1
    }
}

proof fn lemma_ends(s: Seq<char>, i: int)
    requires
        0 <= i <= s.len(),
    ensures
        i <= control_end(s, i) <= s.len(),
        i <= command_end(s, i) <= s.len(),
        i < s.len() ==> i < control_end(s, i) && i < command_end(s, i),
    decreases s.len() - i,
{
    if i < s.len() {
        lemma_ends(s, i + 1);
    }
}

/// What is left of `s` from `i` on without escape sequences.
pub open spec fn stripped(s: Seq<char>, i: int) -> Seq<char>
    decreases s.len() - i,
{
    if i < 0 || i >= s.len() {
        Seq::empty()
    } else if s[i] != ESCAPE {
        seq![s[i]] + stripped(s, i + 1)
    } else if i < sequence_end(s, i) <= s.len() {
        stripped(s, sequence_end(s, i))
    } else {
        Seq::empty()
    }
}

/// A text without escape sequences, which would spoil a URL in it.
pub fn strip_ansi_codes(s: &str) -> (r: String)
    ensures
        r@ == stripped(s@, 0),
{
    let chars = to_chars(s);
    let n = chars.len();
    let mut out = String::new();
    let mut i: usize = 0;
    assert(out@ + stripped(chars@, 0) =~= stripped(chars@, 0));
    while i < n
        invariant
            i <= n,
            n == chars@.len(),
            chars@ == s@,
            out@ + stripped(s@, i as int) == stripped(s@, 0),
        decreases n - i,
    {
        let c = chars[i];
        if c != ESCAPE {
            let ghost before = out@;
            out.push(c);
            assert(before + (seq![c] + stripped(s@, i + 1)) =~= out@ + stripped(s@, i + 1));
            i = i + 1;
        } else if i + 1 < n && chars[i + 1] == '[' {
            let mut j: usize = i + 2;
            let ghost e = control_end(s@, i + 2);
            proof {
                lemma_ends(s@, i + 2);
            }
            while j < n && !is_letter(chars[j])
                invariant
                    i + 2 <= j <= n,
                    n == chars@.len(),
                    chars@ == s@,
                    e == control_end(s@, j as int),
                decreases n - j,
            {
                j = j + 1;
            }
            if j < n {
                j = j + 1;
            }
            assert(j == e);
            i = j;
        } else if i + 1 < n && chars[i + 1] == ']' {
            let mut j: usize = i + 2;
            let ghost e = command_end(s@, i + 2);
            proof {
                lemma_ends(s@, i + 2);
            }
            while j < n && chars[j] != BELL && chars[j] != ESCAPE
                invariant
                    i + 2 <= j <= n,
                    n == chars@.len(),
                    chars@ == s@,
                    e == command_end(s@, j as int),
                decreases n - j,
            {
                j = j + 1;
            }
            if j < n {
                j = j + 1;
            }
            assert(j == e);
            i = j;
        } else {
            i = i + 1;
        }
    }
    assert(out@ + stripped(s@, n as int) =~= out@);
    out
}

/// No escape is left in what was stripped.
pub proof fn law_no_escape_left(s: Seq<char>, i: int)
    requires
        0 <= i <= s.len(),
    ensures
        !stripped(s, i).contains(ESCAPE),
    decreases s.len() - i,
{
    if i < s.len() {
        if s[i] != ESCAPE {
            law_no_escape_left(s, i + 1);
            let rest = stripped(s, i + 1);
            assert forall|k: int| 0 <= k < stripped(s, i).len() implies stripped(s, i)[k]
                != ESCAPE by {
                if k > 0 {
                    assert(stripped(s, i)[k] == rest[k - 1]);
                    assert(rest.contains(rest[k - 1]));
                }
            }
        } else {
            if i + 2 <= s.len() {
                lemma_ends(s, i + 2);
            }
            law_no_escape_left(s, sequence_end(s, i));
        }
    }
}

/// A text without escapes stays as it is.
pub proof fn law_plain_text_stays(s: Seq<char>, i: int)
    requires
        0 <= i <= s.len(),
        !s.contains(ESCAPE),
    ensures
        stripped(s, i) == s.skip(i),
    decreases s.len() - i,
{
    if i < s.len() {
        assert(s.contains(s[i]));
        law_plain_text_stays(s, i + 1);
        assert(seq![s[i]] + s.skip(i + 1) =~= s.skip(i));
    } else {
        assert(s.skip(i) =~= Seq::<char>::empty());
    }
}

/// Stripping twice is stripping once.
pub proof fn law_stripping_is_idempotent(s: Seq<char>)
    ensures
        stripped(stripped(s, 0), 0) == stripped(s, 0),
{
    law_no_escape_left(s, 0);
    law_plain_text_stays(stripped(s, 0), 0);
    assert(stripped(s, 0).skip(0) =~= stripped(s, 0));
}

/// Whether a text comes from another one by leaving characters out.
pub open spec fn is_subsequence(a: Seq<char>, b: Seq<char>) -> bool
    decreases b.len(),
{
    a.len() == 0 || (b.len() > 0 && ((a[0] == b[0] && is_subsequence(a.skip(1), b.skip(1)))
        || is_subsequence(a, b.skip(1))))
}

/// What comes from the rest of a text comes from the text.
proof fn lemma_subsequence_of_rest(a: Seq<char>, b: Seq<char>, k: int)
    requires
        0 <= k <= b.len(),
        is_subsequence(a, b.skip(k)),
    ensures
        is_subsequence(a, b),
    decreases k,
{
    if k == 0 {
        assert(b.skip(0) =~= b);
    } else {
        assert(b.skip(1).skip(k - 1) =~= b.skip(k));
        lemma_subsequence_of_rest(a, b.skip(1), k - 1);
    }
}

/// Stripping only leaves characters out: none is added, and their order stays.
pub proof fn law_stripping_leaves_out(s: Seq<char>, i: int)
    requires
        0 <= i <= s.len(),
    ensures
        is_subsequence(stripped(s, i), s.skip(i)),
    decreases s.len() - i,
{
    if i < s.len() {
        if s[i] != ESCAPE {
            law_stripping_leaves_out(s, i + 1);
            assert(stripped(s, i).skip(1) =~= stripped(s, i + 1));
            assert(s.skip(i).skip(1) =~= s.skip(i + 1));
        } else {
            if i + 2 <= s.len() {
                lemma_ends(s, i + 2);
            }
            let e = sequence_end(s, i);
            law_stripping_leaves_out(s, e);
            assert(s.skip(i).skip(e - i) =~= s.skip(e));
            lemma_subsequence_of_rest(stripped(s, i), s.skip(i), e - i);
        }
    }
}

// ---------------------------------------------------------------------
// Player names
// ---------------------------------------------------------------------

/// Whether a character may stand in the name of a player.
pub open spec fn name_char(c: char) -> bool {
    text::is_ascii_letter(c) || is_digit(c) || c == '_'
}

/// Whether a text is the name of a player: two to sixteen letters, digits and
/// underscores.
pub fn is_valid_player_name(s: &str) -> (r: bool)
    ensures
        r == (2 <= s@.len() <= 16 && forall|k: int| 0 <= k < s@.len() ==> name_char(s@[k])),
{
    let chars = to_chars(s);
    if chars.len() < 2 || chars.len() > 16 {
        return false;
    }
    let mut i: usize = 0;
    while i < chars.len()
        invariant
            i <= chars.len(),
            chars@ == s@,
            forall|k: int| 0 <= k < i ==> name_char(s@[k]),
        decreases chars.len() - i,
    {
        let c = chars[i];
        if !(is_letter(c) || ('0' <= c && c <= '9') || c == '_') {
            assert(!name_char(s@[i as int]));
            return false;
        }
        i = i + 1;
    }
    true
}

// ---------------------------------------------------------------------
// Unpacking
// ---------------------------------------------------------------------

/// Whether a name begins with the letter of a drive.
pub open spec fn names_drive(name: Seq<char>) -> bool {
    name.len() >= 2 && name[1] == ':' && text::is_ascii_letter(name[0]) && (name.len() == 2
        || name[2] == '/' || name[2] == '\\')
}

/// Whether backslashes divide a name, as they do on Windows: also where a part
/// before, between or behind them is empty.
pub open spec fn divided_by_backslashes(name: Seq<char>) -> bool {
    name.contains('\\')
}

/// Whether some part of a name leads upwards.
pub open spec fn leads_up(name: Seq<char>) -> bool {
    text::split_any(name, "/\\"@).contains(".."@)
}

/// Whether a name in an archive must not be used: it is absolute in some
/// system's way, has backslashes as separators, or leads upwards.
pub open spec fn unsafe_name(name: Seq<char>) -> bool {
    (name.len() > 0 && name[0] == '/') || names_drive(name) || divided_by_backslashes(name)
        || leads_up(name)
}

/// Whether a name in an archive must not be used.
pub fn has_absolute_or_traversal_components(name: &str) -> (r: bool)
    ensures
        r == unsafe_name(name@),
{
    let chars = to_chars(name);
    if chars.len() > 0 && chars[0] == '/' {
        return true;
    }
    if chars.len() >= 2 && chars[1] == ':' && is_letter(chars[0]) {
        if chars.len() == 2 || chars[2] == '/' || chars[2] == '\\' {
            return true;
        }
    }
    let mut i: usize = 0;
    while i < chars.len()
        invariant
            i <= chars.len(),
            chars@ == name@,
            forall|k: int| 0 <= k < i ==> name@[k] != '\\',
        decreases chars.len() - i,
    {
        if chars[i] == '\\' {
            assert(name@[i as int] == '\\');
            return true;
        }
        i = i + 1;
    }
    let pieces = split_stops(&chars, "/\\");
    let ghost every = text::split_any(name@, "/\\"@);
    let mut j: usize = 0;
    while j < pieces.len()
        invariant
            j <= pieces.len(),
            text::slices(pieces@) == every,
            every == text::split_any(name@, "/\\"@),
            forall|k: int| 0 <= k < j ==> #[trigger] every[k] != ".."@,
        decreases pieces.len() - j,
    {
        let p: &[char] = pieces[j];
        assert(text::slices(pieces@)[j as int] == p@);
        let piece = from_chars(p);
        if str_eq(piece.as_str(), "..") {
            assert(every[j as int] == ".."@);
            return true;
        }
        j = j + 1;
    }
    assert(text::slices(pieces@).len() == every.len());
    false
}

/// A name that may be used is not absolute, names no drive, has no backslash, at
/// its beginning or elsewhere, and leads nowhere upwards.
pub proof fn law_safe_names_stay_below(name: Seq<char>)
    requires
        !unsafe_name(name),
    ensures
        name.len() > 0 ==> name[0] != '/' && name[0] != '\\',
        !names_drive(name),
        forall|k: int| 0 <= k < name.len() ==> #[trigger] name[k] != '\\',
        forall|k: int|
            0 <= k < text::split_any(name, "/\\"@).len() ==> #[trigger] text::split_any(
                name,
                "/\\"@,
            )[k] != ".."@,
{
    assert forall|k: int| 0 <= k < name.len() implies #[trigger] name[k] != '\\' by {
        assert(name.contains(name[k]));
    }
    let pieces = text::split_any(name, "/\\"@);
    assert forall|k: int| 0 <= k < pieces.len() implies #[trigger] pieces[k] != ".."@ by {
        assert(pieces.contains(pieces[k]));
    }
}

/// The parts of a path, without empty ones and those that mean the same place.
pub open spec fn parts_in(pieces: Seq<Seq<char>>, n: int) -> Seq<Seq<char>>
    decreases n,
{
    if n <= 0 {
        Seq::empty()
    } else {
        let before = parts_in(pieces, n - 1);
        if pieces[n - 1].len() == 0 || pieces[n - 1] == "."@ {
            before
        } else {
            before.push(pieces[n - 1])
        }
    }
}

/// The parts of a path.
pub open spec fn path_parts(path: Seq<char>) -> Seq<Seq<char>> {
    let pieces = text::split(path, '/');
    parts_in(pieces, pieces.len() as int)
}

/// Whether a path is absolute.
pub open spec fn is_absolute(path: Seq<char>) -> bool {
    path.len() > 0 && path[0] == '/'
}

/// Whether a list of parts begins with another one.
pub open spec fn begins_with(parts: Seq<Seq<char>>, prefix: Seq<Seq<char>>) -> bool {
    prefix.len() <= parts.len() && parts.take(prefix.len() as int) == prefix
}

/// Whether a path is another one or stands below it.
pub open spec fn inside(path: Seq<char>, root: Seq<char>) -> bool {
    is_absolute(path) == is_absolute(root) && begins_with(path_parts(path), path_parts(root))
}

fn path_parts_of(path: &str) -> (r: Vec<String>)
    ensures
        text::views(r@) == path_parts(path@),
{
    let chars = to_chars(path);
    let pieces = split_char(&chars, '/');
    let ghost all = text::split(path@, '/');
    let mut out: Vec<String> = Vec::new();
    assert(text::views(out@) =~= Seq::<Seq<char>>::empty());
    let mut i: usize = 0;
    while i < pieces.len()
        invariant
            i <= pieces.len(),
            text::slices(pieces@) == all,
            text::views(out@) == parts_in(all, i as int),
        decreases pieces.len() - i,
    {
        let ghost before = out@;
        let p: &[char] = pieces[i];
        assert(text::slices(pieces@)[i as int] == p@);
        let piece = from_chars(p);
        if p.len() > 0 && !str_eq(piece.as_str(), ".") {
            out.push(piece);
            assert(text::views(out@) =~= text::views(before).push(p@));
        }
        i = i + 1;
    }
    assert(text::slices(pieces@).len() == all.len());
    out
}

fn parts_begin_with(parts: &Vec<String>, prefix: &Vec<String>) -> (r: bool)
    ensures
        r == begins_with(text::views(parts@), text::views(prefix@)),
{
    let ghost a = text::views(parts@);
    let ghost b = text::views(prefix@);
    if prefix.len() > parts.len() {
        return false;
    }
    let mut i: usize = 0;
    while i < prefix.len()
        invariant
            i <= prefix.len() <= parts.len(),
            a == text::views(parts@),
            b == text::views(prefix@),
            forall|k: int| 0 <= k < i ==> #[trigger] a[k] == b[k],
        decreases prefix.len() - i,
    {
        assert(a[i as int] == parts@[i as int]@);
        assert(b[i as int] == prefix@[i as int]@);
        if !str_eq(parts[i].as_str(), prefix[i].as_str()) {
            assert(a.take(b.len() as int)[i as int] != b[i as int]);
            return false;
        }
        i = i + 1;
    }
    assert(a.take(b.len() as int) =~= b);
    true
}

/// A name without the leading parts of a prefix; the name itself where it does
/// not begin with them.
pub open spec fn without_prefix(name: Seq<char>, prefix: Seq<char>) -> Seq<char> {
    let parts = path_parts(name);
    let lead = path_parts(prefix);
    if prefix.len() > 0 && is_absolute(name) == is_absolute(prefix) && begins_with(parts, lead) {
        text::joined(parts.skip(lead.len() as int), "/"@)
    } else {
        name
    }
}

fn strip_prefix(name: &str, prefix: &str) -> (r: String)
    ensures
        r@ == without_prefix(name@, prefix@),
{
    let name_chars = to_chars(name);
    let prefix_chars = to_chars(prefix);
    let same_kind = (name_chars.len() > 0 && name_chars[0] == '/') == (prefix_chars.len() > 0
        && prefix_chars[0] == '/');
    let parts = path_parts_of(name);
    let lead = path_parts_of(prefix);
    if prefix_chars.len() > 0 && same_kind && parts_begin_with(&parts, &lead) {
        let mut rest: Vec<String> = Vec::new();
        let mut i: usize = lead.len();
        assert(text::views(lead@).len() == lead@.len());
        assert(text::views(parts@).len() == parts@.len());
        while i < parts.len()
            invariant
                lead@.len() <= i <= parts.len(),
                rest@ == parts@.subrange(lead@.len() as int, i as int),
            decreases parts.len() - i,
        {
            rest.push(parts[i].clone());
            assert(rest@ =~= parts@.subrange(lead@.len() as int, i + 1));
            i = i + 1;
        }
        assert(text::views(rest@) =~= text::views(parts@).skip(lead@.len() as int));
        crate::text::join(&rest, "/")
    } else {
        name.to_string()
    }
}

/// Where an entry of an archive goes. `enclosed` is its path as the archive's
/// reader gives it, nothing where it finds it unsafe; a prefix may be taken off.
pub fn extract_target(
    name: &str,
    enclosed: Option<&str>,
    dest_root: &str,
    prefix: &str,
) -> (r: Result<String, String>)
    ensures
        r is Ok <==> enclosed is Some && !unsafe_name(name@),
        r is Ok ==> r->Ok_0@ == text::under(dest_root@, without_prefix(enclosed->0@, prefix@)),
        r is Err ==> r->Err_0@ == (if enclosed is None {
            "Zip entry rejected by enclosed_name(): "@ + name@
        } else {
            "Zip entry rejected as unsafe path: "@ + name@
        }),
{
    let path = match enclosed {
        Some(p) => p,
        None => {
            let mut s = String::from_str("Zip entry rejected by enclosed_name(): ");
            s.append(name);
            return Err(s);
        },
    };
    if has_absolute_or_traversal_components(name) {
        let mut s = String::from_str("Zip entry rejected as unsafe path: ");
        s.append(name);
        return Err(s);
    }
    let relative = strip_prefix(path, prefix);
    Ok(join_path(dest_root, relative.as_str()))
}

/// Whether an entry stays inside of the directory that it is unpacked into, by
/// the paths that both come down to.
pub fn check_containment(name: &str, canonical_out: &str, canonical_root: &str) -> (r: Result<
    (),
    String,
>)
    ensures
        r is Ok <==> inside(canonical_out@, canonical_root@),
        r is Err ==> r->Err_0@ == "Zip entry escapes destination: "@ + name@ + " -> "@
            + canonical_out@,
{
    let out_chars = to_chars(canonical_out);
    let root_chars = to_chars(canonical_root);
    let same_kind = (out_chars.len() > 0 && out_chars[0] == '/') == (root_chars.len() > 0
        && root_chars[0] == '/');
    let parts = path_parts_of(canonical_out);
    let root = path_parts_of(canonical_root);
    if same_kind && parts_begin_with(&parts, &root) {
        Ok(())
    } else {
        let mut s = String::from_str("Zip entry escapes destination: ");
        s.append(name);
        s.append(" -> ");
        s.append(canonical_out);
        Err(s)
    }
}

// ---------------------------------------------------------------------
// What holds of checksums, places, addresses and paths
// ---------------------------------------------------------------------

/// A checksum that is given and not empty must be the actual one, sign for sign;
/// one that is not given is not asked for.
pub proof fn law_checksums(expected: Seq<char>, actual: Seq<char>)
    ensures
        checksum_fits(None, actual),
        checksum_fits(Some(seq![]), actual),
        expected.len() > 0 && expected != actual ==> !checksum_fits(Some(expected), actual),
        checksum_fits(Some(actual), actual),
{
}

/// What is said of a wrong checksum names the file and both sums.
pub proof fn law_mismatch_names_both(label: Seq<char>, expected: Seq<char>, actual: Seq<char>)
    ensures
        text::starts_with(mismatch_text(label, expected, actual), label),
        text::contains(mismatch_text(label, expected, actual), "expected "@ + expected),
        text::ends_with(mismatch_text(label, expected, actual), "got "@ + actual),
{
    reveal_strlit(" checksum mismatch: expected ");
    reveal_strlit(" checksum mismatch: ");
    reveal_strlit("expected ");
    reveal_strlit(", got ");
    reveal_strlit(", ");
    reveal_strlit("got ");
    let m = mismatch_text(label, expected, actual);
    assert(" checksum mismatch: expected "@ =~= " checksum mismatch: "@ + "expected "@);
    assert(", got "@ =~= ", "@ + "got "@);
    let a = label + " checksum mismatch: "@;
    let b = "expected "@ + expected;
    let c = ", got "@ + actual;
    assert(m =~= a + b + c);
    text_laws::law_contains_what_was_put_in(a, b, c);
    let rest = " checksum mismatch: expected "@ + expected + ", got "@ + actual;
    assert(m =~= label + rest);
    text_laws::law_ends(label, rest);
    let g = "got "@ + actual;
    let front = label + " checksum mismatch: expected "@ + expected + ", "@;
    assert(m =~= front + g);
    text_laws::law_ends(front, g);
}

/// A server stands below the home directory: a Terraria server under its own name,
/// any other under that of Minecraft.
pub proof fn law_server_places(game: Option<Seq<char>>, home: Seq<char>)
    requires
        home.len() > 0,
        home.last() != '/',
    ensures
        server_place(Some("terraria"@), Some(home)) == home + "/terraria-server"@,
        game != Some("terraria"@) ==> server_place(game, Some(home)) == home
            + "/minecraft-server"@,
        server_place(game, None) == server_place(game, Some("."@)),
{
    reveal_strlit("terraria-server");
    reveal_strlit("/terraria-server");
    reveal_strlit("minecraft-server");
    reveal_strlit("/minecraft-server");
    text_laws::law_under(home, "terraria-server"@);
    text_laws::law_under(home, "minecraft-server"@);
    assert(home + seq!['/'] + "terraria-server"@ =~= home + "/terraria-server"@);
    assert(home + seq!['/'] + "minecraft-server"@ =~= home + "/minecraft-server"@);
}

/// Downloads go to their own directory where there is one, else home, else here.
pub proof fn law_download_places(d: Seq<char>, h: Option<Seq<char>>, home: Seq<char>)
    ensures
        download_place(Some(d), h) == d,
        download_place(None, Some(home)) == home,
        download_place(None, None) == "."@,
{
}

proof fn lemma_digits_written(s: Seq<char>, n: int)
    requires
        0 <= n <= s.len(),
    ensures
        digits_value(s, n) == text_laws::written(s.take(n)),
    decreases n,
{
    if n > 0 {
        lemma_digits_written(s, n - 1);
        assert(s.take(n).drop_last() =~= s.take(n - 1));
        assert(s.take(n).last() == s[n - 1]);
    }
}

/// A number is read as it is written in decimal, and not where it is too large.
pub proof fn law_numbers_are_read_as_written(n: nat, max: int)
    ensures
        n <= max ==> number_within(text::dec(n), max) == Some(n as int),
        n > max ==> number_within(text::dec(n), max) is None,
{
    text_laws::law_decimal(n);
    let d = text::dec(n);
    assert(d[0] != '+');
    assert(unsigned(d) == d);
    assert forall|k: int| 0 <= k < d.len() implies is_digit(#[trigger] d[k]) by {}
    lemma_digits_written(d, d.len() as int);
    assert(d.take(d.len() as int) =~= d);
}

/// A text with anything but digits, a plus sign in front aside, is no number.
pub proof fn law_no_number_without_digits(s: Seq<char>, max: int, k: int)
    requires
        s.len() == 0 || (0 <= k < s.len() && !('0' <= s[k] <= '9') && !(k == 0 && s[0] == '+')),
    ensures
        number_within(s, max) is None,
{
    let d = unsigned(s);
    if s.len() > 0 && all_digits(d) {
        if s[0] == '+' {
            assert(d[k - 1] == s[k]);
        } else {
            assert(d[k] == s[k]);
        }
    }
}

/// An address in dotted decimal is private just in the ranges that are: 10, 127,
/// 169.254, 172.16 to 172.31, and 192.168.
pub proof fn law_private_addresses(a: nat, b: nat, c: nat, d: nat)
    requires
        a <= 255,
        b <= 255,
        c <= 255,
        d <= 255,
    ensures
        private_host(
            text::dec(a) + seq!['.'] + text::dec(b) + seq!['.'] + text::dec(c) + seq!['.']
                + text::dec(d),
        ) <==> a == 10 || a == 127 || (a == 169 && b == 254) || (a == 172 && 16 <= b && b <= 31)
            || (a == 192 && b == 168),
{
    let da = text::dec(a);
    let db = text::dec(b);
    let dc = text::dec(c);
    let dd = text::dec(d);
    let dot = seq!['.'];
    let host = da + dot + db + dot + dc + dot + dd;
    text_laws::law_decimal(a);
    text_laws::law_decimal(b);
    text_laws::law_decimal(c);
    text_laws::law_decimal(d);
    law_numbers_are_read_as_written(a, 255);
    law_numbers_are_read_as_written(b, 255);
    law_numbers_are_read_as_written(c, 255);
    law_numbers_are_read_as_written(d, 255);
    assert forall|k: int| 0 <= k < host.len() implies ('0' <= #[trigger] host[k] <= '9') || host[k]
        == '.' by {
        let n1 = da.len() as int;
        let n2 = n1 + 1 + db.len();
        let n3 = n2 + 1 + dc.len();
        if k < n1 {
            assert(host[k] == da[k]);
        } else if k == n1 || k == n2 || k == n3 {
        } else if k < n2 {
            assert(host[k] == db[k - n1 - 1]);
        } else if k < n3 {
            assert(host[k] == dc[k - n2 - 1]);
        } else {
            assert(host[k] == dd[k - n3 - 1]);
        }
    }
    assert(host[0] == da[0]);
    assert(host.last() == dd.last());
    assert('0' <= dd[dd.len() - 1] <= '9');
    assert(after_brackets(host, 0) == 0);
    assert(before_brackets(host, 0, host.len() as int) == host.len());
    assert(host.subrange(0, host.len() as int) =~= host);
    assert(text::back(host, false, '.', 0, host.len() as int) == host.len());
    assert(text::trim_end_char(host, '.') == host);
    assert(text::lowered(host) =~= host);
    assert(plain_host(host) == host);
    text_laws::law_split_of_parts(da + dot + db + dot + dc, '.', dd);
    text_laws::law_split_of_parts(da + dot + db, '.', dc);
    text_laws::law_split_of_parts(da, '.', db);
    text_laws::law_split_of_parts(db, '.', da);
    text_laws::law_split_of_parts(dc, '.', da);
    text_laws::law_split_of_parts(dd, '.', da);
    let pieces = text::split(host, '.');
    assert(pieces =~= seq![da, db, dc, dd]);
    assert forall|k: int| 0 <= k < pieces.len() implies octet(#[trigger] pieces[k]) is Some by {
        assert(k == 0 || k == 1 || k == 2 || k == 3);
    }
    let n = numbers(pieces);
    assert(n[0] == a && n[1] == b && n.len() == 4);
    reveal_strlit("localhost");
    reveal_strlit("::1");
    assert("localhost"@[0] == 'l');
    assert("::1"@[0] == ':');
}

/// This machine's own names are private, in whatever case, with brackets around
/// them or dots behind them.
pub proof fn law_own_names_are_private()
    ensures
        private_host("localhost"@),
        private_host("LOCALHOST"@),
        private_host("localhost."@),
        private_host("[::1]"@),
{
    reveal_strlit("localhost");
    reveal_strlit("LOCALHOST");
    reveal_strlit("localhost.");
    reveal_strlit("[::1]");
    reveal_strlit("::1");
    reveal_with_fuel(after_brackets, 3);
    reveal_with_fuel(before_brackets, 3);
    reveal_with_fuel(text::back, 3);
    let a = "localhost"@;
    assert(a.subrange(0, 9) =~= a);
    assert(text::lowered(a) =~= a);
    assert(plain_host(a) == a);
    let b = "LOCALHOST"@;
    assert(b.subrange(0, 9) =~= b);
    assert(text::lowered(b) =~= a);
    assert(plain_host(b) == a);
    let c = "localhost."@;
    assert(c.subrange(0, 10) =~= c);
    assert(c.subrange(0, 9) =~= a);
    assert(plain_host(c) == a);
    let d = "[::1]"@;
    let e = "::1"@;
    assert(d.subrange(1, 4) =~= e);
    assert(e.subrange(0, 3) =~= e);
    assert(text::lowered(e) =~= e);
    assert(plain_host(d) == e);
}

/// An address with a port can be reached through a tunnel if and only if its host
/// is not private; one without a port just where it is one of the tunnel's names.
pub proof fn law_public_addresses(host: Seq<char>, port: Seq<char>, a: Seq<char>, b: Seq<char>)
    requires
        forall|k: int| 0 <= k < port.len() ==> port[k] != ':',
    ensures
        public_address(host + seq![':'] + port) <==> !private_host(host),
        (forall|k: int| 0 <= k < a.len() ==> a[k] != ':') && (forall|k: int|
            0 <= k < b.len() ==> b[k] != ':') ==> public_address(a + "playit.gg"@ + b)
            && public_address(a + "playit.cloud"@ + b),
{
    reveal_strlit(":");
    let s = host + seq![':'] + port;
    let n = host.len() as int;
    assert(s.subrange(n, n + 1) =~= ":"@);
    assert(text::occurs_at(s, ":"@, n));
    lemma_rfind_colon(s, n, s.len() as int + 1);
    assert(s.take(n) =~= host);
    if (forall|k: int| 0 <= k < a.len() ==> a[k] != ':') && (forall|k: int|
        0 <= k < b.len() ==> b[k] != ':') {
        reveal_strlit("playit.gg");
        reveal_strlit("playit.cloud");
        let g = "playit.gg"@;
        let c = "playit.cloud"@;
        text_laws::law_contains_what_was_put_in(a, g, b);
        text_laws::law_contains_what_was_put_in(a, c, b);
        lemma_no_colon(a, g, b);
        lemma_no_colon(a, c, b);
    }
}

proof fn lemma_no_colon(a: Seq<char>, g: Seq<char>, b: Seq<char>)
    requires
        forall|k: int| 0 <= k < a.len() ==> a[k] != ':',
        forall|k: int| 0 <= k < b.len() ==> b[k] != ':',
        g == "playit.gg"@ || g == "playit.cloud"@,
    ensures
        text::rfind(a + g + b, ":"@) == -1,
{
    reveal_strlit(":");
    reveal_strlit("playit.gg");
    reveal_strlit("playit.cloud");
    let s = a + g + b;
    assert forall|k: int| 0 <= k < s.len() implies s[k] != ':' by {
        if k < a.len() {
            assert(s[k] == a[k]);
        } else if k < a.len() + g.len() {
            let q = k - a.len();
            assert(s[k] == g[q]);
            assert(q == 0 || q == 1 || q == 2 || q == 3 || q == 4 || q == 5 || q == 6 || q == 7
                || q == 8 || q == 9 || q == 10 || q == 11);
        } else {
            assert(s[k] == b[k - a.len() - g.len()]);
        }
    }
    lemma_rfind_no_colon(s, s.len() as int + 1);
}

proof fn lemma_rfind_no_colon(s: Seq<char>, end: int)
    requires
        forall|k: int| 0 <= k < s.len() ==> s[k] != ':',
    ensures
        text::rfind_before(s, ":"@, end) == -1,
    decreases end,
{
    reveal_strlit(":");
    if end > 0 {
        if text::occurs_at(s, ":"@, end - 1) {
            text_laws::lemma_occurs_char(s, ":"@, end - 1, 0);
        }
        lemma_rfind_no_colon(s, end - 1);
    }
}

proof fn lemma_rfind_colon(s: Seq<char>, n: int, end: int)
    requires
        0 <= n < end,
        text::occurs_at(s, ":"@, n),
        forall|k: int| n < k < s.len() ==> s[k] != ':',
    ensures
        text::rfind_before(s, ":"@, end) == n,
    decreases end - n,
{
    reveal_strlit(":");
    if end - 1 > n {
        if text::occurs_at(s, ":"@, end - 1) {
            text_laws::lemma_occurs_char(s, ":"@, end - 1, 0);
        }
        lemma_rfind_colon(s, n, end - 1);
    }
}

/// A colour or other control sequence of a terminal is taken out whole, and what
/// stands before and after it stays.
pub proof fn law_control_sequences_go(a: Seq<char>, params: Seq<char>, letter: char, b: Seq<char>)
    requires
        forall|k: int| 0 <= k < a.len() ==> a[k] != '\x1b',
        forall|k: int| 0 <= k < b.len() ==> b[k] != '\x1b',
        forall|k: int| 0 <= k < params.len() ==> !text::is_ascii_letter(#[trigger] params[k]),
        text::is_ascii_letter(letter),
    ensures
        stripped(a + seq!['\x1b', '['] + params + seq![letter] + b, 0) == a + b,
{
    let s = a + seq!['\x1b', '['] + params + seq![letter] + b;
    let n = a.len() as int;
    let e = n + 2 + params.len();
    lemma_stripped_plain(s, a, 0);
    assert(s[n] == '\x1b' && s[n + 1] == '[');
    lemma_control_end(s, n + 2, e);
    assert(stripped(s, n) == stripped(s, e + 1));
    let rest = s.skip(e + 1);
    assert(rest =~= b);
    lemma_stripped_tail(s, e + 1);
    assert(a + b =~= a.skip(0) + b);
}

proof fn lemma_control_end(s: Seq<char>, i: int, e: int)
    requires
        0 <= i <= e < s.len(),
        text::is_ascii_letter(s[e]),
        forall|k: int| i <= k < e ==> !text::is_ascii_letter(#[trigger] s[k]),
    ensures
        control_end(s, i) == e + 1,
    decreases e - i,
{
    if i < e {
        lemma_control_end(s, i + 1, e);
    }
}

proof fn lemma_stripped_plain(s: Seq<char>, a: Seq<char>, i: int)
    requires
        0 <= i <= a.len() <= s.len(),
        forall|k: int| 0 <= k < a.len() ==> s[k] == a[k] && a[k] != '\x1b',
    ensures
        stripped(s, i) == a.skip(i) + stripped(s, a.len() as int),
    decreases a.len() - i,
{
    if i < a.len() {
        lemma_stripped_plain(s, a, i + 1);
        assert(seq![s[i]] + (a.skip(i + 1) + stripped(s, a.len() as int)) =~= a.skip(i) + stripped(
            s,
            a.len() as int,
        ));
    } else {
        assert(a.skip(i) + stripped(s, i) =~= stripped(s, i));
    }
}

proof fn lemma_stripped_tail(s: Seq<char>, i: int)
    requires
        0 <= i <= s.len(),
        forall|k: int| i <= k < s.len() ==> s[k] != '\x1b',
    ensures
        stripped(s, i) == s.skip(i),
    decreases s.len() - i,
{
    if i < s.len() {
        lemma_stripped_tail(s, i + 1);
        assert(seq![s[i]] + s.skip(i + 1) =~= s.skip(i));
    } else {
        assert(stripped(s, i) =~= s.skip(i));
    }
}

/// A name in an archive that is absolute, names a drive, has a backslash or has a
/// part `..`, at its start, in the middle or at its end, must not be used.
pub proof fn law_dangerous_names_are_unsafe(
    a: Seq<char>,
    b: Seq<char>,
    drive: char,
)
    requires
        text::is_ascii_letter(drive),
    ensures
        unsafe_name(seq!['/'] + a),
        unsafe_name(a + seq!['\\'] + b),
        unsafe_name(seq![drive, ':', '/'] + a),
        unsafe_name(seq![drive, ':']),
        unsafe_name(".."@),
        unsafe_name(".."@ + seq!['/'] + a),
        unsafe_name(a + seq!['/'] + ".."@),
        unsafe_name(a + seq!['/'] + ".."@ + seq!['/'] + b),
{
    reveal_strlit("..");
    reveal_strlit("/\\");
    let set = "/\\"@;
    assert(set[0] == '/' && set[1] == '\\');
    assert(set.contains('/'));
    assert((seq!['/'] + a)[0] == '/');
    let s = a + seq!['\\'] + b;
    assert(s[a.len() as int] == '\\');
    assert(s.contains('\\'));
    let d = seq![drive, ':', '/'] + a;
    assert(d[0] == drive && d[1] == ':' && d[2] == '/');
    assert(names_drive(d));
    assert(names_drive(seq![drive, ':']));
    assert forall|k: int| 0 <= k < ".."@.len() implies !set.contains(#[trigger] ".."@[k]) by {
        assert(k == 0 || k == 1);
        if set.contains(".."@[k]) {
            let q = choose|q: int| 0 <= q < set.len() && set[q] == ".."@[k];
            assert(q == 0 || q == 1);
        }
    }
    text_laws::law_one_piece(".."@, set);
    assert(seq![".."@][0] == ".."@);
    text_laws::law_first_piece(".."@, '/', a, set);
    assert((seq![".."@] + text::split_any(a, set))[0] == ".."@);
    text_laws::law_pieces_of_parts(a, '/', ".."@, set);
    let x = text::split_any(a, set);
    assert((x + seq![".."@])[x.len() as int] == ".."@);
    text_laws::law_pieces_of_parts(a + seq!['/'] + ".."@, '/', b, set);
    let y = text::split_any(b, set);
    assert(((x + seq![".."@]) + y)[x.len() as int] == ".."@);
}

/// A name without a leading slash, without backslashes and colons, and in which two
/// dots never follow each other, may be used.
pub proof fn law_ordinary_names_are_safe(name: Seq<char>)
    requires
        name.len() > 0 ==> name[0] != '/',
        forall|k: int| 0 <= k < name.len() ==> name[k] != '\\' && name[k] != ':',
        !text::contains(name, ".."@),
    ensures
        !unsafe_name(name),
{
    let set = "/\\"@;
    text_laws::law_pieces_stand_in_the_text(name, set, 0);
    let pieces = text::split_any(name, set);
    if pieces.contains(".."@) {
        let k = choose|k: int| 0 <= k < pieces.len() && pieces[k] == ".."@;
        assert(text::contains(name, pieces[k]));
    }
    if name.contains('\\') {
        let k = choose|k: int| 0 <= k < name.len() && name[k] == '\\';
    }
}

proof fn lemma_parts_in_join(a: Seq<Seq<char>>, b: Seq<Seq<char>>, n: int)
    requires
        0 <= n <= b.len(),
    ensures
        parts_in(a + b, a.len() + n) == parts_in(a, a.len() as int) + parts_in(b, n),
    decreases n,
{
    let all = a + b;
    if n > 0 {
        lemma_parts_in_join(a, b, n - 1);
        assert(all[a.len() + n - 1] == b[n - 1]);
        let p = parts_in(a, a.len() as int);
        let q = parts_in(b, n - 1);
        assert((p + q).push(b[n - 1]) =~= p + q.push(b[n - 1]));
    } else {
        lemma_parts_in_front(a, b, a.len() as int);
        assert(parts_in(a, a.len() as int) + parts_in(b, 0) =~= parts_in(a, a.len() as int));
    }
}

proof fn lemma_parts_in_front(a: Seq<Seq<char>>, b: Seq<Seq<char>>, n: int)
    requires
        0 <= n <= a.len(),
    ensures
        parts_in(a + b, n) == parts_in(a, n),
    decreases n,
{
    if n > 0 {
        lemma_parts_in_front(a, b, n - 1);
        assert((a + b)[n - 1] == a[n - 1]);
    }
}

/// The parts of a path are those before a slash and those after it.
pub proof fn law_parts_of_a_path(a: Seq<char>, b: Seq<char>)
    ensures
        path_parts(a + seq!['/'] + b) == path_parts(a) + path_parts(b),
{
    text_laws::law_split_of_parts(a, '/', b);
    let x = text::split(a, '/');
    let y = text::split(b, '/');
    lemma_parts_in_join(x, y, y.len() as int);
}

/// What stands below a directory is inside of it, and so is the directory itself;
/// of two directories beside each other neither is inside of the other.
pub proof fn law_below_is_inside(root: Seq<char>, rest: Seq<char>, a: Seq<char>, b: Seq<char>)
    requires
        root.len() > 0,
        a.len() > 0,
        b.len() > 0,
        a != b,
        forall|k: int| 0 <= k < a.len() ==> a[k] != '/',
        forall|k: int| 0 <= k < b.len() ==> b[k] != '/',
        a != "."@,
        b != "."@,
    ensures
        inside(root, root),
        inside(root + seq!['/'] + rest, root),
        !inside(root + seq!['/'] + a, root + seq!['/'] + b),
{
    let p = path_parts(root);
    assert(p.take(p.len() as int) =~= p);
    law_parts_of_a_path(root, rest);
    let q = path_parts(rest);
    assert((p + q).take(p.len() as int) =~= p);
    assert((root + seq!['/'] + rest)[0] == root[0]);
    law_parts_of_a_path(root, a);
    law_parts_of_a_path(root, b);
    lemma_one_part(a);
    lemma_one_part(b);
    let x = p + seq![a];
    let y = p + seq![b];
    if begins_with(x, y) {
        assert(x.take(y.len() as int)[p.len() as int] == y[p.len() as int]);
        assert(x[p.len() as int] == a && y[p.len() as int] == b);
    }
}

proof fn lemma_one_part(a: Seq<char>)
    requires
        a.len() > 0,
        forall|k: int| 0 <= k < a.len() ==> a[k] != '/',
        a != "."@,
    ensures
        path_parts(a) == seq![a],
{
    text_laws::law_split_of_parts(a, '/', a);
    let s = text::split(a, '/');
    assert(s == seq![a]);
    assert(parts_in(s, 0) =~= Seq::<Seq<char>>::empty());
    assert(parts_in(s, 1) =~= seq![a]);
}

/// A prefix of directories is taken off a name that begins with it.
pub proof fn law_prefix_is_taken_off(prefix: Seq<char>, rest: Seq<char>)
    requires
        prefix.len() > 0,
        prefix[0] != '/',
        rest.len() > 0,
        forall|k: int| 0 <= k < rest.len() ==> rest[k] != '/',
        rest != "."@,
    ensures
        without_prefix(prefix + seq!['/'] + rest, prefix) == rest,
        without_prefix(rest, seq![]) == rest,
{
    law_parts_of_a_path(prefix, rest);
    lemma_one_part(rest);
    let p = path_parts(prefix);
    let all = p + seq![rest];
    assert(all.take(p.len() as int) =~= p);
    assert(all.skip(p.len() as int) =~= seq![rest]);
    assert((prefix + seq!['/'] + rest)[0] == prefix[0]);
}

/// The name of a player is made of letters, digits and underscores.
pub proof fn law_player_names(c: char)
    ensures
        name_char(c) <==> 'a' <= c <= 'z' || 'A' <= c <= 'Z' || '0' <= c <= '9' || c == '_',
{
}

/// A command to a terminal, such as one that sets a title, is taken out whole up to
/// its bell, and what stands before and after it stays.
pub proof fn law_commands_go(a: Seq<char>, command: Seq<char>, b: Seq<char>)
    requires
        forall|k: int| 0 <= k < a.len() ==> a[k] != '\x1b',
        forall|k: int| 0 <= k < b.len() ==> b[k] != '\x1b',
        forall|k: int| 0 <= k < command.len() ==> command[k] != '\x1b' && command[k] != '\x07',
    ensures
        stripped(a + seq!['\x1b', ']'] + command + seq!['\x07'] + b, 0) == a + b,
{
    let s = a + seq!['\x1b', ']'] + command + seq!['\x07'] + b;
    let n = a.len() as int;
    let e = n + 2 + command.len();
    lemma_stripped_plain(s, a, 0);
    assert(s[n] == '\x1b' && s[n + 1] == ']');
    assert(s[e] == '\x07');
    assert forall|k: int| n + 2 <= k < e implies s[k] != '\x07' && s[k] != '\x1b' by {
        assert(s[k] == command[k - n - 2]);
    }
    lemma_command_end(s, n + 2, e);
    assert(stripped(s, n) == stripped(s, e + 1));
    assert(s.skip(e + 1) =~= b);
    lemma_stripped_tail(s, e + 1);
    assert(a + b =~= a.skip(0) + b);
}

proof fn lemma_command_end(s: Seq<char>, i: int, e: int)
    requires
        0 <= i <= e < s.len(),
        s[e] == '\x07',
        forall|k: int| i <= k < e ==> s[k] != '\x07' && s[k] != '\x1b',
    ensures
        command_end(s, i) == e + 1,
    decreases e - i,
{
    if i < e {
        lemma_command_end(s, i + 1, e);
    }
}

/// An empty path counts as none.
pub proof fn law_empty_is_none(s: Seq<char>)
    ensures
        unless_empty(Some(seq![])) is None,
        unless_empty(None) is None,
        s.len() > 0 ==> unless_empty(Some(s)) == Some(s),
{
}

} // verus!
