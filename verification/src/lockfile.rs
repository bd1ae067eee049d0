//! Finding the client's lockfile, reading its port and token, and the
//! credentials built from them.
use vstd::prelude::*;
use crate::text::{push_char, push_str};
use base64::Engine;

verus! {

/// The pieces of `s` between occurrences of `sep` (one more piece than separators).
pub open spec fn split_on(s: Seq<char>, sep: char) -> Seq<Seq<char>>
    decreases s.len(),
{
    if s.len() == 0 {
        seq![seq![]]
    } else {
        let p = split_on(s.drop_last(), sep);
        if s.last() == sep {
            p.push(seq![])
        } else {
            p.update(p.len() - 1, p.last().push(s.last()))
        }
    }
}

/// Splitting always yields at least one part.
pub proof fn lemma_split_nonempty(s: Seq<char>, sep: char)
    ensures
        split_on(s, sep).len() >= 1,
    decreases s.len(),
{
    if s.len() > 0 {
        lemma_split_nonempty(s.drop_last(), sep);
    }
}

/// Splits `s` at every `sep`.
pub fn split_chars(s: &str, sep: char) -> (parts: Vec<String>)
    ensures
        crate::text::views(parts@) == split_on(s@, sep),
{
    let n = s.unicode_len();
    let mut done: Vec<String> = Vec::new();
    let mut cur = String::new();
    let mut i: usize = 0;
    proof {
        assert(s@.take(0) =~= Seq::<char>::empty());
        assert(crate::text::views(done@).push(cur@) =~= split_on(s@.take(0), sep));
    }
    while i < n
        invariant
            0 <= i <= n,
            n == s@.len(),
            crate::text::views(done@).push(cur@) == split_on(s@.take(i as int), sep),
        decreases n - i,
    {
        let c = s.get_char(i);
        let ghost t = s@.take(i as int + 1);
        proof {
            assert(t.drop_last() =~= s@.take(i as int));
            assert(t.last() == c);
            lemma_split_nonempty(s@.take(i as int), sep);
        }
        if c == sep {
            let finished = cur;
            let ghost dv = crate::text::views(done@);
            done.push(finished);
            cur = String::new();
            proof {
                assert(crate::text::views(done@) =~= dv.push(finished@));
                assert(crate::text::views(done@).push(cur@) =~= split_on(t, sep));
            }
        } else {
            push_char(&mut cur, c);
            proof {
                assert(crate::text::views(done@).push(cur@) =~= split_on(t, sep));
            }
        }
        i = i + 1;
    }
    proof {
        assert(s@.take(i as int) =~= s@);
    }
    let ghost dv = crate::text::views(done@);
    done.push(cur);
    proof {
        assert(crate::text::views(done@) =~= dv.push(done@.last()@));
    }
    done
}

/// Port and token of a lockfile (`name:pid:port:token:protocol`), read from the
/// third and fourth fields where there are at least five.
pub open spec fn lockfile_auth(content: Seq<char>) -> Option<(Seq<char>, Seq<char>)> {
    let parts = split_on(content, ':');
    if parts.len() >= 5 {
        Some((parts[2], parts[3]))
    } else {
        None
    }
}

/// Reads the port and token from a lockfile's contents.
pub fn parse_lockfile(content: &str) -> (r: Option<(String, String)>)
    ensures
        match r {
            Some((port, token)) => lockfile_auth(content@) == Some((port@, token@)),
            None => lockfile_auth(content@) is None,
        },
{
    let parts = split_chars(content, ':');
    if parts.len() >= 5 {
        let port = parts[2].clone();
        let token = parts[3].clone();
        proof {
            assert(crate::text::views(parts@)[2] == parts@[2]@);
            assert(crate::text::views(parts@)[3] == parts@[3]@);
        }
        Some((port, token))
    } else {
        None
    }
}

/// Reads the port and token from a lockfile's contents, or says the file could not be parsed.
pub fn get_auth_from_lockfile(content: &str) -> (r: Result<(String, String), String>)
    ensures
        match r {
            Ok((port, token)) => lockfile_auth(content@) == Some((port@, token@)),
            Err(e) => lockfile_auth(content@) is None && e@ == "Failed to parse lockfile"@,
        },
{
    match parse_lockfile(content) {
        Some(pt) => Ok(pt),
        None => Err(String::from_str("Failed to parse lockfile")),
    }
}

/// The file names the client may give its lockfile, in the order they are tried.
pub open spec fn lockfile_names() -> Seq<Seq<char>> {
    seq!["lockfile"@, "LeagueClientUx.lockfile"@, "LeagueClient.lockfile"@]
}

/// Whether `name` is a plain file name: not empty, not `.` or `..`, with no
/// separator (`/`, `\\`) and no drive colon.
pub open spec fn plain_file_name(name: Seq<char>) -> bool {
    &&& name.len() > 0
    &&& name != "."@ && name != ".."@
    &&& no_separator(name)
}

/// No character of `s` is `/`, `\\` or `:`.
pub open spec fn no_separator(s: Seq<char>) -> bool
    decreases s.len(),
{
    s.len() == 0 || (s[0] != '/' && s[0] != '\\' && s[0] != ':' && no_separator(s.drop_first()))
}

/// `s` begins with `p`.
pub open spec fn starts_with(s: Seq<char>, p: Seq<char>) -> bool {
    s.len() >= p.len() && s.subrange(0, p.len() as int) == p
}

/// `s` ends with `p`.
pub open spec fn ends_with(s: Seq<char>, p: Seq<char>) -> bool {
    s.len() >= p.len() && s.subrange(s.len() - p.len(), s.len() as int) == p
}

/// `name` placed in the folder `dir` after at most one separator: `dir` and
/// `name` side by side (where `dir` is empty, already ends with a separator or
/// is a bare drive such as `C:`), or with `/` or `\\` between them.
pub open spec fn placed_in(r: Seq<char>, dir: Seq<char>, name: Seq<char>) -> bool {
    r == dir + name || r == dir + seq!['/'] + name || r == dir + seq!['\\'] + name
}

/// The path of the file `name` in the folder `dir`, through `PathBuf::join`
/// (then `to_string_lossy`, which keeps valid text as it is). As `PathBuf::push`
/// documents, a relative name without prefix or root is appended to the folder,
/// after the platform's separator unless the folder is empty, ends with a
/// separator or is a bare drive; so for a plain file name the result is the
/// folder, at most one separator and the name. Folders with a verbatim prefix
/// (`\\?\`), which push normalizes, are left out of that claim; the result still
/// ends with the name. Which separator is used is the platform's and is not stated.
#[verifier::external_body]
pub(crate) fn path_in_dir(dir: &str, name: &str) -> (r: String)
    ensures
        plain_file_name(name@) ==> ends_with(r@, name@),
        plain_file_name(name@) && !dir@.contains('?') ==> placed_in(r@, dir@, name@),
{
    std::path::PathBuf::from(dir).join(name).to_string_lossy().to_string()
}

/// No character of `s` from position `i` on is `c`.
pub open spec fn lacks_from(s: Seq<char>, c: char, i: int) -> bool
    decreases s.len() - i,
{
    if i < 0 || i >= s.len() {
        true
    } else {
        s[i] != c && lacks_from(s, c, i + 1)
    }
}

/// No character of `s` is `c`.
pub open spec fn lacks(s: Seq<char>, c: char) -> bool {
    lacks_from(s, c, 0)
}

proof fn lemma_lacks_from(s: Seq<char>, c: char, i: int)
    requires
        0 <= i,
        lacks_from(s, c, i),
    ensures
        forall|j: int| i <= j < s.len() ==> s[j] != c,
    decreases s.len() - i,
{
    if i < s.len() {
        lemma_lacks_from(s, c, i + 1);
    }
}

pub proof fn lemma_lacks(s: Seq<char>, c: char)
    requires
        lacks(s, c),
    ensures
        !s.contains(c),
{
    lemma_lacks_from(s, c, 0);
}

/// Placing a name in a folder adds no character but a separator.
pub proof fn lemma_placed_in_lacks(r: Seq<char>, dir: Seq<char>, name: Seq<char>, c: char)
    requires
        placed_in(r, dir, name),
        !dir.contains(c),
        !name.contains(c),
        c != '/',
        c != '\\',
    ensures
        !r.contains(c),
{
    if r.contains(c) {
        let k = choose|k: int| 0 <= k < r.len() && r[k] == c;
        if k < dir.len() {
            assert(dir[k] == c);
        } else if r == dir + name {
            assert(name[k - dir.len()] == c);
        } else if k == dir.len() {
            assert(r[k] == '/' || r[k] == '\\');
        } else {
            assert(name[k - dir.len() - 1] == c);
        }
    }
}

/// Whether a path names an existing file or folder, through `Path::exists`.
#[verifier::external_body]
pub(crate) fn path_exists(path: &str) -> bool {
    std::path::Path::new(path).exists()
}

/// The index of the first `true`.
pub open spec fn first_true(s: Seq<bool>) -> Option<usize>
    decreases s.len(),
{
    if s.len() == 0 {
        None
    } else {
        match first_true(s.drop_last()) {
            Some(k) => Some(k),
            None => if s.last() { Some((s.len() - 1) as usize) } else { None },
        }
    }
}

/// The first candidate that exists, given whether each exists.
pub fn first_existing(candidates: &Vec<String>, exists: &Vec<bool>) -> (r: Option<usize>)
    requires
        candidates.len() == exists.len(),
    ensures
        r == first_true(exists@),
        r matches Some(k) ==> k < exists.len() && exists@[k as int],
{
    let mut i: usize = 0;
    while i < exists.len()
        invariant
            0 <= i <= exists.len(),
            first_true(exists@.take(i as int)) is None,
        decreases exists.len() - i,
    {
        proof {
            assert(exists@.take(i as int + 1).drop_last() =~= exists@.take(i as int));
        }
        if exists[i] {
            proof {
                lemma_first_true_prefix(exists@, i as int + 1);
                assert(exists@.take(i as int + 1).last() == exists@[i as int]);
            }
            return Some(i);
        }
        i = i + 1;
    }
    proof {
        assert(exists@.take(i as int) =~= exists@);
    }
    None
}

proof fn lemma_first_true_prefix(s: Seq<bool>, n: int)
    requires
        0 <= n <= s.len(),
        first_true(s.take(n)) is Some,
    ensures
        first_true(s) == first_true(s.take(n)),
    decreases s.len() - n,
{
    if n < s.len() {
        assert(s.take(n + 1).drop_last() =~= s.take(n));
        lemma_first_true_prefix(s, n + 1);
    } else {
        assert(s.take(n) =~= s);
    }
}

proof fn lemma_lockfile_names_plain()
    ensures
        forall|k: int| 0 <= k < 3 ==> plain_file_name(#[trigger] lockfile_names()[k]),
{
    reveal_strlit("lockfile");
    reveal_strlit("LeagueClientUx.lockfile");
    reveal_strlit("LeagueClient.lockfile");
    reveal_strlit(".");
    reveal_strlit("..");
    reveal_with_fuel(no_separator, 24);
    assert("lockfile"@.len() == 8);
    assert("lockfile"@ != "."@);
    assert("lockfile"@ != ".."@);
    assert(no_separator("lockfile"@));
    assert(plain_file_name("lockfile"@));
    assert("LeagueClientUx.lockfile"@.len() == 23);
    assert("LeagueClientUx.lockfile"@ != "."@);
    assert("LeagueClientUx.lockfile"@ != ".."@);
    assert(no_separator("LeagueClientUx.lockfile"@));
    assert(plain_file_name("LeagueClientUx.lockfile"@));
    assert("LeagueClient.lockfile"@.len() == 21);
    assert("LeagueClient.lockfile"@ != "."@);
    assert("LeagueClient.lockfile"@ != ".."@);
    assert(no_separator("LeagueClient.lockfile"@));
    assert(plain_file_name("LeagueClient.lockfile"@));
}

/// The error when no lockfile was found.
pub open spec fn lockfile_not_found_message() -> Seq<char> {
    "Lockfile not found. Is League of Legends running?"@
}

/// Where each of the lockfile's names (`lockfile`, `LeagueClientUx.lockfile`,
/// `LeagueClient.lockfile`, in this order) would sit in the game folder.
pub fn lockfile_probes(league_path: &str) -> (r: Vec<String>)
    ensures
        r.len() == 3,
        forall|k: int| 0 <= k < 3 ==> ends_with(r@[k]@, #[trigger] lockfile_names()[k]),
        !league_path@.contains('?') ==> forall|k: int|
            0 <= k < 3 ==> placed_in(r@[k]@, league_path@, #[trigger] lockfile_names()[k]),
{
    proof {
        lemma_lockfile_names_plain();
        assert(lockfile_names()[0] == "lockfile"@);
        assert(lockfile_names()[1] == "LeagueClientUx.lockfile"@);
        assert(lockfile_names()[2] == "LeagueClient.lockfile"@);
        assert(plain_file_name(lockfile_names()[0]));
        assert(plain_file_name(lockfile_names()[1]));
        assert(plain_file_name(lockfile_names()[2]));
    }
    let p1 = path_in_dir(league_path, "lockfile");
    let p2 = path_in_dir(league_path, "LeagueClientUx.lockfile");
    let p3 = path_in_dir(league_path, "LeagueClient.lockfile");
    let ghost g = seq![p1@, p2@, p3@];
    let probes: Vec<String> = vec![p1, p2, p3];
    assert(forall|k: int| 0 <= k < 3 ==> probes@[k]@ == #[trigger] g[k]);
    probes
}

/// The lockfile to use, given where each of its names would sit and whether a
/// file exists there: the first that exists.
pub fn lockfile_from_probes(probes: &Vec<String>, exists: &Vec<bool>) -> (r: Result<String, String>)
    requires
        probes.len() == exists.len(),
    ensures
        match first_true(exists@) {
            Some(k) => r matches Ok(p) && p@ == probes@[k as int]@,
            None => r matches Err(e) && e@ == lockfile_not_found_message(),
        },
{
    match first_existing(probes, exists) {
        Some(k) => Ok(probes[k].clone()),
        None => Err(String::from_str("Lockfile not found. Is League of Legends running?")),
    }
}

/// Whether a file exists at each of the paths (read from disk).
pub fn paths_exist(paths: &Vec<String>) -> (r: Vec<bool>)
    ensures
        r.len() == paths.len(),
{
    let mut r: Vec<bool> = Vec::new();
    let mut i: usize = 0;
    while i < paths.len()
        invariant
            0 <= i <= paths.len(),
            r.len() == i,
        decreases paths.len() - i,
    {
        r.push(path_exists(paths[i].as_str()));
        i = i + 1;
    }
    r
}

/// Looks for the lockfile in the game folder under each of its names in turn:
/// the path returned is that of the first one found on disk, the game folder
/// with the name placed in it.
pub fn find_lockfile(league_path: &str) -> (r: Result<String, String>)
    ensures
        match r {
            Ok(p) => exists|k: int| 0 <= k < 3 && ends_with(p@, #[trigger] lockfile_names()[k])
                && (!league_path@.contains('?') ==> placed_in(p@, league_path@, lockfile_names()[k])),
            Err(e) => e@ == lockfile_not_found_message(),
        },
{
    let probes = lockfile_probes(league_path);
    let exists = paths_exist(&probes);
    let r = lockfile_from_probes(&probes, &exists);
    proof {
        if let Some(k) = first_true(exists@) {
            lemma_first_true_bound(exists@);
            assert(ends_with(probes@[k as int]@, lockfile_names()[k as int]));
        }
    }
    r
}

pub proof fn lemma_first_true_bound(s: Seq<bool>)
    requires
        s.len() <= usize::MAX,
    ensures
        first_true(s) matches Some(k) ==> k < s.len() && s[k as int],
    decreases s.len(),
{
    if s.len() > 0 {
        lemma_first_true_bound(s.drop_last());
        if let Some(k) = first_true(s.drop_last()) {
            assert(s.drop_last()[k as int] == s[k as int]);
        }
    }
}

/// The UTF-8 bytes of one character: one byte below 0x80, else a lead byte
/// (`110xxxxx`, `1110xxxx` or `11110xxx`) and continuation bytes (`10xxxxxx`)
/// holding the code point's bits, most significant first.
pub open spec fn utf8_char(c: char) -> Seq<u8> {
    let n = c as u32 as int;
    if n < 0x80 {
        seq![n as u8]
    } else if n < 0x800 {
        seq![(0xc0 + n / 64) as u8, (0x80 + n % 64) as u8]
    } else if n < 0x10000 {
        seq![(0xe0 + n / 4096) as u8, (0x80 + (n / 64) % 64) as u8, (0x80 + n % 64) as u8]
    } else {
        seq![(0xf0 + n / 262144) as u8, (0x80 + (n / 4096) % 64) as u8, (0x80 + (n / 64) % 64) as u8, (0x80 + n % 64) as u8]
    }
}

/// The UTF-8 bytes of a string.
pub open spec fn utf8_bytes(s: Seq<char>) -> Seq<u8>
    decreases s.len(),
{
    if s.len() == 0 { seq![] } else { utf8_char(s[0]) + utf8_bytes(s.drop_first()) }
}

/// The character for a six-bit value in the standard base64 alphabet
/// (RFC 4648): `A`–`Z`, `a`–`z`, `0`–`9`, `+`, `/`.
pub open spec fn base64_digit(v: int) -> char {
    if v < 26 {
        (65 + v) as char
    } else if v < 52 {
        (97 + v - 26) as char
    } else if v < 62 {
        (48 + v - 52) as char
    } else if v == 62 {
        '+'
    } else {
        '/'
    }
}

/// Standard base64 with padding (RFC 4648): each group of three bytes becomes
/// four characters of six bits each; a final group of two bytes becomes three
/// characters and `=`, of one byte two characters and `==`.
pub open spec fn base64_of_bytes(b: Seq<u8>) -> Seq<char>
    decreases b.len(),
{
    if b.len() == 0 {
        seq![]
    } else {
        let x0 = b[0] as int;
        let x1 = if b.len() > 1 { b[1] as int } else { 0 };
        let x2 = if b.len() > 2 { b[2] as int } else { 0 };
        let d0 = base64_digit(x0 / 4);
        let d1 = base64_digit((x0 % 4) * 16 + x1 / 16);
        let d2 = base64_digit((x1 % 16) * 4 + x2 / 64);
        let d3 = base64_digit(x2 % 64);
        if b.len() == 1 {
            seq![d0, d1, '=', '=']
        } else if b.len() == 2 {
            seq![d0, d1, d2, '=']
        } else {
            seq![d0, d1, d2, d3] + base64_of_bytes(b.skip(3))
        }
    }
}

/// The standard base64 encoding (with padding) of the UTF-8 bytes of a string.
pub open spec fn base64_standard(s: Seq<char>) -> Seq<char> {
    base64_of_bytes(utf8_bytes(s))
}

/// Encodes the UTF-8 bytes of `s` in standard base64 with padding, through
/// `base64::engine::general_purpose::STANDARD.encode` (the RFC 4648 alphabet,
/// padding on): the result is `base64_standard` of the characters of `s`.
#[verifier::external_body]
fn base64_encode(s: &str) -> (r: String)
    requires
        s@.len() <= usize::MAX / 8,
    ensures
        r@ == base64_standard(s@),
{
    base64::engine::general_purpose::STANDARD.encode(s)
}

/// The value of the client's `Authorization` header: `"Basic "` and the base64 of `"riot:{token}"`.
pub open spec fn basic_auth_value(token: Seq<char>) -> Seq<char> {
    "Basic "@ + base64_standard("riot:"@ + token)
}

/// Builds the client's `Authorization` header value from the lockfile token.
pub fn basic_auth_header(token: &str) -> (r: String)
    requires
        token@.len() <= usize::MAX / 16,
    ensures
        r@ == basic_auth_value(token@),
{
    let mut user = String::new();
    push_str(&mut user, "riot:");
    push_str(&mut user, token);
    proof {
        reveal_strlit("riot:");
        assert(user@ =~= "riot:"@ + token@);
    }
    let encoded = base64_encode(user.as_str());
    let mut out = String::new();
    push_str(&mut out, "Basic ");
    push_str(&mut out, encoded.as_str());
    out
}

} // verus!
