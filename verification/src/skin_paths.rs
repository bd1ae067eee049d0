//! Where a skin file a friend shared may sit on this machine: the candidate
//! paths, in the order they are tried. Paths are compared with `/` as the
//! separator (`\` is read as `/`); which candidates exist is for the caller
//! to find out.
use vstd::prelude::*;
use crate::text::{push_char, push_str, views};
use crate::lockfile::{split_on, split_chars, lemma_split_nonempty, starts_with};

verus! {

/// The path with every `\` read as `/`.
pub open spec fn normalized_slashes(s: Seq<char>) -> Seq<char> {
    s.map_values(|c: char| if c == '\\' { '/' } else { c })
}

/// The path without its leading `/`s.
pub open spec fn without_leading_slashes(s: Seq<char>) -> Seq<char>
    decreases s.len(),
{
    if s.len() > 0 && s[0] == '/' { without_leading_slashes(s.drop_first()) } else { s }
}

/// The last `/`-separated part of a path (its file name; empty after a final `/`).
pub open spec fn last_segment(s: Seq<char>) -> Seq<char> {
    split_on(s, '/').last()
}

/// The position of the last `.`, or -1.
pub open spec fn last_dot(s: Seq<char>) -> int
    decreases s.len(),
{
    if s.len() == 0 {
        -1
    } else if s.last() == '.' {
        s.len() - 1
    } else {
        last_dot(s.drop_last())
    }
}

/// A file name without its extension: the part before the last `.`, unless
/// that `.` starts the name.
pub open spec fn stem_of(name: Seq<char>) -> Seq<char> {
    if last_dot(name) > 0 { name.take(last_dot(name)) } else { name }
}

/// Whether a (normalized) path is absolute: it starts at the root or at a drive.
pub open spec fn looks_absolute(p: Seq<char>) -> bool {
    (p.len() > 0 && p[0] == '/') || (p.len() >= 3 && p[1] == ':' && p[2] == '/')
}

/// `rest` inside the folder `dir`.
pub open spec fn joined(dir: Seq<char>, rest: Seq<char>) -> Seq<char> {
    if dir.len() == 0 {
        rest
    } else if dir.last() == '/' || dir.last() == '\\' {
        dir + rest
    } else {
        dir + seq!['/'] + rest
    }
}

/// A file name in `dir`, then its stem with each archive extension.
pub open spec fn name_candidates(dir: Seq<char>, name: Seq<char>) -> Seq<Seq<char>> {
    if name.len() == 0 {
        seq![]
    } else {
        seq![joined(dir, name), joined(dir, stem_of(name) + ".zip"@), joined(dir, stem_of(name) + ".skin_file"@)]
    }
}

/// The places in `dir` for a shared path: the path under `dir` where it is
/// relative, then its file name variants.
pub open spec fn in_dir_candidates(dir: Seq<char>, src: Seq<char>) -> Seq<Seq<char>> {
    (if !looks_absolute(normalized_slashes(src)) { seq![joined(dir, src)] } else { seq![] })
        + name_candidates(dir, last_segment(normalized_slashes(src)))
}

/// A path under the sender's `ezrea` folder, mapped under the champions folder
/// (then its file name there); any other rooted path, mapped under the
/// champions folder.
pub open spec fn mapped_candidates(champions: Seq<char>, norm: Seq<char>, rel: Seq<char>) -> Seq<Seq<char>> {
    if starts_with(norm, "/ezrea/"@) || starts_with(norm, "ezrea/"@) {
        let tail = if starts_with(norm, "/ezrea/"@) { norm.skip(7) } else { norm.skip(6) };
        let name = last_segment(tail);
        seq![joined(champions, tail)] + if name.len() > 0 { seq![joined(champions, name)] } else { seq![] }
    } else if norm.len() > 0 && norm[0] == '/' {
        seq![joined(champions, rel)]
    } else {
        seq![]
    }
}

/// Where a friend's skin file may sit, in the order tried: the path itself
/// where absolute; the mapped paths; then the variants in the champions folder
/// and in the game's skins folder, for the path with and without its leading `/`.
pub open spec fn friend_skin_candidates_of(path: Seq<char>, champions: Seq<char>, assets: Seq<char>) -> Seq<Seq<char>> {
    let norm = normalized_slashes(path);
    let rel = without_leading_slashes(norm);
    (if looks_absolute(norm) { seq![path] } else { seq![] })
        + mapped_candidates(champions, norm, rel)
        + in_dir_candidates(champions, rel)
        + in_dir_candidates(champions, path)
        + in_dir_candidates(assets, rel)
        + in_dir_candidates(assets, path)
}

fn normalize_slashes(s: &str) -> (r: String)
    ensures
        r@ == normalized_slashes(s@),
{
    let n = s.unicode_len();
    let mut out = String::new();
    let mut i: usize = 0;
    while i < n
        invariant
            0 <= i <= n,
            n == s@.len(),
            out@ == normalized_slashes(s@.take(i as int)),
        decreases n - i,
    {
        let c = s.get_char(i);
        push_char(&mut out, if c == '\\' { '/' } else { c });
        proof {
            assert(normalized_slashes(s@.take(i as int + 1)) =~= normalized_slashes(s@.take(i as int)).push(if c == '\\' { '/' } else { c }));
        }
        i = i + 1;
    }
    proof {
        assert(s@.take(i as int) =~= s@);
    }
    out
}

proof fn lemma_leading_slashes(s: Seq<char>, i: int)
    requires
        0 <= i <= s.len(),
        forall|k: int| 0 <= k < i ==> s[k] == '/',
    ensures
        without_leading_slashes(s) == without_leading_slashes(s.skip(i)),
    decreases i,
{
    if i > 0 {
        assert forall|k: int| 0 <= k < i - 1 implies s.drop_first()[k] == '/' by {
            assert(s.drop_first()[k] == s[k + 1]);
        }
        lemma_leading_slashes(s.drop_first(), i - 1);
        assert(s.drop_first().skip(i - 1) =~= s.skip(i));
    } else {
        assert(s.skip(0) =~= s);
    }
}

fn strip_leading_slashes(s: &str) -> (r: String)
    ensures
        r@ == without_leading_slashes(s@),
{
    let n = s.unicode_len();
    let mut i: usize = 0;
    while i < n && s.get_char(i) == '/'
        invariant
            0 <= i <= n,
            n == s@.len(),
            forall|k: int| 0 <= k < i ==> s@[k] == '/',
        decreases n - i,
    {
        i = i + 1;
    }
    proof {
        lemma_leading_slashes(s@, i as int);
        assert(s@.skip(i as int) =~= s@.subrange(i as int, n as int));
    }
    String::from_str(s.substring_char(i, n))
}

fn last_segment_exec(s: &str) -> (r: String)
    ensures
        r@ == last_segment(s@),
{
    let parts = split_chars(s, '/');
    proof {
        lemma_split_nonempty(s@, '/');
    }
    let k = parts.len() - 1;
    assert(views(parts@)[k as int] == parts@[k as int]@);
    parts[k].clone()
}

fn stem_exec(name: &str) -> (r: String)
    ensures
        r@ == stem_of(name@),
{
    let n = name.unicode_len();
    let mut found = false;
    let mut dot: usize = 0;
    let mut i: usize = 0;
    while i < n
        invariant
            0 <= i <= n,
            n == name@.len(),
            (if found { dot as int } else { -1 }) == last_dot(name@.take(i as int)),
            found ==> dot < i,
        decreases n - i,
    {
        proof {
            assert(name@.take(i as int + 1).drop_last() =~= name@.take(i as int));
            assert(name@.take(i as int + 1).last() == name@[i as int]);
        }
        if name.get_char(i) == '.' {
            found = true;
            dot = i;
        }
        i = i + 1;
    }
    proof {
        assert(name@.take(i as int) =~= name@);
    }
    if found && dot > 0 {
        assert(name@.take(dot as int) =~= name@.subrange(0, dot as int));
        String::from_str(name.substring_char(0, dot))
    } else {
        String::from_str(name)
    }
}

fn looks_absolute_exec(p: &str) -> (r: bool)
    ensures
        r == looks_absolute(p@),
{
    let n = p.unicode_len();
    (n > 0 && p.get_char(0) == '/') || (n >= 3 && p.get_char(1) == ':' && p.get_char(2) == '/')
}

fn joined_exec(dir: &str, rest: &str) -> (r: String)
    ensures
        r@ == joined(dir@, rest@),
{
    let n = dir.unicode_len();
    let mut out = String::from_str(dir);
    if n == 0 {
        return String::from_str(rest);
    }
    let last = dir.get_char(n - 1);
    if last != '/' && last != '\\' {
        push_char(&mut out, '/');
    }
    push_str(&mut out, rest);
    out
}

fn push_name_candidates(out: &mut Vec<String>, dir: &str, name: &str)
    ensures
        views(final(out)@) == views(old(out)@) + name_candidates(dir@, name@),
{
    if name.unicode_len() == 0 {
        assert(views(out@) =~= views(old(out)@) + name_candidates(dir@, name@));
        return;
    }
    let stem = stem_exec(name);
    let mut zip = stem.clone();
    push_str(&mut zip, ".zip");
    let mut skin_file = stem.clone();
    push_str(&mut skin_file, ".skin_file");
    let a = joined_exec(dir, name);
    let b = joined_exec(dir, zip.as_str());
    let c = joined_exec(dir, skin_file.as_str());
    out.push(a);
    out.push(b);
    out.push(c);
    assert(views(out@) =~= views(old(out)@) + name_candidates(dir@, name@));
}

fn push_in_dir_candidates(out: &mut Vec<String>, dir: &str, src: &str)
    ensures
        views(final(out)@) == views(old(out)@) + in_dir_candidates(dir@, src@),
{
    let norm = normalize_slashes(src);
    if !looks_absolute_exec(norm.as_str()) {
        let j = joined_exec(dir, src);
        out.push(j);
    }
    let ghost mid = views(out@);
    assert(mid =~= views(old(out)@) + (if !looks_absolute(normalized_slashes(src@)) { seq![joined(dir@, src@)] } else { seq![] }));
    let name = last_segment_exec(norm.as_str());
    push_name_candidates(out, dir, name.as_str());
    assert(views(out@) =~= views(old(out)@) + in_dir_candidates(dir@, src@));
}

fn starts_with_exec(s: &str, p: &str) -> (r: bool)
    ensures
        r == starts_with(s@, p@),
{
    let n = s.unicode_len();
    let m = p.unicode_len();
    if n < m {
        return false;
    }
    crate::text::str_eq(s.substring_char(0, m), p)
}

fn push_mapped_candidates(out: &mut Vec<String>, champions: &str, norm: &str, rel: &str)
    ensures
        views(final(out)@) == views(old(out)@) + mapped_candidates(champions@, norm@, rel@),
{
    proof {
        reveal_strlit("/ezrea/");
        reveal_strlit("ezrea/");
    }
    let long = starts_with_exec(norm, "/ezrea/");
    let short = starts_with_exec(norm, "ezrea/");
    if long || short {
        let n = norm.unicode_len();
        let tail = if long { norm.substring_char(7, n) } else { norm.substring_char(6, n) };
        assert(tail@ == if starts_with(norm@, "/ezrea/"@) { norm@.skip(7) } else { norm@.skip(6) });
        let j = joined_exec(champions, tail);
        out.push(j);
        let name = last_segment_exec(tail);
        if name.unicode_len() > 0 {
            let k = joined_exec(champions, name.as_str());
            out.push(k);
        }
        assert(views(out@) =~= views(old(out)@) + mapped_candidates(champions@, norm@, rel@));
    } else if norm.unicode_len() > 0 && norm.get_char(0) == '/' {
        let j = joined_exec(champions, rel);
        out.push(j);
        assert(views(out@) =~= views(old(out)@) + mapped_candidates(champions@, norm@, rel@));
    } else {
        assert(views(out@) =~= views(old(out)@) + mapped_candidates(champions@, norm@, rel@));
    }
}

/// The places a friend's shared skin file may sit on this machine, in the
/// order they are tried.
pub fn friend_skin_candidates(skin_file_path: &str, champions_dir: &str, assets_skins_dir: &str) -> (r: Vec<String>)
    ensures
        views(r@) == friend_skin_candidates_of(skin_file_path@, champions_dir@, assets_skins_dir@),
{
    let norm = normalize_slashes(skin_file_path);
    let rel = strip_leading_slashes(norm.as_str());
    let mut out: Vec<String> = Vec::new();
    if looks_absolute_exec(norm.as_str()) {
        out.push(String::from_str(skin_file_path));
    }
    assert(views(out@) =~= (if looks_absolute(normalized_slashes(skin_file_path@)) { seq![skin_file_path@] } else { seq![] }));
    push_mapped_candidates(&mut out, champions_dir, norm.as_str(), rel.as_str());
    push_in_dir_candidates(&mut out, champions_dir, rel.as_str());
    push_in_dir_candidates(&mut out, champions_dir, skin_file_path);
    push_in_dir_candidates(&mut out, assets_skins_dir, rel.as_str());
    push_in_dir_candidates(&mut out, assets_skins_dir, skin_file_path);
    out
}

} // verus!
