//! Finding the game folder: the answer of the folder dialog, the usual
//! install locations and the location the registry records.
use vstd::prelude::*;
use crate::lockfile::{path_in_dir, paths_exist, first_existing, first_true, placed_in, ends_with, plain_file_name, no_separator, lacks, lacks_from, lemma_lacks, lemma_placed_in_lacks};

verus! {

/// Whether a character has the Unicode White_Space property, which is what
/// `str::trim` strips: tab to carriage return, space, next line, no-break space,
/// ogham space mark, the spaces from en quad to hair space, the line and
/// paragraph separators, narrow no-break space, medium mathematical space and
/// ideographic space.
pub open spec fn is_white_space(c: char) -> bool {
    let n = c as u32;
    (0x9 <= n && n <= 0xd) || n == 0x20 || n == 0x85 || n == 0xa0 || n == 0x1680
        || (0x2000 <= n && n <= 0x200a) || n == 0x2028 || n == 0x2029 || n == 0x202f
        || n == 0x205f || n == 0x3000
}

/// The string without its leading white space.
pub open spec fn trim_start_ws(s: Seq<char>) -> Seq<char>
    decreases s.len(),
{
    if s.len() > 0 && is_white_space(s[0]) { trim_start_ws(s.drop_first()) } else { s }
}

/// The string without its trailing white space.
pub open spec fn trim_end_ws(s: Seq<char>) -> Seq<char>
    decreases s.len(),
{
    if s.len() > 0 && is_white_space(s.last()) { trim_end_ws(s.drop_last()) } else { s }
}

/// A string without its leading and trailing white space.
pub open spec fn trimmed(s: Seq<char>) -> Seq<char> {
    trim_end_ws(trim_start_ws(s))
}

/// Removes leading and trailing white space through `str::trim`, which its
/// documentation defines by the Unicode White_Space property.
#[verifier::external_body]
fn trim_text(s: &str) -> (r: String)
    ensures
        r@ == trimmed(s@),
{
    s.trim().to_string()
}

/// The error when the dialog was closed without a choice.
pub open spec fn cancelled_message() -> Seq<char> {
    "Directory selection cancelled"@
}

/// The error when the dialog answered nothing.
pub open spec fn nothing_selected_message() -> Seq<char> {
    "No directory selected"@
}

/// The error when the chosen folder holds neither client nor game.
pub open spec fn not_a_game_folder_message() -> Seq<char> {
    "Selected directory does not appear to be a valid League of Legends installation"@
}

/// The names probed in an install folder.
pub open spec fn client_exe_name() -> Seq<char> {
    "LeagueClient.exe"@
}

pub open spec fn game_dir_name() -> Seq<char> {
    "Game"@
}

pub open spec fn game_exe_name() -> Seq<char> {
    "League of Legends.exe"@
}

proof fn lemma_probe_names_plain()
    ensures
        plain_file_name(client_exe_name()),
        plain_file_name(game_dir_name()),
        plain_file_name(game_exe_name()),
        !client_exe_name().contains('?'),
        !game_dir_name().contains('?'),
        !game_exe_name().contains('?'),
{
    reveal_strlit("LeagueClient.exe");
    reveal_strlit("Game");
    reveal_strlit("League of Legends.exe");
    reveal_strlit(".");
    reveal_strlit("..");
    reveal_with_fuel(no_separator, 23);
    reveal_with_fuel(lacks_from, 23);
    assert("LeagueClient.exe"@.len() == 16);
    assert("LeagueClient.exe"@ != "."@);
    assert("LeagueClient.exe"@ != ".."@);
    assert(no_separator("LeagueClient.exe"@));
    assert(lacks("LeagueClient.exe"@, '?'));
    lemma_lacks("LeagueClient.exe"@, '?');
    assert("Game"@.len() == 4);
    assert("Game"@ != "."@);
    assert("Game"@ != ".."@);
    assert(no_separator("Game"@));
    assert(lacks("Game"@, '?'));
    lemma_lacks("Game"@, '?');
    assert("League of Legends.exe"@.len() == 21);
    assert("League of Legends.exe"@ != "."@);
    assert("League of Legends.exe"@ != ".."@);
    assert(no_separator("League of Legends.exe"@));
    assert(lacks("League of Legends.exe"@, '?'));
    lemma_lacks("League of Legends.exe"@, '?');
}

/// The folder the dialog answered, before anything is read from disk: the error
/// for a closed dialog or a blank answer, else the answer without surrounding
/// white space.
pub fn selected_directory(dialog_succeeded: bool, dialog_output: &str) -> (r: Result<String, String>)
    ensures
        match r {
            Ok(p) => dialog_succeeded && p@ == trimmed(dialog_output@) && p@.len() > 0,
            Err(e) => if !dialog_succeeded {
                e@ == cancelled_message()
            } else {
                trimmed(dialog_output@).len() == 0 && e@ == nothing_selected_message()
            },
        },
{
    if !dialog_succeeded {
        return Err(String::from_str("Directory selection cancelled"));
    }
    let path = trim_text(dialog_output);
    if path.as_str().unicode_len() == 0 {
        return Err(String::from_str("No directory selected"));
    }
    Ok(path)
}

/// Where the client (`LeagueClient.exe`) and the game (`Game/League of
/// Legends.exe`) would sit in an install folder.
pub fn install_probes(dir: &str) -> (r: (String, String))
    ensures
        ends_with(r.0@, client_exe_name()),
        ends_with(r.1@, game_exe_name()),
        !dir@.contains('?') ==> placed_in(r.0@, dir@, client_exe_name()),
        !dir@.contains('?') ==> exists|g: Seq<char>|
            placed_in(g, dir@, game_dir_name()) && #[trigger] placed_in(r.1@, g, game_exe_name()),
{
    proof {
        lemma_probe_names_plain();
    }
    let game_dir = path_in_dir(dir, "Game");
    let game_exe = path_in_dir(game_dir.as_str(), "League of Legends.exe");
    let client_exe = path_in_dir(dir, "LeagueClient.exe");
    proof {
        if !dir@.contains('?') {
            lemma_placed_in_lacks(game_dir@, dir@, game_dir_name(), '?');
            assert(placed_in(game_exe@, game_dir@, game_exe_name()));
        }
    }
    (client_exe, game_exe)
}

/// Accepts an install folder when its client or its game exists there.
pub fn install_verdict(dir: String, client_exists: bool, game_exists: bool) -> (r: Result<String, String>)
    ensures
        if client_exists || game_exists {
            r matches Ok(p) && p@ == dir@
        } else {
            r matches Err(e) && e@ == not_a_game_folder_message()
        },
{
    if !client_exists && !game_exists {
        return Err(String::from_str("Selected directory does not appear to be a valid League of Legends installation"));
    }
    Ok(dir)
}

/// Checks the folder the dialog answered: the dialog must have succeeded and
/// answered a non-blank path, and the folder must hold `LeagueClient.exe` or
/// `Game/League of Legends.exe` (which is read from disk). The path is
/// returned without surrounding whitespace.
pub fn validate_selected_directory(dialog_succeeded: bool, dialog_output: &str) -> (r: Result<String, String>)
    ensures
        match r {
            Ok(p) => dialog_succeeded && p@ == trimmed(dialog_output@) && p@.len() > 0,
            Err(e) => if !dialog_succeeded {
                e@ == cancelled_message()
            } else if trimmed(dialog_output@).len() == 0 {
                e@ == nothing_selected_message()
            } else {
                e@ == not_a_game_folder_message()
            },
        },
{
    let path = match selected_directory(dialog_succeeded, dialog_output) {
        Ok(p) => p,
        Err(e) => return Err(e),
    };
    let (client_exe, game_exe) = install_probes(path.as_str());
    let client_exists = crate::lockfile::path_exists(client_exe.as_str());
    let game_exists = crate::lockfile::path_exists(game_exe.as_str());
    install_verdict(path, client_exists, game_exists)
}

/// The usual install locations, in the order they are tried.
pub open spec fn common_league_paths() -> Seq<Seq<char>> {
    seq![
        "C:\\Riot Games\\League of Legends"@,
        "C:\\Program Files\\Riot Games\\League of Legends"@,
        "C:\\Program Files (x86)\\Riot Games\\League of Legends"@,
    ]
}

fn common_league_paths_exec() -> (r: Vec<String>)
    ensures
        r.len() == 3,
        forall|k: int| 0 <= k < 3 ==> r@[k]@ == #[trigger] common_league_paths()[k],
{
    let v: Vec<String> = vec![
        String::from_str("C:\\Riot Games\\League of Legends"),
        String::from_str("C:\\Program Files\\Riot Games\\League of Legends"),
        String::from_str("C:\\Program Files (x86)\\Riot Games\\League of Legends"),
    ];
    assert(forall|k: int| 0 <= k < 3 ==> v@[k]@ == #[trigger] common_league_paths()[k]);
    v
}

proof fn lemma_short_paths_plain()
    ensures
        !"C:\\Riot Games\\League of Legends"@.contains('?'),
        !"C:\\Program Files\\Riot Games\\League of Legends"@.contains('?'),
{
    reveal_strlit("C:\\Riot Games\\League of Legends");
    reveal_strlit("C:\\Program Files\\Riot Games\\League of Legends");
    reveal_with_fuel(lacks_from, 46);
    assert("C:\\Riot Games\\League of Legends"@.len() == 31);
    assert("C:\\Program Files\\Riot Games\\League of Legends"@.len() == 45);
    assert(lacks("C:\\Riot Games\\League of Legends"@, '?'));
    lemma_lacks("C:\\Riot Games\\League of Legends"@, '?');
    assert(lacks("C:\\Program Files\\Riot Games\\League of Legends"@, '?'));
    lemma_lacks("C:\\Program Files\\Riot Games\\League of Legends"@, '?');
}

proof fn lemma_long_path_plain()
    ensures
        !"C:\\Program Files (x86)\\Riot Games\\League of Legends"@.contains('?'),
{
    reveal_strlit("C:\\Program Files (x86)\\Riot Games\\League of Legends");
    reveal_with_fuel(lacks_from, 53);
    assert("C:\\Program Files (x86)\\Riot Games\\League of Legends"@.len() == 51);
    assert(lacks("C:\\Program Files (x86)\\Riot Games\\League of Legends"@, '?'));
    lemma_lacks("C:\\Program Files (x86)\\Riot Games\\League of Legends"@, '?');
}

proof fn lemma_common_paths_plain()
    ensures
        forall|k: int| 0 <= k < 3 ==> !(#[trigger] common_league_paths()[k]).contains('?'),
{
    lemma_short_paths_plain();
    lemma_long_path_plain();
}

/// Where the client would sit in each usual install location, in order.
pub fn common_client_probes() -> (r: Vec<String>)
    ensures
        r.len() == 3,
        forall|k: int| 0 <= k < 3 ==> placed_in(#[trigger] r@[k]@, common_league_paths()[k], client_exe_name()),
{
    proof {
        lemma_probe_names_plain();
        lemma_common_paths_plain();
    }
    let dirs = common_league_paths_exec();
    let mut probes: Vec<String> = Vec::new();
    let mut i: usize = 0;
    while i < dirs.len()
        invariant
            0 <= i <= dirs.len(),
            dirs.len() == 3,
            probes.len() == i,
            plain_file_name(client_exe_name()),
            forall|k: int| 0 <= k < 3 ==> dirs@[k]@ == #[trigger] common_league_paths()[k],
            forall|k: int| 0 <= k < 3 ==> !(#[trigger] common_league_paths()[k]).contains('?'),
            forall|k: int| 0 <= k < i ==> placed_in(#[trigger] probes@[k]@, common_league_paths()[k], client_exe_name()),
        decreases dirs.len() - i,
    {
        let p = path_in_dir(dirs[i].as_str(), "LeagueClient.exe");
        assert(!common_league_paths()[i as int].contains('?'));
        probes.push(p);
        i = i + 1;
    }
    probes
}

/// The first usual install location whose client exists, given whether the
/// client exists in each of them.
pub fn pick_common_path(client_exists: &Vec<bool>) -> (r: Option<String>)
    requires
        client_exists.len() == 3,
    ensures
        match first_true(client_exists@) {
            Some(k) => r matches Some(p) && p@ == common_league_paths()[k as int],
            None => r is None,
        },
{
    let dirs = common_league_paths_exec();
    match first_existing(&dirs, client_exists) {
        Some(k) => Some(dirs[k].clone()),
        None => None,
    }
}

/// The first usual install location holding `LeagueClient.exe` (read from
/// disk): each location's `LeagueClient.exe` is probed, and the first that
/// exists is chosen.
pub fn detect_in_common_paths() -> (r: Option<String>)
    ensures
        match r {
            Some(p) => common_league_paths().contains(p@),
            None => true,
        },
{
    let probes = common_client_probes();
    let exists = paths_exist(&probes);
    let r = pick_common_path(&exists);
    proof {
        if let Some(k) = first_true(exists@) {
            crate::lockfile::lemma_first_true_bound(exists@);
            assert(common_league_paths()[k as int] == r->0@);
        }
    }
    r
}

/// The error when no install was found.
pub open spec fn not_found_message() -> Seq<char> {
    "League of Legends installation not found"@
}

/// The install location the registry query answered, before anything is read
/// from disk: the answer without surrounding white space, if the query
/// succeeded and the answer is not blank.
pub fn registry_directory(query_succeeded: bool, query_output: &str) -> (r: Option<String>)
    ensures
        match r {
            Some(p) => query_succeeded && p@ == trimmed(query_output@) && p@.len() > 0,
            None => !query_succeeded || trimmed(query_output@).len() == 0,
        },
{
    if query_succeeded {
        let path = trim_text(query_output);
        if path.as_str().unicode_len() > 0 {
            return Some(path);
        }
    }
    None
}

/// Accepts the registry's install location when its client exists there.
pub fn registry_verdict(dir: String, client_exists: bool) -> (r: Result<String, String>)
    ensures
        if client_exists {
            r matches Ok(p) && p@ == dir@
        } else {
            r matches Err(e) && e@ == not_found_message()
        },
{
    if client_exists {
        Ok(dir)
    } else {
        Err(String::from_str("League of Legends installation not found"))
    }
}

/// Checks the install location the registry query answered: it must have
/// succeeded, answered a non-blank path and the folder must hold
/// `LeagueClient.exe` (read from disk).
pub fn detect_from_registry(query_succeeded: bool, query_output: &str) -> (r: Result<String, String>)
    ensures
        match r {
            Ok(p) => query_succeeded && p@ == trimmed(query_output@) && p@.len() > 0,
            Err(e) => e@ == not_found_message(),
        },
        !query_succeeded || trimmed(query_output@).len() == 0 ==> r is Err,
{
    match registry_directory(query_succeeded, query_output) {
        Some(path) => {
            let (client_exe, _game_exe) = install_probes(path.as_str());
            let client_exists = crate::lockfile::path_exists(client_exe.as_str());
            registry_verdict(path, client_exists)
        },
        None => Err(String::from_str("League of Legends installation not found")),
    }
}

} // verus!
