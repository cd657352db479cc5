//! Path resolution: where the server finds player data, area files, finger
//! data and notes. Each path comes from an explicit override, else from the
//! environment root joined with a fixed suffix, else from a compiled default
//! or a directory found next to the server.

use vstd::prelude::*;

verus! {

/// Compiled default for the player directory.
pub const DEFAULT_PLAYER_DIR: &'static str = "../player/";

/// Compiled default for the player temp directory.
pub const DEFAULT_PLAYER_TEMP_DIR: &'static str = "../player/temp";

/// Compiled default for the finger directory.
pub const DEFAULT_FINGER_DIR: &'static str = "../finger/";

/// Compiled default for the notes directory.
pub const DEFAULT_NOTE_DIR: &'static str = "../notes/";

/// Compiled default for the area directory.
pub const DEFAULT_AREA_DIR: &'static str = "area";

/// Compiled default for the area list file.
pub const DEFAULT_AREA_LIST: &'static str = "area/area.lst";

/// Compiled default for the bug report file.
pub const DEFAULT_BUG_FILE: &'static str = "area/bugs.txt";

/// Compiled default for the idea file.
pub const DEFAULT_IDEA_FILE: &'static str = "area/ideas.txt";

/// Compiled default for the typo file.
pub const DEFAULT_TYPO_FILE: &'static str = "area/typos.txt";

/// Compiled default for the note file.
pub const DEFAULT_NOTE_FILE: &'static str = "area/notes.txt";

/// Compiled default for the shutdown marker file.
pub const DEFAULT_SHUTDOWN_FILE: &'static str = "area/shutdown.txt";

/// Compiled default for the copyover file.
pub const DEFAULT_COPYOVER_FILE: &'static str = "area/copyover.txt";

/// Compiled default for the MOBProg directory.
pub const DEFAULT_MOBPROG_DIR: &'static str = "area/MOBProgs";

/// The text ends with '/'.
pub open spec fn slash_terminated(s: Seq<char>) -> bool {
    s.len() > 0 && s.last() == '/'
}

/// `dir` and `suffix` joined by plain concatenation, with one '/' between
/// them unless `dir` already ends with one; an empty side gives the other.
pub open spec fn join_spec(dir: Seq<char>, suffix: Seq<char>) -> Seq<char> {
    if dir.len() == 0 {
        suffix
    } else if suffix.len() == 0 {
        dir
    } else if slash_terminated(dir) {
        dir + suffix
    } else {
        dir.push('/') + suffix
    }
}

/// `s` with a '/' appended, unless it is empty or already ends with one.
pub open spec fn with_trailing_slash(s: Seq<char>) -> Seq<char> {
    if s.len() == 0 || slash_terminated(s) {
        s
    } else {
        s.push('/')
    }
}

/// An optional text seen as its characters.
pub open spec fn opt_str(o: Option<&str>) -> Option<Seq<char>> {
    match o {
        Some(s) => Some(s@),
        None => None,
    }
}

/// An optional owned text seen as its characters.
pub open spec fn opt_string(o: Option<String>) -> Option<Seq<char>> {
    match o {
        Some(s) => Some(s@),
        None => None,
    }
}

/// The option holds a text that is not empty; an empty value counts as unset.
pub open spec fn is_given(o: Option<Seq<char>>) -> bool {
    o is Some && o->0.len() > 0
}

/// The resolution cascade: a non-empty explicit value, else a non-empty root
/// joined with `suffix`, else the compiled default.
pub open spec fn resolve_spec(
    explicit: Option<Seq<char>>,
    root: Option<Seq<char>>,
    suffix: Seq<char>,
    compiled_default: Seq<char>,
) -> Seq<char> {
    if is_given(explicit) {
        explicit->0
    } else if is_given(root) {
        join_spec(root->0, suffix)
    } else {
        compiled_default
    }
}

/// The area directory: the override, else `root/area`, else `area` when such
/// a directory is found, else `.`.
pub open spec fn area_dir_spec(
    area_override: Option<Seq<char>>,
    root: Option<Seq<char>>,
    area_found: bool,
) -> Seq<char> {
    if is_given(area_override) {
        area_override->0
    } else if is_given(root) {
        join_spec(root->0, "area"@)
    } else if area_found {
        "area"@
    } else {
        "."@
    }
}

/// A finger or notes directory, always with a trailing '/': the override,
/// else `root/name`, else `name` when such a directory is found, else
/// `../name`.
pub open spec fn misc_dir_spec(
    dir_override: Option<Seq<char>>,
    root: Option<Seq<char>>,
    name: Seq<char>,
    parent_name: Seq<char>,
    local_found: bool,
) -> Seq<char> {
    with_trailing_slash(
        if is_given(dir_override) {
            dir_override->0
        } else if is_given(root) {
            join_spec(root->0, name)
        } else if local_found {
            name
        } else {
            parent_name
        },
    )
}

/// The player directory: the override with a trailing '/', else
/// `root/player/`, else `player/` when the default is missing and a local
/// `player` directory is found, else the compiled default.
pub open spec fn player_dir_spec(
    dir_override: Option<Seq<char>>,
    root: Option<Seq<char>>,
    default_found: bool,
    local_found: bool,
) -> Seq<char> {
    if is_given(dir_override) {
        with_trailing_slash(dir_override->0)
    } else if is_given(root) {
        join_spec(root->0, "player/"@)
    } else if !default_found && local_found {
        "player/"@
    } else {
        DEFAULT_PLAYER_DIR@
    }
}

/// The player temp directory: the override as given, else
/// `root/player/temp`, else `player/temp` when the default is missing and a
/// local one is found, else the compiled default.
pub open spec fn player_temp_dir_spec(
    dir_override: Option<Seq<char>>,
    root: Option<Seq<char>>,
    default_found: bool,
    local_found: bool,
) -> Seq<char> {
    if is_given(dir_override) {
        dir_override->0
    } else if is_given(root) {
        join_spec(root->0, "player/temp"@)
    } else if !default_found && local_found {
        "player/temp"@
    } else {
        DEFAULT_PLAYER_TEMP_DIR@
    }
}

/// Calls `std::path::Path::exists` on `path`. The answer depends on the file
/// system at the time of the call, so no clause states it.
#[verifier::external_body]
fn fs_path_exists(path: &str) -> bool {
    std::path::Path::new(path).exists()
}

/// Whether `path` names something on the file system; an empty path never
/// does. The rest of the answer comes from the file system.
pub fn path_exists(path: &str) -> (r: bool)
    ensures
        path@.len() == 0 ==> !r,
{
    !path.is_empty() && fs_path_exists(path)
}

/// Whether `s` ends with '/'.
fn ends_with_slash(s: &str) -> (r: bool)
    ensures
        r == slash_terminated(s@),
{
    let n: usize = s.unicode_len();
    if n == 0 {
        false
    } else {
        s.get_char(n - 1) == '/'
    }
}

/// Join a directory and a suffix with a '/' separator if needed: plain
/// concatenation, no canonicalization.
pub fn join_path(dir: &str, suffix: &str) -> (r: String)
    ensures
        r@ == join_spec(dir@, suffix@),
{
    if dir.is_empty() {
        return suffix.to_owned();
    }
    if suffix.is_empty() {
        return dir.to_owned();
    }
    let mut joined = dir.to_owned();
    if !ends_with_slash(dir) {
        joined.append("/");
        proof {
            reveal_strlit("/");
        }
    }
    joined.append(suffix);
    joined
}

/// Make a non-empty path end with '/'.
pub fn ensure_trailing_slash(path: &mut String)
    ensures
        final(path)@ == with_trailing_slash(old(path)@),
{
    if path.as_str().is_empty() || ends_with_slash(path.as_str()) {
        return;
    }
    path.append("/");
    proof {
        reveal_strlit("/");
    }
    assert(path@ =~= old(path)@.push('/'));
}

/// `o` when it holds a non-empty text, else `None`: an empty value counts as
/// unset.
fn given(o: Option<&str>) -> (r: Option<&str>)
    ensures
        is_given(opt_str(o)) ==> r == o,
        !is_given(opt_str(o)) ==> r is None,
{
    match o {
        Some(s) => if s.is_empty() {
            None
        } else {
            Some(s)
        },
        None => None,
    }
}

/// Resolve a path using the priority cascade: the explicit value read from
/// the environment when it is set and not empty, else `root` joined with
/// `suffix` when `root` is set and not empty, else `compiled_default`.
pub fn resolve_path(
    explicit: Option<&str>,
    root: Option<&str>,
    suffix: &str,
    compiled_default: &str,
) -> (r: String)
    ensures
        r@ == resolve_spec(opt_str(explicit), opt_str(root), suffix@, compiled_default@),
{
    if let Some(val) = given(explicit) {
        return val.to_owned();
    }
    if let Some(r) = given(root) {
        return join_path(r, suffix);
    }
    compiled_default.to_owned()
}

/// The nine area paths: the area directory, then the area list, bug, idea,
/// typo, note, shutdown and copyover files and the MOBProg directory inside it.
pub type AreaPaths = (String, String, String, String, String, String, String, String, String);

/// The eight area paths that lie inside `area_dir`.
pub open spec fn area_files_under(r: AreaPaths) -> bool {
    &&& r.1@ == join_spec(r.0@, "area.lst"@)
    &&& r.2@ == join_spec(r.0@, "bugs.txt"@)
    &&& r.3@ == join_spec(r.0@, "ideas.txt"@)
    &&& r.4@ == join_spec(r.0@, "typos.txt"@)
    &&& r.5@ == join_spec(r.0@, "notes.txt"@)
    &&& r.6@ == join_spec(r.0@, "shutdown.txt"@)
    &&& r.7@ == join_spec(r.0@, "copyover.txt"@)
    &&& r.8@ == join_spec(r.0@, "MOBProgs"@)
}

/// `found` is an answer that the existence test `probe` may give for a path
/// that reads `path`.
pub open spec fn probe_answers<F: Fn(&str) -> bool>(probe: F, path: Seq<char>, found: bool) -> bool {
    exists|p: &str| p@ == path && #[trigger] probe.ensures((p,), found)
}

/// The existence test can be asked about any path.
pub open spec fn probe_callable<F: Fn(&str) -> bool>(probe: F) -> bool {
    forall|p: &str| #[trigger] probe.requires((p,))
}

/// `d` is the area directory the rules give, where the answer for a local
/// directory comes from asking `probe` about `area`; it is asked only when
/// neither an override nor a root is given.
pub open spec fn area_dir_resolved<F: Fn(&str) -> bool>(
    probe: F,
    area_override: Option<Seq<char>>,
    root: Option<Seq<char>>,
    d: Seq<char>,
) -> bool {
    exists|found: bool|
        d == #[trigger] area_dir_spec(area_override, root, found) && ((!is_given(area_override)
            && !is_given(root)) ==> probe_answers(probe, "area"@, found))
}

/// `d` is the finger or notes directory the rules give, where the answer for
/// a local directory comes from asking `probe` about `name`; it is asked only
/// when neither an override nor a root is given.
pub open spec fn misc_dir_resolved<F: Fn(&str) -> bool>(
    probe: F,
    dir_override: Option<Seq<char>>,
    root: Option<Seq<char>>,
    name: Seq<char>,
    parent_name: Seq<char>,
    d: Seq<char>,
) -> bool {
    exists|found: bool|
        d == #[trigger] misc_dir_spec(dir_override, root, name, parent_name, found) && ((
        !is_given(dir_override) && !is_given(root)) ==> probe_answers(probe, name, found))
}

/// `d` is the player directory the rules give: with neither override nor
/// root, `probe` is asked about the compiled default, and, when that is
/// missing, about `player`.
pub open spec fn player_dir_resolved<F: Fn(&str) -> bool>(
    probe: F,
    dir_override: Option<Seq<char>>,
    root: Option<Seq<char>>,
    d: Seq<char>,
) -> bool {
    exists|default_found: bool, local_found: bool|
        d == #[trigger] player_dir_spec(dir_override, root, default_found, local_found) && ((
        !is_given(dir_override) && !is_given(root)) ==> {
            &&& probe_answers(probe, DEFAULT_PLAYER_DIR@, default_found)
            &&& !default_found ==> probe_answers(probe, "player"@, local_found)
        })
}

/// `d` is the player temp directory the rules give: with neither override
/// nor root, `probe` is asked about the compiled default, and, when that is
/// missing, about `player/temp`.
pub open spec fn player_temp_dir_resolved<F: Fn(&str) -> bool>(
    probe: F,
    dir_override: Option<Seq<char>>,
    root: Option<Seq<char>>,
    d: Seq<char>,
) -> bool {
    exists|default_found: bool, local_found: bool|
        d == #[trigger] player_temp_dir_spec(dir_override, root, default_found, local_found) && ((
        !is_given(dir_override) && !is_given(root)) ==> {
            &&& probe_answers(probe, DEFAULT_PLAYER_TEMP_DIR@, default_found)
            &&& !default_found ==> probe_answers(probe, "player/temp"@, local_found)
        })
}

/// The area directory and the files inside it, from the override, the root,
/// or a local `area` directory as `probe` reports it.
fn configure_area_paths<F: Fn(&str) -> bool>(
    root: Option<&str>,
    area_override: Option<&str>,
    probe: &F,
) -> (r: AreaPaths)
    requires
        probe_callable(*probe),
    ensures
        area_dir_resolved(*probe, opt_str(area_override), opt_str(root), r.0@),
        area_files_under(r),
{
    let ghost mut found = false;
    let area_dir = if let Some(dir) = given(area_override) {
        dir.to_owned()
    } else if let Some(r) = given(root) {
        join_path(r, "area")
    } else {
        let area_exists: bool = probe("area");
        proof {
            found = area_exists;
        }
        if area_exists {
            "area".to_owned()
        } else {
            ".".to_owned()
        }
    };
    assert(area_dir@ == area_dir_spec(opt_str(area_override), opt_str(root), found));

    let area_list = join_path(area_dir.as_str(), "area.lst");
    let bug_file = join_path(area_dir.as_str(), "bugs.txt");
    let idea_file = join_path(area_dir.as_str(), "ideas.txt");
    let typo_file = join_path(area_dir.as_str(), "typos.txt");
    let note_file = join_path(area_dir.as_str(), "notes.txt");
    let shutdown_file = join_path(area_dir.as_str(), "shutdown.txt");
    let copyover_file = join_path(area_dir.as_str(), "copyover.txt");
    let mobprog_dir = join_path(area_dir.as_str(), "MOBProgs");

    (
        area_dir,
        area_list,
        bug_file,
        idea_file,
        typo_file,
        note_file,
        shutdown_file,
        copyover_file,
        mobprog_dir,
    )
}

/// One of the finger and notes directories: the override, else `root/name`,
/// else `name` or `../name` by what `probe` reports for `name`; always with a
/// trailing '/'.
fn configure_misc_dir<F: Fn(&str) -> bool>(
    root: Option<&str>,
    dir_override: Option<&str>,
    name: &str,
    parent_name: &str,
    probe: &F,
) -> (r: String)
    requires
        probe_callable(*probe),
    ensures
        misc_dir_resolved(*probe, opt_str(dir_override), opt_str(root), name@, parent_name@, r@),
{
    let ghost mut found = false;
    let mut dir = if let Some(d) = given(dir_override) {
        d.to_owned()
    } else if let Some(r) = given(root) {
        join_path(r, name)
    } else {
        let local_exists: bool = probe(name);
        proof {
            found = local_exists;
        }
        if local_exists {
            name.to_owned()
        } else {
            parent_name.to_owned()
        }
    };
    ensure_trailing_slash(&mut dir);
    assert(dir@ == misc_dir_spec(opt_str(dir_override), opt_str(root), name@, parent_name@, found));
    dir
}

/// The finger and notes directories, each with a trailing '/'.
fn configure_misc_dirs<F: Fn(&str) -> bool>(
    root: Option<&str>,
    finger_override: Option<&str>,
    notes_override: Option<&str>,
    probe: &F,
) -> (r: (String, String))
    requires
        probe_callable(*probe),
    ensures
        misc_dir_resolved(
            *probe,
            opt_str(finger_override),
            opt_str(root),
            "finger"@,
            "../finger"@,
            r.0@,
        ),
        misc_dir_resolved(*probe, opt_str(notes_override), opt_str(root), "notes"@, "../notes"@, r.1@),
        slash_terminated(r.0@),
        slash_terminated(r.1@),
{
    let finger_dir = configure_misc_dir(root, finger_override, "finger", "../finger", probe);
    let note_dir = configure_misc_dir(root, notes_override, "notes", "../notes", probe);
    proof {
        reveal_strlit("finger");
        reveal_strlit("../finger");
        reveal_strlit("notes");
        reveal_strlit("../notes");
        lemma_misc_dir_slash_terminated(opt_str(finger_override), opt_str(root), "finger"@, "../finger"@);
        lemma_misc_dir_slash_terminated(opt_str(notes_override), opt_str(root), "notes"@, "../notes"@);
    }
    (finger_dir, note_dir)
}

/// A finger or notes directory ends with '/' whatever is found on disk.
proof fn lemma_misc_dir_slash_terminated(
    dir_override: Option<Seq<char>>,
    root: Option<Seq<char>>,
    name: Seq<char>,
    parent_name: Seq<char>,
)
    requires
        name.len() > 0,
        parent_name.len() > 0,
    ensures
        forall|found: bool|
            slash_terminated(#[trigger] misc_dir_spec(dir_override, root, name, parent_name, found)),
{
}

/// Public entry to the area path configuration; `probe` is the existence
/// test (the server passes `path_exists`).
pub fn configure_area_paths_pub<F: Fn(&str) -> bool>(
    root: Option<&str>,
    area_override: Option<&str>,
    probe: &F,
) -> (r: AreaPaths)
    requires
        probe_callable(*probe),
    ensures
        area_dir_resolved(*probe, opt_str(area_override), opt_str(root), r.0@),
        area_files_under(r),
{
    configure_area_paths(root, area_override, probe)
}

/// Public entry to the finger and notes directory configuration; `probe` is
/// the existence test (the server passes `path_exists`).
pub fn configure_misc_dirs_pub<F: Fn(&str) -> bool>(
    root: Option<&str>,
    finger_override: Option<&str>,
    notes_override: Option<&str>,
    probe: &F,
) -> (r: (String, String))
    requires
        probe_callable(*probe),
    ensures
        misc_dir_resolved(
            *probe,
            opt_str(finger_override),
            opt_str(root),
            "finger"@,
            "../finger"@,
            r.0@,
        ),
        misc_dir_resolved(*probe, opt_str(notes_override), opt_str(root), "notes"@, "../notes"@, r.1@),
        slash_terminated(r.0@),
        slash_terminated(r.1@),
{
    configure_misc_dirs(root, finger_override, notes_override, probe)
}

/// The player directory from the override, the root, or what `probe` finds.
fn configure_player_dir<F: Fn(&str) -> bool>(
    root: Option<&str>,
    dir_override: Option<&str>,
    probe: &F,
) -> (r: String)
    requires
        probe_callable(*probe),
    ensures
        player_dir_resolved(*probe, opt_str(dir_override), opt_str(root), r@),
        slash_terminated(r@),
{
    proof {
        reveal_strlit("player/");
        reveal_strlit("../player/");
    }
    let ghost mut default_found = false;
    let ghost mut local_found = false;
    let mut player_dir = if let Some(ov) = given(dir_override) {
        let mut p = ov.to_owned();
        ensure_trailing_slash(&mut p);
        p
    } else {
        resolve_path(dir_override, root, "player/", DEFAULT_PLAYER_DIR)
    };
    if given(dir_override).is_none() && given(root).is_none() {
        let default_exists: bool = probe(player_dir.as_str());
        proof {
            default_found = default_exists;
        }
        if !default_exists {
            let local_exists: bool = probe("player");
            proof {
                local_found = local_exists;
            }
            if local_exists {
                player_dir = "player/".to_owned();
            }
        }
    }
    assert(player_dir@ == player_dir_spec(opt_str(dir_override), opt_str(root), default_found, local_found));
    player_dir
}

/// The player temp directory from the override, the root, or what `probe`
/// finds.
fn configure_player_temp_dir<F: Fn(&str) -> bool>(
    root: Option<&str>,
    dir_override: Option<&str>,
    probe: &F,
) -> (r: String)
    requires
        probe_callable(*probe),
    ensures
        player_temp_dir_resolved(*probe, opt_str(dir_override), opt_str(root), r@),
{
    let ghost mut default_found = false;
    let ghost mut local_found = false;
    let mut player_temp_dir = if let Some(ov) = given(dir_override) {
        ov.to_owned()
    } else {
        resolve_path(dir_override, root, "player/temp", DEFAULT_PLAYER_TEMP_DIR)
    };
    if given(dir_override).is_none() && given(root).is_none() {
        let default_exists: bool = probe(player_temp_dir.as_str());
        proof {
            default_found = default_exists;
        }
        if !default_exists {
            let local_exists: bool = probe("player/temp");
            proof {
                local_found = local_exists;
            }
            if local_exists {
                player_temp_dir = "player/temp".to_owned();
            }
        }
    }
    assert(player_temp_dir@ == player_temp_dir_spec(
        opt_str(dir_override),
        opt_str(root),
        default_found,
        local_found,
    ));
    player_temp_dir
}

/// The values of the environment variables that configure the paths, as read
/// at startup (`None` when a variable is unset).
#[derive(Debug, Clone)]
pub struct EnvOverrides {
    /// `CHAOS_ENV_ROOT`
    pub env_root: Option<String>,
    /// `CHAOS_PLAYER_DIR`
    pub player_dir: Option<String>,
    /// `CHAOS_PLAYER_TEMP_DIR`
    pub player_temp_dir: Option<String>,
    /// `CHAOS_AREA_DIR`
    pub area_dir: Option<String>,
    /// `CHAOS_FINGER_DIR`
    pub finger_dir: Option<String>,
    /// `CHAOS_NOTES_DIR`
    pub notes_dir: Option<String>,
}

/// Holds all resolved path values after initialization.
#[derive(Debug, Clone)]
pub struct PathConfig {
    pub player_dir: String,
    pub player_temp_dir: String,
    pub finger_dir: String,
    pub note_dir: String,
    pub area_dir: String,
    pub area_list: String,
    pub bug_file: String,
    pub idea_file: String,
    pub typo_file: String,
    pub note_file: String,
    pub shutdown_file: String,
    pub copyover_file: String,
    pub mobprog_dir: String,
}

/// The relations every resolved configuration keeps: the player, finger and
/// notes directories end with '/', and the area files lie in the area
/// directory.
pub open spec fn config_consistent(c: PathConfig) -> bool {
    &&& slash_terminated(c.player_dir@)
    &&& slash_terminated(c.finger_dir@)
    &&& slash_terminated(c.note_dir@)
    &&& c.area_list@ == join_spec(c.area_dir@, "area.lst"@)
    &&& c.bug_file@ == join_spec(c.area_dir@, "bugs.txt"@)
    &&& c.idea_file@ == join_spec(c.area_dir@, "ideas.txt"@)
    &&& c.typo_file@ == join_spec(c.area_dir@, "typos.txt"@)
    &&& c.note_file@ == join_spec(c.area_dir@, "notes.txt"@)
    &&& c.shutdown_file@ == join_spec(c.area_dir@, "shutdown.txt"@)
    &&& c.copyover_file@ == join_spec(c.area_dir@, "copyover.txt"@)
    &&& c.mobprog_dir@ == join_spec(c.area_dir@, "MOBProgs"@)
}

/// An optional owned text borrowed as an optional `&str`.
fn opt_as_str(o: &Option<String>) -> (r: Option<&str>)
    ensures
        opt_str(r) == opt_string(*o),
{
    match o {
        Some(s) => Some(s.as_str()),
        None => None,
    }
}

/// Resolve every path from the environment values in `env`, asking `probe`
/// (the server passes `path_exists`) whether local directories exist.
pub fn init_path_overrides_impl<F: Fn(&str) -> bool>(env: &EnvOverrides, probe: &F) -> (r: PathConfig)
    requires
        probe_callable(*probe),
    ensures
        player_dir_resolved(
            *probe,
            opt_string(env.player_dir),
            opt_string(env.env_root),
            r.player_dir@,
        ),
        player_temp_dir_resolved(
            *probe,
            opt_string(env.player_temp_dir),
            opt_string(env.env_root),
            r.player_temp_dir@,
        ),
        area_dir_resolved(*probe, opt_string(env.area_dir), opt_string(env.env_root), r.area_dir@),
        misc_dir_resolved(
            *probe,
            opt_string(env.finger_dir),
            opt_string(env.env_root),
            "finger"@,
            "../finger"@,
            r.finger_dir@,
        ),
        misc_dir_resolved(
            *probe,
            opt_string(env.notes_dir),
            opt_string(env.env_root),
            "notes"@,
            "../notes"@,
            r.note_dir@,
        ),
        config_consistent(r),
{
    let root = opt_as_str(&env.env_root);
    let player_dir = configure_player_dir(root, opt_as_str(&env.player_dir), probe);
    let player_temp_dir = configure_player_temp_dir(root, opt_as_str(&env.player_temp_dir), probe);
    let (
        area_dir,
        area_list,
        bug_file,
        idea_file,
        typo_file,
        note_file,
        shutdown_file,
        copyover_file,
        mobprog_dir,
    ) = configure_area_paths(root, opt_as_str(&env.area_dir), probe);
    let (finger_dir, note_dir) = configure_misc_dirs(
        root,
        opt_as_str(&env.finger_dir),
        opt_as_str(&env.notes_dir),
        probe,
    );
    PathConfig {
        player_dir,
        player_temp_dir,
        finger_dir,
        note_dir,
        area_dir,
        area_list,
        bug_file,
        idea_file,
        typo_file,
        note_file,
        shutdown_file,
        copyover_file,
        mobprog_dir,
    }
}

/// The area directory of `config`, or the compiled default before
/// initialization.
pub open spec fn area_dir_of(config: Option<&PathConfig>) -> Seq<char> {
    match config {
        Some(c) => c.area_dir@,
        None => DEFAULT_AREA_DIR@,
    }
}

/// The resolved player directory, or the compiled default before
/// initialization.
pub fn get_player_dir_str(config: Option<&PathConfig>) -> (r: &str)
    ensures
        r@ == (match config {
            Some(c) => c.player_dir@,
            None => DEFAULT_PLAYER_DIR@,
        }),
{
    match config {
        Some(c) => c.player_dir.as_str(),
        None => DEFAULT_PLAYER_DIR,
    }
}

/// The resolved player temp directory, or the compiled default before
/// initialization.
pub fn get_player_temp_dir_str(config: Option<&PathConfig>) -> (r: &str)
    ensures
        r@ == (match config {
            Some(c) => c.player_temp_dir@,
            None => DEFAULT_PLAYER_TEMP_DIR@,
        }),
{
    match config {
        Some(c) => c.player_temp_dir.as_str(),
        None => DEFAULT_PLAYER_TEMP_DIR,
    }
}

/// The resolved area directory, or the compiled default before
/// initialization.
pub fn get_area_dir_str(config: Option<&PathConfig>) -> (r: &str)
    ensures
        r@ == area_dir_of(config),
{
    match config {
        Some(c) => c.area_dir.as_str(),
        None => DEFAULT_AREA_DIR,
    }
}

/// The resolved area list file, or the compiled default before
/// initialization.
pub fn get_area_list_path_str(config: Option<&PathConfig>) -> (r: &str)
    ensures
        r@ == (match config {
            Some(c) => c.area_list@,
            None => DEFAULT_AREA_LIST@,
        }),
{
    match config {
        Some(c) => c.area_list.as_str(),
        None => DEFAULT_AREA_LIST,
    }
}

/// The resolved bug file, or the compiled default before initialization.
pub fn get_bug_file_path_str(config: Option<&PathConfig>) -> (r: &str)
    ensures
        r@ == (match config {
            Some(c) => c.bug_file@,
            None => DEFAULT_BUG_FILE@,
        }),
{
    match config {
        Some(c) => c.bug_file.as_str(),
        None => DEFAULT_BUG_FILE,
    }
}

/// The resolved idea file, or the compiled default before initialization.
pub fn get_idea_file_path_str(config: Option<&PathConfig>) -> (r: &str)
    ensures
        r@ == (match config {
            Some(c) => c.idea_file@,
            None => DEFAULT_IDEA_FILE@,
        }),
{
    match config {
        Some(c) => c.idea_file.as_str(),
        None => DEFAULT_IDEA_FILE,
    }
}

/// The resolved typo file, or the compiled default before initialization.
pub fn get_typo_file_path_str(config: Option<&PathConfig>) -> (r: &str)
    ensures
        r@ == (match config {
            Some(c) => c.typo_file@,
            None => DEFAULT_TYPO_FILE@,
        }),
{
    match config {
        Some(c) => c.typo_file.as_str(),
        None => DEFAULT_TYPO_FILE,
    }
}

/// The resolved note file, or the compiled default before initialization.
pub fn get_note_file_path_str(config: Option<&PathConfig>) -> (r: &str)
    ensures
        r@ == (match config {
            Some(c) => c.note_file@,
            None => DEFAULT_NOTE_FILE@,
        }),
{
    match config {
        Some(c) => c.note_file.as_str(),
        None => DEFAULT_NOTE_FILE,
    }
}

/// The resolved shutdown file, or the compiled default before
/// initialization.
pub fn get_shutdown_file_path_str(config: Option<&PathConfig>) -> (r: &str)
    ensures
        r@ == (match config {
            Some(c) => c.shutdown_file@,
            None => DEFAULT_SHUTDOWN_FILE@,
        }),
{
    match config {
        Some(c) => c.shutdown_file.as_str(),
        None => DEFAULT_SHUTDOWN_FILE,
    }
}

/// The resolved copyover file, or the compiled default before
/// initialization.
pub fn get_copyover_file_path_str(config: Option<&PathConfig>) -> (r: &str)
    ensures
        r@ == (match config {
            Some(c) => c.copyover_file@,
            None => DEFAULT_COPYOVER_FILE@,
        }),
{
    match config {
        Some(c) => c.copyover_file.as_str(),
        None => DEFAULT_COPYOVER_FILE,
    }
}

/// The resolved MOBProg directory, or the compiled default before
/// initialization.
pub fn get_mobprog_dir_str(config: Option<&PathConfig>) -> (r: &str)
    ensures
        r@ == (match config {
            Some(c) => c.mobprog_dir@,
            None => DEFAULT_MOBPROG_DIR@,
        }),
{
    match config {
        Some(c) => c.mobprog_dir.as_str(),
        None => DEFAULT_MOBPROG_DIR,
    }
}

/// The resolved finger directory, or the compiled default before
/// initialization.
pub fn get_finger_dir_str(config: Option<&PathConfig>) -> (r: &str)
    ensures
        r@ == (match config {
            Some(c) => c.finger_dir@,
            None => DEFAULT_FINGER_DIR@,
        }),
{
    match config {
        Some(c) => c.finger_dir.as_str(),
        None => DEFAULT_FINGER_DIR,
    }
}

/// The resolved notes directory, or the compiled default before
/// initialization.
pub fn get_note_dir_str(config: Option<&PathConfig>) -> (r: &str)
    ensures
        r@ == (match config {
            Some(c) => c.note_dir@,
            None => DEFAULT_NOTE_DIR@,
        }),
{
    match config {
        Some(c) => c.note_dir.as_str(),
        None => DEFAULT_NOTE_DIR,
    }
}

/// The path of an area file: the area directory itself for an empty name,
/// else the area directory joined with the name.
pub open spec fn area_file_spec(area_dir: Seq<char>, filename: Seq<char>) -> Seq<char> {
    if filename.len() == 0 {
        area_dir
    } else {
        join_spec(area_dir, filename)
    }
}

/// The full path of an area file: `filename` joined to the area directory,
/// or the area directory itself when `filename` is empty.
pub fn area_file_path_str(config: Option<&PathConfig>, filename: &str) -> (r: String)
    ensures
        r@ == area_file_spec(area_dir_of(config), filename@),
{
    if filename.is_empty() {
        return get_area_dir_str(config).to_owned();
    }
    let area_dir = get_area_dir_str(config);
    join_path(area_dir, filename)
}

/// Number of slots of the rotating buffer.
pub const ROTATING_BUFFER_SIZE: usize = 4;

/// A ring of four strings: each new value goes into the next slot, so the
/// last four values stay readable.
pub struct RotatingBuffer {
    pub slots: [String; 4],
    pub index: usize,
}

/// The contents of a rotating buffer: its slots, and the slot written last.
pub open spec fn buffer_view(b: RotatingBuffer) -> (Seq<Seq<char>>, int) {
    (b.slots@.map_values(|s: String| s@), b.index as int)
}

/// The buffer after storing `value`: the position advances by one modulo 4
/// and `value` replaces that slot.
pub open spec fn rotate(b: (Seq<Seq<char>>, int), value: Seq<char>) -> (Seq<Seq<char>>, int) {
    let i: int = (b.1 + 1) % 4;
    (b.0.update(i, value), i)
}

impl RotatingBuffer {
    /// Four empty slots, position 0.
    pub fn new() -> (r: Self)
        ensures
            buffer_view(r) == (Seq::new(4, |i: int| Seq::<char>::empty()), 0int),
    {
        let r = RotatingBuffer {
            slots: [String::new(), String::new(), String::new(), String::new()],
            index: 0,
        };
        assert(buffer_view(r).0 =~= Seq::new(4, |i: int| Seq::<char>::empty()));
        r
    }

    /// Store `value` in the next slot and return it as read from the slot.
    pub fn next(&mut self, value: String) -> (r: &str)
        requires
            old(self).index < usize::MAX,
        ensures
            buffer_view(*final(self)) == rotate(buffer_view(*old(self)), value@),
            r@ == value@,
    {
        self.index = (self.index + 1) % ROTATING_BUFFER_SIZE;
        let ghost v = value@;
        self.slots[self.index] = value;
        assert(buffer_view(*self).0 =~= buffer_view(*old(self)).0.update(self.index as int, v));
        self.slots[self.index].as_str()
    }
}

/// The area-file path of `filename`, kept readable in `buf`: for an empty
/// name the area directory itself (the buffer is untouched), else the joined
/// path, stored in the next slot of `buf`.
pub fn area_file_path_rotating<'a>(
    buf: &'a mut RotatingBuffer,
    config: Option<&'a PathConfig>,
    filename: &str,
) -> (r: &'a str)
    requires
        old(buf).index < usize::MAX,
    ensures
        r@ == area_file_spec(area_dir_of(config), filename@),
        filename@.len() == 0 ==> *final(buf) == *old(buf),
        filename@.len() > 0 ==> buffer_view(*final(buf)) == rotate(buffer_view(*old(buf)), r@),
{
    if filename.is_empty() {
        return get_area_dir_str(config);
    }
    let area_dir = get_area_dir_str(config);
    let result = join_path(area_dir, filename);
    buf.next(result)
}

/// Law: making a path end with '/' twice is the same as once, and a
/// non-empty path always ends with '/' afterwards.
pub proof fn lemma_trailing_slash_idempotent(s: Seq<char>)
    ensures
        with_trailing_slash(with_trailing_slash(s)) == with_trailing_slash(s),
        s.len() > 0 ==> slash_terminated(with_trailing_slash(s)),
{
}

/// Law: a directory with or without its trailing '/' joins to the same
/// path, so a root given as `/env/dev/` or `/env/dev` gives no doubled '/'.
pub proof fn lemma_join_ignores_trailing_slash(dir: Seq<char>, suffix: Seq<char>)
    requires
        dir.len() > 0,
        !slash_terminated(dir),
        suffix.len() > 0,
    ensures
        join_spec(dir.push('/'), suffix) == join_spec(dir, suffix),
{
    assert(slash_terminated(dir.push('/')));
}

/// Law: a joined path begins with its directory and ends with its suffix,
/// with one character between them exactly when both are non-empty and the
/// directory does not end with '/'.
pub proof fn lemma_join_keeps_parts(dir: Seq<char>, suffix: Seq<char>)
    ensures
        join_spec(dir, suffix).len() >= suffix.len(),
        join_spec(dir, suffix).subrange(
            join_spec(dir, suffix).len() - suffix.len(),
            join_spec(dir, suffix).len() as int,
        ) == suffix,
        join_spec(dir, suffix).subrange(0, dir.len() as int) == dir,
        join_spec(dir, suffix).len() == dir.len() + suffix.len() + if dir.len() > 0 && suffix.len()
            > 0 && dir.last() != '/' {
            1int
        } else {
            0int
        },
{
    let j = join_spec(dir, suffix);
    if dir.len() == 0 {
        assert(j.subrange(0, 0) =~= dir);
        assert(j.subrange(j.len() - suffix.len(), j.len() as int) =~= suffix);
    } else if suffix.len() == 0 {
        assert(j.subrange(j.len() - suffix.len(), j.len() as int) =~= suffix);
        assert(j.subrange(0, dir.len() as int) =~= dir);
    } else if slash_terminated(dir) {
        assert(j.subrange(j.len() - suffix.len(), j.len() as int) =~= suffix);
        assert(j.subrange(0, dir.len() as int) =~= dir);
    } else {
        assert(j.subrange(j.len() - suffix.len(), j.len() as int) =~= suffix);
        assert(j.subrange(0, dir.len() as int) =~= dir);
    }
}

/// Law: an override or root that is set but empty counts as unset, in every
/// resolution rule.
pub proof fn lemma_empty_value_is_unset(
    value: Option<Seq<char>>,
    other: Option<Seq<char>>,
    name: Seq<char>,
    parent_name: Seq<char>,
    suffix: Seq<char>,
    compiled_default: Seq<char>,
    a: bool,
    b: bool,
)
    requires
        value == Some(Seq::<char>::empty()),
    ensures
        resolve_spec(value, other, suffix, compiled_default) == resolve_spec(
            None,
            other,
            suffix,
            compiled_default,
        ),
        resolve_spec(other, value, suffix, compiled_default) == resolve_spec(
            other,
            None,
            suffix,
            compiled_default,
        ),
        area_dir_spec(value, other, a) == area_dir_spec(None, other, a),
        area_dir_spec(other, value, a) == area_dir_spec(other, None, a),
        misc_dir_spec(value, other, name, parent_name, a) == misc_dir_spec(
            None,
            other,
            name,
            parent_name,
            a,
        ),
        misc_dir_spec(other, value, name, parent_name, a) == misc_dir_spec(
            other,
            None,
            name,
            parent_name,
            a,
        ),
        player_dir_spec(value, other, a, b) == player_dir_spec(None, other, a, b),
        player_dir_spec(other, value, a, b) == player_dir_spec(other, None, a, b),
        player_temp_dir_spec(value, other, a, b) == player_temp_dir_spec(None, other, a, b),
        player_temp_dir_spec(other, value, a, b) == player_temp_dir_spec(other, None, a, b),
{
}

/// Law: with an environment root and no overrides, every directory lies
/// under the root, whatever is found on disk.
pub proof fn lemma_root_places_everything(root: Seq<char>, a: bool, b: bool)
    requires
        root.len() > 0,
    ensures
        player_dir_spec(None, Some(root), a, b) == join_spec(root, "player/"@),
        player_temp_dir_spec(None, Some(root), a, b) == join_spec(root, "player/temp"@),
        area_dir_spec(None, Some(root), a) == join_spec(root, "area"@),
        misc_dir_spec(None, Some(root), "finger"@, "../finger"@, a) == with_trailing_slash(
            join_spec(root, "finger"@),
        ),
        misc_dir_spec(None, Some(root), "notes"@, "../notes"@, a) == with_trailing_slash(
            join_spec(root, "notes"@),
        ),
{
}

/// Law: a value stored in the rotating buffer stays in its slot for the
/// next three stores and is overwritten by the fourth.
pub proof fn lemma_rotation_keeps_last_four(
    b: (Seq<Seq<char>>, int),
    v: Seq<char>,
    w1: Seq<char>,
    w2: Seq<char>,
    w3: Seq<char>,
    w4: Seq<char>,
)
    requires
        b.0.len() == 4,
        0 <= b.1,
    ensures
        ({
            let b0 = rotate(b, v);
            let b1 = rotate(b0, w1);
            let b2 = rotate(b1, w2);
            let b3 = rotate(b2, w3);
            let b4 = rotate(b3, w4);
            &&& b0.0[b0.1] == v
            &&& b1.0[b0.1] == v
            &&& b2.0[b0.1] == v
            &&& b3.0[b0.1] == v
            &&& b4.1 == b0.1
            &&& b4.0[b0.1] == w4
        }),
{
}

/// Law: `with_trailing_slash` leaves a text that is empty or already ends
/// with '/' as it is, and otherwise appends exactly one '/'.
pub proof fn lemma_trailing_slash_shape(s: Seq<char>)
    ensures
        s.len() == 0 ==> with_trailing_slash(s) == s,
        s.len() > 0 ==> slash_terminated(with_trailing_slash(s)),
        s.len() > 0 && s.last() == '/' ==> with_trailing_slash(s) == s,
        s.len() > 0 && s.last() != '/' ==> with_trailing_slash(s) == s + seq!['/'],
{
    assert(s.push('/') =~= s + seq!['/']);
}

/// Law: a non-empty override always wins, whatever the root and whatever is
/// found on disk: the player directory is the override with a trailing '/',
/// the player temp directory and the area directory are the override as
/// given, a finger or notes directory is the override with a trailing '/',
/// and a resolved path is the override.
pub proof fn lemma_overrides_win(
    value: Seq<char>,
    root: Option<Seq<char>>,
    name: Seq<char>,
    parent_name: Seq<char>,
    suffix: Seq<char>,
    compiled_default: Seq<char>,
    a: bool,
    b: bool,
)
    requires
        value.len() > 0,
    ensures
        player_dir_spec(Some(value), root, a, b) == with_trailing_slash(value),
        player_temp_dir_spec(Some(value), root, a, b) == value,
        area_dir_spec(Some(value), root, a) == value,
        misc_dir_spec(Some(value), root, name, parent_name, a) == with_trailing_slash(value),
        resolve_spec(Some(value), root, suffix, compiled_default) == value,
{
}

/// Law: with neither an override nor a root, the player directory is
/// `player/` exactly when `../player/` is missing and `player` is found,
/// else `../player/`; likewise `player/temp` or `../player/temp`; the area
/// directory is `area` when found, else `.`; a finger or notes directory is
/// `name/` when found, else `../name/`.
pub proof fn lemma_local_fallbacks(a: bool, b: bool)
    ensures
        player_dir_spec(None, None, a, b) == if !a && b {
            "player/"@
        } else {
            "../player/"@
        },
        player_temp_dir_spec(None, None, a, b) == if !a && b {
            "player/temp"@
        } else {
            "../player/temp"@
        },
        area_dir_spec(None, None, a) == if a {
            "area"@
        } else {
            "."@
        },
        misc_dir_spec(None, None, "finger"@, "../finger"@, a) == if a {
            "finger/"@
        } else {
            "../finger/"@
        },
        misc_dir_spec(None, None, "notes"@, "../notes"@, a) == if a {
            "notes/"@
        } else {
            "../notes/"@
        },
{
    reveal_strlit("finger");
    reveal_strlit("finger/");
    reveal_strlit("../finger");
    reveal_strlit("../finger/");
    reveal_strlit("notes");
    reveal_strlit("notes/");
    reveal_strlit("../notes");
    reveal_strlit("../notes/");
    assert("finger"@.push('/') =~= "finger/"@);
    assert("../finger"@.push('/') =~= "../finger/"@);
    assert("notes"@.push('/') =~= "notes/"@);
    assert("../notes"@.push('/') =~= "../notes/"@);
}

/// Law: what the configuration functions promise for a given override or
/// root: an override decides the path whatever the existence test answers,
/// and a root alone places the path under it.
pub proof fn lemma_resolved_given<F: Fn(&str) -> bool>(
    probe: F,
    dir_override: Option<Seq<char>>,
    root: Option<Seq<char>>,
    name: Seq<char>,
    parent_name: Seq<char>,
    d: Seq<char>,
)
    ensures
        is_given(dir_override) ==> (player_dir_resolved(probe, dir_override, root, d) ==> d
            == with_trailing_slash(dir_override->0)),
        is_given(dir_override) ==> (player_temp_dir_resolved(probe, dir_override, root, d) ==> d
            == dir_override->0),
        is_given(dir_override) ==> (area_dir_resolved(probe, dir_override, root, d) ==> d
            == dir_override->0),
        is_given(dir_override) ==> (misc_dir_resolved(probe, dir_override, root, name, parent_name, d)
            ==> d == with_trailing_slash(dir_override->0)),
        !is_given(dir_override) && is_given(root) ==> (player_dir_resolved(probe, dir_override, root, d)
            ==> d == join_spec(root->0, "player/"@)),
        !is_given(dir_override) && is_given(root) ==> (player_temp_dir_resolved(
            probe,
            dir_override,
            root,
            d,
        ) ==> d == join_spec(root->0, "player/temp"@)),
        !is_given(dir_override) && is_given(root) ==> (area_dir_resolved(probe, dir_override, root, d)
            ==> d == join_spec(root->0, "area"@)),
        !is_given(dir_override) && is_given(root) ==> (misc_dir_resolved(
            probe,
            dir_override,
            root,
            name,
            parent_name,
            d,
        ) ==> d == with_trailing_slash(join_spec(root->0, name))),
{
}

} // verus!
