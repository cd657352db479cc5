//! Unit tests of path joining, trailing slashes, resolution and the
//! rotating buffer.

use chaos_rust::config::{
    area_file_path_str, configure_area_paths_pub, configure_misc_dirs_pub,
    ensure_trailing_slash, get_area_dir_str, init_path_overrides_impl, join_path, path_exists,
    resolve_path, EnvOverrides, RotatingBuffer,
};

#[test]
fn test_join_path_basic() {
    assert_eq!(join_path("dir", "file.txt"), "dir/file.txt");
    assert_eq!(join_path("dir/", "file.txt"), "dir/file.txt");
    assert_eq!(join_path("", "file.txt"), "file.txt");
    assert_eq!(join_path("dir", ""), "dir");
    assert_eq!(join_path("", ""), "");
}

#[test]
fn test_join_path_with_trailing_slash() {
    assert_eq!(join_path("/root/area/", "mob.are"), "/root/area/mob.are");
    assert_eq!(join_path("/root/area", "mob.are"), "/root/area/mob.are");
}

#[test]
fn test_ensure_trailing_slash() {
    let mut s = "player".to_string();
    ensure_trailing_slash(&mut s);
    assert_eq!(s, "player/");

    let mut s2 = "player/".to_string();
    ensure_trailing_slash(&mut s2);
    assert_eq!(s2, "player/");

    let mut s3 = String::new();
    ensure_trailing_slash(&mut s3);
    assert_eq!(s3, "");
}

#[test]
fn test_path_exists_empty() {
    assert!(!path_exists(""));
}

#[test]
fn test_path_exists_current_dir() {
    assert!(path_exists("."));
}

#[test]
fn test_resolve_path_env_override() {
    let result = resolve_path(Some("/custom/path"), Some("/root"), "fallback", "default");
    assert_eq!(result, "/custom/path");
}

#[test]
fn test_resolve_path_root_fallback() {
    let result = resolve_path(None, Some("/myroot"), "player/", "../player/");
    assert_eq!(result, "/myroot/player/");
}

#[test]
fn test_resolve_path_compiled_default() {
    let result = resolve_path(None, None, "player/", "../player/");
    assert_eq!(result, "../player/");
}

#[test]
fn test_resolve_path_empty_env_var_ignored() {
    let result = resolve_path(Some(""), Some("/root"), "area", "default_area");
    assert_eq!(result, "/root/area");
}

#[test]
fn test_resolve_path_empty_root_uses_default() {
    let result = resolve_path(None, Some(""), "area", "compiled_default");
    assert_eq!(result, "compiled_default");
}

#[test]
fn test_configure_area_paths_with_root() {
    let (area_dir, area_list, bug_file, idea_file, typo_file, note_file, shutdown_file, copyover_file, mobprog_dir) =
        configure_area_paths_pub(Some("/env/dev"), None, &path_exists);

    assert_eq!(area_dir, "/env/dev/area");
    assert_eq!(area_list, "/env/dev/area/area.lst");
    assert_eq!(bug_file, "/env/dev/area/bugs.txt");
    assert_eq!(idea_file, "/env/dev/area/ideas.txt");
    assert_eq!(typo_file, "/env/dev/area/typos.txt");
    assert_eq!(note_file, "/env/dev/area/notes.txt");
    assert_eq!(shutdown_file, "/env/dev/area/shutdown.txt");
    assert_eq!(copyover_file, "/env/dev/area/copyover.txt");
    assert_eq!(mobprog_dir, "/env/dev/area/MOBProgs");
}

#[test]
fn test_configure_area_paths_with_explicit_dir() {
    let (area_dir, area_list, _, _, _, _, _, _, _) =
        configure_area_paths_pub(Some("/env/dev"), Some("/custom/areas"), &path_exists);

    assert_eq!(area_dir, "/custom/areas");
    assert_eq!(area_list, "/custom/areas/area.lst");
}

#[test]
fn test_configure_misc_dirs_with_root() {
    let (finger_dir, note_dir) = configure_misc_dirs_pub(Some("/env/dev"), None, None, &path_exists);

    assert_eq!(finger_dir, "/env/dev/finger/");
    assert_eq!(note_dir, "/env/dev/notes/");
}

#[test]
fn test_configure_misc_dirs_with_overrides() {
    let (finger_dir, note_dir) =
        configure_misc_dirs_pub(Some("/env/dev"), Some("/custom/finger"), Some("/custom/notes"), &path_exists);

    assert_eq!(finger_dir, "/custom/finger/");
    assert_eq!(note_dir, "/custom/notes/");
}

#[test]
fn test_configure_misc_dirs_trailing_slash_enforcement() {
    let (finger_dir, note_dir) =
        configure_misc_dirs_pub(None, Some("/path/finger"), Some("/path/notes/"), &path_exists);

    assert!(finger_dir.ends_with('/'), "finger_dir should end with /");
    assert!(note_dir.ends_with('/'), "note_dir should end with /");
}

#[test]
fn test_area_file_path_str_basic() {
    let result = join_path("area", "midgaard.are");
    assert_eq!(result, "area/midgaard.are");
}

#[test]
fn test_area_file_path_str_empty_filename() {
    // Before initialization the area directory is the compiled default.
    let result = area_file_path_str(None, "");
    assert!(!result.is_empty());
}

#[test]
fn test_rotating_buffer() {
    let mut buf = RotatingBuffer::new();

    let _ = buf.next("first".to_string());
    assert_eq!(buf.slots[1], "first");
    assert_eq!(buf.index, 1);

    let _ = buf.next("second".to_string());
    assert_eq!(buf.slots[2], "second");
    assert_eq!(buf.index, 2);

    let _ = buf.next("third".to_string());
    assert_eq!(buf.slots[3], "third");
    assert_eq!(buf.index, 3);

    let _ = buf.next("fourth".to_string());
    assert_eq!(buf.slots[0], "fourth");
    assert_eq!(buf.index, 0);

    // Verify wrap-around: fifth call overwrites slot 1
    let _ = buf.next("fifth".to_string());
    assert_eq!(buf.slots[1], "fifth");
    assert_eq!(buf.index, 1);
}

#[test]
fn test_configure_area_paths_no_root_no_dir() {
    // With no root and no override the area directory is "area" or ".",
    // depending on whether "area" exists in the working directory.
    let (area_dir, _, _, _, _, _, _, _, _) = configure_area_paths_pub(None, None, &path_exists);
    assert!(!area_dir.is_empty());
    assert!(area_dir == "area" || area_dir == ".");
}

#[test]
fn test_init_with_temp_dir() {
    let root = "/tmp/chaos_test_init";

    let (area_dir, area_list, _, _, _, _, _, _, _) = configure_area_paths_pub(Some(root), None, &path_exists);
    assert_eq!(area_dir, format!("{}/area", root));
    assert_eq!(area_list, format!("{}/area/area.lst", root));

    let (finger_dir, note_dir) = configure_misc_dirs_pub(Some(root), None, None, &path_exists);
    assert_eq!(finger_dir, format!("{}/finger/", root));
    assert_eq!(note_dir, format!("{}/notes/", root));
}

#[test]
fn join_path_root_without_slash_gets_one() {
    assert_eq!(join_path("/a", "b"), "/a/b");
    assert_eq!(join_path("/a//", "b"), "/a//b");
    assert_eq!(join_path("/", "b"), "/b");
}

#[test]
fn ensure_trailing_slash_is_idempotent() {
    let mut s = "/srv/chaos".to_string();
    ensure_trailing_slash(&mut s);
    let once = s.clone();
    ensure_trailing_slash(&mut s);
    assert_eq!(s, once);
    assert_eq!(s, "/srv/chaos/");
}

#[test]
fn empty_overrides_count_as_unset() {
    let (area_dir, _, _, _, _, _, _, _, _) = configure_area_paths_pub(Some("/r"), Some(""), &path_exists);
    assert_eq!(area_dir, "/r/area");
    let (finger_dir, note_dir) = configure_misc_dirs_pub(Some("/r"), Some(""), Some(""), &path_exists);
    assert_eq!(finger_dir, "/r/finger/");
    assert_eq!(note_dir, "/r/notes/");
}

#[test]
fn init_with_root_places_every_path() {
    let env = EnvOverrides {
        env_root: Some("/env/dev".to_string()),
        player_dir: None,
        player_temp_dir: None,
        area_dir: None,
        finger_dir: None,
        notes_dir: None,
    };
    let c = init_path_overrides_impl(&env, &path_exists);
    assert_eq!(c.player_dir, "/env/dev/player/");
    assert_eq!(c.player_temp_dir, "/env/dev/player/temp");
    assert_eq!(c.area_dir, "/env/dev/area");
    assert_eq!(c.area_list, "/env/dev/area/area.lst");
    assert_eq!(c.bug_file, "/env/dev/area/bugs.txt");
    assert_eq!(c.idea_file, "/env/dev/area/ideas.txt");
    assert_eq!(c.typo_file, "/env/dev/area/typos.txt");
    assert_eq!(c.note_file, "/env/dev/area/notes.txt");
    assert_eq!(c.shutdown_file, "/env/dev/area/shutdown.txt");
    assert_eq!(c.copyover_file, "/env/dev/area/copyover.txt");
    assert_eq!(c.mobprog_dir, "/env/dev/area/MOBProgs");
    assert_eq!(c.finger_dir, "/env/dev/finger/");
    assert_eq!(c.note_dir, "/env/dev/notes/");
    assert_eq!(get_area_dir_str(Some(&c)), "/env/dev/area");
}

#[test]
fn init_with_overrides() {
    let env = EnvOverrides {
        env_root: Some("/env/dev".to_string()),
        player_dir: Some("/p".to_string()),
        player_temp_dir: Some("/p/tmp".to_string()),
        area_dir: Some("/a/".to_string()),
        finger_dir: Some("/f".to_string()),
        notes_dir: Some("/n/".to_string()),
    };
    let c = init_path_overrides_impl(&env, &path_exists);
    assert_eq!(c.player_dir, "/p/");
    assert_eq!(c.player_temp_dir, "/p/tmp");
    assert_eq!(c.area_dir, "/a/");
    assert_eq!(c.area_list, "/a/area.lst");
    assert_eq!(c.mobprog_dir, "/a/MOBProgs");
    assert_eq!(c.finger_dir, "/f/");
    assert_eq!(c.note_dir, "/n/");
}

#[test]
fn empty_root_counts_as_unset() {
    let env = EnvOverrides {
        env_root: Some(String::new()),
        player_dir: None,
        player_temp_dir: None,
        area_dir: Some("/areas".to_string()),
        finger_dir: Some("/f".to_string()),
        notes_dir: Some("/n".to_string()),
    };
    let c = init_path_overrides_impl(&env, &path_exists);
    assert!(c.player_dir == "../player/" || c.player_dir == "player/");
    assert!(c.player_temp_dir == "../player/temp" || c.player_temp_dir == "player/temp");
    assert_eq!(c.area_dir, "/areas");
}

#[test]
fn local_area_directory_is_asked_about_area() {
    let only_area = |p: &str| p == "area";
    let (area_dir, area_list, _, _, _, _, _, _, _) = configure_area_paths_pub(None, None, &only_area);
    assert_eq!(area_dir, "area");
    assert_eq!(area_list, "area/area.lst");
    let nothing = |_: &str| false;
    let (area_dir, area_list, _, _, _, _, _, _, _) = configure_area_paths_pub(None, None, &nothing);
    assert_eq!(area_dir, ".");
    assert_eq!(area_list, "./area.lst");
}

#[test]
fn local_misc_directories_are_asked_about_their_names() {
    let only_finger = |p: &str| p == "finger";
    let (finger_dir, note_dir) = configure_misc_dirs_pub(None, None, None, &only_finger);
    assert_eq!(finger_dir, "finger/");
    assert_eq!(note_dir, "../notes/");
    let only_notes = |p: &str| p == "notes";
    let (finger_dir, note_dir) = configure_misc_dirs_pub(Some(""), None, None, &only_notes);
    assert_eq!(finger_dir, "../finger/");
    assert_eq!(note_dir, "notes/");
}

#[test]
fn player_fallbacks_follow_what_is_found() {
    let env = EnvOverrides {
        env_root: None,
        player_dir: None,
        player_temp_dir: Some(String::new()),
        area_dir: None,
        finger_dir: None,
        notes_dir: None,
    };
    // Default missing, local directories present.
    let local_only = |p: &str| p == "player" || p == "player/temp";
    let c = init_path_overrides_impl(&env, &local_only);
    assert_eq!(c.player_dir, "player/");
    assert_eq!(c.player_temp_dir, "player/temp");
    // Defaults present: they stay, whatever is local.
    let everything = |_: &str| true;
    let c = init_path_overrides_impl(&env, &everything);
    assert_eq!(c.player_dir, "../player/");
    assert_eq!(c.player_temp_dir, "../player/temp");
    assert_eq!(c.area_dir, "area");
    assert_eq!(c.finger_dir, "finger/");
    assert_eq!(c.note_dir, "notes/");
    // Nothing found anywhere: compiled defaults and ".".
    let nothing = |_: &str| false;
    let c = init_path_overrides_impl(&env, &nothing);
    assert_eq!(c.player_dir, "../player/");
    assert_eq!(c.player_temp_dir, "../player/temp");
    assert_eq!(c.area_dir, ".");
    assert_eq!(c.bug_file, "./bugs.txt");
    assert_eq!(c.finger_dir, "../finger/");
    assert_eq!(c.note_dir, "../notes/");
}
