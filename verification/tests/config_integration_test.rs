//! Integration tests of the path configuration through the public API.

use chaos_rust::config::{
    configure_area_paths_pub, configure_misc_dirs_pub, ensure_trailing_slash, join_path,
    path_exists, resolve_path,
};

#[test]
fn test_full_init_cycle_with_env_root() {
    let root = "/tmp/chaos_integration_test_1";

    let player_dir = resolve_path(None, Some(root), "player/", "../player/");
    assert_eq!(player_dir, format!("{}/player/", root));

    let player_temp = resolve_path(None, Some(root), "player/temp", "../player/temp");
    assert_eq!(player_temp, format!("{}/player/temp", root));

    let (area_dir, area_list, bug_file, idea_file, typo_file, note_file, shutdown_file, copyover_file, mobprog_dir) =
        configure_area_paths_pub(Some(root), None, &path_exists);

    assert_eq!(area_dir, format!("{}/area", root));
    assert_eq!(area_list, format!("{}/area/area.lst", root));
    assert_eq!(bug_file, format!("{}/area/bugs.txt", root));
    assert_eq!(idea_file, format!("{}/area/ideas.txt", root));
    assert_eq!(typo_file, format!("{}/area/typos.txt", root));
    assert_eq!(note_file, format!("{}/area/notes.txt", root));
    assert_eq!(shutdown_file, format!("{}/area/shutdown.txt", root));
    assert_eq!(copyover_file, format!("{}/area/copyover.txt", root));
    assert_eq!(mobprog_dir, format!("{}/area/MOBProgs", root));

    let (finger_dir, note_dir) = configure_misc_dirs_pub(Some(root), None, None, &path_exists);
    assert_eq!(finger_dir, format!("{}/finger/", root));
    assert_eq!(note_dir, format!("{}/notes/", root));

    assert!(finger_dir.ends_with('/'));
    assert!(note_dir.ends_with('/'));
}

#[test]
fn test_full_init_cycle_with_individual_overrides() {
    let player_path = "/tmp/chaos_integration_test_2/custom_player".to_string();
    let area_path = "/tmp/chaos_integration_test_2/custom_area".to_string();
    let finger_path = "/tmp/chaos_integration_test_2/custom_finger".to_string();
    let notes_path = "/tmp/chaos_integration_test_2/custom_notes".to_string();

    let result = resolve_path(Some(&player_path), None, "player/", "../player/");
    assert_eq!(result, player_path);

    let (area_dir, area_list, _, _, _, _, _, _, _) = configure_area_paths_pub(None, Some(&area_path), &path_exists);
    assert_eq!(area_dir, area_path);
    assert_eq!(area_list, format!("{}/area.lst", area_path));

    let (finger_dir, note_dir) = configure_misc_dirs_pub(None, Some(&finger_path), Some(&notes_path), &path_exists);
    assert_eq!(finger_dir, format!("{}/", finger_path));
    assert_eq!(note_dir, format!("{}/", notes_path));
}

#[test]
fn test_compiled_defaults_when_no_env_set() {
    let player_dir = resolve_path(None, None, "player/", "../player/");
    assert_eq!(player_dir, "../player/");

    let player_temp = resolve_path(None, None, "player/temp", "../player/temp");
    assert_eq!(player_temp, "../player/temp");
}

#[test]
fn test_path_exists_with_real_paths() {
    assert!(path_exists("."));
    assert!(!path_exists("./chaos_integration_test_3/nonexistent"));
}

#[test]
fn test_join_path_various_combinations() {
    assert_eq!(join_path("/env/dev/area", "area.lst"), "/env/dev/area/area.lst");
    assert_eq!(join_path("/env/dev/area/", "area.lst"), "/env/dev/area/area.lst");
    assert_eq!(join_path("area", "MOBProgs"), "area/MOBProgs");
    assert_eq!(join_path("", "fallback"), "fallback");
    assert_eq!(join_path("dir_only", ""), "dir_only");
}

#[test]
fn test_ensure_trailing_slash_various() {
    let mut path1 = "/env/dev/player".to_string();
    ensure_trailing_slash(&mut path1);
    assert_eq!(path1, "/env/dev/player/");

    let mut path2 = "/env/dev/player/".to_string();
    ensure_trailing_slash(&mut path2);
    assert_eq!(path2, "/env/dev/player/");

    let mut path3 = String::new();
    ensure_trailing_slash(&mut path3);
    assert_eq!(path3, "");
}

#[test]
fn test_area_file_path_str_integration() {
    let area_dir = "/env/dev/area";
    let result = join_path(area_dir, "midgaard.are");
    assert_eq!(result, "/env/dev/area/midgaard.are");

    let result2 = join_path(area_dir, "school.are");
    assert_eq!(result2, "/env/dev/area/school.are");
}

#[test]
fn test_root_with_trailing_slash() {
    let result = resolve_path(None, Some("/env/dev/"), "player/", "../player/");
    assert_eq!(result, "/env/dev/player/");

    let result2 = resolve_path(None, Some("/env/dev"), "player/", "../player/");
    assert_eq!(result2, "/env/dev/player/");
}
