use ulac::paths::find_last_char;
use ulac::paths::map_output_path;
use ulac::paths::rel_path;
use ulac::paths::source_suffix;
use ulac::paths::str_has_prefix;
use ulac::paths::str_has_suffix;
use ulac::paths::target_extension;
use ulac::paths::with_extension;

#[test]
fn suffix_matches_source_files() {
    assert!(str_has_suffix("main.ula", source_suffix()));
    assert!(str_has_suffix("/deep/tree/mod.ula", ".ula"));
    assert!(!str_has_suffix("main.lua", source_suffix()));
    assert!(!str_has_suffix("ula", ".ula"));
    assert!(str_has_suffix(".ula", ".ula"));
    assert!(!str_has_suffix("", ".ula"));
    assert!(str_has_suffix("anything", ""));
}

#[test]
fn prefix_detects_root() {
    assert!(str_has_prefix("/a/x/y.ula", "/a"));
    assert!(!str_has_prefix("/b/x/y.ula", "/a"));
    assert!(str_has_prefix("/a", "/a"));
    assert!(str_has_prefix("/a", ""));
}

#[test]
fn last_char_position() {
    assert_eq!(find_last_char("a.b.c", '.'), Some(3));
    assert_eq!(find_last_char("abc", '.'), None);
    assert_eq!(find_last_char("/x/y/z", '/'), Some(4));
}

#[test]
fn relative_path_strips_root_and_separator() {
    assert_eq!(rel_path("/a/x/y.ula", "/a"), "x/y.ula");
    assert_eq!(rel_path("/a/x/y.ula", "/a/"), "x/y.ula");
    assert_eq!(rel_path("/a", "/a"), "");
}

#[test]
fn extension_is_swapped_on_final_segment() {
    assert_eq!(with_extension("/b/x/y.src", "out"), "/b/x/y.out");
    assert_eq!(with_extension("dir.d/name.ula", "lua"), "dir.d/name.lua");
    assert_eq!(with_extension("plain", "lua"), "plain.lua");
    assert_eq!(with_extension("/a/.ula", "lua"), "/a/.ula.lua");
}

#[test]
fn output_path_mirrors_tree() {
    assert_eq!(map_output_path("/a", "/b", "/a/x/y.src", "out"), "/b/x/y.out");
    assert_eq!(
        map_output_path("/a", "/b", "/a/x/y.ula", target_extension()),
        "/b/x/y.lua"
    );
    assert_eq!(
        map_output_path("/in", "/out/", "/in/deep/nest/m.ula", "lua"),
        "/out/deep/nest/m.lua"
    );
}
