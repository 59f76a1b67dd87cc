use std::path::Path;
use voxel_region::path::{
    holds_separator, is_snapshot_extension, names_file, new_extension, string_to_path_buf,
};

#[test]
fn snapshot_extension_is_recognised() {
    assert!(is_snapshot_extension(&Some("vstruc".to_string())));
    assert!(!is_snapshot_extension(&Some("VSTRUC".to_string())));
    assert!(!is_snapshot_extension(&Some("vstru".to_string())));
    assert!(!is_snapshot_extension(&Some("vstrucs".to_string())));
    assert!(!is_snapshot_extension(&Some(String::new())));
    assert!(!is_snapshot_extension(&None));
}

#[test]
fn separators_are_found() {
    assert!(holds_separator("/"));
    assert!(holds_separator("a\\b"));
    assert!(holds_separator("txt/"));
    assert!(holds_separator("\u{e9}t\u{e9}/x"));
    assert!(!holds_separator(""));
    assert!(!holds_separator("txt"));
    assert!(!holds_separator("tar.gz"));
    assert!(!holds_separator("\u{e9}t\u{e9}"));
}

#[test]
fn paths_with_and_without_a_file_name() {
    assert!(names_file("house"));
    assert!(names_file("a/b/house.txt"));
    assert!(names_file("dir/"));
    assert!(names_file(".hidden"));
    assert!(!names_file(""));
    assert!(!names_file(".."));
    assert!(!names_file("a/.."));
    assert!(!names_file("/"));
}

#[test]
fn the_extension_to_set_keeps_the_old_one() {
    assert_eq!(new_extension(&None), "vstruc");
    assert_eq!(new_extension(&Some("txt".to_string())), "txt.vstruc");
    assert_eq!(new_extension(&Some("gz".to_string())), "gz.vstruc");
    assert_eq!(new_extension(&Some(String::new())), ".vstruc");
    assert_eq!(new_extension(&Some("VSTRUC".to_string())), "VSTRUC.vstruc");
    assert_eq!(new_extension(&Some("b\\c".to_string())), "vstruc");
    assert_eq!(new_extension(&Some("b/c".to_string())), "vstruc");
}

#[test]
fn paths_get_the_snapshot_extension() {
    assert_eq!(string_to_path_buf("house"), "house.vstruc");
    assert_eq!(string_to_path_buf("a/b/house"), "a/b/house.vstruc");
    assert_eq!(string_to_path_buf("a.d/house"), "a.d/house.vstruc");
    assert_eq!(string_to_path_buf(".hidden"), ".hidden.vstruc");
    assert_eq!(string_to_path_buf("vstruc"), "vstruc.vstruc");
    assert_eq!(string_to_path_buf("a/vstruc"), "a/vstruc.vstruc");
    assert_eq!(string_to_path_buf("x.vstruc/house"), "x.vstruc/house.vstruc");
}

#[test]
fn a_name_with_another_extension_is_kept_whole() {
    assert_eq!(string_to_path_buf("house.txt"), "house.txt.vstruc");
    assert_eq!(string_to_path_buf("house.tar.gz"), "house.tar.gz.vstruc");
    assert_eq!(string_to_path_buf("house.VSTRUC"), "house.VSTRUC.vstruc");
    assert_eq!(string_to_path_buf("house."), "house..vstruc");
    assert_eq!(string_to_path_buf("a/b.c/house.d.e"), "a/b.c/house.d.e.vstruc");
    assert_eq!(string_to_path_buf("...") , "....vstruc");
}

#[test]
fn a_name_with_the_snapshot_extension_is_kept_as_it_is() {
    assert_eq!(string_to_path_buf("house.vstruc"), "house.vstruc");
    assert_eq!(string_to_path_buf("a/b.vstruc"), "a/b.vstruc");
    assert_eq!(string_to_path_buf("house.txt.vstruc"), "house.txt.vstruc");
    assert_eq!(string_to_path_buf(".hidden.vstruc"), ".hidden.vstruc");
    assert_eq!(string_to_path_buf("dir.vstruc/"), "dir.vstruc/");
}

#[test]
fn the_extension_goes_behind_the_file_name() {
    assert_eq!(string_to_path_buf("dir/"), "dir.vstruc");
    assert_eq!(string_to_path_buf("a/b/"), "a/b.vstruc");
    assert_eq!(string_to_path_buf("a/b.txt/"), "a/b.txt.vstruc");
    assert_eq!(string_to_path_buf("a/."), "a.vstruc");
}

#[test]
fn paths_that_name_no_file_are_kept_as_they_are() {
    assert_eq!(string_to_path_buf(""), "");
    assert_eq!(string_to_path_buf(".."), "..");
    assert_eq!(string_to_path_buf("a/.."), "a/..");
    assert_eq!(string_to_path_buf("/"), "/");
}

#[test]
fn kept_names_have_the_extension_and_stay_as_they_are() {
    let paths = [
        "", "..", "/", "a/..", "house", "house.txt", "house.vstruc", "house.", ".hidden",
        ".hidden.txt", "dir/", "a/b/", "a/b.txt/", "a/.", "a.b/c.d.e", "...", "..a", "a..",
        "x.vstruc/y", "vstruc", ".vstruc", "a/.vstruc", "a b.c d", "\u{e9}t\u{e9}.txt",
        "house.vstruc.txt", "/abs/house", "./house", "../house.txt",
    ];
    for p in paths {
        let kept = string_to_path_buf(p);
        if Path::new(p).file_name().is_some() {
            assert_eq!(
                Path::new(&kept).extension().and_then(|e| e.to_str()),
                Some("vstruc"),
                "{p:?} is kept as {kept:?}"
            );
        } else {
            assert_eq!(kept, p);
        }
        assert_eq!(string_to_path_buf(&kept), kept, "{p:?} is kept as {kept:?}");
    }
}
