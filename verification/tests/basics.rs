use std::collections::{HashMap, HashSet};

use bevy_game::hierarchy::{
    colliders_under, find_bone_entity, has_rigidbody_ancestor, marked_or_parent, nearest_marked,
    topmost_ancestor,
};
use bevy_game::mesh_indices::{in_range, triangles, unindexed_triangles, wireframe_edges};
use bevy_game::names::{
    add_name, add_names, copy_names, difference, holds, ordered, position, same_names, sort_names,
    sort_tagged, Tagged,
};
use bevy_game::path_lists::{add_path, is_same_path, path_difference};
use bevy_game::paths::{
    extension, file_name, file_stem, find_stem, goes_through, join_path, parent, path_stem, sibling,
    strip_root,
};
use bevy_game::scalar::{scalar, wide, Rgba, Scalar};
use bevy_game::text::{
    ascii_lowercase, bytes_of, contains, ends_with, replace_char, split, starts_with, strip_front,
    strip_head, strip_tail, strip_tails, switch_text, truth_text,
};

fn f(x: f32) -> Scalar {
    scalar(x.to_bits())
}

fn list(items: &[&str]) -> Vec<String> {
    items.iter().map(|s| s.to_string()).collect()
}

#[test]
fn scalars_compare_like_floats() {
    let samples = [
        -f32::INFINITY, -2.5, -1.0, -1.0e-40, -0.0, 0.0, 1.0e-40, 0.5, 1.0, 3.0e8, f32::INFINITY,
        f32::NAN,
    ];
    for &a in &samples {
        assert_eq!(f(a).is_nan(), a.is_nan());
        assert_eq!(f(a).is_finite(), a.is_finite());
        assert_eq!(f(a).abs().bits, a.abs().to_bits());
        for &b in &samples {
            assert_eq!(f(a).lt(f(b)), a < b);
            assert_eq!(f(a).le(f(b)), a <= b);
            assert_eq!(f(a).same_number(f(b)), a == b);
            let max = f32::from_bits(f(a).max(f(b)).bits);
            let min = f32::from_bits(f(a).min(f(b)).bits);
            assert!(max == a.max(b) || (max.is_nan() && a.is_nan() && b.is_nan()));
            assert!(min == a.min(b) || (min.is_nan() && a.is_nan() && b.is_nan()));
        }
    }
}

#[test]
fn scalars_are_clamped_like_floats() {
    for x in [-3.0f32, -1.0, 0.25, 1.0, 9.0] {
        assert_eq!(f(x).clamp(f(-1.0), f(1.0)).bits, x.clamp(-1.0, 1.0).to_bits());
    }
    assert!(f(f32::NAN).clamp(f(0.0), f(1.0)).is_nan());
    let c = Rgba { r: f(2.0), g: f(-1.0), b: f(0.5), a: f(1.0) }.clamp_unit();
    assert_eq!(c, Rgba { r: f(1.0), g: f(0.0), b: f(0.5), a: f(1.0) });
}

#[test]
fn wide_numbers_compare_like_floats() {
    let w = |x: f64| wide(x.to_bits());
    assert!(w(-1.0).le(w(0.0)));
    assert!(w(-0.0).le(w(0.0)) && w(0.0).le(w(-0.0)));
    assert!(!w(2.0).le(w(1.0)));
    assert!(!w(f64::NAN).le(w(1.0)));
    assert!(w(f64::NAN).is_nan());
}

#[test]
fn text_is_taken_apart() {
    assert!(starts_with("abc", "ab"));
    assert!(!starts_with("abc", "abcd"));
    assert!(ends_with("abc", "bc"));
    assert!(contains("a=b", "="));
    assert!(!contains("", "x"));
    assert!(contains("x", ""));
    assert_eq!(strip_head("--x", "-"), Some("-x".to_string()));
    assert_eq!(strip_head("x", "-"), None);
    assert_eq!(strip_tail("m.map.toml", ".map.toml"), Some("m".to_string()));
    assert_eq!(strip_tail("m.toml", ".map.toml"), None);
    assert_eq!(strip_tails("a.adm.adm", ".adm"), "a");
    assert_eq!(strip_tails("a", ".adm"), "a");
    assert_eq!(strip_front("//a/", '/'), "a/");
    assert_eq!(split("a//b", '/'), list(&["a", "", "b"]));
    assert_eq!(split("", '/'), list(&[""]));
    assert_eq!(replace_char("a\\b\\", '\\', "/"), "a/b/");
    assert_eq!(ascii_lowercase("AbÉ"), "abÉ");
    assert_eq!(bytes_of("aé€"), "aé€".as_bytes().to_vec());
    assert_eq!(truth_text(true), "true");
    assert_eq!(truth_text(false), "false");
    assert_eq!(switch_text(true), "ON");
    assert_eq!(switch_text(false), "OFF");
}

#[test]
fn names_form_sets_in_order() {
    let mut names = list(&["b", "a"]);
    assert!(!add_name(&mut names, "a"));
    assert!(add_name(&mut names, "c"));
    add_names(&mut names, &list(&["c", "d", "d"]));
    assert_eq!(names, list(&["b", "a", "c", "d"]));
    assert_eq!(position(&names, "c"), Some(2));
    assert_eq!(position(&names, "x"), None);
    assert!(holds(&names, "d"));
    assert_eq!(difference(&names, &list(&["a", "d"])), list(&["b", "c"]));
    assert!(same_names(&copy_names(&names), &names));
    assert!(!same_names(&list(&["a"]), &list(&["b"])));
}

#[test]
fn names_are_sorted_like_strings() {
    let names = list(&["b", "", "ab", "a", "Z", "é", "a"]);
    let mut expected = names.clone();
    expected.sort();
    assert_eq!(sort_names(&names), expected);
    for a in &names {
        for b in &names {
            assert_eq!(ordered(a, b), a <= b);
        }
    }
}

#[test]
fn equal_names_keep_their_order() {
    let tagged = |name: &str, tag: u64| Tagged { name: name.to_string(), tag };
    let sorted = sort_tagged(vec![tagged("b", 1), tagged("a", 2), tagged("b", 3), tagged("a", 4)]);
    let got: Vec<(String, u64)> = sorted.into_iter().map(|t| (t.name, t.tag)).collect();
    assert_eq!(
        got,
        vec![
            ("a".to_string(), 2),
            ("a".to_string(), 4),
            ("b".to_string(), 1),
            ("b".to_string(), 3),
        ]
    );
}

#[test]
fn file_names_fall_apart_like_paths() {
    for name in ["a.b.c", "noext", ".hidden", "trailing.", "x.adm", "..a"] {
        let p = std::path::Path::new(name);
        let ext = p.extension().map(|e| e.to_str().unwrap()).unwrap_or("");
        assert_eq!(extension(name), ext);
        assert_eq!(file_stem(name), p.file_stem().unwrap().to_str().unwrap());
    }
    assert_eq!(file_name("a/b/c.txt"), "c.txt");
    assert_eq!(file_name("c.txt"), "c.txt");
}

const PATHS: [&str; 22] = [
    "", "/", ".", "..", "a", "a/", "a/.", "./a", "a/b", "a//b", "a/./b", "/a", "/a/b", "//a", "a/..",
    "a/b.c/", "/.", "./", "..a/b", "/./a", "a/b/c.txt", "a/.b",
];

#[test]
fn paths_go_by_their_steps() {
    for path in PATHS {
        let std_path = std::path::Path::new(path);
        let name = std_path.file_name().map_or("", |n| n.to_str().unwrap());
        assert_eq!(file_name(path), name, "{path}");
        let ext = std_path.extension().map_or("", |e| e.to_str().unwrap());
        assert_eq!(extension(&file_name(path)), ext, "{path}");
        let stem = std_path.file_stem().map(|n| n.to_str().unwrap().to_string());
        assert_eq!(find_stem(path), stem, "{path}");
        let up = std_path.parent().map(|n| n.to_str().unwrap().to_string());
        assert_eq!(parent(path), up, "{path}");
        let beside = std_path.with_extension("x");
        assert_eq!(sibling(path, "x"), beside.to_str().unwrap(), "{path}");
        for root in PATHS {
            let rest = std_path.strip_prefix(root).ok().map(|n| n.to_str().unwrap().to_string());
            assert_eq!(goes_through(path, root), std_path.starts_with(root), "{path} {root}");
            assert_eq!(strip_root(path, root), rest, "{path} {root}");
            assert_eq!(is_same_path(path, root), std_path == std::path::Path::new(root));
        }
    }
}

#[test]
fn path_lists_hold_each_path_once() {
    let mut paths = list(&["m/a"]);
    add_path(&mut paths, "m//a/".to_string());
    add_path(&mut paths, "m/b".to_string());
    assert_eq!(paths, list(&["m/a", "m/b"]));
    assert_eq!(path_difference(&paths, &list(&["m/./b"])), list(&["m/a"]));
}

#[test]
fn stem_and_extension_give_the_name_back() {
    for name in ["a.b.c", "noext", ".hidden", "x.adm"] {
        let e = extension(name);
        let whole = if e.is_empty() { file_stem(name) } else { format!("{}.{}", file_stem(name), e) };
        assert_eq!(whole, name);
    }
}

#[test]
fn paths_join_like_std() {
    for (dir, rel) in [("a", "b"), ("a/", "b"), ("", "b"), ("/", "b"), ("a", "/b")] {
        let expected = std::path::Path::new(dir).join(rel);
        assert_eq!(join_path(dir, rel), expected.to_str().unwrap());
    }
}

#[test]
fn stems_of_paths() {
    assert_eq!(find_stem("models/car.adm"), Some("car".to_string()));
    assert_eq!(find_stem("models/dir/"), Some("dir".to_string()));
    assert_eq!(find_stem("a/."), Some("a".to_string()));
    assert_eq!(find_stem(".."), None);
    assert_eq!(find_stem("/"), None);
    assert_eq!(path_stem(".."), "..");
    assert_eq!(path_stem("x/y.z"), "y");
    assert_eq!(sibling("models/car.adm", "drawable"), "models/car.drawable");
    assert_eq!(sibling("car", "ik.toml"), "car.ik.toml");
}

fn chain() -> HashMap<u64, u64> {
    HashMap::from([(3, 2), (2, 1), (5, 4)])
}

#[test]
fn marks_are_found_upward() {
    let marked = HashSet::from([1, 3]);
    assert_eq!(nearest_marked(&chain(), &marked, 3), Some(3));
    assert_eq!(nearest_marked(&chain(), &marked, 2), Some(1));
    assert_eq!(nearest_marked(&chain(), &marked, 5), None);
    assert!(marked_or_parent(&chain(), &marked, 2));
    assert!(!marked_or_parent(&chain(), &marked, 4));
}

#[test]
fn own_body_is_no_ancestor() {
    let bodies = HashSet::from([2]);
    assert!(!has_rigidbody_ancestor(2, &chain(), &bodies));
    assert!(has_rigidbody_ancestor(3, &chain(), &bodies));
    assert_eq!(topmost_ancestor(3, &chain()), 1);
    assert_eq!(topmost_ancestor(9, &chain()), 9);
}

#[test]
fn bones_are_found_down_to_a_depth() {
    let children = HashMap::from([(1, vec![2, 3]), (3, vec![4])]);
    let names = HashMap::from([(2, "hip".to_string()), (4, "knee".to_string())]);
    assert_eq!(find_bone_entity(1, "hip", &children, &names, 10), Some(2));
    assert_eq!(find_bone_entity(1, "knee", &children, &names, 2), Some(4));
    assert_eq!(find_bone_entity(1, "knee", &children, &names, 1), None);
    assert_eq!(find_bone_entity(1, "toe", &children, &names, 10), None);
}

#[test]
fn colliders_are_gathered_from_a_subtree() {
    let children = HashMap::from([(1, vec![2, 3]), (3, vec![4]), (8, vec![9])]);
    let mut found = colliders_under(1, &children, &HashSet::from([1, 4, 9]));
    found.sort();
    assert_eq!(found, vec![1, 4]);
}

#[test]
fn triangles_and_edges_of_indices() {
    assert_eq!(triangles(&vec![0, 1, 2, 2, 1, 3, 9]), vec![(0, 1, 2), (2, 1, 3)]);
    assert_eq!(unindexed_triangles(7), vec![0, 3]);
    assert!(in_range(&vec![0, 1, 2], 3));
    assert!(!in_range(&vec![0, 3], 3));
    let edges = wireframe_edges(&vec![0, 1, 2, 2, 1, 3]);
    assert_eq!(edges, vec![(0, 1), (1, 2), (0, 2), (1, 3), (2, 3)]);
}
