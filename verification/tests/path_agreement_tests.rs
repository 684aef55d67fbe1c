use std::path::Path;
use std::path::PathBuf;

use mdx_desktop::path::file_name;
use mdx_desktop::path::is_absolute;
use mdx_desktop::path::join;
use mdx_desktop::path::parent;
use mdx_desktop::path::same_path;
use mdx_desktop::path::starts_with;

/// Every text of up to `len` pieces out of a small alphabet of pieces.
fn samples(len: usize) -> Vec<String> {
    let pieces = ["/", "a", "b", "ab", ".", "..", "a.b", " "];
    let mut all = vec![String::new()];
    let mut last = vec![String::new()];
    for _ in 0..len {
        let mut next = Vec::new();
        for text in &last {
            for piece in pieces {
                next.push(format!("{}{}", text, piece));
            }
        }
        all.extend(next.iter().cloned());
        last = next;
    }
    all
}

/// Whether the standard library keeps a leading dot of this path as a
/// component of its own, which this library does not.
fn leads_with_dot(path: &str) -> bool {
    path == "." || path.starts_with("./")
}

#[test]
fn absolute_agrees_with_the_standard_library() {
    for path in samples(4) {
        assert_eq!(is_absolute(&path), Path::new(&path).is_absolute(), "{:?}", path);
    }
}

#[test]
fn join_agrees_with_the_standard_library() {
    let all = samples(3);
    for base in &all {
        for target in &all {
            let expected = Path::new(base).join(target);
            assert_eq!(join(base, target), expected.to_str().unwrap(), "{:?} {:?}", base, target);
        }
    }
}

#[test]
fn file_name_agrees_with_the_standard_library() {
    for path in samples(5) {
        if leads_with_dot(&path) {
            continue;
        }
        let expected = Path::new(&path).file_name().map(|n| n.to_str().unwrap().to_string());
        assert_eq!(file_name(&path), expected, "{:?}", path);
    }
}

#[test]
fn parent_agrees_with_the_standard_library() {
    for path in samples(5) {
        if leads_with_dot(&path) {
            continue;
        }
        let expected = Path::new(&path).parent().map(PathBuf::from);
        let found = parent(&path).map(PathBuf::from);
        assert_eq!(found, expected, "{:?}", path);
    }
}

#[test]
fn starts_with_agrees_with_the_standard_library() {
    let all = samples(3);
    for path in &all {
        for base in &all {
            if leads_with_dot(path) || leads_with_dot(base) {
                continue;
            }
            assert_eq!(
                starts_with(path, base),
                Path::new(path).starts_with(base),
                "{:?} {:?}",
                path,
                base
            );
            assert_eq!(
                same_path(path, base),
                Path::new(path) == Path::new(base),
                "{:?} {:?}",
                path,
                base
            );
        }
    }
}

#[test]
fn joined_relative_target_stays_below_the_base() {
    let all = samples(3);
    for base in &all {
        for target in &all {
            if !is_absolute(target) {
                assert!(starts_with(&join(base, target), base), "{:?} {:?}", base, target);
            }
        }
    }
}

#[test]
fn path_lies_below_its_parent() {
    for path in samples(5) {
        if let Some(dir) = parent(&path) {
            assert!(starts_with(&path, &dir), "{:?}", path);
            assert_eq!(is_absolute(&dir), is_absolute(&path), "{:?}", path);
        }
    }
}
