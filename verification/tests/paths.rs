use herdr_mirror::paths::{join_path, paths_equal};
use std::path::Path;

#[test]
fn joins_are_those_of_paths() {
    for base in ["", "/", "/a", "/a/", "a", "a//", "."] {
        for part in ["", "b", "/b", "b/c", ".b", "../b"] {
            let want = Path::new(base).join(part);
            assert_eq!(join_path(base, part), want.to_str().unwrap(), "{base:?} {part:?}");
        }
    }
}

#[test]
fn equality_is_that_of_paths() {
    let paths = [
        "", "/", "//", ".", "./", "./a", "a", "a/", "a//b", "a/b", "a/./b", "a/../b", "/a", "/./a",
        "..", "a/.", "/a/b/", ".a", "a.", "...",
    ];
    for a in paths {
        for b in paths {
            assert_eq!(paths_equal(a, b), Path::new(a) == Path::new(b), "{a:?} {b:?}");
        }
    }
}
