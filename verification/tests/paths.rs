use gitcache::path::{absolute, reorient, GitPath, Resolution};
use std::path::Path;

fn path(text: &str) -> GitPath {
    GitPath::new(
        Path::new(text).components().map(|c| c.as_os_str().to_string_lossy().into_owned()).collect(),
    )
}

fn names(path: &GitPath) -> Vec<&str> {
    path.parts.iter().map(|name| name.as_str()).collect()
}

const SAMPLES: [&str; 16] = [
    "",
    ".",
    "..",
    "/",
    "a",
    "a/b",
    "./a",
    "./a/b",
    "../c",
    "/repo",
    "/repo/",
    "/repo/a.txt",
    "/repo/dir/a.txt",
    "/repo2",
    "/repo/./dir//a.txt",
    "repo",
];

#[test]
fn components_are_kept_in_order() {
    assert_eq!(names(&path("/repo/a.txt")), vec!["/", "repo", "a.txt"]);
    assert_eq!(names(&path("a/b")), vec!["a", "b"]);
    assert_eq!(names(&path("./a")), vec![".", "a"]);
    assert_eq!(names(&path("")), Vec::<&str>::new());
    assert_eq!(path("/repo/a.txt").len(), 3);
    assert_eq!(names(&GitPath::single(".git")), vec![".git"]);
}

#[test]
fn starts_with_agrees_with_std() {
    for a in SAMPLES {
        for b in SAMPLES {
            let expected = Path::new(a).starts_with(Path::new(b));
            assert_eq!(path(a).starts_with(&path(b)), expected, "{:?} under {:?}", a, b);
        }
    }
}

#[test]
fn same_as_agrees_with_std() {
    for a in SAMPLES {
        for b in SAMPLES {
            let expected = Path::new(a) == Path::new(b);
            assert_eq!(path(a).same_as(&path(b)), expected, "{:?} and {:?}", a, b);
        }
    }
}

#[test]
fn strip_prefix_agrees_with_std() {
    for a in SAMPLES {
        for b in SAMPLES {
            let expected = Path::new(a).strip_prefix(Path::new(b)).ok().map(|rest| path(&rest.to_string_lossy()));
            let got = path(a).strip_prefix(&path(b));
            match (got, expected) {
                (Some(got), Some(expected)) => assert_eq!(got.parts, expected.parts, "{:?} below {:?}", a, b),
                (None, None) => {}
                _ => panic!("{:?} below {:?}", a, b),
            }
        }
    }
}

#[test]
fn join_agrees_with_std() {
    for a in SAMPLES {
        for b in SAMPLES {
            let expected = path(&Path::new(a).join(Path::new(b)).to_string_lossy());
            let got = path(a).join(&path(b));
            assert_eq!(got.parts, expected.parts, "{:?} joined with {:?}", a, b);
        }
    }
}

#[test]
fn is_absolute_agrees_with_std() {
    for a in SAMPLES {
        assert_eq!(path(a).is_absolute(), Path::new(a).is_absolute(), "{:?}", a);
    }
}

#[test]
fn a_prefix_ends_at_a_component() {
    assert!(path("/repo/a.txt").starts_with(&path("/repo")));
    assert!(path("/repo").starts_with(&path("/repo")));
    assert!(!path("/repo2").starts_with(&path("/repo")));
    assert!(!path("/repo2/a.txt").starts_with(&path("/repo")));
    assert!(!path("/rep").starts_with(&path("/repo")));
    assert!(path("/repo").starts_with(&path("")));
    assert!(!path("repo/a").starts_with(&path("/repo")));
}

#[test]
fn join_exact_values() {
    assert_eq!(names(&path("/repo").join(&path("a/b.txt"))), vec!["/", "repo", "a", "b.txt"]);
    assert_eq!(names(&path("/repo").join(&path("/etc/x"))), vec!["/", "etc", "x"]);
    assert_eq!(names(&path("/repo").join(&path("./a"))), vec!["/", "repo", "a"]);
    assert_eq!(names(&path("").join(&path("./a"))), vec![".", "a"]);
    assert_eq!(names(&path("/repo").join(&path(".git"))), vec!["/", "repo", ".git"]);
    assert_eq!(names(&path("/repo").join(&path("../x"))), vec!["/", "repo", "..", "x"]);
}

#[test]
fn strip_prefix_exact_values() {
    let rest = path("/repo/vendor/lib/x.rs").strip_prefix(&path("/repo")).unwrap();
    assert_eq!(names(&rest), vec!["vendor", "lib", "x.rs"]);
    let all = path("/repo").strip_prefix(&path("/repo")).unwrap();
    assert_eq!(all.len(), 0);
    assert!(path("/repo2/x").strip_prefix(&path("/repo")).is_none());
    assert!(path("/").strip_prefix(&path("/repo")).is_none());
}

#[test]
fn clone_keeps_the_components() {
    let one = path("/repo/a.txt");
    let two = one.clone();
    assert_eq!(one.parts, two.parts);
    assert!(one.same_as(&two));
}

#[test]
fn absolute_goes_under_the_current_directory() {
    let cwd = Some(path("/home/user"));
    assert_eq!(names(&absolute(&path("src/x.rs"), &cwd)), vec!["/", "home", "user", "src", "x.rs"]);
    assert_eq!(names(&absolute(&path("./x.rs"), &cwd)), vec!["/", "home", "user", "x.rs"]);
    assert_eq!(names(&absolute(&path("/repo/x.rs"), &cwd)), vec!["/", "repo", "x.rs"]);
}

#[test]
fn absolute_without_current_directory_goes_under_dot() {
    assert_eq!(names(&absolute(&path("src/x.rs"), &None)), vec![".", "src", "x.rs"]);
    assert_eq!(names(&absolute(&path("./x.rs"), &None)), vec![".", "x.rs"]);
    assert_eq!(names(&absolute(&path("/repo/x.rs"), &None)), vec!["/", "repo", "x.rs"]);
}

#[test]
fn reorient_prefers_the_canonical_form() {
    let fs = Resolution { cwd: Some(path("/home/user")), canonical: Some(path("/data/real/x.rs")) };
    assert_eq!(names(&reorient(&path("link/x.rs"), &fs)), vec!["/", "data", "real", "x.rs"]);
}

#[test]
fn reorient_falls_back_to_the_joined_path() {
    let fs = Resolution { cwd: Some(path("/home/user")), canonical: None };
    assert_eq!(
        names(&reorient(&path("gone/../x.rs"), &fs)),
        vec!["/", "home", "user", "gone", "..", "x.rs"]
    );
    let lost = Resolution { cwd: None, canonical: None };
    assert_eq!(names(&reorient(&path("x.rs"), &lost)), vec![".", "x.rs"]);
    assert_eq!(names(&reorient(&path("/repo/x.rs"), &lost)), vec!["/", "repo", "x.rs"]);
}
