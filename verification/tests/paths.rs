use lexiclean::Lexiclean;
use str_bundler::paths::{dirname, join, normalize, replace_extension};

#[test]
fn join_basic() {
    assert_eq!(join("a/b", "c.ts").as_str(), "a/b/c.ts");
    assert_eq!(join("", "c.ts").as_str(), "c.ts");
    assert_eq!(join("a/", "c.ts").as_str(), "a/c.ts");
    assert_eq!(join("a", "/abs.ts").as_str(), "/abs.ts");
}

#[test]
fn dirname_basic() {
    assert_eq!(dirname("a/b/c.ts").as_str(), "a/b");
    assert_eq!(dirname("c.ts").as_str(), "");
    assert_eq!(dirname("/c.ts").as_str(), "/");
}

#[test]
fn normalize_basic() {
    assert_eq!(normalize("a/./b/../c.ts").as_str(), "a/c.ts");
    assert_eq!(normalize("./foo.ts").as_str(), "foo.ts");
    assert_eq!(normalize("../x.ts").as_str(), "../x.ts");
    assert_eq!(normalize("/a/../../b").as_str(), "/b");
    assert_eq!(normalize("a//b/").as_str(), "a/b");
}

#[test]
fn replace_extension_basic() {
    assert_eq!(replace_extension("a/b/c.ts", "mjs").as_str(), "a/b/c.mjs");
    assert_eq!(replace_extension("a/b/c.test.tsx", "mjs").as_str(), "a/b/c.test.mjs");
    assert_eq!(replace_extension("a/b/c", "mjs").as_str(), "a/b/c.mjs");
    assert_eq!(replace_extension("a/..", "mjs").as_str(), "a/..");
}

#[test]
fn normalize_agrees_with_lexical_cleaning() {
    let cases = [
        "a/./b/../c.ts",
        "./foo.ts",
        "../x.ts",
        "/a/../../b",
        "a/b/c/../../d",
        "./a/./././b",
        "a/..",
        ".",
        "/",
        "a//b",
        "../../up",
        "a/b/../..",
        "/./a",
        "a/.../b",
        "..a/b",
        "a/b/..",
        "./..",
        "//",
        "/../..",
        "x/",
        "/x/./../y.ts",
    ];
    for case in cases {
        let theirs = std::path::Path::new(case).lexiclean();
        assert_eq!(
            normalize(case).as_str(),
            theirs.to_str().unwrap(),
            "differs on {:?}",
            case
        );
    }
}

#[test]
fn normalize_keeps_leading_parent_segments() {
    assert_eq!(normalize("../../a/b.ts").as_str(), "../../a/b.ts");
    assert_eq!(normalize("a/../../b.ts").as_str(), "../b.ts");
    assert_eq!(normalize("/..").as_str(), "/");
    assert_eq!(normalize("..").as_str(), "..");
    assert_eq!(normalize("a/..").as_str(), ".");
    assert_eq!(normalize("").as_str(), ".");
}

#[test]
fn replace_extension_ignores_dots_in_directories() {
    assert_eq!(replace_extension("a.dir/c", "mjs").as_str(), "a.dir/c.mjs");
    assert_eq!(replace_extension(".rc", "mjs").as_str(), ".rc.mjs");
}
