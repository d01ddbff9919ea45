use std::io::Write;
use str_bundler::bundler::{resolve_local_against, ImportedFile, Imports};

fn make_file(dir: &std::path::Path, name: &str, content: &str) -> tempfile::NamedTempFile {
    let dot = name.rfind('.').unwrap();
    let mut f = tempfile::Builder::new()
        .prefix(&name[..dot])
        .suffix(&name[dot..])
        .rand_bytes(0)
        .tempfile_in(dir)
        .unwrap();
    f.write_all(content.as_bytes()).unwrap();
    f
}

fn make_dir(dir: &std::path::Path, name: &str) -> tempfile::TempDir {
    tempfile::Builder::new().prefix(name).rand_bytes(0).tempdir_in(dir).unwrap()
}

fn path_str(dir: &std::path::Path, name: &str) -> String {
    format!("{}/{}", dir.to_str().unwrap(), name)
}

#[test]
fn extension_preference_prefers_ts_over_tsx() {
    let dir = tempfile::TempDir::new().unwrap();
    let _a = make_file(dir.path(), "foo.ts", "export const a = 1;");
    let _b = make_file(dir.path(), "foo.tsx", "export const a = 2;");
    let entry = path_str(dir.path(), "index.test.ts");
    let imports = Imports::new(&entry).unwrap();
    let got = imports.resolve_local_import("./foo").unwrap();
    assert_eq!(got, path_str(dir.path(), "foo.ts"));
}

#[test]
fn tsx_found_when_no_ts_exists() {
    let dir = tempfile::TempDir::new().unwrap();
    let _b = make_file(dir.path(), "foo.tsx", "export const a = 2;");
    let entry = path_str(dir.path(), "index.test.ts");
    let imports = Imports::new(&entry).unwrap();
    let got = imports.resolve_local_import("./foo").unwrap();
    assert_eq!(got, path_str(dir.path(), "foo.tsx"));
}

#[test]
fn index_fallback_resolves_directory_imports() {
    let dir = tempfile::TempDir::new().unwrap();
    let sub = make_dir(dir.path(), "subdir");
    let _i = make_file(sub.path(), "index.ts", "export const a = 3;");
    let entry = path_str(dir.path(), "index.test.ts");
    let imports = Imports::new(&entry).unwrap();
    let got = imports.resolve_local_import("./subdir").unwrap();
    assert_eq!(got, path_str(dir.path(), "subdir/index.ts"));
}

#[test]
fn file_beats_index_of_same_name() {
    let dir = tempfile::TempDir::new().unwrap();
    let _f = make_file(dir.path(), "foo.ts", "export const a = 1;");
    let sub = make_dir(dir.path(), "foo");
    let _i = make_file(sub.path(), "index.ts", "export const a = 3;");
    let entry = path_str(dir.path(), "index.test.ts");
    let imports = Imports::new(&entry).unwrap();
    let got = imports.resolve_local_import("./foo").unwrap();
    assert_eq!(got, path_str(dir.path(), "foo.ts"));
}

#[test]
fn resolution_resolves_dot_segments_in_specifiers() {
    let dir = tempfile::TempDir::new().unwrap();
    let sub = make_dir(dir.path(), "subdir");
    let _f = make_file(sub.path(), "foo.ts", "export const a = 1;");
    let entry = path_str(dir.path(), "index.test.ts");
    let imports = Imports::new(&entry).unwrap();
    let got = imports.resolve_local_import("./subdir/./other/../foo").unwrap();
    assert_eq!(got, path_str(dir.path(), "subdir/foo.ts"));
}

#[test]
fn missing_local_import_reports_specifier_and_importer() {
    let dir = tempfile::TempDir::new().unwrap();
    let entry = path_str(dir.path(), "index.test.ts");
    let imports = Imports::new(&entry).unwrap();
    let failure = imports.resolve_local_import("./missing").unwrap_err();
    assert_eq!(failure.specifier, "./missing");
    assert_eq!(failure.importer, entry);
}

#[test]
fn resolution_is_idempotent_for_unchanged_disk() {
    let dir = tempfile::TempDir::new().unwrap();
    let _a = make_file(dir.path(), "foo.ts", "export const a = 1;");
    let entry = path_str(dir.path(), "index.test.ts");
    let imports = Imports::new(&entry).unwrap();
    let first = imports.resolve_local_import("./foo").unwrap();
    let second = imports.resolve_local_import("./foo").unwrap();
    assert_eq!(first, second);
}

#[test]
fn non_local_specifiers_are_passed_through() {
    let entry = "src/index.test.ts";
    let imports = Imports::new(entry).unwrap();
    assert!(matches!(imports.resolve_import("react"), ImportedFile::NonLocalFile));
    assert!(matches!(imports.resolve_import("str"), ImportedFile::NonLocalFile));
    assert!(matches!(imports.resolve_import("../up.ts"), ImportedFile::NonLocalFile));
    assert!(matches!(imports.resolve_import("/abs.ts"), ImportedFile::NonLocalFile));
    assert!(matches!(imports.resolve_import(""), ImportedFile::NonLocalFile));
    assert!(matches!(imports.resolve_import("./x"), ImportedFile::LocalFile(_)));
}

#[test]
fn resolve_local_against_picks_first_existing_candidate() {
    let ok = |hits: [bool; 4]| {
        resolve_local_against("a/b", "./x", "a/b/c.ts", &hits.to_vec())
    };
    assert_eq!(ok([true, true, true, true]).unwrap(), "a/b/x.ts");
    assert_eq!(ok([false, true, true, true]).unwrap(), "a/b/x/index.ts");
    assert_eq!(ok([false, false, true, true]).unwrap(), "a/b/x.tsx");
    assert_eq!(ok([false, false, false, true]).unwrap(), "a/b/x/index.tsx");
    let failure = ok([false, false, false, false]).unwrap_err();
    assert_eq!(failure.specifier, "./x");
    assert_eq!(failure.importer, "a/b/c.ts");
}

#[test]
fn queue_hands_back_most_recently_pushed_first() {
    let mut imports = Imports::new("index.test.ts").unwrap();
    imports.push(Ok("a.ts".to_string()));
    imports.push(Ok("b.ts".to_string()));
    assert_eq!(imports.pop().unwrap(), Some("b.ts".to_string()));
    assert_eq!(imports.pop().unwrap(), Some("a.ts".to_string()));
    assert_eq!(imports.pop().unwrap(), None);
}

#[test]
fn queued_failure_aborts_when_dequeued() {
    let mut imports = Imports::new("index.test.ts").unwrap();
    let failure = imports.resolve_local_import("./missing").unwrap_err();
    imports.push(Err(str_bundler::errors::BundleError::Resolution {
        specifier: failure.specifier,
        importer: failure.importer,
        line: 1,
        col: 1,
    }));
    imports.push(Ok("a.ts".to_string()));
    assert_eq!(imports.pop().unwrap(), Some("a.ts".to_string()));
    let err = imports.pop().unwrap_err();
    assert!(err.message().contains("./missing"));
}

#[test]
fn current_dir_is_the_importing_files_directory() {
    let imports = Imports::new("a/b/c.ts").unwrap();
    assert_eq!(imports.current_dir().unwrap(), "a/b");
    let imports = Imports::new("c.ts").unwrap();
    assert_eq!(imports.current_dir().unwrap(), "");
    let imports = Imports::new("").unwrap();
    assert!(imports.current_dir().is_err());
    let imports = Imports::new("/").unwrap();
    assert!(imports.current_dir().is_err());
}

#[test]
fn output_file_rebases_and_swaps_extension() {
    assert_eq!(Imports::get_output_file("out", "src/index.test.ts"), "out/src/index.test.mjs");
    assert_eq!(Imports::get_output_file("out", "foo.tsx"), "out/foo.mjs");
    assert_eq!(Imports::get_output_file("out", "a/b/noext"), "out/a/b/noext.mjs");
}

#[test]
fn output_files_of_one_directory_share_one_output_directory() {
    let entry_out = Imports::get_output_file("out", "a/b/c.ts");
    let dep_out = Imports::get_output_file("out", "a/b/d.ts");
    assert_eq!(entry_out, "out/a/b/c.mjs");
    assert_eq!(dep_out, "out/a/b/d.mjs");
    assert_eq!(
        str_bundler::paths::dirname(&entry_out),
        str_bundler::paths::dirname(&dep_out),
    );
}
