use node_resolve::resolve;
use node_resolve::resolve_from;
use node_resolve::Error;
use node_resolve::Fs;
use node_resolve::IoErrorKind;
use node_resolve::ResolutionError;
use node_resolve::Resolver;

fn fixture(part: &str) -> String {
    if part.is_empty() {
        "/fixtures".to_string()
    } else {
        format!("/fixtures/{}", part)
    }
}

fn add_dir(fs: &mut Fs, part: &str) {
    fs.add_dir(fixture(part));
}

fn add_file(fs: &mut Fs, part: &str) {
    fs.add_file(fixture(part), Vec::new());
}

fn add_manifest(fs: &mut Fs, part: &str, json: &str) {
    fs.add_file(fixture(part), json.as_bytes().to_vec());
}

/// The in-memory copy of the fixture tree the resolution tests run against.
fn fixture_fs() -> Fs {
    let mut fs = Fs::new();
    fs.add_dir("/".to_string());
    add_dir(&mut fs, "");

    add_dir(&mut fs, "extensions");
    add_file(&mut fs, "extensions/js-file.js");
    add_file(&mut fs, "extensions/json-file.json");
    add_file(&mut fs, "extensions/native-file.node");
    add_file(&mut fs, "extensions/other-file.ext");
    add_file(&mut fs, "extensions/no-ext");
    add_file(&mut fs, "extensions/module.mjs");
    add_file(&mut fs, "extensions/both.js");
    add_file(&mut fs, "extensions/both.json");

    add_dir(&mut fs, "package-json");
    add_dir(&mut fs, "package-json/main-file");
    add_manifest(&mut fs, "package-json/main-file/package.json", r#"{"main": "whatever.js"}"#);
    add_file(&mut fs, "package-json/main-file/whatever.js");
    add_file(&mut fs, "package-json/main-file/index.js");
    add_dir(&mut fs, "package-json/main-file-noext");
    add_manifest(&mut fs, "package-json/main-file-noext/package.json", r#"{"main": "whatever"}"#);
    add_file(&mut fs, "package-json/main-file-noext/whatever.js");
    add_dir(&mut fs, "package-json/main-dir");
    add_manifest(&mut fs, "package-json/main-dir/package.json", r#"{"main": "subdir"}"#);
    add_dir(&mut fs, "package-json/main-dir/subdir");
    add_file(&mut fs, "package-json/main-dir/subdir/index.js");
    add_dir(&mut fs, "package-json/not-object");
    add_manifest(&mut fs, "package-json/not-object/package.json", r#"[1, 2, 3]"#);
    add_file(&mut fs, "package-json/not-object/index.js");
    add_dir(&mut fs, "package-json/invalid");
    add_manifest(&mut fs, "package-json/invalid/package.json", r#"{"main": "#);
    add_file(&mut fs, "package-json/invalid/index.js");
    add_dir(&mut fs, "package-json/main-none");
    add_manifest(&mut fs, "package-json/main-none/package.json", r#"{"name": "main-none"}"#);
    add_file(&mut fs, "package-json/main-none/index.js");
    add_dir(&mut fs, "package-json/module");
    add_manifest(
        &mut fs,
        "package-json/module/package.json",
        r#"{"module": "index.mjs", "main": "index.js"}"#,
    );
    add_file(&mut fs, "package-json/module/index.mjs");
    add_file(&mut fs, "package-json/module/index.js");
    add_dir(&mut fs, "package-json/module-main");
    add_manifest(
        &mut fs,
        "package-json/module-main/package.json",
        r#"{"module": "main.mjs", "main": "main.js"}"#,
    );
    add_file(&mut fs, "package-json/module-main/main.mjs");
    add_file(&mut fs, "package-json/module-main/main.js");

    add_dir(&mut fs, "node-modules");
    add_dir(&mut fs, "node-modules/same-dir");
    add_dir(&mut fs, "node-modules/same-dir/node_modules");
    add_file(&mut fs, "node-modules/same-dir/node_modules/a.js");
    add_dir(&mut fs, "node-modules/parent-dir");
    add_dir(&mut fs, "node-modules/parent-dir/src");
    add_dir(&mut fs, "node-modules/parent-dir/node_modules");
    add_dir(&mut fs, "node-modules/parent-dir/node_modules/a");
    add_file(&mut fs, "node-modules/parent-dir/node_modules/a/index.js");
    add_dir(&mut fs, "node-modules/package-json");
    add_dir(&mut fs, "node-modules/package-json/node_modules");
    add_dir(&mut fs, "node-modules/package-json/node_modules/dep");
    add_manifest(
        &mut fs,
        "node-modules/package-json/node_modules/dep/package.json",
        r#"{"main": "lib"}"#,
    );
    add_dir(&mut fs, "node-modules/package-json/node_modules/dep/lib");
    add_file(&mut fs, "node-modules/package-json/node_modules/dep/lib/index.js");
    add_dir(&mut fs, "node-modules/walk");
    add_dir(&mut fs, "node-modules/walk/src");
    add_dir(&mut fs, "node-modules/walk/src/node_modules");
    add_dir(&mut fs, "node-modules/walk/src/node_modules/not-ok");
    add_file(&mut fs, "node-modules/walk/src/node_modules/not-ok/index.js");
    add_dir(&mut fs, "node-modules/walk/node_modules");
    add_dir(&mut fs, "node-modules/walk/node_modules/ok");
    add_file(&mut fs, "node-modules/walk/node_modules/ok/index.js");
    add_dir(&mut fs, "node-modules/walk/node_modules/not-ok");
    add_file(&mut fs, "node-modules/walk/node_modules/not-ok/index.js");

    // `dep` under symlink/node_modules is a link to symlink/linked: the files
    // are reachable through the link but canonicalize to the linked location.
    add_dir(&mut fs, "symlink");
    add_dir(&mut fs, "symlink/node_modules");
    add_dir(&mut fs, "symlink/node_modules/dep");
    fs.add_file_entry(
        fixture("symlink/node_modules/dep/main.js"),
        Vec::new(),
        Some(fixture("symlink/linked/main.js")),
    );
    fs.add_file_entry(
        fixture("symlink/node_modules/dep/package.json"),
        br#"{"main": "main.js"}"#.to_vec(),
        Some(fixture("symlink/linked/package.json")),
    );
    add_dir(&mut fs, "symlink/linked");
    add_file(&mut fs, "symlink/linked/main.js");
    add_manifest(&mut fs, "symlink/linked/package.json", r#"{"main": "main.js"}"#);

    fs
}

fn resolve_fixture(fs: &Fs, target: &str) -> String {
    resolve_from(target, fixture(""), fs).unwrap()
}

#[test]
fn appends_extensions() {
    let fs = fixture_fs();
    assert_eq!(fixture("extensions/js-file.js"), resolve_fixture(&fs, "./extensions/js-file"));
    assert_eq!(
        fixture("extensions/json-file.json"),
        resolve_fixture(&fs, "./extensions/json-file")
    );
    assert_eq!(
        fixture("extensions/native-file.node"),
        resolve_fixture(&fs, "./extensions/native-file")
    );
    assert_eq!(
        fixture("extensions/other-file.ext"),
        resolve_fixture(&fs, "./extensions/other-file.ext")
    );
    assert_eq!(fixture("extensions/no-ext"), resolve_fixture(&fs, "./extensions/no-ext"));
    assert_eq!(
        fixture("extensions/other-file.ext"),
        Resolver::default()
            .extensions(vec![".ext".to_string()])
            .with_basedir(fixture(""))
            .resolve("./extensions/other-file", &fs)
            .unwrap()
    );
    assert_eq!(
        fixture("extensions/module.mjs"),
        Resolver::default()
            .extensions(vec![".mjs".to_string()])
            .with_basedir(fixture(""))
            .resolve("./extensions/module", &fs)
            .unwrap()
    );
}

#[test]
fn resolves_package_json() {
    let fs = fixture_fs();
    assert_eq!(
        fixture("package-json/main-file/whatever.js"),
        resolve_fixture(&fs, "./package-json/main-file")
    );
    assert_eq!(
        fixture("package-json/main-file-noext/whatever.js"),
        resolve_fixture(&fs, "./package-json/main-file-noext")
    );
    assert_eq!(
        fixture("package-json/main-dir/subdir/index.js"),
        resolve_fixture(&fs, "./package-json/main-dir")
    );
    assert_eq!(
        fixture("package-json/not-object/index.js"),
        resolve_fixture(&fs, "./package-json/not-object")
    );
    assert_eq!(
        fixture("package-json/invalid/index.js"),
        resolve_fixture(&fs, "./package-json/invalid")
    );
    assert_eq!(
        fixture("package-json/main-none/index.js"),
        resolve_fixture(&fs, "./package-json/main-none")
    );
    assert_eq!(
        fixture("package-json/main-file/whatever.js"),
        Resolver::default()
            .main_fields(vec!["module".to_string(), "main".to_string()])
            .with_basedir(fixture(""))
            .resolve("./package-json/main-file", &fs)
            .unwrap()
    );
    assert_eq!(
        fixture("package-json/module/index.mjs"),
        Resolver::default()
            .extensions(vec![".mjs".to_string(), ".js".to_string()])
            .main_fields(vec!["module".to_string(), "main".to_string()])
            .with_basedir(fixture(""))
            .resolve("./package-json/module", &fs)
            .unwrap()
    );
    assert_eq!(
        fixture("package-json/module-main/main.mjs"),
        Resolver::default()
            .extensions(vec![".mjs".to_string(), ".js".to_string()])
            .main_fields(vec!["module".to_string(), "main".to_string()])
            .with_basedir(fixture(""))
            .resolve("./package-json/module-main", &fs)
            .unwrap()
    );
}

#[test]
fn resolves_node_modules() {
    let fs = fixture_fs();
    assert_eq!(
        fixture("node-modules/same-dir/node_modules/a.js"),
        resolve_from("a", fixture("node-modules/same-dir"), &fs).unwrap()
    );
    assert_eq!(
        fixture("node-modules/parent-dir/node_modules/a/index.js"),
        resolve_from("a", fixture("node-modules/parent-dir/src"), &fs).unwrap()
    );
    assert_eq!(
        fixture("node-modules/package-json/node_modules/dep/lib/index.js"),
        resolve_from("dep", fixture("node-modules/package-json"), &fs).unwrap()
    );
    assert_eq!(
        fixture("node-modules/walk/src/node_modules/not-ok/index.js"),
        resolve_from("not-ok", fixture("node-modules/walk/src"), &fs).unwrap()
    );
    assert_eq!(
        fixture("node-modules/walk/node_modules/ok/index.js"),
        resolve_from("ok", fixture("node-modules/walk/src"), &fs).unwrap()
    );
}

#[test]
fn preserves_symlinks() {
    let fs = fixture_fs();
    assert_eq!(
        fixture("symlink/node_modules/dep/main.js"),
        Resolver::default()
            .preserve_symlinks(true)
            .with_basedir(fixture("symlink"))
            .resolve("dep", &fs)
            .unwrap()
    );
}

#[test]
fn does_not_preserve_symlinks() {
    let fs = fixture_fs();
    assert_eq!(
        fixture("symlink/linked/main.js"),
        Resolver::default()
            .preserve_symlinks(false)
            .with_basedir(fixture("symlink"))
            .resolve("dep", &fs)
            .unwrap()
    );
}

#[test]
fn resolves_absolute_specifier() {
    let fs = fixture_fs();
    let full_path = fixture("extensions/js-file");
    assert_eq!(fixture("extensions/js-file.js"), resolve(&full_path, &fs).unwrap());
}

#[test]
fn core_modules() {
    assert!(node_resolve::is_core_module("events"));
    assert!(!node_resolve::is_core_module("events/"));
    assert!(!node_resolve::is_core_module("./events"));
    assert!(node_resolve::is_core_module("stream"));
    assert!(!node_resolve::is_core_module("acorn"));
}

#[test]
fn core_name_resolves_to_itself() {
    let fs = Fs::new();
    assert_eq!("events", resolve_from("events", "/anywhere".to_string(), &fs).unwrap());
    assert_eq!("fs", Resolver::default().resolve("fs", &fs).unwrap());
}

#[test]
fn extension_priority_flips_with_the_list() {
    let fs = fixture_fs();
    assert_eq!(fixture("extensions/both.js"), resolve_fixture(&fs, "./extensions/both"));
    assert_eq!(
        fixture("extensions/both.json"),
        Resolver::default()
            .extensions(vec![".json".to_string(), ".js".to_string()])
            .with_basedir(fixture(""))
            .resolve("./extensions/both", &fs)
            .unwrap()
    );
}

#[test]
fn extensions_gain_a_missing_dot() {
    let fs = fixture_fs();
    assert_eq!(
        fixture("extensions/other-file.ext"),
        Resolver::default()
            .extensions(vec!["ext".to_string()])
            .with_basedir(fixture(""))
            .resolve("./extensions/other-file", &fs)
            .unwrap()
    );
}

#[test]
fn manifest_beats_index_file() {
    // main-file holds both a manifest naming whatever.js and an index.js.
    let fs = fixture_fs();
    assert_eq!(
        fixture("package-json/main-file/whatever.js"),
        resolve_fixture(&fs, "./package-json/main-file")
    );
}

#[test]
fn walk_prefers_the_nearest_ancestor() {
    // not-ok is installed both at walk/src and at walk: the nearer one wins.
    let fs = fixture_fs();
    assert_eq!(
        fixture("node-modules/walk/src/node_modules/not-ok/index.js"),
        resolve_from("not-ok", fixture("node-modules/walk/src"), &fs).unwrap()
    );
}

#[test]
fn walk_exhaustion_is_not_found() {
    let mut fs = Fs::new();
    fs.add_dir("/".to_string());
    fs.add_dir("/deep".to_string());
    fs.add_dir("/deep/er".to_string());
    fs.add_dir("/deep/er/est".to_string());
    let r = resolve_from("missing", "/deep/er/est".to_string(), &fs);
    assert!(matches!(r, Err(Error::IOError(IoErrorKind::NotFound))));
}

#[test]
fn relative_miss_is_not_found() {
    let fs = fixture_fs();
    let r = resolve_from("./extensions/unheard-of", fixture(""), &fs);
    assert!(matches!(r, Err(Error::IOError(IoErrorKind::NotFound))));
}

#[test]
fn missing_basedir_is_reported() {
    let fs = fixture_fs();
    let relative = Resolver::default().resolve("./extensions/js-file", &fs);
    assert!(matches!(relative, Err(Error::UnconfiguredBasedir)));
    let bare = Resolver::default().resolve("a", &fs);
    assert!(matches!(bare, Err(Error::UnconfiguredBasedir)));
}

#[test]
fn uncanonicalizable_result_is_an_error() {
    let mut fs = Fs::new();
    fs.add_dir("/".to_string());
    fs.add_dir("/fx".to_string());
    fs.add_file_entry("/fx/ghost.js".to_string(), Vec::new(), None);
    let r = resolve_from("./ghost", "/fx".to_string(), &fs);
    assert!(matches!(r, Err(Error::IOError(IoErrorKind::Other))));
}

#[test]
fn resolution_is_idempotent() {
    let fs = fixture_fs();
    let first = resolve_from("./package-json/main-dir", fixture(""), &fs).unwrap();
    let second = resolve_from("./package-json/main-dir", fixture(""), &fs).unwrap();
    assert_eq!(first, second);
}

#[test]
fn absolute_specifier_ignores_basedir() {
    let fs = fixture_fs();
    let full_path = fixture("extensions/js-file");
    let from_one = resolve_from(&full_path, "/somewhere".to_string(), &fs).unwrap();
    let from_other = resolve_from(&full_path, fixture("symlink"), &fs).unwrap();
    assert_eq!(from_one, from_other);
    assert_eq!(fixture("extensions/js-file.js"), from_one);
}

#[test]
fn normalize_path_drops_excess_components() {
    assert_eq!("/a/c", node_resolve::normalize_path("/a/./b/../c"));
    assert_eq!("/a/b", node_resolve::normalize_path("a//b/"));
    assert_eq!("/x", node_resolve::normalize_path("/../x"));
    assert_eq!("/", node_resolve::normalize_path("/.."));
    assert_eq!("/", node_resolve::normalize_path(""));
}

#[test]
fn resolves_relative_to_the_working_directory_marker() {
    let mut fs = Fs::new();
    fs.add_dir("/".to_string());
    fs.add_file("/lib.js".to_string(), Vec::new());
    assert_eq!("/lib.js", resolve("./lib", &fs).unwrap());
}

#[test]
fn manifest_may_point_at_a_directory_with_its_own_manifest() {
    let mut fs = Fs::new();
    fs.add_dir("/".to_string());
    fs.add_dir("/fx".to_string());
    fs.add_dir("/fx/outer".to_string());
    fs.add_file("/fx/outer/package.json".to_string(), br#"{"main": "inner"}"#.to_vec());
    fs.add_dir("/fx/outer/inner".to_string());
    fs.add_file("/fx/outer/inner/package.json".to_string(), br#"{"main": "entry.js"}"#.to_vec());
    fs.add_file("/fx/outer/inner/entry.js".to_string(), Vec::new());
    assert_eq!(
        "/fx/outer/inner/entry.js",
        resolve_from("./outer", "/fx".to_string(), &fs).unwrap()
    );
}

#[test]
fn bare_specifier_may_name_a_subpath() {
    let mut fs = Fs::new();
    fs.add_dir("/".to_string());
    fs.add_dir("/fx".to_string());
    fs.add_dir("/fx/node_modules".to_string());
    fs.add_dir("/fx/node_modules/dep".to_string());
    fs.add_dir("/fx/node_modules/dep/lib".to_string());
    fs.add_file("/fx/node_modules/dep/lib/file.js".to_string(), Vec::new());
    assert_eq!(
        "/fx/node_modules/dep/lib/file.js",
        resolve_from("dep/lib/file", "/fx".to_string(), &fs).unwrap()
    );
}

#[test]
fn parent_relative_specifier_climbs_out_of_the_basedir() {
    let mut fs = Fs::new();
    fs.add_dir("/".to_string());
    fs.add_dir("/fx".to_string());
    fs.add_dir("/fx/sub".to_string());
    fs.add_file("/fx/sibling.js".to_string(), Vec::new());
    assert_eq!("/fx/sibling.js", resolve_from("../sibling", "/fx/sub".to_string(), &fs).unwrap());
}

#[test]
fn resolution_error_carries_its_description() {
    let e = ResolutionError::new("no such module");
    assert_eq!("no such module", e.message());
}
