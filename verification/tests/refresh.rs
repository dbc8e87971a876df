use cargo_single::manifest::refresh_manifest;
use cargo_single::manifest::rewrite_manifest;
use cargo_single::metadata::extract_metadata;

fn lines(xs: &[&str]) -> Vec<Vec<u8>> {
    let mut v: Vec<Vec<u8>> = Vec::new();
    for x in xs {
        v.push(x.as_bytes().to_vec());
    }
    v
}

#[test]
fn extract_empty_file() {
    let m = extract_metadata(&lines(&[]));
    assert_eq!(m.deps, lines(&[]));
    assert_eq!(m.self_version, None);
}

#[test]
fn extract_no_comment_block() {
    let m = extract_metadata(&lines(&["fn main() {}", "// foo = \"1.0\""]));
    assert_eq!(m.deps, lines(&[]));
    assert_eq!(m.self_version, None);
}

#[test]
fn extract_block_stops_at_blank_line() {
    let m = extract_metadata(&lines(&["// a = \"1\"", "", "// b = \"2\""]));
    assert_eq!(m.deps, lines(&["a = \"1\""]));
    assert_eq!(m.self_version, None);
}

#[test]
fn extract_deps_and_self_version() {
    let m = extract_metadata(&lines(&[
        "// foo = \"1.0\"",
        "// self = \"2.0\"",
        "// bar = { version = \"3\" }",
        "fn main() {}",
    ]));
    assert_eq!(m.deps, lines(&["foo = \"1.0\"", "bar = { version = \"3\" }"]));
    assert_eq!(m.self_version, Some(b"\"2.0\"".to_vec()));
}

#[test]
fn extract_last_self_version_wins() {
    let m = extract_metadata(&lines(&["// self = \"1.0\"", "// self = \"2.0\"", "x"]));
    assert_eq!(m.deps, lines(&[]));
    assert_eq!(m.self_version, Some(b"\"2.0\"".to_vec()));
}

#[test]
fn rewrite_replaces_version_and_truncates_after_header() {
    let manifest = lines(&[
        "[package]",
        "name = \"a\"",
        "version = \"0.0.0\"",
        "edition = \"2021\"",
        "",
        "[dependencies]",
        "old = \"9\"",
        "trailing content",
    ]);
    let deps = lines(&["foo = \"1.0\""]);
    let out = rewrite_manifest(&manifest, &deps, &Some(b"\"2.0\"".to_vec()));
    assert_eq!(
        out,
        lines(&[
            "[package]",
            "name = \"a\"",
            "version = \"2.0\"",
            "edition = \"2021\"",
            "",
            "[dependencies]",
            "foo = \"1.0\"",
        ])
    );
}

#[test]
fn rewrite_drops_version_line_without_override() {
    let manifest = lines(&["[package]", "version = \"0.0.0\"", "[dependencies]"]);
    let out = rewrite_manifest(&manifest, &lines(&["foo = \"1.0\""]), &None);
    assert_eq!(out, lines(&["[package]", "[dependencies]", "foo = \"1.0\""]));
}

#[test]
fn rewrite_without_header_copies_to_the_end() {
    let manifest = lines(&["[package]", "name = \"a\""]);
    let out = rewrite_manifest(&manifest, &lines(&["foo = \"1.0\""]), &None);
    assert_eq!(out, lines(&["[package]", "name = \"a\""]));
}

#[test]
fn rewrite_empty_deps_keeps_header() {
    let manifest = lines(&["[dependencies]", "old = \"9\""]);
    let out = rewrite_manifest(&manifest, &lines(&[]), &None);
    assert_eq!(out, lines(&["[dependencies]"]));
}

#[test]
fn refresh_with_self_version() {
    let src = lines(&["// foo = \"1.0\"", "// self = \"2.0\"", "fn main() {}"]);
    let manifest = lines(&[
        "[package]",
        "version = \"0.0.0\"",
        "[dependencies]",
        "unrelated trailing content",
    ]);
    let out = refresh_manifest(&src, &manifest);
    assert_eq!(
        out,
        lines(&["[package]", "version = \"2.0\"", "[dependencies]", "foo = \"1.0\""])
    );
}

#[test]
fn refresh_without_self_version() {
    let src = lines(&["// foo = \"1.0\"", "fn main() {}"]);
    let manifest = lines(&[
        "[package]",
        "version = \"0.0.0\"",
        "[dependencies]",
        "unrelated trailing content",
    ]);
    let out = refresh_manifest(&src, &manifest);
    assert_eq!(out, lines(&["[package]", "[dependencies]", "foo = \"1.0\""]));
}

#[test]
fn refresh_twice_is_idempotent() {
    let src = lines(&["// foo = \"1.0\"", "// self = \"2.0\"", "fn main() {}"]);
    let manifest = lines(&[
        "[package]",
        "name = \"a\"",
        "version = \"0.0.0\"",
        "[dependencies]",
        "old = \"9\"",
    ]);
    let once = refresh_manifest(&src, &manifest);
    let twice = refresh_manifest(&src, &once);
    assert_eq!(once, twice);
}

#[test]
fn refresh_twice_is_idempotent_without_override() {
    let src = lines(&["// foo = \"1.0\"", "fn main() {}"]);
    let manifest = lines(&["version = \"0.0.0\"", "[dependencies]", "old = \"9\""]);
    let once = refresh_manifest(&src, &manifest);
    let twice = refresh_manifest(&src, &once);
    assert_eq!(once, twice);
}

#[test]
fn refresh_with_empty_block_changes_no_dependency() {
    let src = lines(&["fn main() {}", "// foo = \"1.0\""]);
    let manifest = lines(&["[package]", "name = \"a\"", "[dependencies]"]);
    let out = refresh_manifest(&src, &manifest);
    assert_eq!(out, lines(&["[package]", "name = \"a\"", "[dependencies]"]));
}
