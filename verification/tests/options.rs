use cargo_single::plan::forward_argv;
use cargo_single::plan::parse_options;
use cargo_single::plan::parse_subcommand;
use cargo_single::plan::subcommand_name;
use cargo_single::plan::refresh_needed;
use cargo_single::plan::refresh_requested;
use cargo_single::plan::resolve_source;
use cargo_single::plan::shadow_action;
use cargo_single::plan::EntryKind;
use cargo_single::plan::ResolveError;
use cargo_single::plan::SourceChoice;
use cargo_single::plan::OptionError;
use cargo_single::plan::Options;
use cargo_single::plan::ShadowAction;
use cargo_single::plan::Subcommand;

fn expect_err(r: Result<Options, OptionError>) -> OptionError {
    match r {
        Err(e) => e,
        Ok(_) => panic!("expected the options to be rejected"),
    }
}

fn args(xs: &[&str]) -> Vec<Vec<u8>> {
    let mut v: Vec<Vec<u8>> = Vec::new();
    for x in xs {
        v.push(x.as_bytes().to_vec());
    }
    v
}

#[test]
fn subcommands_by_name() {
    assert_eq!(parse_subcommand(&b"build".to_vec()), Some(Subcommand::Build));
    assert_eq!(parse_subcommand(&b"check".to_vec()), Some(Subcommand::Check));
    assert_eq!(parse_subcommand(&b"fmt".to_vec()), Some(Subcommand::Fmt));
    assert_eq!(parse_subcommand(&b"refresh".to_vec()), Some(Subcommand::Refresh));
    assert_eq!(parse_subcommand(&b"run".to_vec()), Some(Subcommand::Run));
    assert_eq!(parse_subcommand(&b"test".to_vec()), None);
    assert_eq!(parse_subcommand(&b"".to_vec()), None);
}

#[test]
fn only_refresh_requests_a_refresh() {
    assert!(refresh_requested(Subcommand::Refresh));
    assert!(!refresh_requested(Subcommand::Build));
    assert!(!refresh_requested(Subcommand::Check));
    assert!(!refresh_requested(Subcommand::Fmt));
    assert!(!refresh_requested(Subcommand::Run));
}

#[test]
fn plain_source_and_trailing_arguments() {
    let o = parse_options(&args(&["prog.rs", "a", "b"])).unwrap();
    assert!(o.quiet);
    assert_eq!(o.toolchain, None);
    assert_eq!(o.cargo_args, args(&[]));
    assert_eq!(o.source, b"prog.rs".to_vec());
    assert_eq!(o.rest, args(&["a", "b"]));
}

#[test]
fn release_and_target_collected_in_order() {
    let o = parse_options(&args(&["--release", "--target", "wasm", "prog.rs"])).unwrap();
    assert!(o.quiet);
    assert_eq!(o.cargo_args, args(&["--release", "--target", "wasm"]));
    assert_eq!(o.source, b"prog.rs".to_vec());
    assert_eq!(o.rest, args(&[]));
}

#[test]
fn no_quiet_clears_quiet() {
    let o = parse_options(&args(&["--no-quiet", "prog.rs"])).unwrap();
    assert!(!o.quiet);
    assert_eq!(o.cargo_args, args(&[]));
}

#[test]
fn toolchain_argument_is_kept_apart() {
    let o = parse_options(&args(&["+nightly", "prog.rs"])).unwrap();
    assert_eq!(o.toolchain, Some(b"+nightly".to_vec()));
    assert_eq!(o.cargo_args, args(&[]));
    assert_eq!(o.source, b"prog.rs".to_vec());
}

#[test]
fn repeated_release_is_rejected() {
    let e = expect_err(parse_options(&args(&["--release", "--release", "prog.rs"])));
    assert_eq!(e, OptionError::ReleaseRepeated);
}

#[test]
fn repeated_target_is_rejected() {
    let e = expect_err(parse_options(&args(&["--target", "a", "--target", "b", "prog.rs"])));
    assert_eq!(e, OptionError::TargetRepeated);
}

#[test]
fn repeated_toolchain_is_rejected() {
    let e = expect_err(parse_options(&args(&["+stable", "+nightly", "prog.rs"])));
    assert_eq!(e, OptionError::ToolchainRepeated);
}

#[test]
fn trailing_target_needs_a_value() {
    let e = expect_err(parse_options(&args(&["--target"])));
    assert_eq!(e, OptionError::TargetNeedsValue);
}

#[test]
fn target_value_may_look_like_an_option() {
    let o = parse_options(&args(&["--target", "--release", "prog.rs"])).unwrap();
    assert_eq!(o.cargo_args, args(&["--target", "--release"]));
    assert_eq!(o.source, b"prog.rs".to_vec());
}

#[test]
fn missing_source_is_rejected() {
    assert_eq!(expect_err(parse_options(&args(&[]))), OptionError::NoSource);
    assert_eq!(
        expect_err(parse_options(&args(&["--no-quiet"]))),
        OptionError::NoSource
    );
}

#[test]
fn existing_file_is_taken_as_given() {
    assert_eq!(
        resolve_source(EntryKind::File, true, true, EntryKind::File),
        Ok(SourceChoice::UseGiven)
    );
    assert_eq!(
        resolve_source(EntryKind::Other, false, true, EntryKind::Missing),
        Ok(SourceChoice::UseGiven)
    );
}

#[test]
fn directory_stands_for_the_file_beside_it() {
    assert_eq!(
        resolve_source(EntryKind::Dir, false, true, EntryKind::File),
        Ok(SourceChoice::UseWithRsExtension)
    );
    assert_eq!(
        resolve_source(EntryKind::Dir, false, true, EntryKind::Missing),
        Err(ResolveError::RsMissing)
    );
    assert_eq!(
        resolve_source(EntryKind::Dir, false, true, EntryKind::Dir),
        Err(ResolveError::RsNotRegularFile)
    );
    assert_eq!(
        resolve_source(EntryKind::Dir, false, false, EntryKind::Missing),
        Err(ResolveError::CannotSetExtension)
    );
}

#[test]
fn missing_path_retries_with_the_extension() {
    assert_eq!(
        resolve_source(EntryKind::Missing, false, true, EntryKind::File),
        Ok(SourceChoice::UseWithRsExtension)
    );
    assert_eq!(
        resolve_source(EntryKind::Missing, true, true, EntryKind::File),
        Err(ResolveError::NotFound)
    );
    assert_eq!(
        resolve_source(EntryKind::Missing, false, true, EntryKind::Missing),
        Err(ResolveError::NotFound)
    );
}

#[test]
fn existing_directory_is_reused() {
    assert_eq!(shadow_action(true, true), ShadowAction::Reuse);
}

#[test]
fn existing_non_directory_fails() {
    assert_eq!(shadow_action(true, false), ShadowAction::FailNotDirectory);
}

#[test]
fn missing_entry_is_scaffolded() {
    assert_eq!(shadow_action(false, false), ShadowAction::Scaffold);
    assert_eq!(shadow_action(false, true), ShadowAction::Scaffold);
}

#[test]
fn subcommand_names_round_trip() {
    for c in [
        Subcommand::Build,
        Subcommand::Check,
        Subcommand::Fmt,
        Subcommand::Refresh,
        Subcommand::Run,
    ] {
        assert_eq!(parse_subcommand(&subcommand_name(c)), Some(c));
    }
    assert_eq!(subcommand_name(Subcommand::Build), b"build".to_vec());
}

#[test]
fn forwarded_arguments_in_order() {
    let argv = forward_argv(
        Subcommand::Run,
        true,
        &args(&["--release", "--target", "wasm"]),
        &Some(b"+nightly".to_vec()),
        &b"prog/Cargo.toml".to_vec(),
        &args(&["a", "b"]),
    );
    assert_eq!(
        argv,
        args(&[
            "+nightly",
            "run",
            "--release",
            "--target",
            "wasm",
            "--quiet",
            "--manifest-path",
            "prog/Cargo.toml",
            "--",
            "a",
            "b",
        ])
    );
}

#[test]
fn format_forwards_no_collected_options() {
    let argv = forward_argv(
        Subcommand::Fmt,
        true,
        &args(&["--release"]),
        &None,
        &b"prog/Cargo.toml".to_vec(),
        &args(&[]),
    );
    assert_eq!(
        argv,
        args(&["fmt", "--quiet", "--manifest-path", "prog/Cargo.toml", "--"])
    );
}

#[test]
fn no_quiet_forwards_without_quiet() {
    let argv = forward_argv(
        Subcommand::Build,
        false,
        &args(&[]),
        &None,
        &b"p/Cargo.toml".to_vec(),
        &args(&[]),
    );
    assert_eq!(argv, args(&["build", "--manifest-path", "p/Cargo.toml", "--"]));
}

#[test]
fn refresh_follows_request_or_scaffold() {
    assert!(refresh_needed(true, false));
    assert!(refresh_needed(false, true));
    assert!(refresh_needed(true, true));
    assert!(!refresh_needed(false, false));
}
