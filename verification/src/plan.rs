//! The decisions of the command line and of the project materializer.
//!
//! The surrounding binary reads the process arguments, stats the
//! filesystem and spawns the build tool; every decision in between —
//! which subcommand was named, which options were collected, whether the
//! shadow project is scaffolded or reused, and whether the manifest is
//! refreshed — is taken here, on plain byte values.

use vstd::prelude::*;

use crate::bytes::bytes_eq;
use crate::bytes::copy_bytes;
use crate::bytes::copy_lines_from;

verus! {

/// The subcommands the tool accepts.
#[derive(Clone, Copy, Debug, PartialEq, Eq, Structural)]
pub enum Subcommand {
    Build,
    Check,
    Fmt,
    Refresh,
    Run,
}

/// The bytes of `build`.
pub open spec fn lit_build() -> Seq<u8> {
    seq![0x62u8, 0x75u8, 0x69u8, 0x6cu8, 0x64u8]
}

/// The bytes of `check`.
pub open spec fn lit_check() -> Seq<u8> {
    seq![0x63u8, 0x68u8, 0x65u8, 0x63u8, 0x6bu8]
}

/// The bytes of `fmt`.
pub open spec fn lit_fmt() -> Seq<u8> {
    seq![0x66u8, 0x6du8, 0x74u8]
}

/// The bytes of `refresh`.
pub open spec fn lit_refresh() -> Seq<u8> {
    seq![0x72u8, 0x65u8, 0x66u8, 0x72u8, 0x65u8, 0x73u8, 0x68u8]
}

/// The bytes of `run`.
pub open spec fn lit_run() -> Seq<u8> {
    seq![0x72u8, 0x75u8, 0x6eu8]
}

/// The bytes of `--no-quiet`.
pub open spec fn lit_no_quiet() -> Seq<u8> {
    seq![0x2du8, 0x2du8, 0x6eu8, 0x6fu8, 0x2du8, 0x71u8, 0x75u8, 0x69u8, 0x65u8, 0x74u8]
}

/// The bytes of `--release`.
pub open spec fn lit_release() -> Seq<u8> {
    seq![0x2du8, 0x2du8, 0x72u8, 0x65u8, 0x6cu8, 0x65u8, 0x61u8, 0x73u8, 0x65u8]
}

/// The bytes of `--target`.
pub open spec fn lit_target() -> Seq<u8> {
    seq![0x2du8, 0x2du8, 0x74u8, 0x61u8, 0x72u8, 0x67u8, 0x65u8, 0x74u8]
}

/// The subcommand named by `name`, if any.
pub open spec fn spec_subcommand(name: Seq<u8>) -> Option<Subcommand> {
    if name == lit_build() {
        Option::Some(Subcommand::Build)
    } else if name == lit_check() {
        Option::Some(Subcommand::Check)
    } else if name == lit_fmt() {
        Option::Some(Subcommand::Fmt)
    } else if name == lit_refresh() {
        Option::Some(Subcommand::Refresh)
    } else if name == lit_run() {
        Option::Some(Subcommand::Run)
    } else {
        Option::None
    }
}

/// The bytes of `build` as an executable value.
fn lit_build_bytes() -> (r: Vec<u8>)
    ensures
        r@ == lit_build(),
{
    let mut r: Vec<u8> = Vec::new();
    r.push(0x62);
    r.push(0x75);
    r.push(0x69);
    r.push(0x6c);
    r.push(0x64);
    proof {
        assert(r@ =~= lit_build());
    }
    r
}

/// The bytes of `check` as an executable value.
fn lit_check_bytes() -> (r: Vec<u8>)
    ensures
        r@ == lit_check(),
{
    let mut r: Vec<u8> = Vec::new();
    r.push(0x63);
    r.push(0x68);
    r.push(0x65);
    r.push(0x63);
    r.push(0x6b);
    proof {
        assert(r@ =~= lit_check());
    }
    r
}

/// The bytes of `fmt` as an executable value.
fn lit_fmt_bytes() -> (r: Vec<u8>)
    ensures
        r@ == lit_fmt(),
{
    let mut r: Vec<u8> = Vec::new();
    r.push(0x66);
    r.push(0x6d);
    r.push(0x74);
    proof {
        assert(r@ =~= lit_fmt());
    }
    r
}

/// The bytes of `refresh` as an executable value.
fn lit_refresh_bytes() -> (r: Vec<u8>)
    ensures
        r@ == lit_refresh(),
{
    let mut r: Vec<u8> = Vec::new();
    r.push(0x72);
    r.push(0x65);
    r.push(0x66);
    r.push(0x72);
    r.push(0x65);
    r.push(0x73);
    r.push(0x68);
    proof {
        assert(r@ =~= lit_refresh());
    }
    r
}

/// The bytes of `run` as an executable value.
fn lit_run_bytes() -> (r: Vec<u8>)
    ensures
        r@ == lit_run(),
{
    let mut r: Vec<u8> = Vec::new();
    r.push(0x72);
    r.push(0x75);
    r.push(0x6e);
    proof {
        assert(r@ =~= lit_run());
    }
    r
}

/// The bytes of `--no-quiet` as an executable value.
fn lit_no_quiet_bytes() -> (r: Vec<u8>)
    ensures
        r@ == lit_no_quiet(),
{
    let mut r: Vec<u8> = Vec::new();
    r.push(0x2d);
    r.push(0x2d);
    r.push(0x6e);
    r.push(0x6f);
    r.push(0x2d);
    r.push(0x71);
    r.push(0x75);
    r.push(0x69);
    r.push(0x65);
    r.push(0x74);
    proof {
        assert(r@ =~= lit_no_quiet());
    }
    r
}

/// The bytes of `--release` as an executable value.
fn lit_release_bytes() -> (r: Vec<u8>)
    ensures
        r@ == lit_release(),
{
    let mut r: Vec<u8> = Vec::new();
    r.push(0x2d);
    r.push(0x2d);
    r.push(0x72);
    r.push(0x65);
    r.push(0x6c);
    r.push(0x65);
    r.push(0x61);
    r.push(0x73);
    r.push(0x65);
    proof {
        assert(r@ =~= lit_release());
    }
    r
}

/// The bytes of `--target` as an executable value.
fn lit_target_bytes() -> (r: Vec<u8>)
    ensures
        r@ == lit_target(),
{
    let mut r: Vec<u8> = Vec::new();
    r.push(0x2d);
    r.push(0x2d);
    r.push(0x74);
    r.push(0x61);
    r.push(0x72);
    r.push(0x67);
    r.push(0x65);
    r.push(0x74);
    proof {
        assert(r@ =~= lit_target());
    }
    r
}

/// Names the subcommand given on the command line, or nothing when the
/// name is not one the tool accepts.
pub fn parse_subcommand(name: &Vec<u8>) -> (r: Option<Subcommand>)
    ensures
        r == spec_subcommand(name@),
{
    if bytes_eq(name, &lit_build_bytes()) {
        Option::Some(Subcommand::Build)
    } else if bytes_eq(name, &lit_check_bytes()) {
        Option::Some(Subcommand::Check)
    } else if bytes_eq(name, &lit_fmt_bytes()) {
        Option::Some(Subcommand::Fmt)
    } else if bytes_eq(name, &lit_refresh_bytes()) {
        Option::Some(Subcommand::Refresh)
    } else if bytes_eq(name, &lit_run_bytes()) {
        Option::Some(Subcommand::Run)
    } else {
        Option::None
    }
}

/// Whether the subcommand by itself asks for a dependency refresh.
pub open spec fn spec_refresh_requested(c: Subcommand) -> bool {
    c is Refresh
}

/// Whether the subcommand by itself asks for a dependency refresh: only
/// the refresh subcommand does.
pub fn refresh_requested(c: Subcommand) -> (r: bool)
    ensures
        r == spec_refresh_requested(c),
{
    match c {
        Subcommand::Refresh => true,
        _ => false,
    }
}

/// Why the option run of the command line is rejected.
#[derive(Clone, Copy, Debug, PartialEq, Eq, Structural)]
pub enum OptionError {
    /// The arguments ran out before a source path was given.
    NoSource,
    /// `--release` was given twice.
    ReleaseRepeated,
    /// `--target` was given twice.
    TargetRepeated,
    /// A `+<toolchain>` argument was given twice.
    ToolchainRepeated,
    /// `--target` stood last, with no value after it.
    TargetNeedsValue,
}

/// The options collected from the command line, with the source path
/// and the trailing arguments that follow them.
pub struct Options {
    /// Whether the build tool runs quietly; `--no-quiet` clears it.
    pub quiet: bool,
    /// The `+<toolchain>` argument, if one was given.
    pub toolchain: Option<Vec<u8>>,
    /// The collected option arguments handed on to the build tool, in
    /// the order given: `--release`, and `--target` with its value.
    pub cargo_args: Vec<Vec<u8>>,
    /// The first argument that is no option: the source path.
    pub source: Vec<u8>,
    /// Every argument after the source path, in order.
    pub rest: Vec<Vec<u8>>,
}

/// One step of option parsing: the first remaining argument either
/// adjusts the state, or is rejected as a repeated option, or is the
/// source path, which ends the run; the arguments running out first is
/// an error.
pub open spec fn spec_parse_options(
    args: Seq<Seq<u8>>,
    quiet: bool,
    seen_release: bool,
    seen_target: bool,
    seen_toolchain: bool,
    toolchain: Option<Seq<u8>>,
    cargo_args: Seq<Seq<u8>>,
) -> Result<(bool, Option<Seq<u8>>, Seq<Seq<u8>>, Seq<u8>, Seq<Seq<u8>>), OptionError>
    decreases args.len(),
{
    if args.len() == 0 {
        Result::Err(OptionError::NoSource)
    } else {
        let a = args[0];
        if a == lit_no_quiet() {
            spec_parse_options(
                args.drop_first(),
                false,
                seen_release,
                seen_target,
                seen_toolchain,
                toolchain,
                cargo_args,
            )
        } else if a == lit_release() {
            if seen_release {
                Result::Err(OptionError::ReleaseRepeated)
            } else {
                spec_parse_options(
                    args.drop_first(),
                    quiet,
                    true,
                    seen_target,
                    seen_toolchain,
                    toolchain,
                    cargo_args.push(a),
                )
            }
        } else if a == lit_target() {
            if seen_target {
                Result::Err(OptionError::TargetRepeated)
            } else if args.len() == 1 {
                Result::Err(OptionError::TargetNeedsValue)
            } else {
                spec_parse_options(
                    args.skip(2),
                    quiet,
                    seen_release,
                    true,
                    seen_toolchain,
                    toolchain,
                    cargo_args.push(a).push(args[1]),
                )
            }
        } else if a.len() >= 1 && a[0] == 0x2bu8 {
            if seen_toolchain {
                Result::Err(OptionError::ToolchainRepeated)
            } else {
                spec_parse_options(
                    args.drop_first(),
                    quiet,
                    seen_release,
                    seen_target,
                    true,
                    Option::Some(a),
                    cargo_args,
                )
            }
        } else {
            Result::Ok((quiet, toolchain, cargo_args, a, args.drop_first()))
        }
    }
}

/// The option run parsed from the arguments that follow the
/// subcommand, starting from the default state: quiet, no option seen
/// yet, no toolchain.
pub open spec fn spec_options(args: Seq<Seq<u8>>) -> Result<
    (bool, Option<Seq<u8>>, Seq<Seq<u8>>, Seq<u8>, Seq<Seq<u8>>),
    OptionError,
> {
    spec_parse_options(args, true, false, false, false, Option::None, Seq::empty())
}

/// Walks the arguments that follow the subcommand, collecting the
/// options until the first argument that is none of them: the source
/// path. Repeated options and a trailing `--target` are rejected, as is
/// an argument list that ends before any source path.
pub fn parse_options(args: &Vec<Vec<u8>>) -> (r: Result<Options, OptionError>)
    ensures
        match r {
            Result::Ok(o) => spec_options(args.deep_view()) == Result::<
                (bool, Option<Seq<u8>>, Seq<Seq<u8>>, Seq<u8>, Seq<Seq<u8>>),
                OptionError,
            >::Ok(
                (
                    o.quiet,
                    o.toolchain.deep_view(),
                    o.cargo_args.deep_view(),
                    o.source@,
                    o.rest.deep_view(),
                ),
            ),
            Result::Err(e) => spec_options(args.deep_view()) == Result::<
                (bool, Option<Seq<u8>>, Seq<Seq<u8>>, Seq<u8>, Seq<Seq<u8>>),
                OptionError,
            >::Err(e),
        },
{
    let ghost ad = args.deep_view();
    let nq = lit_no_quiet_bytes();
    let rl = lit_release_bytes();
    let tg = lit_target_bytes();
    let mut quiet = true;
    let mut seen_release = false;
    let mut seen_target = false;
    let mut seen_toolchain = false;
    let mut toolchain: Option<Vec<u8>> = Option::None;
    let mut cargo_args: Vec<Vec<u8>> = Vec::new();
    let mut i: usize = 0;
    proof {
        assert(ad.skip(0) =~= ad);
        assert(cargo_args.deep_view() =~= Seq::<Seq<u8>>::empty());
    }
    while i < args.len()
        invariant
            i <= args@.len(),
            ad == args.deep_view(),
            nq@ == lit_no_quiet(),
            rl@ == lit_release(),
            tg@ == lit_target(),
            spec_options(ad) == spec_parse_options(
                ad.skip(i as int),
                quiet,
                seen_release,
                seen_target,
                seen_toolchain,
                toolchain.deep_view(),
                cargo_args.deep_view(),
            ),
        decreases args@.len() - i,
    {
        proof {
            assert(ad[i as int] == args@[i as int].deep_view());
            assert(ad[i as int] =~= args@[i as int]@);
            assert(ad.skip(i as int)[0] == ad[i as int]);
            assert(ad.skip(i as int).drop_first() =~= ad.skip(i as int + 1));
        }
        let a = &args[i];
        if bytes_eq(a, &nq) {
            quiet = false;
            i += 1;
        } else if bytes_eq(a, &rl) {
            if seen_release {
                return Result::Err(OptionError::ReleaseRepeated);
            }
            seen_release = true;
            let ghost cb = cargo_args.deep_view();
            let c = copy_bytes(a);
            proof {
                assert(c.deep_view() =~= c@);
            }
            cargo_args.push(c);
            proof {
                assert(cargo_args.deep_view() =~~= cb.push(ad[i as int]));
            }
            i += 1;
        } else if bytes_eq(a, &tg) {
            if seen_target {
                return Result::Err(OptionError::TargetRepeated);
            }
            if i + 1 == args.len() {
                return Result::Err(OptionError::TargetNeedsValue);
            }
            seen_target = true;
            proof {
                assert(ad.skip(i as int)[1] == ad[i as int + 1]);
                assert(ad[i as int + 1] == args@[i as int + 1].deep_view());
                assert(ad[i as int + 1] =~= args@[i as int + 1]@);
                assert(ad.skip(i as int).skip(2) =~= ad.skip(i as int + 2));
            }
            let ghost cb = cargo_args.deep_view();
            let c0 = copy_bytes(a);
            proof {
                assert(c0.deep_view() =~= c0@);
            }
            cargo_args.push(c0);
            let ghost cb1 = cargo_args.deep_view();
            let c1 = copy_bytes(&args[i + 1]);
            proof {
                assert(c1.deep_view() =~= c1@);
            }
            cargo_args.push(c1);
            proof {
                assert(cb1 =~~= cb.push(ad[i as int]));
                assert(cargo_args.deep_view() =~~= cb.push(ad[i as int]).push(ad[i as int + 1]));
            }
            i += 2;
        } else if a.len() >= 1 && a[0] == 0x2b {
            if seen_toolchain {
                return Result::Err(OptionError::ToolchainRepeated);
            }
            seen_toolchain = true;
            let t = copy_bytes(a);
            proof {
                assert(t.deep_view() =~= t@);
            }
            toolchain = Option::Some(t);
            i += 1;
        } else {
            let source = copy_bytes(a);
            let rest = copy_lines_from(args, i + 1);
            return Result::Ok(Options { quiet, toolchain, cargo_args, source, rest });
        }
    }
    proof {
        assert(ad.skip(i as int) =~= Seq::<Seq<u8>>::empty());
    }
    Result::Err(OptionError::NoSource)
}

/// The bytes of `--quiet`.
pub open spec fn lit_quiet() -> Seq<u8> {
    seq![0x2du8, 0x2du8, 0x71u8, 0x75u8, 0x69u8, 0x65u8, 0x74u8]
}

/// The bytes of `--manifest-path`.
pub open spec fn lit_manifest_path() -> Seq<u8> {
    seq![
        0x2du8,
        0x2du8,
        0x6du8,
        0x61u8,
        0x6eu8,
        0x69u8,
        0x66u8,
        0x65u8,
        0x73u8,
        0x74u8,
        0x2du8,
        0x70u8,
        0x61u8,
        0x74u8,
        0x68u8,
    ]
}

/// The bytes of `--`, the separator before the built program's own
/// arguments.
pub open spec fn lit_separator() -> Seq<u8> {
    seq![0x2du8, 0x2du8]
}

/// The bytes of `--quiet` as an executable value.
fn lit_quiet_bytes() -> (r: Vec<u8>)
    ensures
        r@ == lit_quiet(),
{
    let mut r: Vec<u8> = Vec::new();
    r.push(0x2d);
    r.push(0x2d);
    r.push(0x71);
    r.push(0x75);
    r.push(0x69);
    r.push(0x65);
    r.push(0x74);
    proof {
        assert(r@ =~= lit_quiet());
    }
    r
}

/// The bytes of `--manifest-path` as an executable value.
fn lit_manifest_path_bytes() -> (r: Vec<u8>)
    ensures
        r@ == lit_manifest_path(),
{
    let mut r: Vec<u8> = Vec::new();
    r.push(0x2d);
    r.push(0x2d);
    r.push(0x6d);
    r.push(0x61);
    r.push(0x6e);
    r.push(0x69);
    r.push(0x66);
    r.push(0x65);
    r.push(0x73);
    r.push(0x74);
    r.push(0x2d);
    r.push(0x70);
    r.push(0x61);
    r.push(0x74);
    r.push(0x68);
    proof {
        assert(r@ =~= lit_manifest_path());
    }
    r
}

/// The bytes of `--` as an executable value.
fn lit_separator_bytes() -> (r: Vec<u8>)
    ensures
        r@ == lit_separator(),
{
    let mut r: Vec<u8> = Vec::new();
    r.push(0x2d);
    r.push(0x2d);
    proof {
        assert(r@ =~= lit_separator());
    }
    r
}

/// The name of a subcommand, as it is handed on to the build tool.
pub open spec fn spec_subcommand_name(c: Subcommand) -> Seq<u8> {
    match c {
        Subcommand::Build => lit_build(),
        Subcommand::Check => lit_check(),
        Subcommand::Fmt => lit_fmt(),
        Subcommand::Refresh => lit_refresh(),
        Subcommand::Run => lit_run(),
    }
}

/// The name of a subcommand as an executable value.
pub fn subcommand_name(c: Subcommand) -> (r: Vec<u8>)
    ensures
        r@ == spec_subcommand_name(c),
{
    match c {
        Subcommand::Build => lit_build_bytes(),
        Subcommand::Check => lit_check_bytes(),
        Subcommand::Fmt => lit_fmt_bytes(),
        Subcommand::Refresh => lit_refresh_bytes(),
        Subcommand::Run => lit_run_bytes(),
    }
}

/// Naming a subcommand and parsing the name round-trip: every
/// subcommand is recovered from its own name.
pub proof fn lemma_subcommand_name_round_trip(c: Subcommand)
    ensures
        spec_subcommand(spec_subcommand_name(c)) == Option::Some(c),
{
    assert(lit_build().len() == 5 && lit_check().len() == 5 && lit_fmt().len() == 3
        && lit_refresh().len() == 7 && lit_run().len() == 3);
    assert(lit_build() != lit_check()) by {
        assert(lit_build()[0] != lit_check()[0]);
    }
    assert(lit_fmt() != lit_run()) by {
        assert(lit_fmt()[0] != lit_run()[0]);
    }
}

/// The arguments handed to the build tool when the user's action is
/// forwarded: the toolchain (when given) and the subcommand's name,
/// then the collected options — none for the format subcommand — then
/// `--quiet` (unless switched off), the manifest-path option with the
/// shadow manifest's path, and the separator followed by the built
/// program's own arguments.
pub open spec fn spec_forward_argv(
    c: Subcommand,
    quiet: bool,
    cargo_args: Seq<Seq<u8>>,
    toolchain: Option<Seq<u8>>,
    manifest_path: Seq<u8>,
    rest: Seq<Seq<u8>>,
) -> Seq<Seq<u8>> {
    let head = match toolchain {
        Option::Some(t) => seq![t, spec_subcommand_name(c)],
        Option::None => seq![spec_subcommand_name(c)],
    };
    let opts = if c is Fmt {
        Seq::<Seq<u8>>::empty()
    } else {
        cargo_args
    };
    let opts_quiet = if quiet {
        opts.push(lit_quiet())
    } else {
        opts
    };
    head + opts_quiet + seq![lit_manifest_path(), manifest_path, lit_separator()] + rest
}

/// Assembles the argument list for the forwarded invocation of the
/// build tool.
pub fn forward_argv(
    c: Subcommand,
    quiet: bool,
    cargo_args: &Vec<Vec<u8>>,
    toolchain: &Option<Vec<u8>>,
    manifest_path: &Vec<u8>,
    rest: &Vec<Vec<u8>>,
) -> (r: Vec<Vec<u8>>)
    ensures
        r.deep_view() == spec_forward_argv(
            c,
            quiet,
            cargo_args.deep_view(),
            toolchain.deep_view(),
            manifest_path@,
            rest.deep_view(),
        ),
{
    let ghost expected = spec_forward_argv(
        c,
        quiet,
        cargo_args.deep_view(),
        toolchain.deep_view(),
        manifest_path@,
        rest.deep_view(),
    );
    let mut r: Vec<Vec<u8>> = Vec::new();
    match toolchain {
        Option::Some(t) => {
            let tc = copy_bytes(t);
            proof {
                assert(tc.deep_view() =~= tc@);
                assert(t.deep_view() =~= t@);
            }
            r.push(tc);
        },
        Option::None => {},
    }
    r.push(subcommand_name(c));
    let is_fmt = matches!(c, Subcommand::Fmt);
    let mut k: usize = 0;
    let ghost base = r.deep_view();
    proof {
        let head = match toolchain.deep_view() {
            Option::Some(t) => seq![t, spec_subcommand_name(c)],
            Option::None => seq![spec_subcommand_name(c)],
        };
        assert(base =~~= head);
    }
    if !is_fmt {
        while k < cargo_args.len()
            invariant
                k <= cargo_args@.len(),
                r.deep_view() == base + cargo_args.deep_view().take(k as int),
            decreases cargo_args@.len() - k,
        {
            let ghost before = r.deep_view();
            let a = copy_bytes(&cargo_args[k]);
            proof {
                assert(cargo_args@[k as int].deep_view() == cargo_args.deep_view()[k as int]);
                assert(cargo_args.deep_view()[k as int] =~= cargo_args@[k as int]@);
                assert(a.deep_view() =~= a@);
            }
            r.push(a);
            k += 1;
            proof {
                assert(r.deep_view() =~~= before.push(cargo_args.deep_view()[k as int - 1]));
                assert(before.push(cargo_args.deep_view()[k as int - 1]) =~= base
                    + cargo_args.deep_view().take(k as int));
            }
        }
        proof {
            assert(cargo_args.deep_view().take(cargo_args.deep_view().len() as int)
                =~= cargo_args.deep_view());
        }
    }
    let ghost with_opts = r.deep_view();
    if quiet {
        let ghost before = r.deep_view();
        r.push(lit_quiet_bytes());
        proof {
            assert(r.deep_view() =~~= before.push(lit_quiet()));
        }
    }
    let ghost before_tail = r.deep_view();
    r.push(lit_manifest_path_bytes());
    let mp = copy_bytes(manifest_path);
    proof {
        assert(mp.deep_view() =~= mp@);
    }
    r.push(mp);
    r.push(lit_separator_bytes());
    let ghost with_tail = r.deep_view();
    proof {
        assert(with_tail =~~= before_tail + seq![lit_manifest_path(), manifest_path@, lit_separator()]);
    }
    let mut j: usize = 0;
    proof {
        assert(r.deep_view() =~= with_tail + rest.deep_view().take(0));
    }
    while j < rest.len()
        invariant
            j <= rest@.len(),
            r.deep_view() == with_tail + rest.deep_view().take(j as int),
        decreases rest@.len() - j,
    {
        let ghost before = r.deep_view();
        let a = copy_bytes(&rest[j]);
        proof {
            assert(rest@[j as int].deep_view() == rest.deep_view()[j as int]);
            assert(rest.deep_view()[j as int] =~= rest@[j as int]@);
            assert(a.deep_view() =~= a@);
        }
        r.push(a);
        j += 1;
        proof {
            assert(r.deep_view() =~~= before.push(rest.deep_view()[j as int - 1]));
            assert(before.push(rest.deep_view()[j as int - 1]) =~= with_tail
                + rest.deep_view().take(j as int));
        }
    }
    proof {
        assert(rest.deep_view().take(rest.deep_view().len() as int) =~= rest.deep_view());
        assert(r.deep_view() =~= expected);
    }
    r
}

/// What a filesystem entry is, as far as the decisions here care.
#[derive(Clone, Copy, Debug, PartialEq, Eq, Structural)]
pub enum EntryKind {
    /// No entry exists at the path.
    Missing,
    /// The entry is a directory.
    Dir,
    /// The entry is a regular file.
    File,
    /// The entry exists but is neither a directory nor a regular file.
    Other,
}

/// Which path names the source file after resolution.
#[derive(Clone, Copy, Debug, PartialEq, Eq, Structural)]
pub enum SourceChoice {
    /// The path as given.
    UseGiven,
    /// The path with the canonical source extension put on.
    UseWithRsExtension,
}

/// Why source-path resolution fails.
#[derive(Clone, Copy, Debug, PartialEq, Eq, Structural)]
pub enum ResolveError {
    /// Nothing usable exists at the given path, nor at the path with
    /// the canonical extension put on.
    NotFound,
    /// The given path names a directory whose name cannot take an
    /// extension.
    CannotSetExtension,
    /// The path with the extension put on names nothing.
    RsMissing,
    /// The path with the extension put on names no regular file.
    RsNotRegularFile,
}

/// The resolution of a given source path. `src_kind` is what stands at
/// the path itself; `ext_is_rs` whether the path already ends in the
/// canonical source extension; `can_set_rs` whether the extension can
/// be put on the path at all; `rs_kind` what stands at the path after
/// putting the extension on (the path unchanged, when it cannot be put
/// on).
pub open spec fn spec_resolve_source(
    src_kind: EntryKind,
    ext_is_rs: bool,
    can_set_rs: bool,
    rs_kind: EntryKind,
) -> Result<SourceChoice, ResolveError> {
    match src_kind {
        EntryKind::Missing => {
            if !ext_is_rs && rs_kind is File {
                Result::Ok(SourceChoice::UseWithRsExtension)
            } else {
                Result::Err(ResolveError::NotFound)
            }
        },
        EntryKind::Dir => {
            if !can_set_rs {
                Result::Err(ResolveError::CannotSetExtension)
            } else if rs_kind is Missing {
                Result::Err(ResolveError::RsMissing)
            } else if rs_kind is File {
                Result::Ok(SourceChoice::UseWithRsExtension)
            } else {
                Result::Err(ResolveError::RsNotRegularFile)
            }
        },
        _ => Result::Ok(SourceChoice::UseGiven),
    }
}

/// Resolves the given source path. A path that names a file (or any
/// non-directory entry) is taken as it stands; a path that names a
/// directory, or nothing, stands for the source file found by putting
/// the canonical extension on it — for a missing path only when the
/// path did not already carry that extension.
pub fn resolve_source(
    src_kind: EntryKind,
    ext_is_rs: bool,
    can_set_rs: bool,
    rs_kind: EntryKind,
) -> (r: Result<SourceChoice, ResolveError>)
    ensures
        r == spec_resolve_source(src_kind, ext_is_rs, can_set_rs, rs_kind),
        src_kind is File || src_kind is Other ==> r == Result::<SourceChoice, ResolveError>::Ok(
            SourceChoice::UseGiven,
        ),
        (r is Ok && r->Ok_0 is UseWithRsExtension) ==> rs_kind is File,
{
    match src_kind {
        EntryKind::Missing => {
            if !ext_is_rs && matches!(rs_kind, EntryKind::File) {
                Result::Ok(SourceChoice::UseWithRsExtension)
            } else {
                Result::Err(ResolveError::NotFound)
            }
        },
        EntryKind::Dir => {
            if !can_set_rs {
                Result::Err(ResolveError::CannotSetExtension)
            } else if matches!(rs_kind, EntryKind::Missing) {
                Result::Err(ResolveError::RsMissing)
            } else if matches!(rs_kind, EntryKind::File) {
                Result::Ok(SourceChoice::UseWithRsExtension)
            } else {
                Result::Err(ResolveError::RsNotRegularFile)
            }
        },
        _ => Result::Ok(SourceChoice::UseGiven),
    }
}

/// What the materializer does, given what stands at the shadow project
/// path.
#[derive(Clone, Copy, Debug, PartialEq, Eq, Structural)]
pub enum ShadowAction {
    /// Something exists at the path but it is not a directory: fail.
    FailNotDirectory,
    /// Nothing exists at the path: scaffold a new project there, drop
    /// the generated entry point, and hard-link the source file in its
    /// place.
    Scaffold,
    /// The directory already exists: reuse it as it stands.
    Reuse,
}

/// The materializer's decision for a shadow path where an entry exists
/// (`entry_exists`) that is or is not a directory (`entry_is_dir`).
pub open spec fn spec_shadow_action(entry_exists: bool, entry_is_dir: bool) -> ShadowAction {
    if entry_exists && !entry_is_dir {
        ShadowAction::FailNotDirectory
    } else if entry_exists {
        ShadowAction::Reuse
    } else {
        ShadowAction::Scaffold
    }
}

/// Decides what the materializer does at the shadow project path. A
/// path where an entry already exists is never scaffolded again — at
/// most one shadow project is ever created per source path, and a later
/// invocation against an existing one neither re-scaffolds nor
/// re-links.
pub fn shadow_action(entry_exists: bool, entry_is_dir: bool) -> (r: ShadowAction)
    ensures
        r == spec_shadow_action(entry_exists, entry_is_dir),
        entry_exists ==> r != ShadowAction::Scaffold,
        !entry_exists ==> r == ShadowAction::Scaffold,
{
    if entry_exists && !entry_is_dir {
        ShadowAction::FailNotDirectory
    } else if entry_exists {
        ShadowAction::Reuse
    } else {
        ShadowAction::Scaffold
    }
}

/// Whether the manifest is refreshed in this invocation: always right
/// after scaffolding, otherwise only when the subcommand asks for it.
pub fn refresh_needed(requested: bool, scaffolded: bool) -> (r: bool)
    ensures
        r == (requested || scaffolded),
{
    requested || scaffolded
}

} // verus!
