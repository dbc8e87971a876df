//! Rewriting of the shadow project's manifest.
//!
//! The rewriter walks the manifest line by line. A line that starts with
//! the version-field prefix `version = ` is replaced by the extracted
//! version override, or dropped entirely when no override was extracted.
//! Every other line is copied verbatim until the dependency-section
//! header `[dependencies]` has been copied; the extracted dependency
//! lines follow it, and whatever stood after the header in the old
//! manifest is discarded.

use vstd::prelude::*;

use crate::bytes::append_bytes;
use crate::bytes::bytes_eq;
use crate::bytes::copy_bytes;
use crate::bytes::has_prefix;
use crate::bytes::starts_with;
use crate::metadata::extract_metadata;
use crate::metadata::spec_deps;
use crate::metadata::spec_self_version;

verus! {

/// The bytes of `version = `, the version-field prefix.
pub open spec fn version_prefix() -> Seq<u8> {
    seq![0x76u8, 0x65u8, 0x72u8, 0x73u8, 0x69u8, 0x6fu8, 0x6eu8, 0x20u8, 0x3du8, 0x20u8]
}

/// The bytes of `[dependencies]`, the dependency-section header line.
pub open spec fn deps_header() -> Seq<u8> {
    seq![
        0x5bu8,
        0x64u8,
        0x65u8,
        0x70u8,
        0x65u8,
        0x6eu8,
        0x64u8,
        0x65u8,
        0x6eu8,
        0x63u8,
        0x69u8,
        0x65u8,
        0x73u8,
        0x5du8,
    ]
}

/// What one manifest line becomes: a version-field line is replaced by
/// the override, or dropped (`None`) when there is no override; any
/// other line passes through.
pub open spec fn rewrite_line(line: Seq<u8>, sv: Option<Seq<u8>>) -> Option<Seq<u8>> {
    if starts_with(line, version_prefix()) {
        match sv {
            Option::None => Option::None,
            Option::Some(v) => Option::Some(version_prefix() + v),
        }
    } else {
        Option::Some(line)
    }
}

/// The rewritten manifest: lines rewritten one by one until the first
/// emitted line equals the dependency-section header, which is followed
/// by the dependency block `deps`; the rest of the old manifest is
/// discarded.
pub open spec fn spec_rewrite(m: Seq<Seq<u8>>, deps: Seq<Seq<u8>>, sv: Option<Seq<u8>>) -> Seq<
    Seq<u8>,
>
    decreases m.len(),
{
    if m.len() == 0 {
        Seq::empty()
    } else {
        match rewrite_line(m[0], sv) {
            Option::None => spec_rewrite(m.drop_first(), deps, sv),
            Option::Some(out) => {
                if out == deps_header() {
                    seq![out] + deps
                } else {
                    seq![out] + spec_rewrite(m.drop_first(), deps, sv)
                }
            },
        }
    }
}

/// The bytes of `version = ` as an executable value.
fn version_prefix_bytes() -> (r: Vec<u8>)
    ensures
        r@ == version_prefix(),
{
    let mut r: Vec<u8> = Vec::new();
    r.push(0x76);
    r.push(0x65);
    r.push(0x72);
    r.push(0x73);
    r.push(0x69);
    r.push(0x6f);
    r.push(0x6e);
    r.push(0x20);
    r.push(0x3d);
    r.push(0x20);
    proof {
        assert(r@ =~= version_prefix());
    }
    r
}

/// The bytes of `[dependencies]` as an executable value.
fn deps_header_bytes() -> (r: Vec<u8>)
    ensures
        r@ == deps_header(),
{
    let mut r: Vec<u8> = Vec::new();
    r.push(0x5b);
    r.push(0x64);
    r.push(0x65);
    r.push(0x70);
    r.push(0x65);
    r.push(0x6e);
    r.push(0x64);
    r.push(0x65);
    r.push(0x6e);
    r.push(0x63);
    r.push(0x69);
    r.push(0x65);
    r.push(0x73);
    r.push(0x5d);
    proof {
        assert(r@ =~= deps_header());
    }
    r
}

/// Rewrites the manifest lines `manifest` against the extracted
/// dependency block `deps` and version override `self_version`.
pub fn rewrite_manifest(
    manifest: &Vec<Vec<u8>>,
    deps: &Vec<Vec<u8>>,
    self_version: &Option<Vec<u8>>,
) -> (r: Vec<Vec<u8>>)
    ensures
        r.deep_view() == spec_rewrite(manifest.deep_view(), deps.deep_view(), self_version.deep_view()),
{
    let ghost md = manifest.deep_view();
    let ghost dd = deps.deep_view();
    let ghost svd = self_version.deep_view();
    let vp = version_prefix_bytes();
    let hd = deps_header_bytes();
    let mut out: Vec<Vec<u8>> = Vec::new();
    let mut i: usize = 0;
    proof {
        assert(md.skip(0) =~= md);
        assert(out.deep_view() =~= Seq::<Seq<u8>>::empty());
        assert(Seq::<Seq<u8>>::empty() + spec_rewrite(md, dd, svd) =~= spec_rewrite(md, dd, svd));
    }
    while i < manifest.len()
        invariant
            i <= manifest@.len(),
            md == manifest.deep_view(),
            dd == deps.deep_view(),
            svd == self_version.deep_view(),
            vp@ == version_prefix(),
            hd@ == deps_header(),
            spec_rewrite(md, dd, svd) == out.deep_view() + spec_rewrite(md.skip(i as int), dd, svd),
        decreases manifest@.len() - i,
    {
        proof {
            assert(md[i as int] == manifest@[i as int].deep_view());
            assert(md[i as int] =~= manifest@[i as int]@);
            assert(md.skip(i as int)[0] == md[i as int]);
            assert(md.skip(i as int).drop_first() =~= md.skip(i as int + 1));
        }
        let line = &manifest[i];
        let ghost out_before = out.deep_view();
        if has_prefix(line, &vp) {
            match self_version {
                Option::None => {},
                Option::Some(v) => {
                    let mut nl = version_prefix_bytes();
                    append_bytes(&mut nl, v);
                    proof {
                        assert(v.deep_view() =~= v@);
                        assert(nl@ == version_prefix() + v@);
                        assert(nl@[0] == 0x76u8);
                        assert(nl@ != deps_header());
                    }
                    out.push(nl);
                    proof {
                        assert(out.deep_view() =~~= out_before + seq![version_prefix() + v@]);
                        assert(out_before + seq![version_prefix() + v@] + spec_rewrite(
                            md.skip(i as int + 1),
                            dd,
                            svd,
                        ) =~= out_before + (seq![version_prefix() + v@] + spec_rewrite(
                            md.skip(i as int + 1),
                            dd,
                            svd,
                        )));
                    }
                },
            }
        } else {
            let copied = copy_bytes(line);
            out.push(copied);
            proof {
                assert(out.deep_view() =~~= out_before + seq![md[i as int]]);
                assert(out_before + seq![md[i as int]] + spec_rewrite(md.skip(i as int + 1), dd, svd)
                    =~= out_before + (seq![md[i as int]] + spec_rewrite(
                    md.skip(i as int + 1),
                    dd,
                    svd,
                )));
            }
            if bytes_eq(line, &hd) {
                let ghost out_header = out.deep_view();
                let mut k: usize = 0;
                proof {
                    assert(out.deep_view() =~= out_header + dd.take(0));
                }
                while k < deps.len()
                    invariant
                        k <= deps@.len(),
                        dd == deps.deep_view(),
                        out.deep_view() == out_header + dd.take(k as int),
                    decreases deps@.len() - k,
                {
                    let ghost before_dv = out.deep_view();
                    let dep = copy_bytes(&deps[k]);
                    proof {
                        assert(deps@[k as int].deep_view() == dd[k as int]);
                        assert(dd[k as int] =~= deps@[k as int]@);
                        assert(dep.deep_view() =~= dep@);
                    }
                    out.push(dep);
                    k += 1;
                    proof {
                        assert(out.deep_view() =~~= before_dv.push(dd[k as int - 1]));
                        assert(before_dv.push(dd[k as int - 1]) =~= out_header + dd.take(k as int));
                    }
                }
                proof {
                    assert(dd.take(dd.len() as int) =~= dd);
                    assert(out_before + (seq![md[i as int]] + dd) =~= out_header + dd);
                    assert(out.deep_view() =~= spec_rewrite(md, dd, svd));
                }
                return out;
            }
        }
        i += 1;
    }
    proof {
        assert(md.skip(i as int) =~= Seq::<Seq<u8>>::empty());
        assert(out.deep_view() + spec_rewrite(md.skip(i as int), dd, svd) =~= out.deep_view());
    }
    out
}

/// The dependency-section header line does not start with the
/// version-field prefix: the two structural anchors never collide.
pub proof fn lemma_header_not_version_line()
    ensures
        !starts_with(deps_header(), version_prefix()),
{
    if starts_with(deps_header(), version_prefix()) {
        assert(deps_header()[0] == version_prefix()[0]);
        assert(false);
    }
}

/// A line built from the version-field prefix starts with it.
pub proof fn lemma_version_line_starts_with_prefix(v: Seq<u8>)
    ensures
        starts_with(version_prefix() + v, version_prefix()),
{
    assert forall|j: int| 0 <= j < version_prefix().len() implies (version_prefix() + v)[j]
        == version_prefix()[j] by {}
}

/// Rewriting is idempotent: rewriting an already rewritten manifest
/// against the same dependency block and version override changes
/// nothing, so a second refresh against an unchanged source file leaves
/// the manifest byte-identical.
pub proof fn lemma_rewrite_idempotent(m: Seq<Seq<u8>>, deps: Seq<Seq<u8>>, sv: Option<Seq<u8>>)
    ensures
        spec_rewrite(spec_rewrite(m, deps, sv), deps, sv) == spec_rewrite(m, deps, sv),
    decreases m.len(),
{
    lemma_header_not_version_line();
    if m.len() == 0 {
        assert(spec_rewrite(m, deps, sv) =~= Seq::<Seq<u8>>::empty());
    } else {
        lemma_rewrite_idempotent(m.drop_first(), deps, sv);
        let rest = spec_rewrite(m.drop_first(), deps, sv);
        match rewrite_line(m[0], sv) {
            Option::None => {},
            Option::Some(out) => {
                if out == deps_header() {
                    let r = seq![out] + deps;
                    assert(spec_rewrite(m, deps, sv) == r);
                    assert(r[0] == deps_header());
                    assert(rewrite_line(r[0], sv) == Option::Some(deps_header()));
                    assert(spec_rewrite(r, deps, sv) == seq![deps_header()] + deps);
                    assert(seq![deps_header()] + deps =~= r);
                } else {
                    let r = seq![out] + rest;
                    assert(spec_rewrite(m, deps, sv) == r);
                    assert(r[0] == out);
                    assert(r.drop_first() =~= rest);
                    if starts_with(m[0], version_prefix()) {
                        let v = sv->Some_0;
                        assert(out == version_prefix() + v);
                        lemma_version_line_starts_with_prefix(v);
                        assert(rewrite_line(out, sv) == Option::Some(out));
                    } else {
                        assert(rewrite_line(out, sv) == Option::Some(out));
                    }
                    assert(out != deps_header());
                    assert(spec_rewrite(r, deps, sv) == seq![out] + spec_rewrite(rest, deps, sv));
                    assert(seq![out] + spec_rewrite(rest, deps, sv) =~= r);
                }
            },
        }
    }
}

/// With a version override, every version-field line of the rewritten
/// manifest carries exactly the override value, as long as no line of
/// the dependency block itself starts with the version-field prefix.
pub proof fn lemma_rewrite_version_lines(m: Seq<Seq<u8>>, deps: Seq<Seq<u8>>, v: Seq<u8>)
    requires
        forall|j: int| 0 <= j < deps.len() ==> !starts_with(#[trigger] deps[j], version_prefix()),
    ensures
        forall|j: int|
            0 <= j < spec_rewrite(m, deps, Option::Some(v)).len() && starts_with(
                #[trigger] spec_rewrite(m, deps, Option::Some(v))[j],
                version_prefix(),
            ) ==> spec_rewrite(m, deps, Option::Some(v))[j] == version_prefix() + v,
    decreases m.len(),
{
    lemma_header_not_version_line();
    if m.len() == 0 {
    } else {
        lemma_rewrite_version_lines(m.drop_first(), deps, v);
        let out = spec_rewrite(m, deps, Option::Some(v));
        let rest = spec_rewrite(m.drop_first(), deps, Option::Some(v));
        match rewrite_line(m[0], Option::Some(v)) {
            Option::None => {
                assert(false);
            },
            Option::Some(head) => {
                if head == deps_header() {
                    assert forall|j: int|
                        0 <= j < out.len() && starts_with(
                            #[trigger] out[j],
                            version_prefix(),
                        ) implies out[j] == version_prefix() + v by {
                        if j >= 1 {
                            assert(out[j] == deps[j - 1]);
                        }
                    }
                } else {
                    assert forall|j: int|
                        0 <= j < out.len() && starts_with(
                            #[trigger] out[j],
                            version_prefix(),
                        ) implies out[j] == version_prefix() + v by {
                        if j >= 1 {
                            assert(out[j] == rest[j - 1]);
                        }
                    }
                }
            },
        }
    }
}

/// Without a version override, the rewritten manifest has no
/// version-field line at all, as long as no line of the dependency block
/// itself starts with the version-field prefix.
pub proof fn lemma_rewrite_no_version_line(m: Seq<Seq<u8>>, deps: Seq<Seq<u8>>)
    requires
        forall|j: int| 0 <= j < deps.len() ==> !starts_with(#[trigger] deps[j], version_prefix()),
    ensures
        forall|j: int|
            0 <= j < spec_rewrite(m, deps, Option::None).len() ==> !starts_with(
                #[trigger] spec_rewrite(m, deps, Option::None)[j],
                version_prefix(),
            ),
    decreases m.len(),
{
    lemma_header_not_version_line();
    if m.len() == 0 {
    } else {
        lemma_rewrite_no_version_line(m.drop_first(), deps);
        let out = spec_rewrite(m, deps, Option::None);
        let rest = spec_rewrite(m.drop_first(), deps, Option::None);
        match rewrite_line(m[0], Option::None) {
            Option::None => {},
            Option::Some(head) => {
                if head == deps_header() {
                    assert forall|j: int| 0 <= j < out.len() implies !starts_with(
                        #[trigger] out[j],
                        version_prefix(),
                    ) by {
                        if j >= 1 {
                            assert(out[j] == deps[j - 1]);
                        }
                    }
                } else {
                    assert forall|j: int| 0 <= j < out.len() implies !starts_with(
                        #[trigger] out[j],
                        version_prefix(),
                    ) by {
                        if j >= 1 {
                            assert(out[j] == rest[j - 1]);
                        }
                    }
                }
            },
        }
    }
}

/// The whole dependency refresh on lines: the manifest `m` rewritten
/// against the dependency block and version override extracted from the
/// source file `src`.
pub open spec fn spec_refresh(src: Seq<Seq<u8>>, m: Seq<Seq<u8>>) -> Seq<Seq<u8>> {
    spec_rewrite(m, spec_deps(src), spec_self_version(src))
}

/// A refresh is idempotent: refreshing the manifest a second time
/// against an unchanged source file leaves it byte-identical.
pub proof fn lemma_refresh_idempotent(src: Seq<Seq<u8>>, m: Seq<Seq<u8>>)
    ensures
        spec_refresh(src, spec_refresh(src, m)) == spec_refresh(src, m),
{
    lemma_rewrite_idempotent(m, spec_deps(src), spec_self_version(src));
}

/// A source file that carries a version-override line inside its
/// leading metadata block gives a refreshed manifest whose every
/// version-field line carries exactly the extracted override — as long
/// as no extracted dependency line itself starts with the version-field
/// prefix.
pub proof fn lemma_refresh_version_lines(src: Seq<Seq<u8>>, m: Seq<Seq<u8>>, k: int)
    requires
        0 <= k < src.len(),
        forall|j: int| 0 <= j <= k ==> starts_with(#[trigger] src[j], crate::metadata::meta_prefix()),
        starts_with(src[k], crate::metadata::self_prefix()),
        forall|j: int|
            0 <= j < spec_deps(src).len() ==> !starts_with(
                #[trigger] spec_deps(src)[j],
                version_prefix(),
            ),
    ensures
        spec_self_version(src) is Some,
        forall|j: int|
            0 <= j < spec_refresh(src, m).len() && starts_with(
                #[trigger] spec_refresh(src, m)[j],
                version_prefix(),
            ) ==> spec_refresh(src, m)[j] == version_prefix() + spec_self_version(src)->Some_0,
{
    crate::metadata::lemma_self_version_present(src, k);
    lemma_rewrite_version_lines(m, spec_deps(src), spec_self_version(src)->Some_0);
}

/// A source file with no version-override line at all gives a refreshed
/// manifest with no version-field line at all, whatever value such a
/// line held before — as long as no extracted dependency line itself
/// starts with the version-field prefix.
pub proof fn lemma_refresh_no_version_line(src: Seq<Seq<u8>>, m: Seq<Seq<u8>>)
    requires
        forall|j: int|
            0 <= j < src.len() ==> !starts_with(#[trigger] src[j], crate::metadata::self_prefix()),
        forall|j: int|
            0 <= j < spec_deps(src).len() ==> !starts_with(
                #[trigger] spec_deps(src)[j],
                version_prefix(),
            ),
    ensures
        forall|j: int|
            0 <= j < spec_refresh(src, m).len() ==> !starts_with(
                #[trigger] spec_refresh(src, m)[j],
                version_prefix(),
            ),
{
    crate::metadata::lemma_self_version_absent(src);
    lemma_rewrite_no_version_line(m, spec_deps(src));
}

/// Extracts the metadata of `src_lines` and rewrites `manifest_lines`
/// against it: the whole dependency-refresh computation on lines.
pub fn refresh_manifest(src_lines: &Vec<Vec<u8>>, manifest_lines: &Vec<Vec<u8>>) -> (r: Vec<
    Vec<u8>,
>)
    ensures
        r.deep_view() == spec_refresh(src_lines.deep_view(), manifest_lines.deep_view()),
{
    let m = extract_metadata(src_lines);
    rewrite_manifest(manifest_lines, &m.deps, &m.self_version)
}

} // verus!
