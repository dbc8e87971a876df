//! Extraction of embedded dependency metadata from a source file's
//! leading comment lines.
//!
//! A line that starts with the comment prefix `// ` is a metadata line;
//! the leading run of such lines forms the dependency block. Within the
//! block, a line that starts with the reserved prefix `// self = `
//! carries a version override for the shadow project itself and is kept
//! out of the emitted block; when several appear, the last one wins.

use vstd::prelude::*;

use crate::bytes::has_prefix;
use crate::bytes::starts_with;
use crate::bytes::suffix_from;

verus! {

/// The bytes of `// `, the comment prefix that marks a metadata line.
pub open spec fn meta_prefix() -> Seq<u8> {
    seq![0x2fu8, 0x2fu8, 0x20u8]
}

/// The bytes of `// self = `, the reserved prefix of the version override.
pub open spec fn self_prefix() -> Seq<u8> {
    seq![0x2fu8, 0x2fu8, 0x20u8, 0x73u8, 0x65u8, 0x6cu8, 0x66u8, 0x20u8, 0x3du8, 0x20u8]
}

/// The dependency lines carried by the leading metadata block: for every
/// metadata line in the leading run that is not a version override, the
/// remainder of the line after `// `.
pub open spec fn spec_deps(lines: Seq<Seq<u8>>) -> Seq<Seq<u8>>
    decreases lines.len(),
{
    if lines.len() == 0 || !starts_with(lines[0], meta_prefix()) {
        Seq::empty()
    } else if starts_with(lines[0], self_prefix()) {
        spec_deps(lines.drop_first())
    } else {
        seq![lines[0].skip(meta_prefix().len() as int)] + spec_deps(lines.drop_first())
    }
}

/// Joins the version override found so far with the one found in the
/// lines still to be scanned: a later override wins.
pub open spec fn later_version(acc: Option<Seq<u8>>, rest: Option<Seq<u8>>) -> Option<Seq<u8>> {
    if rest is Some {
        rest
    } else {
        acc
    }
}

/// The version override carried by the leading metadata block: the
/// remainder after `// self = ` of the last override line in the leading
/// run, if any.
pub open spec fn spec_self_version(lines: Seq<Seq<u8>>) -> Option<Seq<u8>>
    decreases lines.len(),
{
    if lines.len() == 0 || !starts_with(lines[0], meta_prefix()) {
        None
    } else {
        let head = if starts_with(lines[0], self_prefix()) {
            Some(lines[0].skip(self_prefix().len() as int))
        } else {
            None
        };
        later_version(head, spec_self_version(lines.drop_first()))
    }
}

/// The bytes of `// ` as an executable value.
fn meta_prefix_bytes() -> (r: Vec<u8>)
    ensures
        r@ == meta_prefix(),
{
    let mut r: Vec<u8> = Vec::new();
    r.push(0x2f);
    r.push(0x2f);
    r.push(0x20);
    proof {
        assert(r@ =~= meta_prefix());
    }
    r
}

/// The bytes of `// self = ` as an executable value.
fn self_prefix_bytes() -> (r: Vec<u8>)
    ensures
        r@ == self_prefix(),
{
    let mut r: Vec<u8> = Vec::new();
    r.push(0x2f);
    r.push(0x2f);
    r.push(0x20);
    r.push(0x73);
    r.push(0x65);
    r.push(0x6c);
    r.push(0x66);
    r.push(0x20);
    r.push(0x3d);
    r.push(0x20);
    proof {
        assert(r@ =~= self_prefix());
    }
    r
}

/// A file whose first line is not a metadata line — an empty file, a
/// file with no comment block, or one whose comments start later —
/// yields an empty dependency block and no version override.
pub proof fn lemma_empty_block(lines: Seq<Seq<u8>>)
    requires
        lines.len() == 0 || !starts_with(lines[0], meta_prefix()),
    ensures
        spec_deps(lines) == Seq::<Seq<u8>>::empty(),
        spec_self_version(lines) is None,
{
}

/// A file that holds a version-override line inside its leading
/// metadata block yields a version override.
pub proof fn lemma_self_version_present(lines: Seq<Seq<u8>>, k: int)
    requires
        0 <= k < lines.len(),
        forall|j: int| 0 <= j <= k ==> starts_with(#[trigger] lines[j], meta_prefix()),
        starts_with(lines[k], self_prefix()),
    ensures
        spec_self_version(lines) is Some,
    decreases lines.len(),
{
    if k == 0 {
    } else {
        assert forall|j: int| 0 <= j <= k - 1 implies starts_with(
            #[trigger] lines.drop_first()[j],
            meta_prefix(),
        ) by {
            assert(lines.drop_first()[j] == lines[j + 1]);
        }
        assert(lines.drop_first()[k - 1] == lines[k]);
        lemma_self_version_present(lines.drop_first(), k - 1);
    }
}

/// A file with no version-override line at all yields no version
/// override.
pub proof fn lemma_self_version_absent(lines: Seq<Seq<u8>>)
    requires
        forall|k: int| 0 <= k < lines.len() ==> !starts_with(#[trigger] lines[k], self_prefix()),
    ensures
        spec_self_version(lines) is None,
    decreases lines.len(),
{
    if lines.len() == 0 || !starts_with(lines[0], meta_prefix()) {
    } else {
        assert forall|k: int| 0 <= k < lines.drop_first().len() implies !starts_with(
            #[trigger] lines.drop_first()[k],
            self_prefix(),
        ) by {
            assert(lines.drop_first()[k] == lines[k + 1]);
        }
        lemma_self_version_absent(lines.drop_first());
    }
}

/// The metadata carried by a source file's leading comment block.
pub struct Metadata {
    /// The dependency lines, in order, each without its `// ` prefix.
    pub deps: Vec<Vec<u8>>,
    /// The version override, without its `// self = ` prefix, if one was
    /// given.
    pub self_version: Option<Vec<u8>>,
}

/// Scans the leading metadata block of `lines` and returns the
/// dependency lines and the version override it carries.
pub fn extract_metadata(lines: &Vec<Vec<u8>>) -> (r: Metadata)
    ensures
        r.deps.deep_view() == spec_deps(lines.deep_view()),
        r.self_version.deep_view() == spec_self_version(lines.deep_view()),
{
    let ghost ld = lines.deep_view();
    let mut deps: Vec<Vec<u8>> = Vec::new();
    let mut self_version: Option<Vec<u8>> = None;
    let mp = meta_prefix_bytes();
    let sp = self_prefix_bytes();
    let mut i: usize = 0;
    let mut stop = false;
    proof {
        assert(ld.skip(0) =~= ld);
        assert(deps.deep_view() =~= Seq::<Seq<u8>>::empty());
        assert(Seq::<Seq<u8>>::empty() + spec_deps(ld) =~= spec_deps(ld));
    }
    while !stop && i < lines.len()
        invariant
            i <= lines@.len(),
            ld == lines.deep_view(),
            mp@ == meta_prefix(),
            sp@ == self_prefix(),
            spec_deps(ld) == deps.deep_view() + spec_deps(ld.skip(i as int)),
            spec_self_version(ld) == later_version(
                self_version.deep_view(),
                spec_self_version(ld.skip(i as int)),
            ),
            stop ==> i < lines@.len() && !starts_with(ld[i as int], meta_prefix()),
        decreases lines@.len() - i + (if stop { 0int } else { 1int }),
    {
        proof {
            assert(ld[i as int] == lines@[i as int].deep_view());
            assert(ld.skip(i as int)[0] == ld[i as int]);
            assert(ld.skip(i as int).drop_first() =~= ld.skip(i as int + 1));
        }
        let line = &lines[i];
        if !has_prefix(line, &mp) {
            stop = true;
        } else {
            let ghost deps_before = deps.deep_view();
            if has_prefix(line, &sp) {
                let v = suffix_from(line, sp.len());
                self_version = Some(v);
            } else {
                let d = suffix_from(line, mp.len());
                deps.push(d);
                proof {
                    assert(deps.deep_view() =~~= deps_before + seq![
                        ld[i as int].skip(meta_prefix().len() as int),
                    ]);
                    assert(deps_before + seq![ld[i as int].skip(meta_prefix().len() as int)]
                        + spec_deps(ld.skip(i as int + 1)) =~= deps_before + (seq![
                        ld[i as int].skip(meta_prefix().len() as int),
                    ] + spec_deps(ld.skip(i as int + 1))));
                }
            }
            i += 1;
        }
    }
    proof {
        if !stop {
            assert(ld.skip(i as int) =~= Seq::<Seq<u8>>::empty());
        }
        assert(spec_deps(ld.skip(i as int)) =~= Seq::<Seq<u8>>::empty());
        assert(deps.deep_view() + Seq::<Seq<u8>>::empty() =~= deps.deep_view());
    }
    Metadata { deps, self_version }
}

} // verus!
