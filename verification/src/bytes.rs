//! Small verified operations on byte lines: prefix tests, equality,
//! copies and suffixes. Every other module works on lines through
//! these.

use vstd::prelude::*;

verus! {

/// `line` begins with the bytes of `prefix`.
pub open spec fn starts_with(line: Seq<u8>, prefix: Seq<u8>) -> bool {
    prefix.len() <= line.len() && forall|j: int| 0 <= j < prefix.len() ==> line[j] == prefix[j]
}

/// Whether `line` begins with the bytes of `prefix`.
pub fn has_prefix(line: &Vec<u8>, prefix: &Vec<u8>) -> (r: bool)
    ensures
        r == starts_with(line@, prefix@),
{
    if prefix.len() > line.len() {
        return false;
    }
    let mut j: usize = 0;
    while j < prefix.len()
        invariant
            j <= prefix.len(),
            prefix.len() <= line.len(),
            forall|k: int| 0 <= k < j ==> line@[k] == prefix@[k],
        decreases prefix.len() - j,
    {
        if line[j] != prefix[j] {
            return false;
        }
        j += 1;
    }
    true
}

/// Whether two byte lines hold the same bytes.
pub fn bytes_eq(a: &Vec<u8>, b: &Vec<u8>) -> (r: bool)
    ensures
        r == (a@ == b@),
{
    if a.len() != b.len() {
        return false;
    }
    let mut j: usize = 0;
    while j < a.len()
        invariant
            j <= a@.len(),
            a@.len() == b@.len(),
            forall|k: int| 0 <= k < j ==> a@[k] == b@[k],
        decreases a@.len() - j,
    {
        if a[j] != b[j] {
            return false;
        }
        j += 1;
    }
    proof {
        assert(a@ =~= b@);
    }
    true
}

/// The bytes of `line` from position `start` on.
pub fn suffix_from(line: &Vec<u8>, start: usize) -> (r: Vec<u8>)
    requires
        start <= line@.len(),
    ensures
        r@ == line@.skip(start as int),
{
    let mut r: Vec<u8> = Vec::new();
    let mut j: usize = start;
    while j < line.len()
        invariant
            start <= j <= line@.len(),
            r@ == line@.subrange(start as int, j as int),
        decreases line@.len() - j,
    {
        let b = line[j];
        r.push(b);
        j += 1;
        proof {
            assert(r@ =~= line@.subrange(start as int, j as int));
        }
    }
    proof {
        assert(line@.subrange(start as int, line@.len() as int) =~= line@.skip(start as int));
    }
    r
}

/// A copy of `line`, byte for byte.
pub fn copy_bytes(line: &Vec<u8>) -> (r: Vec<u8>)
    ensures
        r@ == line@,
{
    let r = suffix_from(line, 0);
    proof {
        assert(line@.skip(0) =~= line@);
    }
    r
}

/// Appends the bytes of `src` to `dst`.
pub fn append_bytes(dst: &mut Vec<u8>, src: &Vec<u8>)
    ensures
        final(dst)@ == old(dst)@ + src@,
{
    let mut j: usize = 0;
    while j < src.len()
        invariant
            j <= src@.len(),
            dst@ == old(dst)@ + src@.subrange(0, j as int),
        decreases src@.len() - j,
    {
        let b = src[j];
        dst.push(b);
        j += 1;
        proof {
            assert(old(dst)@ + src@.subrange(0, j as int) =~= (old(dst)@ + src@.subrange(
                0,
                j as int - 1,
            )).push(src@[j as int - 1]));
        }
    }
    proof {
        assert(src@.subrange(0, src@.len() as int) =~= src@);
    }
}

/// A copy of the lines of `lines` from position `start` on.
pub fn copy_lines_from(lines: &Vec<Vec<u8>>, start: usize) -> (r: Vec<Vec<u8>>)
    requires
        start <= lines@.len(),
    ensures
        r.deep_view() == lines.deep_view().skip(start as int),
{
    let ghost ld = lines.deep_view();
    let mut r: Vec<Vec<u8>> = Vec::new();
    let mut k: usize = start;
    proof {
        assert(r.deep_view() =~= ld.subrange(start as int, start as int));
    }
    while k < lines.len()
        invariant
            start <= k <= lines@.len(),
            ld == lines.deep_view(),
            r.deep_view() == ld.subrange(start as int, k as int),
        decreases lines@.len() - k,
    {
        let ghost rb = r.deep_view();
        let line = copy_bytes(&lines[k]);
        proof {
            assert(ld[k as int] == lines@[k as int].deep_view());
            assert(ld[k as int] =~= lines@[k as int]@);
            assert(line.deep_view() =~= line@);
        }
        r.push(line);
        k += 1;
        proof {
            assert(r.deep_view() =~~= rb.push(ld[k as int - 1]));
            assert(rb.push(ld[k as int - 1]) =~= ld.subrange(start as int, k as int));
        }
    }
    proof {
        assert(ld.subrange(start as int, ld.len() as int) =~= ld.skip(start as int));
    }
    r
}

} // verus!
