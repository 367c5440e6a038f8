//! The order in which entries are extracted.
//!
//! In space-saver mode directories come first, then files from the smallest
//! to the largest, ties broken by path; entries that compare equal keep
//! their archive order. Otherwise the archive order is kept.

use vstd::prelude::*;
use vstd::utf8::encode_utf8;

use crate::archive::{clone_entries, ArchiveEntry, EntryKind};

verus! {

broadcast use {vstd::string::group_string_axioms, vstd::slice::group_slice_axioms};

// ---------------------------------------------------------------------------
// Byte-wise order of paths
// ---------------------------------------------------------------------------

/// Lexicographic order of byte strings, the order `str` compares by.
pub open spec fn bytes_lt(a: Seq<u8>, b: Seq<u8>) -> bool
    decreases a.len(),
{
    if a.len() == 0 {
        b.len() > 0
    } else if b.len() == 0 {
        false
    } else if a[0] != b[0] {
        a[0] < b[0]
    } else {
        bytes_lt(a.drop_first(), b.drop_first())
    }
}

/// No byte string precedes itself.
pub proof fn lemma_bytes_lt_irreflexive(a: Seq<u8>)
    ensures
        !bytes_lt(a, a),
    decreases a.len(),
{
    if a.len() > 0 {
        lemma_bytes_lt_irreflexive(a.drop_first());
    }
}

/// Two distinct byte strings are ordered one way or the other, never both.
pub proof fn lemma_bytes_lt_total(a: Seq<u8>, b: Seq<u8>)
    ensures
        a != b ==> (bytes_lt(a, b) || bytes_lt(b, a)),
        !(bytes_lt(a, b) && bytes_lt(b, a)),
    decreases a.len(),
{
    if a.len() > 0 && b.len() > 0 && a[0] == b[0] {
        lemma_bytes_lt_total(a.drop_first(), b.drop_first());
        if a.drop_first() == b.drop_first() {
            assert(a =~= seq![a[0]] + a.drop_first());
            assert(b =~= seq![b[0]] + b.drop_first());
        }
    } else if a.len() == 0 && b.len() == 0 {
        assert(a =~= b);
    }
}

/// The order of byte strings is transitive.
pub proof fn lemma_bytes_lt_transitive(a: Seq<u8>, b: Seq<u8>, c: Seq<u8>)
    requires
        bytes_lt(a, b),
        bytes_lt(b, c),
    ensures
        bytes_lt(a, c),
    decreases a.len(),
{
    if a.len() > 0 && b.len() > 0 && c.len() > 0 && a[0] == b[0] && b[0] == c[0] {
        lemma_bytes_lt_transitive(a.drop_first(), b.drop_first(), c.drop_first());
    }
}

/// Whether `a` precedes `b` byte-wise.
fn bytes_less(a: &[u8], b: &[u8]) -> (r: bool)
    ensures
        r == bytes_lt(a@, b@),
{
    let mut i: usize = 0;
    assert(a@.skip(0) =~= a@);
    assert(b@.skip(0) =~= b@);
    while i < a.len() && i < b.len()
        invariant
            i <= a.len(),
            i <= b.len(),
            bytes_lt(a@, b@) == bytes_lt(a@.skip(i as int), b@.skip(i as int)),
        decreases a.len() - i,
    {
        if a[i] != b[i] {
            return a[i] < b[i];
        }
        assert(a@.skip(i as int).drop_first() =~= a@.skip(i + 1));
        assert(b@.skip(i as int).drop_first() =~= b@.skip(i + 1));
        i += 1;
    }
    i == a.len() && i < b.len()
}

// ---------------------------------------------------------------------------
// The space-saver order
// ---------------------------------------------------------------------------

/// The UTF-8 bytes of an entry's path.
pub open spec fn path_bytes(e: ArchiveEntry) -> Seq<u8> {
    encode_utf8(e.path@)
}

/// `a` is extracted before `b` in space-saver mode: a directory before a
/// file, and otherwise the smaller entry first, ties broken by path.
pub open spec fn schedule_before(a: ArchiveEntry, b: ArchiveEntry) -> bool {
    if a.kind == EntryKind::Directory && b.kind == EntryKind::File {
        true
    } else if a.kind == EntryKind::File && b.kind == EntryKind::Directory {
        false
    } else {
        a.uncompressed_size < b.uncompressed_size || (a.uncompressed_size == b.uncompressed_size
            && bytes_lt(path_bytes(a), path_bytes(b)))
    }
}

/// Whether `a` is extracted before `b` in space-saver mode.
pub fn entry_scheduled_before(a: &ArchiveEntry, b: &ArchiveEntry) -> (r: bool)
    ensures
        r == schedule_before(*a, *b),
{
    if a.kind == EntryKind::Directory && b.kind == EntryKind::File {
        true
    } else if a.kind == EntryKind::File && b.kind == EntryKind::Directory {
        false
    } else if a.uncompressed_size != b.uncompressed_size {
        a.uncompressed_size < b.uncompressed_size
    } else {
        bytes_less(a.path.as_str().as_bytes(), b.path.as_str().as_bytes())
    }
}

/// Every entry of `s` is a file or a directory.
pub open spec fn all_extractable(s: Seq<ArchiveEntry>) -> bool {
    forall|i: int| 0 <= i < s.len() ==> (#[trigger] s[i]).kind.spec_is_extractable()
}

/// The space-saver order never holds both ways.
pub proof fn lemma_schedule_before_asymmetric(a: ArchiveEntry, b: ArchiveEntry)
    ensures
        schedule_before(a, b) ==> !schedule_before(b, a),
{
    lemma_bytes_lt_total(path_bytes(a), path_bytes(b));
}

/// Among files and directories, the space-saver order is transitive, and
/// so is its negation: it is a strict weak order.
pub proof fn lemma_schedule_before_weak_order(a: ArchiveEntry, b: ArchiveEntry, c: ArchiveEntry)
    requires
        a.kind.spec_is_extractable(),
        b.kind.spec_is_extractable(),
        c.kind.spec_is_extractable(),
    ensures
        schedule_before(a, b) && schedule_before(b, c) ==> schedule_before(a, c),
        !schedule_before(a, b) && !schedule_before(b, c) ==> !schedule_before(a, c),
{
    let (pa, pb, pc) = (path_bytes(a), path_bytes(b), path_bytes(c));
    lemma_bytes_lt_total(pa, pb);
    lemma_bytes_lt_total(pb, pc);
    lemma_bytes_lt_total(pa, pc);
    lemma_bytes_lt_irreflexive(pa);
    lemma_bytes_lt_irreflexive(pb);
    lemma_bytes_lt_transitive_any(pa, pb, pc);
    lemma_bytes_lt_transitive_any(pa, pc, pb);
    lemma_bytes_lt_transitive_any(pb, pa, pc);
    lemma_bytes_lt_transitive_any(pb, pc, pa);
    lemma_bytes_lt_transitive_any(pc, pa, pb);
    lemma_bytes_lt_transitive_any(pc, pb, pa);
}

/// Transitivity of the byte order, stated as an implication.
proof fn lemma_bytes_lt_transitive_any(a: Seq<u8>, b: Seq<u8>, c: Seq<u8>)
    ensures
        bytes_lt(a, b) && bytes_lt(b, c) ==> bytes_lt(a, c),
{
    if bytes_lt(a, b) && bytes_lt(b, c) {
        lemma_bytes_lt_transitive(a, b, c);
    }
}

/// Entry `i` of `input` is extracted before entry `j`: it is scheduled
/// before it, or the two compare equal and `i` comes first in the archive.
pub open spec fn stable_before(input: Seq<ArchiveEntry>, i: int, j: int) -> bool {
    schedule_before(input[i], input[j]) || (!schedule_before(input[j], input[i]) && i < j)
}

/// Among files and directories, `stable_before` is transitive.
proof fn lemma_stable_before_transitive(input: Seq<ArchiveEntry>, i: int, j: int, k: int)
    requires
        0 <= i < input.len(),
        0 <= j < input.len(),
        0 <= k < input.len(),
        all_extractable(input),
        stable_before(input, i, j),
        stable_before(input, j, k),
    ensures
        stable_before(input, i, k),
{
    lemma_schedule_before_weak_order(input[i], input[j], input[k]);
    lemma_schedule_before_weak_order(input[k], input[j], input[i]);
    lemma_schedule_before_weak_order(input[j], input[k], input[i]);
    lemma_schedule_before_weak_order(input[k], input[i], input[j]);
    lemma_schedule_before_weak_order(input[i], input[k], input[j]);
    lemma_schedule_before_weak_order(input[j], input[i], input[k]);
    lemma_schedule_before_asymmetric(input[i], input[j]);
    lemma_schedule_before_asymmetric(input[j], input[k]);
    lemma_schedule_before_asymmetric(input[i], input[k]);
}

/// `p` lists distinct indices, all in `[lo, hi)`.
pub open spec fn distinct_indices_in(p: Seq<int>, lo: int, hi: int) -> bool {
    &&& forall|k: int| 0 <= k < p.len() ==> lo <= #[trigger] p[k] < hi
    &&& forall|k: int, l: int| 0 <= k < l < p.len() ==> p[k] != p[l]
}

/// `out` is `input` reordered: entry `k` of `out` is entry `p[k]` of
/// `input`, and `p` is a permutation of the indices of `input`.
pub open spec fn reorders(input: Seq<ArchiveEntry>, out: Seq<ArchiveEntry>, p: Seq<int>) -> bool {
    &&& out.len() == input.len()
    &&& p.len() == input.len()
    &&& distinct_indices_in(p, 0, input.len() as int)
    &&& forall|k: int| 0 <= k < out.len() ==> out[k] == input[#[trigger] p[k]]
}

/// `out` is `input` reordered into the stable space-saver order: entries
/// scheduled earlier come first, and entries that compare equal keep their
/// archive order.
pub open spec fn is_stable_schedule(input: Seq<ArchiveEntry>, out: Seq<ArchiveEntry>) -> bool {
    exists|p: Seq<int>|
        reorders(input, out, p) && forall|k: int, l: int|
            0 <= k < l < out.len() ==> stable_before(input, #[trigger] p[k], #[trigger] p[l])
}

/// `out` is `input` in some order.
pub open spec fn is_reordering(input: Seq<ArchiveEntry>, out: Seq<ArchiveEntry>) -> bool {
    exists|p: Seq<int>| reorders(input, out, p)
}

/// What sorting `input[lo..hi]` produced: `out` holds entry `p[k]` of
/// `input` at `k`, the indices are those of the range, and among files and
/// directories they come in the stable space-saver order.
pub open spec fn sorted_range(input: Seq<ArchiveEntry>, lo: int, hi: int, out: Seq<ArchiveEntry>, p: Seq<int>) -> bool {
    &&& out.len() == hi - lo
    &&& p.len() == hi - lo
    &&& distinct_indices_in(p, lo, hi)
    &&& forall|k: int| 0 <= k < out.len() ==> out[k] == input[#[trigger] p[k]]
    &&& all_extractable(input) ==> forall|k: int, l: int|
        0 <= k < l < out.len() ==> stable_before(input, #[trigger] p[k], #[trigger] p[l])
}

/// Merges two sorted runs, the left one from `[lo, mid)` and the right one
/// from `[mid, hi)`, into one sorted run of `[lo, hi)`.
fn merge_runs(
    input: &[ArchiveEntry],
    left: &Vec<ArchiveEntry>,
    lp: Ghost<Seq<int>>,
    right: &Vec<ArchiveEntry>,
    rp: Ghost<Seq<int>>,
    lo: Ghost<int>,
    mid: Ghost<int>,
    hi: Ghost<int>,
) -> (r: (Vec<ArchiveEntry>, Ghost<Seq<int>>))
    requires
        0 <= lo@ <= mid@ <= hi@ <= input.len(),
        sorted_range(input@, lo@, mid@, left@, lp@),
        sorted_range(input@, mid@, hi@, right@, rp@),
    ensures
        sorted_range(input@, lo@, hi@, r.0@, r.1@),
{
    let ghost s = input@;
    let mut out: Vec<ArchiveEntry> = Vec::new();
    let ghost mut op: Seq<int> = Seq::empty();
    let mut i: usize = 0;
    let mut j: usize = 0;
    while i < left.len() || j < right.len()
        invariant
            s == input@,
            0 <= lo@ <= mid@ <= hi@ <= s.len(),
            sorted_range(s, lo@, mid@, left@, lp@),
            sorted_range(s, mid@, hi@, right@, rp@),
            i <= left.len(),
            j <= right.len(),
            out.len() == i + j,
            op.len() == i + j,
            forall|k: int| 0 <= k < i ==> op.contains(#[trigger] lp@[k]),
            forall|k: int| 0 <= k < j ==> op.contains(#[trigger] rp@[k]),
            forall|k: int|
                0 <= k < op.len() ==> (exists|m: int| 0 <= m < i && #[trigger] op[k] == lp@[m]) || (
                exists|m: int| 0 <= m < j && op[k] == rp@[m]),
            distinct_indices_in(op, lo@, hi@),
            forall|k: int| 0 <= k < out.len() ==> out@[k] == s[#[trigger] op[k]],
            all_extractable(s) ==> forall|k: int, l: int|
                0 <= k < l < op.len() ==> stable_before(s, #[trigger] op[k], #[trigger] op[l]),
            all_extractable(s) ==> forall|k: int, m: int|
                0 <= k < op.len() && i <= m < left.len() ==> stable_before(s, #[trigger] op[k], #[trigger] lp@[m]),
            all_extractable(s) ==> forall|k: int, m: int|
                0 <= k < op.len() && j <= m < right.len() ==> stable_before(s, #[trigger] op[k], #[trigger] rp@[m]),
        decreases left.len() + right.len() - i - j,
    {
        let take_right = if i == left.len() {
            true
        } else if j == right.len() {
            false
        } else {
            entry_scheduled_before(&right[j], &left[i])
        };
        let ghost old_op = op;
        if take_right {
            let ghost x = rp@[j as int];
            proof {
                assert forall|k: int| 0 <= k < old_op.len() implies #[trigger] old_op[k] != x by {
                    if exists|m: int| 0 <= m < i && old_op[k] == lp@[m] {
                        let m = choose|m: int| 0 <= m < i && old_op[k] == lp@[m];
                        assert(lo@ <= lp@[m] < mid@);
                    } else {
                        let m = choose|m: int| 0 <= m < j && old_op[k] == rp@[m];
                        assert(rp@[m] != rp@[j as int]);
                    }
                }
                if all_extractable(s) {
                    assert forall|k: int, m: int|
                        0 <= k < old_op.len() + 1 && j + 1 <= m < right.len() implies stable_before(
                        s,
                        #[trigger] old_op.push(x)[k],
                        #[trigger] rp@[m],
                    ) by {
                        if k < old_op.len() {
                            assert(old_op.push(x)[k] == old_op[k]);
                        }
                    }
                    assert forall|k: int, m: int|
                        0 <= k < old_op.len() + 1 && i <= m < left.len() implies stable_before(
                        s,
                        #[trigger] old_op.push(x)[k],
                        #[trigger] lp@[m],
                    ) by {
                        if k < old_op.len() {
                            assert(old_op.push(x)[k] == old_op[k]);
                        } else {
                            assert(stable_before(s, x, lp@[i as int]));
                            if m > i {
                                assert(stable_before(s, lp@[i as int], lp@[m]));
                                lemma_stable_before_transitive(s, x, lp@[i as int], lp@[m]);
                            }
                        }
                    }
                    assert forall|k: int, l: int|
                        0 <= k < l < old_op.len() + 1 implies stable_before(
                        s,
                        #[trigger] old_op.push(x)[k],
                        #[trigger] old_op.push(x)[l],
                    ) by {
                        assert(old_op.push(x)[k] == old_op[k]);
                        if l < old_op.len() {
                            assert(old_op.push(x)[l] == old_op[l]);
                        }
                    }
                }
            }
            out.push(right[j].clone());
            proof {
                op = op.push(x);
                assert forall|k: int| 0 <= k < i implies op.contains(#[trigger] lp@[k]) by {
                    let w = choose|w: int| 0 <= w < old_op.len() && old_op[w] == lp@[k];
                    assert(op[w] == lp@[k]);
                }
                assert forall|k: int| 0 <= k < j + 1 implies op.contains(#[trigger] rp@[k]) by {
                    if k < j {
                        let w = choose|w: int| 0 <= w < old_op.len() && old_op[w] == rp@[k];
                        assert(op[w] == rp@[k]);
                    } else {
                        assert(op[old_op.len() as int] == rp@[k]);
                    }
                }
                assert forall|k: int| 0 <= k < op.len() implies (exists|m: int|
                    0 <= m < i && #[trigger] op[k] == lp@[m]) || (exists|m: int|
                    0 <= m < j + 1 && op[k] == rp@[m]) by {
                    if k < old_op.len() {
                        assert(op[k] == old_op[k]);
                    } else {
                        assert(op[k] == rp@[j as int]);
                    }
                }
            }
            j += 1;
        } else {
            let ghost x = lp@[i as int];
            proof {
                assert forall|k: int| 0 <= k < old_op.len() implies #[trigger] old_op[k] != x by {
                    if exists|m: int| 0 <= m < i && old_op[k] == lp@[m] {
                        let m = choose|m: int| 0 <= m < i && old_op[k] == lp@[m];
                        assert(lp@[m] != lp@[i as int]);
                    } else {
                        let m = choose|m: int| 0 <= m < j && old_op[k] == rp@[m];
                        assert(mid@ <= rp@[m] < hi@);
                    }
                }
                if all_extractable(s) {
                    if j < right.len() {
                        assert(!schedule_before(s[rp@[j as int]], s[x]));
                        assert(stable_before(s, x, rp@[j as int]));
                    }
                    assert forall|k: int, m: int|
                        0 <= k < old_op.len() + 1 && i + 1 <= m < left.len() implies stable_before(
                        s,
                        #[trigger] old_op.push(x)[k],
                        #[trigger] lp@[m],
                    ) by {
                        if k < old_op.len() {
                            assert(old_op.push(x)[k] == old_op[k]);
                        }
                    }
                    assert forall|k: int, m: int|
                        0 <= k < old_op.len() + 1 && j <= m < right.len() implies stable_before(
                        s,
                        #[trigger] old_op.push(x)[k],
                        #[trigger] rp@[m],
                    ) by {
                        if k < old_op.len() {
                            assert(old_op.push(x)[k] == old_op[k]);
                        } else {
                            assert(stable_before(s, x, rp@[j as int]));
                            if m > j {
                                assert(stable_before(s, rp@[j as int], rp@[m]));
                                lemma_stable_before_transitive(s, x, rp@[j as int], rp@[m]);
                            }
                        }
                    }
                    assert forall|k: int, l: int|
                        0 <= k < l < old_op.len() + 1 implies stable_before(
                        s,
                        #[trigger] old_op.push(x)[k],
                        #[trigger] old_op.push(x)[l],
                    ) by {
                        assert(old_op.push(x)[k] == old_op[k]);
                        if l < old_op.len() {
                            assert(old_op.push(x)[l] == old_op[l]);
                        }
                    }
                }
            }
            out.push(left[i].clone());
            proof {
                op = op.push(x);
                assert forall|k: int| 0 <= k < i + 1 implies op.contains(#[trigger] lp@[k]) by {
                    if k < i {
                        let w = choose|w: int| 0 <= w < old_op.len() && old_op[w] == lp@[k];
                        assert(op[w] == lp@[k]);
                    } else {
                        assert(op[old_op.len() as int] == lp@[k]);
                    }
                }
                assert forall|k: int| 0 <= k < j implies op.contains(#[trigger] rp@[k]) by {
                    let w = choose|w: int| 0 <= w < old_op.len() && old_op[w] == rp@[k];
                    assert(op[w] == rp@[k]);
                }
                assert forall|k: int| 0 <= k < op.len() implies (exists|m: int|
                    0 <= m < i + 1 && #[trigger] op[k] == lp@[m]) || (exists|m: int|
                    0 <= m < j && op[k] == rp@[m]) by {
                    if k < old_op.len() {
                        assert(op[k] == old_op[k]);
                    } else {
                        assert(op[k] == lp@[i as int]);
                    }
                }
            }
            i += 1;
        }
    }
    (out, Ghost(op))
}

/// Sorts `input[lo..hi]` into the stable space-saver order.
fn sort_range(input: &[ArchiveEntry], lo: usize, hi: usize) -> (r: (Vec<ArchiveEntry>, Ghost<Seq<int>>))
    requires
        lo <= hi <= input.len(),
    ensures
        sorted_range(input@, lo as int, hi as int, r.0@, r.1@),
    decreases hi - lo,
{
    if hi - lo <= 1 {
        let mut out: Vec<ArchiveEntry> = Vec::new();
        let ghost mut p: Seq<int> = Seq::empty();
        if hi - lo == 1 {
            out.push(input[lo].clone());
            proof {
                p = seq![lo as int];
            }
        }
        return (out, Ghost(p));
    }
    let mid = lo + (hi - lo) / 2;
    let (left, lp) = sort_range(input, lo, mid);
    let (right, rp) = sort_range(input, mid, hi);
    merge_runs(
        input,
        &left,
        lp,
        &right,
        rp,
        Ghost(lo as int),
        Ghost(mid as int),
        Ghost(hi as int),
    )
}

/// The order in which `entries` are extracted.
///
/// Without the space saver the archive order is kept. With it the entries
/// are reordered, and when every entry is a file or a directory the order
/// is the stable space-saver order: directories first, then the smaller
/// entries, ties broken by path and then by archive order.
pub fn schedule_entries(entries: &[ArchiveEntry], space_saver: bool) -> (r: Vec<ArchiveEntry>)
    ensures
        !space_saver ==> r@ == entries@,
        space_saver ==> is_reordering(entries@, r@),
        space_saver && all_extractable(entries@) ==> is_stable_schedule(entries@, r@),
{
    if !space_saver {
        return clone_entries(entries);
    }
    let (out, p) = sort_range(entries, 0, entries.len());
    assert(reorders(entries@, out@, p@));
    out
}

/// In the space-saver order of files and directories, no file precedes a
/// directory, and among entries of one kind the smaller comes first.
pub proof fn lemma_space_saver_order(input: Seq<ArchiveEntry>, out: Seq<ArchiveEntry>)
    requires
        all_extractable(input),
        is_stable_schedule(input, out),
    ensures
        forall|k: int, l: int|
            0 <= k < l < out.len() ==> !((#[trigger] out[k]).kind == EntryKind::File && (
            #[trigger] out[l]).kind == EntryKind::Directory),
        forall|k: int, l: int|
            0 <= k < l < out.len() && (#[trigger] out[k]).kind == (#[trigger] out[l]).kind
                ==> out[k].uncompressed_size <= out[l].uncompressed_size,
{
    let p = choose|p: Seq<int>|
        reorders(input, out, p) && forall|k: int, l: int|
            0 <= k < l < out.len() ==> stable_before(input, #[trigger] p[k], #[trigger] p[l]);
    assert forall|k: int, l: int| 0 <= k < l < out.len() implies !((#[trigger] out[k]).kind
        == EntryKind::File && (#[trigger] out[l]).kind == EntryKind::Directory) by {
        assert(stable_before(input, p[k], p[l]));
        assert(out[k] == input[p[k]]);
        assert(out[l] == input[p[l]]);
    }
    assert forall|k: int, l: int|
        0 <= k < l < out.len() && (#[trigger] out[k]).kind == (#[trigger] out[l]).kind
            implies out[k].uncompressed_size <= out[l].uncompressed_size by {
        assert(stable_before(input, p[k], p[l]));
        assert(out[k] == input[p[k]]);
        assert(out[l] == input[p[l]]);
        assert(input[p[k]].kind.spec_is_extractable());
    }
}

/// `n` distinct indices in `[0, n)` are all the indices of that range.
proof fn lemma_indices_cover(p: Seq<int>, n: int)
    requires
        p.len() == n,
        distinct_indices_in(p, 0, n),
    ensures
        forall|v: int| 0 <= v < n ==> p.contains(v),
{
    assert(p.no_duplicates()) by {
        assert forall|i: int, j: int| 0 <= i < p.len() && 0 <= j < p.len() && i != j implies p[i]
            != p[j] by {
            if i < j {
            } else {
            }
        }
    }
    p.unique_seq_to_set();
    vstd::set_lib::lemma_int_range(0, n);
    let range = vstd::set_lib::set_int_range(0, n);
    assert(p.to_set().subset_of(range)) by {
        assert forall|v: int| p.to_set().contains(v) implies range.contains(v) by {
            let i = choose|i: int| 0 <= i < p.len() && p[i] == v;
        }
    }
    vstd::seq_lib::seq_to_set_is_finite(p);
    vstd::set_lib::lemma_subset_equality(p.to_set(), range);
    assert forall|v: int| 0 <= v < n implies p.contains(v) by {
        assert(range.contains(v));
        assert(p.to_set().contains(v));
    }
}

/// Two distinct entries are extracted one before the other, never both
/// ways.
proof fn lemma_stable_before_total(input: Seq<ArchiveEntry>, i: int, j: int)
    requires
        0 <= i < input.len(),
        0 <= j < input.len(),
        i != j,
    ensures
        stable_before(input, i, j) || stable_before(input, j, i),
        !(stable_before(input, i, j) && stable_before(input, j, i)),
{
    lemma_schedule_before_asymmetric(input[i], input[j]);
    lemma_schedule_before_asymmetric(input[j], input[i]);
}

/// Two stable schedules of the same entries agree on their first `k + 1`
/// positions.
proof fn lemma_stable_orders_agree(input: Seq<ArchiveEntry>, p1: Seq<int>, p2: Seq<int>, k: int)
    requires
        p1.len() == input.len(),
        p2.len() == input.len(),
        distinct_indices_in(p1, 0, input.len() as int),
        distinct_indices_in(p2, 0, input.len() as int),
        forall|a: int, b: int|
            0 <= a < b < p1.len() ==> stable_before(input, #[trigger] p1[a], #[trigger] p1[b]),
        forall|a: int, b: int|
            0 <= a < b < p2.len() ==> stable_before(input, #[trigger] p2[a], #[trigger] p2[b]),
        0 <= k < input.len(),
    ensures
        forall|j: int| 0 <= j <= k ==> p1[j] == p2[j],
    decreases k,
{
    if k > 0 {
        lemma_stable_orders_agree(input, p1, p2, k - 1);
    }
    let a = p1[k];
    let b = p2[k];
    if a != b {
        lemma_indices_cover(p1, input.len() as int);
        lemma_indices_cover(p2, input.len() as int);
        lemma_stable_before_total(input, a, b);
        if stable_before(input, a, b) {
            assert(0 <= a < input.len());
            assert(p2.contains(a));
            let m = choose|m: int| 0 <= m < p2.len() && p2[m] == a;
            if m < k {
                assert(p1[m] == p2[m]);
            } else {
                assert(m > k);
                assert(stable_before(input, p2[k], p2[m]));
            }
        } else {
            assert(0 <= b < input.len());
            assert(p1.contains(b));
            let m = choose|m: int| 0 <= m < p1.len() && p1[m] == b;
            if m < k {
                assert(p1[m] == p2[m]);
            } else {
                assert(m > k);
                assert(stable_before(input, p1[k], p1[m]));
            }
        }
    }
}

/// The stable space-saver order of a list of entries is unique: the
/// schedule depends on the entries alone.
pub proof fn lemma_stable_schedule_unique(
    input: Seq<ArchiveEntry>,
    out1: Seq<ArchiveEntry>,
    out2: Seq<ArchiveEntry>,
)
    requires
        is_stable_schedule(input, out1),
        is_stable_schedule(input, out2),
    ensures
        out1 == out2,
{
    let p1 = choose|p: Seq<int>|
        reorders(input, out1, p) && forall|k: int, l: int|
            0 <= k < l < out1.len() ==> stable_before(input, #[trigger] p[k], #[trigger] p[l]);
    let p2 = choose|p: Seq<int>|
        reorders(input, out2, p) && forall|k: int, l: int|
            0 <= k < l < out2.len() ==> stable_before(input, #[trigger] p[k], #[trigger] p[l]);
    if input.len() > 0 {
        lemma_stable_orders_agree(input, p1, p2, input.len() - 1);
    }
    assert forall|k: int| 0 <= k < out1.len() implies out1[k] == out2[k] by {
        assert(p1[k] == p2[k]);
    }
    assert(out1 =~= out2);
}

} // verus!
