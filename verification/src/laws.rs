//! Batch-level laws of the pipeline: what the store holds after all tasks
//! of one selection have completed, whatever order they complete in.

use vstd::prelude::*;
use vstd::utf8::{decode_utf8, valid_utf8};
use crate::store::UploadView;
use crate::task::step;

verus! {

/// Model of one selected file together with the outcome its read will
/// eventually deliver: `Some(bytes)` for a read that succeeds, `None` for
/// one that fails.
#[verifier::ext_equal]
pub ghost struct FileModel {
    pub name: Seq<char>,
    pub data: Option<Seq<u8>>,
}

/// Whether the file's task will contribute an upload: its read delivers
/// bytes and those bytes are valid UTF-8.
pub open spec fn decodes(f: FileModel) -> bool {
    f.data is Some && valid_utf8(f.data->0)
}

/// The upload a decodable file contributes.
pub open spec fn upload_of(f: FileModel) -> UploadView {
    UploadView { name: f.name, content: decode_utf8(f.data->0) }
}

/// The store contents after the tasks of a fresh batch over `files` have
/// completed one after the other, in the order given by `order` (a sequence
/// of indices into `files`): starting from the cleared store, each
/// completion performs one `step`.
pub open spec fn replay(files: Seq<FileModel>, order: Seq<int>) -> Seq<UploadView>
    decreases order.len(),
{
    if order.len() == 0 {
        Seq::empty()
    } else {
        step(
            replay(files, order.drop_last()),
            files[order.last()].name,
            files[order.last()].data,
        )
    }
}

/// A completion order for a batch of `n` tasks: every task completes
/// exactly once, in an arbitrary order.
pub open spec fn is_completion_order(order: Seq<int>, n: int) -> bool {
    &&& order.len() == n
    &&& (forall|j: int| 0 <= j < order.len() ==> 0 <= #[trigger] order[j] < n)
    &&& (forall|j1: int, j2: int| 0 <= j1 < j2 < order.len() ==> order[j1] != order[j2])
    &&& (forall|i: int| 0 <= i < n ==> order.contains(i))
}

/// When every completing task decodes, each completion appends: the final
/// store pairs position `j` with the file that completed `j`-th.
proof fn lemma_replay_all_decode(files: Seq<FileModel>, order: Seq<int>)
    requires
        forall|j: int| 0 <= j < order.len() ==> 0 <= #[trigger] order[j] < files.len(),
        forall|j: int| 0 <= j < order.len() ==> decodes(files[#[trigger] order[j]]),
    ensures
        replay(files, order).len() == order.len(),
        forall|j: int| 0 <= j < order.len() ==>
            #[trigger] replay(files, order)[j] == upload_of(files[order[j]]),
    decreases order.len(),
{
    if order.len() > 0 {
        let prev = order.drop_last();
        lemma_replay_all_decode(files, prev);
        assert forall|j: int| 0 <= j < order.len() implies
            #[trigger] replay(files, order)[j] == upload_of(files[order[j]]) by {
            if j < order.len() - 1 {
                assert(replay(files, prev)[j] == upload_of(files[prev[j]]));
            }
        }
    }
}

/// Ordering law: for a batch in which every file's read succeeds and every
/// file's bytes decode, any completion order leaves the store with exactly
/// one upload per file; position `j` holds the upload of the file that
/// completed `j`-th, with its own name paired with its own decoded content,
/// and every file's upload is present.
pub proof fn lemma_batch_all_decode(files: Seq<FileModel>, order: Seq<int>)
    requires
        is_completion_order(order, files.len() as int),
        forall|i: int| 0 <= i < files.len() ==> decodes(#[trigger] files[i]),
    ensures
        replay(files, order).len() == files.len(),
        forall|j: int| 0 <= j < order.len() ==>
            #[trigger] replay(files, order)[j] == upload_of(files[order[j]]),
        forall|i: int| 0 <= i < files.len() ==>
            replay(files, order).contains(upload_of(#[trigger] files[i])),
{
    lemma_replay_all_decode(files, order);
    assert forall|i: int| 0 <= i < files.len() implies
        replay(files, order).contains(upload_of(files[i])) by {
        assert(order.contains(i));
        let j = choose|j: int| 0 <= j < order.len() && order[j] == i;
        assert(replay(files, order)[j] == upload_of(files[i]));
    }
}

/// How often `v` occurs in `order`.
spec fn occurrences(order: Seq<int>, v: int) -> nat
    decreases order.len(),
{
    if order.len() == 0 {
        0
    } else {
        occurrences(order.drop_last(), v) + (if order.last() == v { 1nat } else { 0nat })
    }
}

/// A value that is not in the sequence occurs zero times.
proof fn lemma_occurrences_absent(order: Seq<int>, v: int)
    requires
        !order.contains(v),
    ensures
        occurrences(order, v) == 0,
    decreases order.len(),
{
    if order.len() > 0 {
        let prev = order.drop_last();
        assert(!prev.contains(v)) by {
            if prev.contains(v) {
                let j = choose|j: int| 0 <= j < prev.len() && prev[j] == v;
                assert(order[j] == v);
            }
        }
        lemma_occurrences_absent(prev, v);
    }
}

/// In a duplicate-free sequence that contains `v`, `v` occurs exactly once.
proof fn lemma_occurrences_distinct(order: Seq<int>, v: int)
    requires
        forall|j1: int, j2: int| 0 <= j1 < j2 < order.len() ==> order[j1] != order[j2],
        order.contains(v),
    ensures
        occurrences(order, v) == 1,
    decreases order.len(),
{
    let prev = order.drop_last();
    if order.last() == v {
        assert(!prev.contains(v)) by {
            if prev.contains(v) {
                let j = choose|j: int| 0 <= j < prev.len() && prev[j] == v;
                assert(order[j] == order[order.len() - 1]);
            }
        }
        lemma_occurrences_absent(prev, v);
    } else {
        let j = choose|j: int| 0 <= j < order.len() && order[j] == v;
        assert(prev[j] == v);
        assert(prev.contains(v));
        lemma_occurrences_distinct(prev, v);
    }
}

/// How many positions of `order` point at a file that decodes.
spec fn decoding_count(files: Seq<FileModel>, order: Seq<int>) -> nat
    decreases order.len(),
{
    if order.len() == 0 {
        0
    } else {
        decoding_count(files, order.drop_last()) + (if decodes(files[order.last()]) {
            1nat
        } else {
            0nat
        })
    }
}

/// Exactly the completions of decoding files lengthen the store.
proof fn lemma_replay_len(files: Seq<FileModel>, order: Seq<int>)
    ensures
        replay(files, order).len() == decoding_count(files, order),
    decreases order.len(),
{
    if order.len() > 0 {
        lemma_replay_len(files, order.drop_last());
    }
}

/// Whether `u` is the upload of some decoding file that `order` completes.
spec fn from_batch(files: Seq<FileModel>, order: Seq<int>, u: UploadView) -> bool {
    exists|j: int|
        0 <= j < order.len() && decodes(files[#[trigger] order[j]]) && u == upload_of(
            files[order[j]],
        )
}

/// Everything the replay puts in the store is the upload of some decoding
/// file of the batch, and every decoding file's upload is in the store.
proof fn lemma_replay_elements(files: Seq<FileModel>, order: Seq<int>)
    ensures
        forall|k: int| 0 <= k < replay(files, order).len() ==>
            from_batch(files, order, #[trigger] replay(files, order)[k]),
        forall|j: int| 0 <= j < order.len() && decodes(files[#[trigger] order[j]]) ==>
            replay(files, order).contains(upload_of(files[order[j]])),
    decreases order.len(),
{
    if order.len() > 0 {
        let prev = order.drop_last();
        lemma_replay_elements(files, prev);
        let cur = replay(files, order);
        let last_idx = order.len() - 1;
        assert forall|k: int| 0 <= k < cur.len() implies
            from_batch(files, order, #[trigger] cur[k]) by {
            if decodes(files[order.last()]) && k == cur.len() - 1 {
                assert(0 <= last_idx < order.len() && decodes(files[order[last_idx]])
                    && cur[k] == upload_of(files[order[last_idx]]));
            } else {
                assert(cur[k] == replay(files, prev)[k]);
                assert(from_batch(files, prev, cur[k]));
                let j = choose|j: int|
                    0 <= j < prev.len() && decodes(files[#[trigger] prev[j]]) && cur[k]
                        == upload_of(files[prev[j]]);
                assert(order[j] == prev[j]);
            }
        }
        assert forall|j: int| 0 <= j < order.len() && decodes(files[#[trigger] order[j]]) implies
            cur.contains(upload_of(files[order[j]])) by {
            if j == last_idx {
                assert(cur[cur.len() - 1] == upload_of(files[order[j]]));
            } else {
                assert(prev[j] == order[j]);
                assert(replay(files, prev).contains(upload_of(files[prev[j]])));
                let k = choose|k: int|
                    0 <= k < replay(files, prev).len() && replay(files, prev)[k] == upload_of(
                        files[prev[j]],
                    );
                assert(cur[k] == upload_of(files[order[j]]));
            }
        }
    }
}

/// Positions pointing at files other than `bad` all decode, so the number
/// of decoding positions is the number of positions avoiding `bad`.
proof fn lemma_decoding_count_single_bad(files: Seq<FileModel>, order: Seq<int>, bad: int)
    requires
        forall|j: int| 0 <= j < order.len() ==> 0 <= #[trigger] order[j] < files.len(),
        0 <= bad < files.len(),
        !decodes(files[bad]),
        forall|i: int| 0 <= i < files.len() && i != bad ==> decodes(#[trigger] files[i]),
    ensures
        decoding_count(files, order) == order.len() - occurrences(order, bad),
    decreases order.len(),
{
    if order.len() > 0 {
        lemma_decoding_count_single_bad(files, order.drop_last(), bad);
    }
}

/// Decode-failure isolation: if exactly one file of the batch fails to
/// decode (its read fails, or its bytes are not valid UTF-8), any
/// completion order leaves the store with exactly the other files' uploads:
/// one fewer than the batch size, each remaining file's upload present, and
/// nothing in the store that is not the upload of a remaining file.
pub proof fn lemma_single_decode_failure(files: Seq<FileModel>, order: Seq<int>, bad: int)
    requires
        is_completion_order(order, files.len() as int),
        0 <= bad < files.len(),
        !decodes(files[bad]),
        forall|i: int| 0 <= i < files.len() && i != bad ==> decodes(#[trigger] files[i]),
    ensures
        replay(files, order).len() == files.len() - 1,
        forall|i: int| 0 <= i < files.len() && i != bad ==>
            replay(files, order).contains(upload_of(#[trigger] files[i])),
        forall|k: int| 0 <= k < replay(files, order).len() ==>
            exists|i: int|
                0 <= i < files.len() && i != bad && #[trigger] replay(files, order)[k]
                    == upload_of(#[trigger] files[i]),
{
    lemma_replay_len(files, order);
    lemma_decoding_count_single_bad(files, order, bad);
    lemma_occurrences_distinct(order, bad);
    lemma_replay_elements(files, order);
    let cur = replay(files, order);
    assert forall|i: int| 0 <= i < files.len() && i != bad implies
        cur.contains(upload_of(files[i])) by {
        assert(order.contains(i));
        let j = choose|j: int| 0 <= j < order.len() && order[j] == i;
        assert(decodes(files[order[j]]));
    }
    assert forall|k: int| 0 <= k < cur.len() implies
        exists|i: int|
            0 <= i < files.len() && i != bad && #[trigger] cur[k] == upload_of(
                #[trigger] files[i],
            ) by {
        assert(from_batch(files, order, cur[k]));
        let j = choose|j: int|
            0 <= j < order.len() && decodes(files[#[trigger] order[j]]) && cur[k] == upload_of(
                files[order[j]],
            );
        let i = order[j];
        assert(i != bad);
        assert(0 <= i < files.len() && i != bad && cur[k] == upload_of(files[i]));
    }
}

}
