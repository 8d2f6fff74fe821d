//! The ingestion worker: processes a batch of prepared entries strictly in
//! input order, digesting each readable content, inserting one file record
//! per success, skipping any entry whose content could not be read or whose
//! insertion failed, and emitting one best-effort progress signal per entry.

use vstd::prelude::*;
use crate::digest::digest_bytes;
use crate::digest::hex_digest_of;
use crate::progress::ProgressSignal;
use crate::progress::try_send_progress;
use crate::session::PollResult;
use crate::session::SessionV;
use crate::session::lemma_completion;
use crate::session::poll_step;
use crate::session::poll_report;
use crate::store::RecordStore;
use crate::store::StoreV;
use crate::store::has_profile;
use crate::store::insert_file_ok;
use crate::store::with_file;

verus! {

/// One prepared batch entry: the path as supplied, and the file's content
/// bytes — `None` where the path could not be read.
pub struct IngestInput {
    pub path: String,
    pub content: Option<Vec<u8>>,
}

/// Mathematical model of one batch entry.
#[verifier::ext_equal]
pub ghost struct IngestInputV {
    pub path: Seq<char>,
    pub content: Option<Seq<u8>>,
}

impl View for IngestInput {
    type V = IngestInputV;

    open spec fn view(&self) -> IngestInputV {
        IngestInputV {
            path: self.path@,
            content: match self.content {
                Option::Some(b) => Option::Some(b@),
                Option::None => Option::None,
            },
        }
    }
}

/// The views of a sequence of batch entries.
pub open spec fn inputs_view(items: Seq<IngestInput>) -> Seq<IngestInputV> {
    items.map_values(|it: IngestInput| it@)
}

/// The store after processing one batch entry at time `now`: readable content
/// is digested and inserted when insertion can succeed; any failure skips the
/// entry and leaves the store unchanged.
pub open spec fn ingest_one(s: StoreV, profile_id: u64, item: IngestInputV, now: i64) -> StoreV {
    match item.content {
        Option::Some(bytes) => if insert_file_ok(s, profile_id) {
            with_file(s, profile_id, item.path, hex_digest_of(bytes), now)
        } else {
            s
        },
        Option::None => s,
    }
}

/// The store after processing a whole batch in input order, one entry at a
/// time, row timestamps taken from `stamps`.
pub open spec fn ingest_seq(
    s: StoreV,
    profile_id: u64,
    items: Seq<IngestInputV>,
    stamps: Seq<i64>,
) -> StoreV
    decreases items.len(),
{
    if items.len() == 0 {
        s
    } else {
        ingest_one(
            ingest_seq(s, profile_id, items.drop_last(), stamps.drop_last()),
            profile_id,
            items.last(),
            stamps.last(),
        )
    }
}

/// The entries of a batch whose content was readable.
pub open spec fn readable_inputs(items: Seq<IngestInputV>) -> Seq<IngestInputV> {
    items.filter(|it: IngestInputV| it.content is Some)
}

proof fn lemma_readable_empty()
    ensures
        readable_inputs(Seq::<IngestInputV>::empty()) == Seq::<IngestInputV>::empty(),
{
    reveal(Seq::filter);
}

proof fn lemma_readable_push(items: Seq<IngestInputV>, it: IngestInputV)
    ensures
        readable_inputs(items.push(it)) == if it.content is Some {
            readable_inputs(items).push(it)
        } else {
            readable_inputs(items)
        },
{
    reveal(Seq::filter);
    assert(items.push(it).drop_last() =~= items);
}

/// Processes one batch entry: digests readable content and inserts one record
/// for it, skips the entry on a missing content or a failed insertion, and
/// then attempts — without ever blocking or retrying — to deliver the signal
/// `(index + 1, total)`, which is also returned.
pub fn ingest_item(
    store: &mut RecordStore,
    profile_id: u64,
    item: &IngestInput,
    index: usize,
    total: usize,
    tx: &mut futures::channel::mpsc::Sender<ProgressSignal>,
) -> (signal: ProgressSignal)
    requires
        old(store).wf(),
        index < total,
    ensures
        final(store).wf(),
        signal.completed == index + 1,
        signal.total == total,
        exists|now: i64| final(store)@ == ingest_one(old(store)@, profile_id, item@, now),
{
    match &item.content {
        Some(bytes) => {
            let content_digest = digest_bytes(bytes.as_slice());
            let outcome = store.insert_file(
                profile_id,
                item.path.as_str(),
                content_digest.as_str(),
            );
            proof {
                assert(item@.content == Option::Some(bytes@));
                if outcome is Ok {
                    let now = choose|now: i64|
                        store@ == with_file(
                            old(store)@,
                            profile_id,
                            item@.path,
                            hex_digest_of(bytes@),
                            now,
                        );
                    assert(store@ == ingest_one(old(store)@, profile_id, item@, now));
                } else {
                    assert(store@ == ingest_one(old(store)@, profile_id, item@, 0));
                }
            }
        },
        None => {
            proof {
                assert(store@ == ingest_one(old(store)@, profile_id, item@, 0));
            }
        },
    }
    let signal = ProgressSignal { completed: index + 1, total };
    let _ = try_send_progress(tx, signal);
    signal
}

/// Processes a whole batch strictly in input order on the caller's thread,
/// skipping failed entries and never aborting, and emits one best-effort
/// progress signal per entry; the emitted signals are returned in order, the
/// `i`-th being `(i + 1, n)` for a batch of `n` entries.
pub fn ingest_batch(
    store: &mut RecordStore,
    profile_id: u64,
    items: &Vec<IngestInput>,
    tx: &mut futures::channel::mpsc::Sender<ProgressSignal>,
) -> (signals: Vec<ProgressSignal>)
    requires
        old(store).wf(),
    ensures
        final(store).wf(),
        signals@.len() == items@.len(),
        forall|i: int|
            0 <= i < signals@.len() ==> (#[trigger] signals@[i]).completed == i + 1
                && signals@[i].total == items@.len(),
        exists|stamps: Seq<i64>|
            stamps.len() == items@.len() && final(store)@ == ingest_seq(
                old(store)@,
                profile_id,
                inputs_view(items@),
                stamps,
            ),
{
    let total = items.len();
    let mut signals: Vec<ProgressSignal> = Vec::new();
    let mut i: usize = 0;
    proof {
        assert(inputs_view(items@).take(0).len() == 0);
        assert(Seq::<i64>::empty().len() == 0);
        assert(store@ == ingest_seq(
            old(store)@,
            profile_id,
            inputs_view(items@).take(0),
            Seq::<i64>::empty(),
        ));
        assert(exists|stamps: Seq<i64>|
            stamps.len() == 0 && store@ == ingest_seq(
                old(store)@,
                profile_id,
                inputs_view(items@).take(0),
                stamps,
            ));
    }
    while i < total
        invariant
            total == items@.len(),
            i <= total,
            store.wf(),
            signals@.len() == i,
            forall|j: int|
                0 <= j < i ==> (#[trigger] signals@[j]).completed == j + 1 && signals@[j].total
                    == total,
            exists|stamps: Seq<i64>|
                stamps.len() == i && store@ == ingest_seq(
                    old(store)@,
                    profile_id,
                    inputs_view(items@).take(i as int),
                    stamps,
                ),
        decreases total - i,
    {
        let ghost pre = store@;
        let ghost stamps0 = choose|stamps: Seq<i64>|
            stamps.len() == i && pre == ingest_seq(
                old(store)@,
                profile_id,
                inputs_view(items@).take(i as int),
                stamps,
            );
        let sig = ingest_item(store, profile_id, &items[i], i, total, tx);
        proof {
            let now = choose|now: i64|
                store@ == ingest_one(pre, profile_id, items@[i as int]@, now);
            let stamps1 = stamps0.push(now);
            assert(inputs_view(items@).take(i + 1).drop_last() =~= inputs_view(items@).take(
                i as int,
            ));
            assert(stamps1.drop_last() =~= stamps0);
            assert(inputs_view(items@).take(i + 1).last() == items@[i as int]@);
            assert(store@ == ingest_seq(
                old(store)@,
                profile_id,
                inputs_view(items@).take(i + 1),
                stamps1,
            ));
        }
        signals.push(sig);
        i = i + 1;
    }
    proof {
        assert(inputs_view(items@).take(total as int) =~= inputs_view(items@));
    }
    signals
}

/// Progress monotonicity: every signal a batch of `n` entries emits carries
/// `total == n` and a completed count of at most `n`, and completed counts
/// are non-decreasing in emission order. Delivery drops signals but keeps
/// their order, so every delivered subsequence inherits both properties.
pub proof fn lemma_progress_monotonic(signals: Seq<ProgressSignal>, n: int)
    requires
        signals.len() == n,
        forall|i: int|
            0 <= i < n ==> (#[trigger] signals[i]).completed == i + 1 && signals[i].total == n,
    ensures
        forall|i: int|
            0 <= i < n ==> (#[trigger] signals[i]).completed <= n && signals[i].total == n,
        forall|i: int, j: int|
            0 <= i <= j < n ==> (#[trigger] signals[i]).completed <= (
            #[trigger] signals[j]).completed,
{
}

/// Completion reachability: the last signal a non-empty batch of `n` entries
/// emits reports `completed == total == n`, and an in-progress session that
/// receives it moves to `Completed` with those counters in that very poll
/// step.
pub proof fn lemma_batch_completion(signals: Seq<ProgressSignal>, n: int, pre: SessionV)
    requires
        signals.len() == n,
        n > 0,
        forall|i: int|
            0 <= i < n ==> (#[trigger] signals[i]).completed == i + 1 && signals[i].total == n,
        pre.state is InProgress,
    ensures
        signals.last().completed == n,
        signals.last().total == n,
        poll_step(pre, Some(signals.last())).state is Completed,
        poll_step(pre, Some(signals.last())).completed == n,
        poll_step(pre, Some(signals.last())).total == n,
        poll_report(pre, Some(signals.last())) == PollResult::Done,
{
    assert(signals.last() == signals[n - 1]);
    lemma_completion(pre, signals.last());
}

/// Skip and continue: processing a batch against a store that holds the
/// target profile and has key space for the whole batch appends exactly one
/// record per readable entry, in input order — each carrying that entry's
/// path, the digest of its content, the target profile and a fresh key — and
/// touches nothing else; unreadable entries leave no trace and abort nothing.
pub proof fn lemma_skip_and_continue(
    s: StoreV,
    profile_id: u64,
    items: Seq<IngestInputV>,
    stamps: Seq<i64>,
)
    requires
        stamps.len() == items.len(),
        has_profile(s, profile_id),
        s.next_file_id + items.len() <= u64::MAX,
    ensures
        ({
            let post = ingest_seq(s, profile_id, items, stamps);
            let kept = readable_inputs(items);
            &&& kept.len() <= items.len()
            &&& post.profiles == s.profiles
            &&& post.next_profile_id == s.next_profile_id
            &&& post.next_file_id == s.next_file_id + kept.len()
            &&& post.files.len() == s.files.len() + kept.len()
            &&& (forall|j: int| 0 <= j < s.files.len() ==> post.files[j] == s.files[j])
            &&& (forall|j: int|
                0 <= j < kept.len() ==> (#[trigger] post.files[s.files.len() + j]).file_name
                    == kept[j].path)
            &&& (forall|j: int|
                0 <= j < kept.len() ==> (#[trigger] post.files[s.files.len() + j]).digest
                    == hex_digest_of(kept[j].content->0))
            &&& (forall|j: int|
                0 <= j < kept.len() ==> (#[trigger] post.files[s.files.len() + j]).profile_id
                    == profile_id)
            &&& (forall|j: int|
                0 <= j < kept.len() ==> (#[trigger] post.files[s.files.len() + j]).id
                    == s.next_file_id + j)
        }),
    decreases items.len(),
{
    if items.len() == 0 {
        assert(items =~= Seq::<IngestInputV>::empty());
        lemma_readable_empty();
    } else {
        let head = items.drop_last();
        let head_stamps = stamps.drop_last();
        lemma_skip_and_continue(s, profile_id, head, head_stamps);
        let mid = ingest_seq(s, profile_id, head, head_stamps);
        let last = items.last();
        assert(items =~= head.push(last));
        lemma_readable_push(head, last);
        let kept_head = readable_inputs(head);
        if last.content is Some {
            assert(insert_file_ok(mid, profile_id)) by {
                let w = choose|w: int|
                    0 <= w < s.profiles.len() && s.profiles[w].id == profile_id;
                assert(mid.profiles[w].id == profile_id);
            }
            assert(ingest_seq(s, profile_id, items, stamps) == with_file(
                mid,
                profile_id,
                last.path,
                hex_digest_of(last.content->0),
                stamps.last(),
            ));
        }
    }
}

} // verus!
