//! What is read back of a session.

use crate::milestone_a::{Fault, MilestoneRules};
use crate::milestone_change_laws::{a_charge_is_the_cost, event_cost};
use crate::milestone_replay;
use crate::milestone_replay::{FinalizedSession, StoredCheckpoint, StreamRules};
use crate::milestone_verify;
use crate::milestone_verify::{Evidence, EventReading, OnDisk, ReadEvent};
use vstd::prelude::*;

verus! {

/// An event that is read is charged what it costs, and it is taken where all of them
/// together stay within 32 mebibytes. A stream that ends early is not.
pub proof fn an_event_is_read_within_the_bound(r: EventReading, e: ReadEvent, rules: MilestoneRules)
    requires
        e.record.sequence < u64::MAX,
    ensures
        r.retained + event_cost(rules.event_layout, e.encoded) <= 33_554_432
            ==> milestone_verify::event_taken(r, Some(e), rules) == Ok::<u64, Fault>(
            (r.retained + event_cost(rules.event_layout, e.encoded)) as u64,
        ),
        r.retained + event_cost(rules.event_layout, e.encoded) > 33_554_432
            ==> milestone_verify::event_taken(r, Some(e), rules) is Err,
        milestone_verify::event_taken(r, None, rules) is Err,
{
    a_charge_is_the_cost(rules.event_layout, e.encoded);
}

proof fn lemma_repeated(cs: Seq<StoredCheckpoint>, page: Seq<StoredCheckpoint>, from: nat)
    requires
        from <= page.len(),
        milestone_verify::each_once(cs + page),
    ensures
        milestone_verify::repeated(cs, page, from) is None,
    decreases page.len() - from,
{
    if from < page.len() {
        let all = cs + page;
        let part = cs + page.take(from as int);
        if milestone_verify::known(part, page[from as int].sequence) {
            let k = choose|k: int|
                0 <= k < part.len() && (#[trigger] part[k]).sequence == page[from as int].sequence;
            assert(all[k] == part[k]);
            assert(all[cs.len() + from as int] == page[from as int]);
        }
        lemma_repeated(cs, page, from + 1);
    }
}

/// Checkpoints are taken where none of them stands twice.
pub proof fn checkpoints_are_taken_once(cs: Seq<StoredCheckpoint>, page: Seq<StoredCheckpoint>)
    requires
        milestone_verify::each_once(cs),
        page.len() > 0 ==> page.last().sequence < u64::MAX,
    ensures
        milestone_verify::page_fault(cs, page) is None <==> milestone_verify::each_once(cs + page),
{
    if milestone_verify::each_once(cs + page) {
        lemma_repeated(cs, page, 0);
    }
    if milestone_verify::page_fault(cs, page) is None {
        milestone_verify::checkpoints_stay_apart(cs, page);
    }
}

/// Whether what was counted of a session agrees: every event was read, up to 256, there
/// are at least the three that a session has, the two checkpoints stand at its start
/// and before its last event, and it was ended.
pub open spec fn counts_agree(e: Evidence) -> bool {
    &&& e.ended
    &&& 3 <= e.chain_events <= 256
    &&& e.next_sequence == e.chain_events + 1
    &&& e.checkpoint_count == 2
    &&& e.latest_checkpoint == Some((e.chain_events - 1) as u64)
    &&& e.reading.events@.len() as u64 == e.chain_events
}

/// Whether a session was ended cleanly, after all of its events and with what is on
/// disk.
pub open spec fn ended_cleanly(e: Evidence, d: OnDisk) -> bool {
    &&& e.finalization matches Some(f) && f.event_count == e.chain_events && f.clean && f.warnings
        == 0 && f.workspace_hash.bytes@ == d.workspace_hash.bytes@
}

/// Whether the replay of a session came to what is on disk: one file and one open
/// document with its bytes and its hashes.
pub open spec fn replay_came_to(e: Evidence, d: OnDisk, path: Seq<char>, id: Seq<char>) -> bool {
    let last = e.replayed.last();
    &&& e.replayed.unreached_checkpoints == 0
    &&& e.replayed.terminal
    &&& e.replayed.finalized
    &&& e.replayed.next_sequence == e.chain_events + 1
    &&& e.replayed.last_event_hash.bytes@ == e.chain_hash.bytes@
    &&& last.files == 1
    &&& last.file matches Some(bytes) && bytes@ == d.source@
    &&& last.active_document matches Some(active) && active@ == id
    &&& last.document_path matches Some(open) && open@ == path
    &&& last.document_bytes@ == d.source@
    &&& last.document_hash.bytes@ == d.text_hash.bytes@
    &&& last.workspace_hash.bytes@ == d.workspace_hash.bytes@
}

/// Whether a receipt is of this session.
pub open spec fn is_receipt_of(receipt: FinalizedSession, e: Evidence, d: OnDisk) -> bool {
    &&& receipt.event_count == e.chain_events
    &&& receipt.final_event_hash.bytes@ == e.chain_hash.bytes@
    &&& receipt.final_document_hash.bytes@ == e.replayed.last().document_hash.bytes@
    &&& receipt.final_workspace_hash.bytes@ == d.workspace_hash.bytes@
}

/// A session is verified where its counts agree, its events can be followed, it was
/// ended cleanly, its replay came to what is on disk and the receipt, where there is
/// one, is of it. Nothing else is verified.
pub proof fn a_sound_session_is_verified(
    e: Evidence,
    d: OnDisk,
    t: milestone_replay::Target,
    s: StreamRules,
    receipt: Option<FinalizedSession>,
)
    requires
        milestone_verify::is_target(t, e, d, s),
    ensures
        milestone_verify::session_holds(e, t, s, receipt) is Ok <==> {
            &&& counts_agree(e)
            &&& milestone_replay::stream_charge(e.reading.events@, e.checkpoints@, s) is Ok
            &&& ended_cleanly(e, d)
            &&& replay_came_to(e, d, s.path@, s.document_id@)
            &&& receipt matches Some(r) ==> is_receipt_of(r, e, d)
        },
{
}

} // verus!
