//! Library-wide laws: facts that hold across the engine's functions, proved
//! from their contracts and the model.

use vstd::prelude::*;

use crate::engine::{
    dst_change_matches, is_dst_spec, local_day, snapshot_wf, DstChange, TimeData,
};
use crate::ledger::{
    gap_fires, ledger_tick, ledger_wf, overlap_step, range_seconds, relabel_entry, relabel_fires,
    DstBadge, LedgerEntry, LedgerState,
};
use crate::zone::{civil_date_of_day, instant_in_range, zone_local_instant, zone_offset_minutes};

verus! {

/// Two ledger ticks carrying the same wall-clock second store exactly one
/// entry: after a tick stores an entry for a snapshot, a second tick with
/// the same snapshot second stores nothing and leaves the ledger unchanged.
pub proof fn lemma_same_second_tick_is_noop(
    s0: LedgerState,
    s1: LedgerState,
    s2: LedgerState,
    td: TimeData,
    name: Seq<char>,
    stored1: bool,
    stored2: bool,
)
    requires
        ledger_tick(s0, s1, td, name, stored1),
        stored1,
        ledger_tick(s1, s2, td, name, stored2),
    ensures
        !stored2,
        s2 == s1,
{
}

/// After any tick sequence the log respects its cap: a tick taking a
/// well-formed ledger with a well-formed snapshot leaves the ledger
/// well-formed, so its entries never exceed `max_entries`.
pub proof fn lemma_tick_preserves_cap(
    pre: LedgerState,
    post: LedgerState,
    td: TimeData,
    name: Seq<char>,
    stored: bool,
)
    requires
        ledger_tick(pre, post, td, name, stored),
        ledger_wf(pre),
        snapshot_wf(name, td),
    ensures
        ledger_wf(post),
        post.entries@.len() <= range_seconds(post.time_range),
{
    if stored {
        let relabel = relabel_fires(pre.overlap_state, pre.last_offset, td);
        let base = if relabel {
            pre.entries@.map_values(
                |e: LedgerEntry|
                    relabel_entry(e, td.hour24 as int, pre.last_offset.unwrap() as int),
            )
        } else {
            pre.entries@
        };
        let gap = gap_fires(pre.last_minute, td);
        let head: int = if gap {
            2
        } else {
            1
        };
        assert forall|i: int| 0 <= i < post.entries@.len() implies instant_in_range(
            (#[trigger] post.entries@[i]).instant_utc as int,
        ) by {
            if i >= head {
                assert(post.entries@[i] == base[i - head]);
                assert(base[i - head].instant_utc == pre.entries@[i - head].instant_utc);
            }
        }
    }
}

/// Once a fall-back repeat becomes known — the offset drops tick-over-tick
/// while the tracker was not already following an overlap — the tick that
/// observes it stores a second-pass entry, and every already-stored entry
/// that survives pruning and carries the repeated local hour at the
/// pre-fall-back offset is relabeled first-pass; gap markers are untouched.
pub proof fn lemma_fall_back_relabels_first_pass(
    pre: LedgerState,
    post: LedgerState,
    td: TimeData,
    name: Seq<char>,
    stored: bool,
)
    requires
        ledger_tick(pre, post, td, name, stored),
        stored,
        relabel_fires(pre.overlap_state, pre.last_offset, td),
    ensures
        post.entries@[0].dst_badge == DstBadge::OverlapPass2,
        ({
            let head: int = if gap_fires(pre.last_minute, td) {
                2
            } else {
                1
            };
            forall|i: int|
                head <= i < post.entries@.len() ==> {
                    let e = pre.entries@[i - head];
                    (e.chapter_id == td.hour24 && e.utc_offset_minutes
                        == pre.last_offset.unwrap() && !(e.dst_badge
                        matches DstBadge::GapMarker { .. })) ==> (#[trigger] post.entries@[i]).dst_badge
                        == DstBadge::OverlapPass1
                }
        }),
{
    let st1 = overlap_step(pre.overlap_state, pre.last_offset, td);
    assert(st1.in_overlap && !st1.is_first_pass);
    let head: int = if gap_fires(pre.last_minute, td) {
        2
    } else {
        1
    };
    let base = pre.entries@.map_values(
        |e: LedgerEntry| relabel_entry(e, td.hour24 as int, pre.last_offset.unwrap() as int),
    );
    assert forall|i: int|
        head <= i < post.entries@.len() implies {
        let e = pre.entries@[i - head];
        (e.chapter_id == td.hour24 && e.utc_offset_minutes == pre.last_offset.unwrap()
            && !(e.dst_badge matches DstBadge::GapMarker { .. })) ==> (
        #[trigger] post.entries@[i]).dst_badge == DstBadge::OverlapPass1
    } by {
        assert(post.entries@[i] == base[i - head]);
        assert(base[i - head] == relabel_entry(
            pre.entries@[i - head],
            td.hour24 as int,
            pre.last_offset.unwrap() as int,
        ));
    }
}

/// In a zone modeled without DST — the January and July reference offsets
/// agree — the DST flag is never set.
pub proof fn lemma_equal_references_never_dst(name: Seq<char>, t: int)
    requires
        ({
            let y = civil_date_of_day(local_day(name, t)).0;
            let jan = zone_local_instant(name, y, 1, 15, 12);
            let jul = zone_local_instant(name, y, 7, 15, 12);
            jan is Some && jul is Some ==> zone_offset_minutes(name, jan.unwrap())
                == zone_offset_minutes(name, jul.unwrap())
        }),
    ensures
        !is_dst_spec(name, t),
{
}

/// In a zone whose offset never changes at all, every snapshot reports DST
/// inactive and classifies no transition: whatever the instant, `is_dst` is
/// false and `dst_change` is `NoChange`.
pub proof fn lemma_constant_offset_zone(name: Seq<char>, td: TimeData)
    requires
        snapshot_wf(name, td),
        forall|a: int, b: int| zone_offset_minutes(name, a) == zone_offset_minutes(name, b),
    ensures
        !td.is_dst,
        td.dst_change == DstChange::NoChange,
{
    let t = td.instant_secs as int;
    assert(zone_offset_minutes(name, t + 86400) == zone_offset_minutes(name, t));
    assert(zone_offset_minutes(name, t - 86400) == zone_offset_minutes(name, t));
    let y = civil_date_of_day(local_day(name, t)).0;
    let jan = zone_local_instant(name, y, 1, 15, 12);
    let jul = zone_local_instant(name, y, 7, 15, 12);
    if jan is Some && jul is Some {
        assert(zone_offset_minutes(name, jan.unwrap()) == zone_offset_minutes(
            name,
            jul.unwrap(),
        ));
    }
    lemma_equal_references_never_dst(name, t);
    assert(dst_change_matches(name, t, td.dst_change));
}

} // verus!
