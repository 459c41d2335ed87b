//! The per-block summary of event labels that the recency view shows.

use crate::chain::{BlockNumber, EventInfo};
use crate::text::starts_with;
use vstd::prelude::*;

verus! {

/// The events of one label in one block.
#[derive(Clone, Debug, PartialEq)]
pub struct BlockEventSummary {
    pub block: BlockNumber,
    /// Position in the block of the first event with this label.
    pub number: u32,
    pub name: String,
    /// How many events of the block have this label.
    pub count: u32,
}

impl BlockEventSummary {
    /// A copy of the summary.
    pub fn copy(&self) -> (r: BlockEventSummary)
        ensures
            r == *self,
    {
        BlockEventSummary {
            block: self.block,
            number: self.number,
            name: self.name.clone(),
            count: self.count,
        }
    }
}

/// Labels of the module whose events are left out of every summary.
pub open spec fn is_ignored(name: Seq<char>) -> bool {
    "System."@.is_prefix_of(name)
}

/// The summary entry stands for events like `e`: same block, same label.
pub open spec fn same_kind(s: BlockEventSummary, e: EventInfo) -> bool {
    s.block == e.block && s.name@ == e.name@
}

/// Position of the first entry that stands for events like `e`; the length of
/// the summary where there is none.
pub open spec fn find_kind(acc: Seq<BlockEventSummary>, e: EventInfo) -> int
    decreases acc.len(),
{
    if acc.len() == 0 {
        0
    } else if same_kind(acc[0], e) {
        0
    } else {
        1 + find_kind(acc.drop_first(), e)
    }
}

/// The summary after one more event: an ignored event changes nothing, an
/// event of a label seen before is counted with it, an event of a new label
/// gets an entry of its own at the end.
pub open spec fn record(acc: Seq<BlockEventSummary>, e: EventInfo) -> Seq<BlockEventSummary> {
    if is_ignored(e.name@) {
        acc
    } else {
        let j = find_kind(acc, e);
        if j < acc.len() {
            acc.update(
                j,
                BlockEventSummary {
                    block: acc[j].block,
                    number: acc[j].number,
                    name: acc[j].name,
                    count: (acc[j].count + 1) as u32,
                },
            )
        } else {
            acc.push(
                BlockEventSummary { block: e.block, number: e.number, name: e.name, count: 1 },
            )
        }
    }
}

/// The summary of a block's events: one entry for each label that is not
/// ignored, in the order in which the labels first occur.
pub open spec fn summarize(events: Seq<EventInfo>) -> Seq<BlockEventSummary>
    decreases events.len(),
{
    if events.len() == 0 {
        Seq::empty()
    } else {
        record(summarize(events.drop_last()), events.last())
    }
}

/// `find_kind` finds the first entry of the kind, or runs to the end.
pub proof fn lemma_find_kind(acc: Seq<BlockEventSummary>, e: EventInfo, j: int)
    requires
        0 <= j <= acc.len(),
        forall|k: int| 0 <= k < j ==> !same_kind(#[trigger] acc[k], e),
        j < acc.len() ==> same_kind(acc[j], e),
    ensures
        find_kind(acc, e) == j,
    decreases acc.len(),
{
    if acc.len() == 0 {
    } else if j == 0 {
    } else {
        let rest = acc.drop_first();
        assert forall|k: int| 0 <= k < j - 1 implies !same_kind(#[trigger] rest[k], e) by {
            assert(rest[k] == acc[k + 1]);
        }
        if j - 1 < rest.len() {
            assert(rest[j - 1] == acc[j]);
        }
        assert(!same_kind(acc[0], e));
        lemma_find_kind(rest, e, j - 1);
    }
}

/// How many of the events are counted under a label in a block: those with
/// that block and that label, unless the label is ignored.
pub open spec fn count_of(events: Seq<EventInfo>, block: BlockNumber, name: Seq<char>) -> nat
    decreases events.len(),
{
    if events.len() == 0 {
        0
    } else {
        let last = events.last();
        let counted: nat = if last.block == block && last.name@ == name && !is_ignored(name) {
            1
        } else {
            0
        };
        count_of(events.drop_last(), block, name) + counted
    }
}

/// The entry `s` is what a summary of `events` holds for its label: the
/// label is not ignored, the count is the number of events with the label,
/// and the position is that of the first of them.
pub open spec fn summarizes(s: BlockEventSummary, events: Seq<EventInfo>) -> bool {
    &&& !is_ignored(s.name@)
    &&& s.count >= 1
    &&& s.count == count_of(events, s.block, s.name@)
    &&& exists|k: int|
        {
            &&& 0 <= k < events.len()
            &&& same_kind(s, #[trigger] events[k])
            &&& s.number == events[k].number
            &&& forall|m: int| 0 <= m < k ==> !same_kind(s, #[trigger] events[m])
        }
}

/// The summary holds each label once, and with every event that is not
/// ignored it holds the label of that event.
pub open spec fn covers(summary: Seq<BlockEventSummary>, events: Seq<EventInfo>) -> bool {
    &&& forall|i: int, j: int|
        0 <= i < j < summary.len() ==> !(#[trigger] summary[i].block == summary[j].block
            && summary[i].name@ == (#[trigger] summary[j]).name@)
    &&& forall|k: int|
        0 <= k < events.len() && !is_ignored((#[trigger] events[k]).name@) ==> exists|i: int|
            0 <= i < summary.len() && same_kind(#[trigger] summary[i], events[k])
}

/// No more events are counted than there are.
pub proof fn lemma_count_bounded(events: Seq<EventInfo>, block: BlockNumber, name: Seq<char>)
    ensures
        count_of(events, block, name) <= events.len(),
    decreases events.len(),
{
    if events.len() > 0 {
        lemma_count_bounded(events.drop_last(), block, name);
    }
}

/// Where events are counted under a label, one of them has the label.
pub proof fn lemma_counted_occurs(events: Seq<EventInfo>, block: BlockNumber, name: Seq<char>)
    requires
        count_of(events, block, name) > 0,
    ensures
        exists|k: int|
            0 <= k < events.len() && (#[trigger] events[k]).block == block && events[k].name@
                == name,
    decreases events.len(),
{
    if events.len() > 0 {
        let init = events.drop_last();
        if events.last().block == block && events.last().name@ == name {
            assert(events[events.len() - 1] == events.last());
        } else {
            lemma_counted_occurs(init, block, name);
            let k = choose|k: int|
                0 <= k < init.len() && (#[trigger] init[k]).block == block && init[k].name@ == name;
            assert(events[k] == init[k]);
        }
    }
}

/// `find_kind` gives a position in the summary or its length; the entry at
/// the position stands for events like `e`, and no entry before it does.
pub proof fn lemma_found_kind(acc: Seq<BlockEventSummary>, e: EventInfo)
    ensures
        0 <= find_kind(acc, e) <= acc.len(),
        find_kind(acc, e) < acc.len() ==> same_kind(acc[find_kind(acc, e)], e),
        forall|k: int| 0 <= k < find_kind(acc, e) ==> !same_kind(#[trigger] acc[k], e),
    decreases acc.len(),
{
    if acc.len() > 0 && !same_kind(acc[0], e) {
        let rest = acc.drop_first();
        lemma_found_kind(rest, e);
        assert forall|k: int| 0 <= k < find_kind(acc, e) implies !same_kind(
            #[trigger] acc[k],
            e,
        ) by {
            if k > 0 {
                assert(acc[k] == rest[k - 1]);
            }
        }
        if find_kind(acc, e) < acc.len() {
            assert(acc[find_kind(acc, e)] == rest[find_kind(rest, e)]);
        }
    }
}

/// What a summary says. Each label that is not ignored has exactly one
/// entry; the entry counts the events with the label and gives the position
/// of the first of them.
pub proof fn lemma_summary_meaning(events: Seq<EventInfo>)
    requires
        events.len() <= u32::MAX,
    ensures
        covers(summarize(events), events),
        forall|i: int|
            0 <= i < summarize(events).len() ==> summarizes(
                #[trigger] summarize(events)[i],
                events,
            ),
    decreases events.len(),
{
    if events.len() > 0 {
        let init = events.drop_last();
        let e = events.last();
        let acc = summarize(init);
        let s = summarize(events);
        lemma_summary_meaning(init);
        lemma_found_kind(acc, e);
        let j = find_kind(acc, e);
        assert(events[events.len() - 1] == e);
        assert forall|k: int| 0 <= k < init.len() implies init[k] == events[k] by {}
        // Each entry of the summary of the events before `e` keeps its
        // meaning, with `e` counted where it belongs.
        assert forall|i: int| 0 <= i < acc.len() && !(i == j && !is_ignored(e.name@)) implies {
            &&& s[i] == acc[i]
            &&& summarizes(acc[i], events)
        } by {
            assert(summarizes(acc[i], init));
            if !is_ignored(e.name@) {
                assert(!same_kind(acc[i], e)) by {
                    if same_kind(acc[i], e) {
                        if i < j {
                        } else {
                            assert(same_kind(acc[j], e));
                            assert(acc[j].block == acc[i].block && acc[j].name@ == acc[i].name@);
                        }
                    }
                }
            }
            let k = choose|k: int|
                {
                    &&& 0 <= k < init.len()
                    &&& same_kind(acc[i], #[trigger] init[k])
                    &&& acc[i].number == init[k].number
                    &&& forall|m: int| 0 <= m < k ==> !same_kind(acc[i], #[trigger] init[m])
                };
            assert(same_kind(acc[i], events[k]));
            assert forall|m: int| 0 <= m < k implies !same_kind(acc[i], #[trigger] events[m]) by {
                assert(events[m] == init[m]);
            }
        }
        if is_ignored(e.name@) {
            assert(s == acc);
            assert(covers(s, events)) by {
                assert forall|k: int|
                    0 <= k < events.len() && !is_ignored(
                        (#[trigger] events[k]).name@,
                    ) implies exists|i: int|
                    0 <= i < s.len() && same_kind(#[trigger] s[i], events[k]) by {
                    assert(events[k] == init[k]);
                }
            }
        } else if j < acc.len() {
            // `e` is counted with the entry of its label.
            assert(summarizes(acc[j], init));
            lemma_count_bounded(init, acc[j].block, acc[j].name@);
            assert(s[j].count == acc[j].count + 1);
            assert(s[j].name == acc[j].name);
            assert(summarizes(s[j], events)) by {
                let k = choose|k: int|
                    {
                        &&& 0 <= k < init.len()
                        &&& same_kind(acc[j], #[trigger] init[k])
                        &&& acc[j].number == init[k].number
                        &&& forall|m: int| 0 <= m < k ==> !same_kind(acc[j], #[trigger] init[m])
                    };
                assert(same_kind(s[j], events[k]));
                assert forall|m: int| 0 <= m < k implies !same_kind(s[j], #[trigger] events[m]) by {
                    assert(events[m] == init[m]);
                }
            }
            assert(covers(s, events)) by {
                assert forall|a: int, b: int| 0 <= a < b < s.len() implies !(
                #[trigger] s[a].block == s[b].block && s[a].name@ == (#[trigger] s[b]).name@) by {
                    assert(s[a].block == acc[a].block && s[a].name@ == acc[a].name@);
                    assert(s[b].block == acc[b].block && s[b].name@ == acc[b].name@);
                }
                assert forall|k: int|
                    0 <= k < events.len() && !is_ignored(
                        (#[trigger] events[k]).name@,
                    ) implies exists|i: int|
                    0 <= i < s.len() && same_kind(#[trigger] s[i], events[k]) by {
                    if k < init.len() {
                        assert(events[k] == init[k]);
                        let i = choose|i: int|
                            0 <= i < acc.len() && same_kind(#[trigger] acc[i], init[k]);
                        assert(same_kind(s[i], events[k]));
                    } else {
                        assert(same_kind(s[j], events[k]));
                    }
                }
            }
        } else {
            // `e` is the first event of its label.
            let last = acc.len() as int;
            assert(s[last].block == e.block && s[last].name == e.name && s[last].count == 1);
            assert forall|m: int| 0 <= m < init.len() implies !(init[m].block == e.block && (
            #[trigger] init[m]).name@ == e.name@) by {
                if init[m].block == e.block && init[m].name@ == e.name@ {
                    let i = choose|i: int|
                        0 <= i < acc.len() && same_kind(#[trigger] acc[i], init[m]);
                    assert(same_kind(acc[i], e));
                }
            }
            assert(count_of(init, e.block, e.name@) == 0) by {
                if count_of(init, e.block, e.name@) > 0 {
                    lemma_counted_occurs(init, e.block, e.name@);
                }
            }
            assert(summarizes(s[last], events)) by {
                let k = events.len() - 1;
                assert(same_kind(s[last], events[k]));
                assert forall|m: int| 0 <= m < k implies !same_kind(
                    s[last],
                    #[trigger] events[m],
                ) by {
                    assert(events[m] == init[m]);
                }
            }
            assert(covers(s, events)) by {
                assert forall|a: int, b: int| 0 <= a < b < s.len() implies !(
                #[trigger] s[a].block == s[b].block && s[a].name@ == (#[trigger] s[b]).name@) by {
                    if b == last {
                        assert(!same_kind(acc[a], e));
                    }
                }
                assert forall|k: int|
                    0 <= k < events.len() && !is_ignored(
                        (#[trigger] events[k]).name@,
                    ) implies exists|i: int|
                    0 <= i < s.len() && same_kind(#[trigger] s[i], events[k]) by {
                    if k < init.len() {
                        assert(events[k] == init[k]);
                        let i = choose|i: int|
                            0 <= i < acc.len() && same_kind(#[trigger] acc[i], init[k]);
                        assert(same_kind(s[i], events[k]));
                    } else {
                        assert(same_kind(s[last], events[k]));
                    }
                }
            }
        }
    }
}

/// Summarizes the events of one block.
pub fn summarize_events(events: &Vec<EventInfo>) -> (r: Vec<BlockEventSummary>)
    requires
        events@.len() <= u32::MAX,
    ensures
        r@ == summarize(events@),
{
    let mut out: Vec<BlockEventSummary> = Vec::new();
    let mut i: usize = 0;
    while i < events.len()
        invariant
            i <= events@.len() <= u32::MAX,
            out@ == summarize(events@.take(i as int)),
            forall|k: int| 0 <= k < out@.len() ==> (#[trigger] out@[k]).count <= i,
        decreases events@.len() - i,
    {
        let e = &events[i];
        proof {
            assert(events@.take(i + 1).drop_last() =~= events@.take(i as int));
            assert(events@.take(i + 1).last() == events@[i as int]);
        }
        if !starts_with(e.name.as_str(), "System.") {
            let mut j: usize = 0;
            while j < out.len() && !(out[j].block == e.block && out[j].name == e.name)
                invariant
                    j <= out@.len(),
                    forall|k: int| 0 <= k < j ==> !same_kind(#[trigger] out@[k], *e),
                decreases out@.len() - j,
            {
                j += 1;
            }
            proof {
                lemma_find_kind(out@, *e, j as int);
            }
            if j < out.len() {
                out[j].count = out[j].count + 1;
            } else {
                out.push(
                    BlockEventSummary {
                        block: e.block,
                        number: e.number,
                        name: e.name.clone(),
                        count: 1,
                    },
                );
            }
        }
        i += 1;
    }
    assert(events@.take(events@.len() as int) =~= events@);
    out
}

} // verus!
