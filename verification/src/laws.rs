//! What holds of every session, stated over the spec functions that the
//! contracts of the client use.

use crate::client::displays;
use crate::display::{DisplayOutput, shown};
use crate::output::{
    OutputMsg, OutputSlot, announces, blank_record, slot_after, slot_after_all, with_properties,
};
use crate::session::{
    adds_output, bound_from, called, GlobalRecord, has_global, has_object, is_output_interface,
    LAST_CLIENT_ID, lemma_without_keeps, lemma_without_members, lemma_without_none, listing, Msg,
    outputs_after, Session, session_after, without, without_global,
};
use vstd::prelude::*;

verus! {

/// A listing shows finished descriptions only: each of its records is the
/// listed form of an output whose description is complete.
pub proof fn listing_shows_only_complete(outs: Seq<OutputSlot>)
    ensures
        listing(outs).len() <= outs.len(),
        forall|k: int|
            0 <= k < listing(outs).len() ==> exists|i: int|
                0 <= i < outs.len() && (#[trigger] outs[i]).complete && #[trigger] listing(outs)[k]
                    == shown(outs[i].record),
    decreases outs.len(),
{
    if outs.len() > 0 {
        let init = outs.drop_last();
        listing_shows_only_complete(init);
        assert forall|k: int| 0 <= k < listing(outs).len() implies exists|i: int|
            0 <= i < outs.len() && (#[trigger] outs[i]).complete && #[trigger] listing(outs)[k]
                == shown(outs[i].record) by {
            if k < listing(init).len() {
                let i = choose|i: int|
                    0 <= i < init.len() && (#[trigger] init[i]).complete && listing(init)[k]
                        == shown(init[i].record);
                assert(outs[i] == init[i]);
                assert(outs[i].complete && listing(outs)[k] == shown(outs[i].record));
            } else {
                let i = outs.len() - 1;
                assert(outs[i].complete && listing(outs)[k] == shown(outs[i].record));
            }
        }
    }
}

/// Where every description is complete, the listing shows every output.
pub proof fn listing_shows_all_complete(outs: Seq<OutputSlot>)
    requires
        forall|i: int| 0 <= i < outs.len() ==> (#[trigger] outs[i]).complete,
    ensures
        listing(outs).len() == outs.len(),
        forall|i: int| 0 <= i < outs.len() ==> #[trigger] listing(outs)[i] == shown(outs[i].record),
    decreases outs.len(),
{
    if outs.len() > 0 {
        listing_shows_all_complete(outs.drop_last());
    }
}

/// Property messages on a finished description start from the blank record.
pub proof fn lemma_new_generation(slot: OutputSlot, props: Seq<OutputMsg>)
    requires
        slot.complete,
        props.len() > 0,
        forall|k: int| 0 <= k < props.len() ==> !(#[trigger] props[k] is Done),
    ensures
        slot_after_all(slot, props) == (OutputSlot {
            complete: false,
            record: with_properties(blank_record(), props),
            ..slot
        }),
    decreases props.len(),
{
    let init = props.drop_last();
    assert(!(props[props.len() - 1] is Done));
    if init.len() == 0 {
        assert(slot_after_all(slot, init) == slot);
        assert(with_properties(blank_record(), init) == blank_record());
    } else {
        assert forall|k: int| 0 <= k < init.len() implies !(#[trigger] init[k] is Done) by {
            assert(init[k] == props[k]);
        }
        lemma_new_generation(slot, init);
    }
}

/// A second generation replaces the first: after any messages, `Done`,
/// one or more property messages and `Done` again, the description is
/// complete and holds what the second batch alone says. Nothing of the
/// first batch is left in it.
pub proof fn generation_replaces(slot: OutputSlot, first: Seq<OutputMsg>, second: Seq<OutputMsg>)
    requires
        second.len() > 0,
        forall|k: int| 0 <= k < second.len() ==> !(#[trigger] second[k] is Done),
    ensures
        ({
            let published = slot_after(slot_after_all(slot, first), OutputMsg::Done);
            let republished = slot_after(slot_after_all(published, second), OutputMsg::Done);
            &&& published.complete
            &&& republished.complete
            &&& republished.record == with_properties(blank_record(), second)
        }),
{
    let published = slot_after(slot_after_all(slot, first), OutputMsg::Done);
    lemma_new_generation(published, second);
}

/// `Done` with no property before it finishes a fresh output with the
/// blank record.
pub proof fn done_alone_gives_blank(object_id: u32, global: u32, version: u32)
    ensures
        ({
            let slot = slot_after(
                crate::output::fresh_slot(object_id, global, version),
                OutputMsg::Done,
            );
            slot.complete && slot.record == blank_record()
        }),
{
}

/// Removing a global that an output is bound from sets the change flag.
pub proof fn removal_is_a_change(s: Session, name: u32)
    requires
        has_global(s.outputs, name),
    ensures
        session_after(s, Msg::GlobalRemove { name }).changed,
        !has_global(session_after(s, Msg::GlobalRemove { name }).outputs, name),
{
    lemma_without_drops(s.outputs, name);
}

/// `without_global` leaves no slot that is bound from `name`.
pub proof fn lemma_without_drops(outs: Seq<OutputSlot>, name: u32)
    ensures
        !has_global(without_global(outs, name), name),
    decreases outs.len(),
{
    if outs.len() > 0 {
        lemma_without_drops(outs.drop_last(), name);
    }
}

/// Removing a global that no output is bound from is no change: the
/// outputs and the flag stay as they were.
pub proof fn unbound_removal_is_no_change(s: Session, name: u32)
    requires
        !has_global(s.outputs, name),
    ensures
        session_after(s, Msg::GlobalRemove { name }).outputs == s.outputs,
        session_after(s, Msg::GlobalRemove { name }).changed == s.changed,
{
    lemma_without_none(s.outputs, bound_from(name));
}

/// A new output is a change: once an output global is announced and
/// bound, the `Done` that finishes its first description sets the flag.
pub proof fn new_output_is_a_change(s: Session, name: u32, interface: Seq<char>, version: u32)
    requires
        is_output_interface(interface),
        s.next_id <= LAST_CLIENT_ID,
    ensures
        ({
            let bound = session_after(s, Msg::Global { name, interface, version });
            let done = session_after(
                bound,
                Msg::Output { object_id: s.next_id, msg: OutputMsg::Done },
            );
            &&& has_object(bound.outputs, s.next_id)
            &&& bound.changed == s.changed
            &&& done.changed
        }),
{
    let bound = session_after(s, Msg::Global { name, interface, version });
    let last = bound.outputs.len() - 1;
    assert(bound.outputs[last].object_id == s.next_id);
    assert(announces(bound.outputs[last], OutputMsg::Done));
}

/// An update is no change: a message to an output whose description is
/// complete, or was so before, leaves the flag as it was, whatever it
/// says. So does every property message to any output.
pub proof fn update_is_no_change(s: Session, object_id: u32, msg: OutputMsg)
    requires
        !(msg is Done) || forall|i: int|
            0 <= i < s.outputs.len() && (#[trigger] s.outputs[i]).object_id == object_id
                ==> s.outputs[i].complete || s.outputs[i].announced,
    ensures
        session_after(s, Msg::Output { object_id, msg }).changed == s.changed,
{
    assert(!adds_output(s.outputs, object_id, msg));
}

/// An output that was announced once stays announced, and none has a
/// complete description without having been announced.
pub proof fn announced_stays(slot: OutputSlot, msg: OutputMsg)
    requires
        slot.complete ==> slot.announced,
    ensures
        slot_after(slot, msg).complete ==> slot_after(slot, msg).announced,
        slot.announced ==> slot_after(slot, msg).announced,
{
}

/// Whether a global that goes by `name` is among `globals`.
pub open spec fn is_advertised(globals: Seq<GlobalRecord>, name: u32) -> bool {
    exists|k: int| 0 <= k < globals.len() && (#[trigger] globals[k]).name == name
}

/// Whether every bound output is bound from a global that is advertised.
pub open spec fn bound_from_advertised(s: Session) -> bool {
    forall|i: int|
        0 <= i < s.outputs.len() ==> is_advertised(s.globals, (#[trigger] s.outputs[i]).global)
}

/// No output outlives its global: where every bound output is bound from
/// an advertised global, this is so after any message too.
pub proof fn outputs_stay_advertised(s: Session, m: Msg)
    requires
        bound_from_advertised(s),
    ensures
        bound_from_advertised(session_after(s, m)),
{
    let t = session_after(s, m);
    match m {
        Msg::Global { name, interface, version } => {
            if t != s {
                assert forall|i: int| 0 <= i < t.outputs.len() implies is_advertised(
                    t.globals,
                    (#[trigger] t.outputs[i]).global,
                ) by {
                    if i < s.outputs.len() {
                        assert(t.outputs[i] == s.outputs[i]);
                        let k = choose|k: int|
                            0 <= k < s.globals.len() && (#[trigger] s.globals[k]).name
                                == s.outputs[i].global;
                        assert(t.globals[k] == s.globals[k]);
                    } else {
                        assert(t.globals[s.globals.len() as int].name == name);
                    }
                }
            }
        },
        Msg::GlobalRemove { name } => {
            lemma_without_members(s.outputs, bound_from(name));
            assert forall|i: int| 0 <= i < t.outputs.len() implies is_advertised(
                t.globals,
                (#[trigger] t.outputs[i]).global,
            ) by {
                let slot = t.outputs[i];
                assert(s.outputs.contains(slot) && slot.global != name);
                let j = choose|j: int| 0 <= j < s.outputs.len() && s.outputs[j] == slot;
                let k = choose|k: int|
                    0 <= k < s.globals.len() && (#[trigger] s.globals[k]).name
                        == s.outputs[j].global;
                let global = s.globals[k];
                assert(s.globals.contains(global));
                lemma_without_keeps(s.globals, called(name), global);
                let kept = without(s.globals, called(name));
                let w = choose|w: int| 0 <= w < kept.len() && kept[w] == global;
                assert(t.globals[w].name == slot.global);
            }
        },
        Msg::Output { object_id, msg } => {
            assert forall|i: int| 0 <= i < t.outputs.len() implies is_advertised(
                t.globals,
                (#[trigger] t.outputs[i]).global,
            ) by {
                assert(t.outputs[i].global == s.outputs[i].global);
            }
        },
    }
}

/// The outputs after a sequence of addressed messages, first to last.
pub open spec fn outputs_after_all(outs: Seq<OutputSlot>, frames: Seq<(u32, OutputMsg)>) -> Seq<
    OutputSlot,
>
    decreases frames.len(),
{
    if frames.len() == 0 {
        outs
    } else {
        outputs_after(outputs_after_all(outs, frames.drop_last()), frames.last().0, frames.last().1)
    }
}

/// The messages among `frames` that are addressed to `id`, order kept.
pub open spec fn addressed_to(frames: Seq<(u32, OutputMsg)>, id: u32) -> Seq<OutputMsg>
    decreases frames.len(),
{
    if frames.len() == 0 {
        Seq::empty()
    } else if frames.last().0 == id {
        addressed_to(frames.drop_last(), id).push(frames.last().1)
    } else {
        addressed_to(frames.drop_last(), id)
    }
}

/// Each output goes its own way: after any interleaving of messages, an
/// output's slot is what the messages addressed to it alone make of it.
pub proof fn each_output_on_its_own(outs: Seq<OutputSlot>, frames: Seq<(u32, OutputMsg)>, i: int)
    requires
        0 <= i < outs.len(),
    ensures
        outputs_after_all(outs, frames).len() == outs.len(),
        outputs_after_all(outs, frames)[i] == slot_after_all(
            outs[i],
            addressed_to(frames, outs[i].object_id),
        ),
        outputs_after_all(outs, frames)[i].object_id == outs[i].object_id,
    decreases frames.len(),
{
    if frames.len() > 0 {
        let init = frames.drop_last();
        each_output_on_its_own(outs, init, i);
        let id = outs[i].object_id;
        if frames.last().0 == id {
            let mine = addressed_to(frames, id);
            assert(mine.drop_last() =~= addressed_to(init, id));
            assert(mine.last() == frames.last().1);
        }
    }
}

/// Two interleavings that agree on the messages addressed to an output
/// leave that output with the same slot.
pub proof fn interleaving_does_not_matter(
    outs: Seq<OutputSlot>,
    one: Seq<(u32, OutputMsg)>,
    other: Seq<(u32, OutputMsg)>,
    i: int,
)
    requires
        0 <= i < outs.len(),
        addressed_to(one, outs[i].object_id) == addressed_to(other, outs[i].object_id),
    ensures
        outputs_after_all(outs, one)[i] == outputs_after_all(outs, other)[i],
{
    each_output_on_its_own(outs, one, i);
    each_output_on_its_own(outs, other, i);
}

/// Listing twice gives the same: two results that each meet the contract
/// of a listing of one session hold the same records in the same order.
pub proof fn listing_repeats(s: Session, once: Seq<DisplayOutput>, again: Seq<DisplayOutput>)
    requires
        displays(once) == listing(s.outputs),
        displays(again) == listing(s.outputs),
    ensures
        displays(once) == displays(again),
        once.len() == again.len(),
        forall|k: int| 0 <= k < once.len() ==> (#[trigger] once[k])@ == again[k]@,
{
    assert(displays(once).len() == once.len());
    assert(displays(again).len() == again.len());
    assert forall|k: int| 0 <= k < once.len() implies (#[trigger] once[k])@ == again[k]@ by {
        assert(displays(once)[k] == once[k]@);
        assert(displays(again)[k] == again[k]@);
    }
}

} // verus!
