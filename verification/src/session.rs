//! The session as a mathematical value: which globals are advertised, which
//! outputs are bound, how far each description has come, and what each
//! message makes of it.

use crate::display::{DisplayRecord, shown};
use crate::output::{announces, fresh_slot, OutputMsg, OutputSlot, slot_after};
use crate::protocol::{output_msg, registry_msg};
use crate::wire::{header_of, ProtocolError};
use vstd::prelude::*;

verus! {

/// The object id of the registry. Id 1 is the display itself.
pub const REGISTRY_ID: u32 = 2;

/// The first object id that a bound output can get.
pub const FIRST_OUTPUT_ID: u32 = 3;

/// The last object id that the client side may allocate.
pub const LAST_CLIENT_ID: u32 = 0xFEFF_FFFF;

/// The highest version of the output interface that the client speaks.
pub const OUTPUT_VERSION: u32 = 4;

/// The version that a binding gets: the requested one, but no more than
/// the compositor advertises.
pub open spec fn clamped(requested: u32, advertised: u32) -> u32 {
    if requested <= advertised {
        requested
    } else {
        advertised
    }
}

/// The request that binds global `name` to a new object `new_id`.
#[derive(Debug, Clone, Copy, PartialEq, Eq, Structural)]
pub struct BindRequest {
    pub name: u32,
    pub version: u32,
    pub new_id: u32,
}

/// The mathematical value of a [`Global`].
pub struct GlobalRecord {
    pub name: u32,
    pub interface: Seq<char>,
    pub version: u32,
}

/// The mathematical value of an [`Event`].
pub enum Msg {
    Global { name: u32, interface: Seq<char>, version: u32 },
    GlobalRemove { name: u32 },
    Output { object_id: u32, msg: OutputMsg },
}

/// The mathematical value of a [`WaylandClient`].
pub struct Session {
    /// The globals that are advertised, in the order of their announcement.
    pub globals: Seq<GlobalRecord>,
    /// The bound outputs, in the order in which they were bound.
    pub outputs: Seq<OutputSlot>,
    /// Whether an output was added or removed since the flag was cleared.
    pub changed: bool,
    /// The object id that the next binding gets.
    pub next_id: u32,
}

/// Whether every slot's object id lies between the first output id and
/// `next_id`, and no two slots share one.
pub open spec fn ids_in_order(outs: Seq<OutputSlot>, next_id: u32) -> bool {
    &&& forall|i: int|
        0 <= i < outs.len() ==> FIRST_OUTPUT_ID <= (#[trigger] outs[i]).object_id < next_id
    &&& forall|i: int, j: int|
        0 <= i < j < outs.len() ==> (#[trigger] outs[i]).object_id != (#[trigger] outs[j]).object_id
}

impl Session {
    /// The invariant of a session: object ids are handed out upwards and
    /// never twice.
    pub open spec fn wf(self) -> bool {
        self.next_id >= FIRST_OUTPUT_ID && ids_in_order(self.outputs, self.next_id)
    }
}

/// The session at the start of a turn of a watch: the first turn clears
/// the change flag.
pub open spec fn watch_start(s: Session, first: bool) -> Session {
    if first {
        Session { changed: false, ..s }
    } else {
        s
    }
}

/// The session right after the registry was created.
pub open spec fn initial_session() -> Session {
    Session {
        globals: Seq::empty(),
        outputs: Seq::empty(),
        changed: false,
        next_id: FIRST_OUTPUT_ID,
    }
}

/// Whether `interface` names the output interface.
pub open spec fn is_output_interface(interface: Seq<char>) -> bool {
    interface == "wl_output"@
}

/// Whether some bound output is the object `id`.
pub open spec fn has_object(outs: Seq<OutputSlot>, id: u32) -> bool {
    exists|i: int| 0 <= i < outs.len() && (#[trigger] outs[i]).object_id == id
}

/// Whether some bound output was bound from global `name`.
pub open spec fn has_global(outs: Seq<OutputSlot>, name: u32) -> bool {
    exists|i: int| 0 <= i < outs.len() && (#[trigger] outs[i]).global == name
}

/// The outputs after `msg` was delivered to object `id`: that object's slot
/// moves, every other slot stays.
pub open spec fn outputs_after(outs: Seq<OutputSlot>, id: u32, msg: OutputMsg) -> Seq<
    OutputSlot,
> {
    Seq::new(
        outs.len(),
        |i: int|
            if outs[i].object_id == id {
                slot_after(outs[i], msg)
            } else {
                outs[i]
            },
    )
}

/// Whether delivering `msg` to object `id` makes an output count as added.
pub open spec fn adds_output(outs: Seq<OutputSlot>, id: u32, msg: OutputMsg) -> bool {
    exists|i: int|
        0 <= i < outs.len() && (#[trigger] outs[i]).object_id == id && announces(outs[i], msg)
}

/// `s` without the items that `gone` holds of, order kept.
pub open spec fn without<T>(s: Seq<T>, gone: spec_fn(T) -> bool) -> Seq<T>
    decreases s.len(),
{
    if s.len() == 0 {
        s
    } else {
        let rest = without(s.drop_last(), gone);
        if gone(s.last()) {
            rest
        } else {
            rest.push(s.last())
        }
    }
}

/// Holds of the slots that are bound from global `name`.
pub open spec fn bound_from(name: u32) -> spec_fn(OutputSlot) -> bool {
    |slot: OutputSlot| slot.global == name
}

/// Holds of the globals that go by `name`.
pub open spec fn called(name: u32) -> spec_fn(GlobalRecord) -> bool {
    |global: GlobalRecord| global.name == name
}

/// The outputs without those bound from global `name`, order kept.
pub open spec fn without_global(outs: Seq<OutputSlot>, name: u32) -> Seq<OutputSlot> {
    without(outs, bound_from(name))
}

/// The session with one more output, bound from global `name` at `version`.
pub open spec fn with_output(s: Session, name: u32, version: u32) -> Session {
    Session {
        outputs: s.outputs.push(fresh_slot(s.next_id, name, version)),
        next_id: (s.next_id + 1) as u32,
        ..s
    }
}

/// The session after one message. An announced global is recorded, and
/// bound where it is an output. A removed global is forgotten, with the
/// outputs that were bound from it. A message to an output moves that
/// output on. A message that is rejected changes nothing.
pub open spec fn session_after(s: Session, m: Msg) -> Session {
    match m {
        Msg::Global { name, interface, version } => {
            let listed = Session {
                globals: s.globals.push(GlobalRecord { name, interface, version }),
                ..s
            };
            if !is_output_interface(interface) {
                listed
            } else if s.next_id <= LAST_CLIENT_ID {
                with_output(listed, name, clamped(OUTPUT_VERSION, version))
            } else {
                s
            }
        },
        Msg::GlobalRemove { name } => Session {
            globals: without(s.globals, called(name)),
            outputs: without_global(s.outputs, name),
            changed: s.changed || has_global(s.outputs, name),
            ..s
        },
        Msg::Output { object_id, msg } => Session {
            outputs: outputs_after(s.outputs, object_id, msg),
            changed: s.changed || adds_output(s.outputs, object_id, msg),
            ..s
        },
    }
}

/// What the client owes the compositor after one message, or why the
/// message ends the session.
pub open spec fn outcome(s: Session, m: Msg) -> Result<Option<BindRequest>, ProtocolError> {
    match m {
        Msg::Global { name, interface, version } => {
            if !is_output_interface(interface) {
                Ok(None)
            } else if s.next_id <= LAST_CLIENT_ID {
                Ok(
                    Some(
                        BindRequest {
                            name,
                            version: clamped(OUTPUT_VERSION, version),
                            new_id: s.next_id,
                        },
                    ),
                )
            } else {
                Err(ProtocolError::IdsExhausted)
            }
        },
        Msg::GlobalRemove { .. } => Ok(None),
        Msg::Output { object_id, .. } => {
            if has_object(s.outputs, object_id) {
                Ok(None)
            } else {
                Err(ProtocolError::UnknownObject)
            }
        },
    }
}

/// The message that the frame at the start of `b` carries, and the frame's
/// size. The header names the object, and the object's interface decides
/// what the opcode and the arguments mean.
#[verifier::opaque]
pub open spec fn frame_msg(s: Session, b: Seq<u8>) -> Result<(Msg, int), ProtocolError> {
    match header_of(b) {
        Err(e) => Err(e),
        Ok(h) => {
            let p = b.subrange(8, h.size as int);
            if h.object_id == REGISTRY_ID {
                match registry_msg(h.opcode, p) {
                    Ok(m) => Ok((m, h.size as int)),
                    Err(e) => Err(e),
                }
            } else if has_object(s.outputs, h.object_id) {
                match output_msg(h.opcode, p) {
                    Ok(msg) => Ok((Msg::Output { object_id: h.object_id, msg }, h.size as int)),
                    Err(e) => Err(e),
                }
            } else {
                Err(ProtocolError::UnknownObject)
            }
        },
    }
}

/// The session after the frame at the start of `b`. A frame that is
/// rejected changes nothing.
pub open spec fn frame_session(s: Session, b: Seq<u8>) -> Session {
    match frame_msg(s, b) {
        Ok((m, _)) => session_after(s, m),
        Err(_) => s,
    }
}

/// The size of the frame at the start of `b` and what the client owes the
/// compositor after it, or why the frame ends the session.
pub open spec fn frame_outcome(s: Session, b: Seq<u8>) -> Result<
    (int, Option<BindRequest>),
    ProtocolError,
> {
    match frame_msg(s, b) {
        Ok((m, n)) => match outcome(s, m) {
            Ok(request) => Ok((n, request)),
            Err(e) => Err(e),
        },
        Err(e) => Err(e),
    }
}

/// The requests that one message leaves to send: one or none.
pub open spec fn requests_of(request: Option<BindRequest>) -> Seq<BindRequest> {
    match request {
        Some(r) => seq![r],
        None => Seq::empty(),
    }
}

/// The session after a batch of messages, first to last. The first
/// message that is rejected ends the batch.
pub open spec fn session_after_all(s: Session, batch: Seq<Msg>) -> Session
    decreases batch.len(),
{
    if batch.len() == 0 || outcome(s, batch[0]) is Err {
        s
    } else {
        session_after_all(session_after(s, batch[0]), batch.drop_first())
    }
}

/// The requests that a batch of messages leaves to send, in order, or the
/// error of the first message that is rejected.
pub open spec fn outcome_of_all(s: Session, batch: Seq<Msg>) -> Result<
    Seq<BindRequest>,
    ProtocolError,
>
    decreases batch.len(),
{
    if batch.len() == 0 {
        Ok(Seq::empty())
    } else {
        match outcome(s, batch[0]) {
            Err(e) => Err(e),
            Ok(request) => match outcome_of_all(session_after(s, batch[0]), batch.drop_first()) {
                Ok(rest) => Ok(requests_of(request) + rest),
                Err(e) => Err(e),
            },
        }
    }
}

/// The session after every frame in `b`, first to last. The first frame
/// that is rejected ends the pass.
pub open spec fn pending_session(s: Session, b: Seq<u8>) -> Session
    decreases b.len(),
{
    match frame_outcome(s, b) {
        Ok((n, _)) => if 0 < n <= b.len() {
            pending_session(frame_session(s, b), b.subrange(n, b.len() as int))
        } else {
            s
        },
        Err(_) => s,
    }
}

/// The requests that the frames in `b` leave to send, in order, or the
/// error of the first frame that is rejected. Bytes that are left over
/// after the last whole frame are a truncated frame.
pub open spec fn pending_outcome(s: Session, b: Seq<u8>) -> Result<
    Seq<BindRequest>,
    ProtocolError,
>
    decreases b.len(),
{
    if b.len() == 0 {
        Ok(Seq::empty())
    } else {
        match frame_outcome(s, b) {
            Err(e) => Err(e),
            Ok((n, request)) => if 0 < n <= b.len() {
                match pending_outcome(frame_session(s, b), b.subrange(n, b.len() as int)) {
                    Ok(rest) => Ok(requests_of(request) + rest),
                    Err(e) => Err(e),
                }
            } else {
                Err(ProtocolError::BadSize)
            },
        }
    }
}

/// A result with `head` put before the requests it holds.
pub open spec fn after_requests(
    head: Seq<BindRequest>,
    tail: Result<Seq<BindRequest>, ProtocolError>,
) -> Result<Seq<BindRequest>, ProtocolError> {
    match tail {
        Ok(rest) => Ok(head + rest),
        Err(e) => Err(e),
    }
}

/// Putting two runs of requests before a result, one after the other, is
/// putting their concatenation before it.
pub proof fn lemma_after_requests(
    a: Seq<BindRequest>,
    b: Seq<BindRequest>,
    tail: Result<Seq<BindRequest>, ProtocolError>,
)
    ensures
        after_requests(a, after_requests(b, tail)) == after_requests(a + b, tail),
{
    if let Ok(rest) = tail {
        assert(a + (b + rest) =~= (a + b) + rest);
    }
}

/// Putting no request before a result leaves it as it is.
pub proof fn lemma_after_nothing(tail: Result<Seq<BindRequest>, ProtocolError>)
    ensures
        after_requests(Seq::empty(), tail) == tail,
{
    if let Ok(rest) = tail {
        assert(Seq::<BindRequest>::empty() + rest =~= rest);
    }
}

/// The listed form of every finished description, in the order of the
/// outputs. Pending descriptions are left out.
pub open spec fn listing(outs: Seq<OutputSlot>) -> Seq<DisplayRecord>
    decreases outs.len(),
{
    if outs.len() == 0 {
        Seq::empty()
    } else {
        let rest = listing(outs.drop_last());
        if outs.last().complete {
            rest.push(shown(outs.last().record))
        } else {
            rest
        }
    }
}

/// Removing an item that `without` drops does not change its result.
pub proof fn lemma_without_remove<T>(s: Seq<T>, gone: spec_fn(T) -> bool, i: int)
    requires
        0 <= i < s.len(),
        gone(s[i]),
    ensures
        without(s.remove(i), gone) == without(s, gone),
    decreases s.len(),
{
    if i == s.len() - 1 {
        assert(s.remove(i) =~= s.drop_last());
    } else {
        lemma_without_remove(s.drop_last(), gone, i);
        assert(s.remove(i).drop_last() =~= s.drop_last().remove(i));
        assert(s.remove(i).last() == s.last());
    }
}

/// Where `gone` holds of no item, `without` keeps them all.
pub proof fn lemma_without_none<T>(s: Seq<T>, gone: spec_fn(T) -> bool)
    requires
        forall|j: int| 0 <= j < s.len() ==> !gone(#[trigger] s[j]),
    ensures
        without(s, gone) == s,
    decreases s.len(),
{
    if s.len() > 0 {
        lemma_without_none(s.drop_last(), gone);
        assert(s.drop_last().push(s.last()) =~= s);
    }
}

/// What `without` keeps are items of the sequence it was given, and
/// `gone` holds of none of them.
pub proof fn lemma_without_members<T>(s: Seq<T>, gone: spec_fn(T) -> bool)
    ensures
        forall|k: int|
            0 <= k < without(s, gone).len() ==> s.contains(#[trigger] without(s, gone)[k])
                && !gone(without(s, gone)[k]),
    decreases s.len(),
{
    if s.len() > 0 {
        let init = s.drop_last();
        let rest = without(init, gone);
        let kept = without(s, gone);
        lemma_without_members(init, gone);
        assert forall|k: int| 0 <= k < kept.len() implies s.contains(#[trigger] kept[k]) && !gone(
            kept[k],
        ) by {
            if k < rest.len() {
                assert(kept[k] == rest[k]);
                let j = choose|j: int| 0 <= j < init.len() && init[j] == rest[k];
                assert(s[j] == rest[k]);
            } else {
                assert(kept[k] == s.last());
                assert(s[s.len() - 1] == s.last());
            }
        }
    }
}

/// `without` keeps every item that `gone` does not hold of.
pub proof fn lemma_without_keeps<T>(s: Seq<T>, gone: spec_fn(T) -> bool, x: T)
    requires
        s.contains(x),
        !gone(x),
    ensures
        without(s, gone).contains(x),
    decreases s.len(),
{
    let j = choose|j: int| 0 <= j < s.len() && s[j] == x;
    let kept = without(s, gone);
    if j == s.len() - 1 {
        assert(kept[kept.len() - 1] == x);
    } else {
        let init = s.drop_last();
        assert(init[j] == x);
        lemma_without_keeps(init, gone, x);
        let rest = without(init, gone);
        let k = choose|k: int| 0 <= k < rest.len() && rest[k] == x;
        assert(kept[k] == x);
    }
}

/// `without_global` keeps slots of the sequence it was given, and with
/// them the order of their ids.
pub proof fn lemma_without_global_ids(outs: Seq<OutputSlot>, name: u32, next_id: u32)
    requires
        ids_in_order(outs, next_id),
    ensures
        ids_in_order(without_global(outs, name), next_id),
        forall|k: int|
            0 <= k < without_global(outs, name).len() ==> outs.contains(
                #[trigger] without_global(outs, name)[k],
            ),
    decreases outs.len(),
{
    if outs.len() > 0 {
        let init = outs.drop_last();
        let rest = without_global(init, name);
        let kept = without_global(outs, name);
        lemma_without_global_ids(init, name, next_id);
        assert forall|k: int| 0 <= k < rest.len() implies outs.contains(#[trigger] rest[k])
            && rest[k].object_id != outs.last().object_id by {
            let j = choose|j: int| 0 <= j < init.len() && init[j] == rest[k];
            assert(outs[j] == rest[k]);
        }
        if outs.last().global != name {
            assert(outs[outs.len() - 1] == outs.last());
            assert forall|k: int| 0 <= k < kept.len() implies outs.contains(#[trigger] kept[k]) by {
                if k < rest.len() {
                    assert(kept[k] == rest[k]);
                }
            }
            assert forall|i: int, j: int| 0 <= i < j < kept.len() implies (#[trigger] kept[i]).object_id
                != (#[trigger] kept[j]).object_id by {
                assert(kept[i] == rest[i]);
                if j < rest.len() {
                    assert(kept[j] == rest[j]);
                }
            }
        }
    }
}

/// A message that is rejected leaves the session as it was.
pub proof fn lemma_rejected_unchanged(s: Session, m: Msg)
    requires
        outcome(s, m) is Err,
    ensures
        session_after(s, m) == s,
{
    match m {
        Msg::Output { object_id, msg } => {
            assert(!adds_output(s.outputs, object_id, msg));
            assert(outputs_after(s.outputs, object_id, msg) =~= s.outputs);
        },
        _ => {},
    }
}

/// Every message leaves the session's invariant in place.
pub proof fn lemma_session_after_wf(s: Session, m: Msg)
    requires
        s.wf(),
    ensures
        session_after(s, m).wf(),
{
    let t = session_after(s, m);
    match m {
        Msg::Global { name, interface, version } => {
            if is_output_interface(interface) && s.next_id <= LAST_CLIENT_ID {
                assert forall|i: int, j: int| 0 <= i < j < t.outputs.len() implies (
                #[trigger] t.outputs[i]).object_id != (#[trigger] t.outputs[j]).object_id by {
                    assert(t.outputs[i] == s.outputs[i]);
                    if j < s.outputs.len() {
                        assert(t.outputs[j] == s.outputs[j]);
                    }
                }
                assert forall|i: int| 0 <= i < t.outputs.len() implies FIRST_OUTPUT_ID <= (
                #[trigger] t.outputs[i]).object_id < t.next_id by {
                    if i < s.outputs.len() {
                        assert(t.outputs[i] == s.outputs[i]);
                    }
                }
            }
        },
        Msg::GlobalRemove { name } => {
            lemma_without_global_ids(s.outputs, name, s.next_id);
        },
        Msg::Output { object_id, msg } => {
            assert forall|i: int| 0 <= i < t.outputs.len() implies (#[trigger] t.outputs[i]).object_id
                == s.outputs[i].object_id by {}
        },
    }
}

} // verus!
