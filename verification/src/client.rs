//! The client: the state of one session with a compositor, and the
//! operations that take messages in, list the outputs and watch for changes.

use crate::display::{DisplayOutput, DisplayRecord, shown};
use crate::output::{fresh_slot, OutputEntry, OutputEvent, OutputSlot};
use crate::protocol::{decode_output_event, decode_registry_event};
use crate::session::{
    adds_output, after_requests, BindRequest, bound_from, called, clamped, FIRST_OUTPUT_ID,
    frame_msg, frame_outcome, frame_session, GlobalRecord, has_global, has_object, initial_session,
    LAST_CLIENT_ID, lemma_after_nothing, lemma_after_requests, lemma_rejected_unchanged,
    lemma_session_after_wf, lemma_without_none, lemma_without_remove, listing, Msg, outcome,
    outcome_of_all, OUTPUT_VERSION, outputs_after, pending_outcome, pending_session, REGISTRY_ID,
    requests_of, Session, session_after, session_after_all, watch_start, with_output, without,
    without_global,
};
use crate::wire::{decode_header, ProtocolError};
use vstd::prelude::*;
use vstd::slice::slice_subrange;

verus! {

/// The version to bind at when `requested` is wanted and the compositor
/// advertises `advertised`: never more than either.
pub fn negotiated_version(requested: u32, advertised: u32) -> (r: u32)
    ensures
        r == clamped(requested, advertised),
        r <= requested,
        r <= advertised,
        r == requested || r == advertised,
{
    if requested <= advertised {
        requested
    } else {
        advertised
    }
}

/// A global that the compositor advertises.
#[derive(Debug, PartialEq, Eq)]
pub struct Global {
    pub name: u32,
    pub interface: String,
    pub version: u32,
}

impl View for Global {
    type V = GlobalRecord;

    open spec fn view(&self) -> GlobalRecord {
        GlobalRecord { name: self.name, interface: self.interface@, version: self.version }
    }
}

/// The values of a sequence of globals.
pub open spec fn global_records(v: Seq<Global>) -> Seq<GlobalRecord> {
    Seq::new(v.len(), |i: int| v[i]@)
}

/// A decoded message from the compositor.
#[derive(Debug, PartialEq, Eq)]
pub enum Event {
    Global { name: u32, interface: String, version: u32 },
    GlobalRemove { name: u32 },
    Output { object_id: u32, event: OutputEvent },
}

impl View for Event {
    type V = Msg;

    open spec fn view(&self) -> Msg {
        match *self {
            Event::Global { name, interface, version } => Msg::Global {
                name,
                interface: interface@,
                version,
            },
            Event::GlobalRemove { name } => Msg::GlobalRemove { name },
            Event::Output { object_id, event } => Msg::Output { object_id, msg: event@ },
        }
    }
}

/// The state of one session with a compositor. Its value is a
/// [`Session`]; every operation keeps the session's invariant.
pub struct WaylandClient {
    globals: Vec<Global>,
    outputs: Vec<OutputEntry>,
    output_changed: bool,
    next_id: u32,
}

/// The slots that a sequence of entries stands for.
pub open spec fn slots(v: Seq<OutputEntry>) -> Seq<OutputSlot> {
    Seq::new(v.len(), |i: int| v[i]@)
}

/// The values of a sequence of listed outputs.
pub open spec fn displays(v: Seq<DisplayOutput>) -> Seq<DisplayRecord> {
    Seq::new(v.len(), |i: int| v[i]@)
}

impl View for WaylandClient {
    type V = Session;

    closed spec fn view(&self) -> Session {
        Session {
            globals: global_records(self.globals@),
            outputs: slots(self.outputs@),
            changed: self.output_changed,
            next_id: self.next_id,
        }
    }
}

/// The messages that a sequence of events stands for.
pub open spec fn msgs(v: Seq<Event>) -> Seq<Msg> {
    Seq::new(v.len(), |i: int| v[i]@)
}

/// Whether `r` holds the requests, or the error, that `want` says.
pub open spec fn is_outcome(
    r: Result<Vec<BindRequest>, ProtocolError>,
    want: Result<Seq<BindRequest>, ProtocolError>,
) -> bool {
    match want {
        Ok(requests) => r is Ok && r->Ok_0@ == requests,
        Err(e) => r == Err::<Vec<BindRequest>, ProtocolError>(e),
    }
}

impl WaylandClient {
    /// The client right after the registry was created: no output is bound
    /// and nothing has changed.
    pub fn new() -> (r: WaylandClient)
        ensures
            r@ == initial_session(),
            r@.wf(),
    {
        let r = WaylandClient {
            globals: Vec::new(),
            outputs: Vec::new(),
            output_changed: false,
            next_id: FIRST_OUTPUT_ID,
        };
        assert(slots(r.outputs@) =~= Seq::empty());
        assert(global_records(r.globals@) =~= Seq::empty());
        r
    }

    /// A client with no output bound whose first binding gets the object
    /// id `first_free`: for a connection on which lower ids are taken.
    pub fn starting_at(first_free: u32) -> (r: WaylandClient)
        requires
            first_free >= FIRST_OUTPUT_ID,
        ensures
            r@ == (Session { next_id: first_free, ..initial_session() }),
            r@.wf(),
    {
        let r = WaylandClient {
            globals: Vec::new(),
            outputs: Vec::new(),
            output_changed: false,
            next_id: first_free,
        };
        assert(slots(r.outputs@) =~= Seq::empty());
        assert(global_records(r.globals@) =~= Seq::empty());
        r
    }

    /// The globals that are advertised, in the order of their announcement.
    pub fn globals(&self) -> (r: &Vec<Global>)
        ensures
            global_records(r@) == self@.globals,
    {
        &self.globals
    }

    /// Whether an output was added or removed since the flag was cleared.
    pub fn output_changed(&self) -> (r: bool)
        ensures
            r == self@.changed,
    {
        self.output_changed
    }

    /// The number of outputs whose description is still pending, and which
    /// a listing therefore leaves out.
    pub fn pending_outputs(&self) -> (n: usize)
        ensures
            n == self@.outputs.filter(|s: OutputSlot| !s.complete).len(),
    {
        let mut n: usize = 0;
        let mut i: usize = 0;
        let ghost all = self@.outputs;
        let ghost pending = |s: OutputSlot| !s.complete;
        proof {
            reveal(Seq::filter);
            assert(all.take(0) =~= Seq::empty());
        }
        while i < self.outputs.len()
            invariant
                i <= self.outputs@.len(),
                all == slots(self.outputs@),
                pending == |s: OutputSlot| !s.complete,
                n == all.take(i as int).filter(pending).len(),
                n <= i,
            decreases self.outputs@.len() - i,
        {
            proof {
                reveal(Seq::filter);
                assert(all.take(i + 1).drop_last() =~= all.take(i as int));
            }
            if !self.outputs[i].complete {
                n = n + 1;
            }
            i = i + 1;
        }
        assert(all.take(i as int) =~= all);
        n
    }

    /// Every output whose description is finished, in the order in which
    /// the outputs were bound.
    pub fn list_outputs(&self) -> (r: Vec<DisplayOutput>)
        ensures
            displays(r@) == listing(self@.outputs),
    {
        let mut out: Vec<DisplayOutput> = Vec::new();
        let mut i: usize = 0;
        let ghost all = self@.outputs;
        assert(all.take(0) =~= Seq::empty());
        assert(displays(out@) =~= listing(all.take(0)));
        while i < self.outputs.len()
            invariant
                i <= self.outputs@.len(),
                all == slots(self.outputs@),
                displays(out@) == listing(all.take(i as int)),
            decreases self.outputs@.len() - i,
        {
            let ghost before = out@;
            assert(all.take(i + 1).drop_last() =~= all.take(i as int));
            if self.outputs[i].complete {
                out.push(DisplayOutput::new(&self.outputs[i].info));
                assert(displays(out@) =~= displays(before).push(shown(all[i as int].record)));
            }
            i = i + 1;
        }
        assert(all.take(i as int) =~= all);
        out
    }

    /// Clears the change flag: the start of a watch.
    pub fn begin_watch(&mut self)
        ensures
            final(self)@ == (Session { changed: false, ..old(self)@ }),
            old(self)@.wf() ==> final(self)@.wf(),
    {
        self.output_changed = false;
    }

    fn bind_output(&mut self, name: u32, version: u32) -> (r: BindRequest)
        requires
            old(self).next_id <= LAST_CLIENT_ID,
        ensures
            final(self)@ == with_output(old(self)@, name, clamped(OUTPUT_VERSION, version)),
            r == (BindRequest {
                name,
                version: clamped(OUTPUT_VERSION, version),
                new_id: old(self).next_id,
            }),
    {
        let new_id: u32 = self.next_id;
        let bound: u32 = negotiated_version(OUTPUT_VERSION, version);
        self.outputs.push(OutputEntry::fresh(new_id, name, bound));
        self.next_id = new_id + 1;
        assert(slots(self.outputs@) =~= slots(old(self).outputs@).push(
            fresh_slot(new_id, name, bound),
        ));
        BindRequest { name, version: bound, new_id }
    }

    fn forget_global(&mut self, name: u32)
        ensures
            final(self)@ == (Session {
                globals: without(old(self)@.globals, called(name)),
                ..old(self)@
            }),
    {
        let ghost start = global_records(self.globals@);
        let mut i: usize = 0;
        while i < self.globals.len()
            invariant
                i <= self.globals@.len(),
                without(global_records(self.globals@), called(name)) == without(
                    start,
                    called(name),
                ),
                forall|j: int|
                    0 <= j < i ==> (#[trigger] global_records(self.globals@)[j]).name != name,
                self.outputs == old(self).outputs,
                self.output_changed == old(self).output_changed,
                self.next_id == old(self).next_id,
            decreases self.globals@.len() - i,
        {
            if self.globals[i].name == name {
                let ghost before = global_records(self.globals@);
                proof {
                    lemma_without_remove(before, called(name), i as int);
                }
                self.globals.remove(i);
                assert(global_records(self.globals@) =~= before.remove(i as int));
            } else {
                i = i + 1;
            }
        }
        proof {
            lemma_without_none(global_records(self.globals@), called(name));
        }
    }

    fn remove_global(&mut self, name: u32)
        ensures
            final(self)@ == (Session {
                outputs: without_global(old(self)@.outputs, name),
                changed: old(self)@.changed || has_global(old(self)@.outputs, name),
                ..old(self)@
            }),
    {
        let ghost start = slots(self.outputs@);
        let mut i: usize = 0;
        let mut found: bool = false;
        while i < self.outputs.len()
            invariant
                i <= self.outputs@.len(),
                start == old(self)@.outputs,
                without_global(slots(self.outputs@), name) == without_global(start, name),
                forall|j: int| 0 <= j < i ==> (#[trigger] slots(self.outputs@)[j]).global != name,
                found ==> has_global(start, name),
                !found ==> slots(self.outputs@) == start,
                self.globals == old(self).globals,
                self.output_changed == old(self).output_changed,
                self.next_id == old(self).next_id,
            decreases self.outputs@.len() - i,
        {
            if self.outputs[i].global == name {
                let ghost before = slots(self.outputs@);
                proof {
                    lemma_without_remove(before, bound_from(name), i as int);
                    if !found {
                        assert(start[i as int].global == name);
                    }
                }
                self.outputs.remove(i);
                assert(slots(self.outputs@) =~= before.remove(i as int));
                found = true;
            } else {
                i = i + 1;
            }
        }
        proof {
            lemma_without_none(slots(self.outputs@), bound_from(name));
            if !found {
                assert(!has_global(start, name));
            }
        }
        if found {
            self.output_changed = true;
        }
    }

    fn deliver(&mut self, object_id: u32, event: OutputEvent) -> (r: Result<
        Option<BindRequest>,
        ProtocolError,
    >)
        requires
            old(self)@.wf(),
        ensures
            final(self)@ == session_after(old(self)@, Msg::Output { object_id, msg: event@ }),
            r == outcome(old(self)@, Msg::Output { object_id, msg: event@ }),
    {
        let ghost start = slots(self.outputs@);
        let mut i: usize = 0;
        while i < self.outputs.len() && self.outputs[i].object_id != object_id
            invariant
                i <= self.outputs@.len(),
                slots(self.outputs@) == start,
                forall|j: int| 0 <= j < i ==> (#[trigger] start[j]).object_id != object_id,
            decreases self.outputs@.len() - i,
        {
            i = i + 1;
        }
        if i == self.outputs.len() {
            assert(!has_object(start, object_id));
            assert(!adds_output(start, object_id, event@));
            assert(outputs_after(start, object_id, event@) =~= start);
            return Err(ProtocolError::UnknownObject);
        }
        assert(start[i as int].object_id == object_id);
        let mut entry = self.outputs.remove(i);
        let added = entry.accept(event);
        self.outputs.insert(i, entry);
        assert(slots(self.outputs@) =~= outputs_after(start, object_id, event@));
        assert(added == adds_output(start, object_id, event@));
        if added {
            self.output_changed = true;
        }
        Ok(None)
    }

    /// Whether a bound output is the object `object_id`.
    pub fn has_output(&self, object_id: u32) -> (r: bool)
        ensures
            r == has_object(self@.outputs, object_id),
    {
        let ghost all = slots(self.outputs@);
        let mut i: usize = 0;
        while i < self.outputs.len() && self.outputs[i].object_id != object_id
            invariant
                i <= self.outputs@.len(),
                all == slots(self.outputs@),
                forall|j: int| 0 <= j < i ==> (#[trigger] all[j]).object_id != object_id,
            decreases self.outputs@.len() - i,
        {
            i = i + 1;
        }
        if i == self.outputs.len() {
            false
        } else {
            assert(all[i as int].object_id == object_id);
            true
        }
    }

    /// Decodes the frame that `buf` starts with, and says how long it is.
    pub fn decode_frame(&self, buf: &[u8]) -> (r: Result<(Event, usize), ProtocolError>)
        ensures
            match frame_msg(self@, buf@) {
                Ok((m, n)) => match r {
                    Ok((event, size)) => event@ == m && size == n && 8 <= n <= buf@.len(),
                    Err(_) => false,
                },
                Err(e) => r == Err::<(Event, usize), ProtocolError>(e),
            },
    {
        reveal(frame_msg);
        let header = match decode_header(buf) {
            Ok(h) => h,
            Err(e) => {
                return Err(e);
            },
        };
        let size: usize = header.size as usize;
        let payload = slice_subrange(buf, 8, size);
        if header.object_id == REGISTRY_ID {
            match decode_registry_event(header.opcode, payload) {
                Ok(event) => Ok((event, size)),
                Err(e) => Err(e),
            }
        } else {
            if !self.has_output(header.object_id) {
                return Err(ProtocolError::UnknownObject);
            }
            match decode_output_event(header.opcode, payload) {
                Ok(event) => Ok((Event::Output { object_id: header.object_id, event }, size)),
                Err(e) => Err(e),
            }
        }
    }

    /// Decodes the frame that `buf` starts with and takes its message in.
    /// Returns the frame's size and the request that is owed, if any.
    pub fn dispatch_frame(&mut self, buf: &[u8]) -> (r: Result<
        (usize, Option<BindRequest>),
        ProtocolError,
    >)
        requires
            old(self)@.wf(),
        ensures
            final(self)@ == frame_session(old(self)@, buf@),
            final(self)@.wf(),
            r is Err ==> final(self)@ == old(self)@,
            match frame_outcome(old(self)@, buf@) {
                Ok((n, request)) => r == Ok::<(usize, Option<BindRequest>), ProtocolError>(
                    (n as usize, request),
                ) && 8 <= n <= buf@.len(),
                Err(e) => r == Err::<(usize, Option<BindRequest>), ProtocolError>(e),
            },
    {
        match self.decode_frame(buf) {
            Ok((event, size)) => match self.dispatch(event) {
                Ok(request) => Ok((size, request)),
                Err(e) => {
                    proof {
                        lemma_rejected_unchanged(old(self)@, event@);
                    }
                    Err(e)
                },
            },
            Err(e) => Err(e),
        }
    }

    /// Takes in every frame that `buf` holds, in order, as one pass over
    /// what has been received. Returns the requests that are owed. Stops at
    /// the first frame that is rejected; an empty buffer is no error.
    pub fn dispatch_pending(&mut self, buf: &[u8]) -> (r: Result<Vec<BindRequest>, ProtocolError>)
        requires
            old(self)@.wf(),
        ensures
            final(self)@ == pending_session(old(self)@, buf@),
            final(self)@.wf(),
            is_outcome(r, pending_outcome(old(self)@, buf@)),
    {
        let mut requests: Vec<BindRequest> = Vec::new();
        let mut pos: usize = 0;
        assert(buf@.subrange(0, buf@.len() as int) =~= buf@);
        assert(Seq::<BindRequest>::empty() + Seq::<BindRequest>::empty() =~= Seq::<
            BindRequest,
        >::empty());
        proof {
            lemma_after_requests(
                Seq::empty(),
                Seq::empty(),
                pending_outcome(old(self)@, buf@),
            );
            lemma_after_nothing(pending_outcome(old(self)@, buf@));
        }
        while pos < buf.len()
            invariant
                pos <= buf@.len(),
                self@.wf(),
                pending_session(self@, buf@.subrange(pos as int, buf@.len() as int))
                    == pending_session(old(self)@, buf@),
                pending_outcome(old(self)@, buf@) == after_requests(
                    requests@,
                    pending_outcome(self@, buf@.subrange(pos as int, buf@.len() as int)),
                ),
            decreases buf@.len() - pos,
        {
            let rest = slice_subrange(buf, pos, buf.len());
            let ghost before = requests@;
            let ghost here = self@;
            let ghost unread = buf@.subrange(pos as int, buf@.len() as int);
            match self.dispatch_frame(rest) {
                Ok((n, request)) => {
                    proof {
                        let next = unread.subrange(n as int, unread.len() as int);
                        assert(next =~= buf@.subrange(pos + n, buf@.len() as int));
                        assert(pending_session(here, unread) == pending_session(self@, next));
                        assert(pending_outcome(here, unread) == after_requests(
                            requests_of(request),
                            pending_outcome(self@, next),
                        ));
                        lemma_after_requests(
                            before,
                            requests_of(request),
                            pending_outcome(self@, next),
                        );
                    }
                    if let Some(r) = request {
                        requests.push(r);
                    }
                    assert(requests@ =~= before + requests_of(request));
                    pos = pos + n;
                },
                Err(e) => {
                    assert(pending_session(here, unread) == here);
                    assert(pending_outcome(here, unread) == Err::<Seq<BindRequest>, ProtocolError>(
                        e,
                    ));
                    return Err(e);
                },
            }
        }
        assert(buf@.subrange(pos as int, buf@.len() as int).len() == 0);
        assert(requests@ + Seq::<BindRequest>::empty() =~= requests@);
        Ok(requests)
    }

    /// Takes in a batch of messages, first to last. Returns the requests
    /// that are owed. Stops at the first message that is rejected.
    pub fn dispatch_all(&mut self, batch: Vec<Event>) -> (r: Result<Vec<BindRequest>, ProtocolError>)
        requires
            old(self)@.wf(),
        ensures
            final(self)@ == session_after_all(old(self)@, msgs(batch@)),
            final(self)@.wf(),
            is_outcome(r, outcome_of_all(old(self)@, msgs(batch@))),
    {
        let mut left = batch;
        let mut requests: Vec<BindRequest> = Vec::new();
        proof {
            lemma_after_nothing(outcome_of_all(old(self)@, msgs(batch@)));
        }
        while left.len() > 0
            invariant
                self@.wf(),
                session_after_all(self@, msgs(left@)) == session_after_all(
                    old(self)@,
                    msgs(batch@),
                ),
                outcome_of_all(old(self)@, msgs(batch@)) == after_requests(
                    requests@,
                    outcome_of_all(self@, msgs(left@)),
                ),
            decreases left@.len(),
        {
            let ghost before = requests@;
            let ghost unread = msgs(left@);
            let ghost here = self@;
            let event = left.remove(0);
            assert(msgs(left@) =~= unread.drop_first());
            assert(event@ == unread[0]);
            match self.dispatch(event) {
                Ok(request) => {
                    proof {
                        assert(session_after_all(here, unread) == session_after_all(
                            self@,
                            msgs(left@),
                        ));
                        assert(outcome_of_all(here, unread) == after_requests(
                            requests_of(request),
                            outcome_of_all(self@, msgs(left@)),
                        ));
                        lemma_after_requests(
                            before,
                            requests_of(request),
                            outcome_of_all(self@, msgs(left@)),
                        );
                    }
                    if let Some(r) = request {
                        requests.push(r);
                    }
                    assert(requests@ =~= before + requests_of(request));
                },
                Err(e) => {
                    proof {
                        lemma_rejected_unchanged(here, unread[0]);
                    }
                    assert(session_after_all(here, unread) == here);
                    assert(outcome_of_all(here, unread) == Err::<Seq<BindRequest>, ProtocolError>(
                        e,
                    ));
                    return Err(e);
                },
            }
        }
        assert(requests@ + Seq::<BindRequest>::empty() =~= requests@);
        Ok(requests)
    }

    /// One turn of a watch. `first` says whether the watch starts here, in
    /// which case the change flag is cleared before anything else. Then the
    /// batch, which is what one blocking read delivered, is taken in.
    /// Returns whether the watch is over, that is whether an output was
    /// added or removed, and the requests that are owed.
    pub fn watch_for_output_changes(&mut self, first: bool, batch: Vec<Event>) -> (r: Result<
        (bool, Vec<BindRequest>),
        ProtocolError,
    >)
        requires
            old(self)@.wf(),
        ensures
            final(self)@ == session_after_all(watch_start(old(self)@, first), msgs(batch@)),
            final(self)@.wf(),
            match outcome_of_all(watch_start(old(self)@, first), msgs(batch@)) {
                Ok(requests) => match r {
                    Ok((over, owed)) => over == final(self)@.changed && owed@ == requests,
                    Err(_) => false,
                },
                Err(e) => r == Err::<(bool, Vec<BindRequest>), ProtocolError>(e),
            },
    {
        if first {
            self.begin_watch();
        }
        match self.dispatch_all(batch) {
            Ok(owed) => Ok((self.output_changed, owed)),
            Err(e) => Err(e),
        }
    }

    /// Takes one message in: records an announced global and binds it where
    /// it is an output, forgets a removed global and the outputs bound from
    /// it, or moves one output's description on. Returns the request that
    /// is owed, if any. A message that is rejected changes nothing.
    pub fn dispatch(&mut self, event: Event) -> (r: Result<Option<BindRequest>, ProtocolError>)
        requires
            old(self)@.wf(),
        ensures
            final(self)@ == session_after(old(self)@, event@),
            r == outcome(old(self)@, event@),
            final(self)@.wf(),
    {
        proof {
            lemma_session_after_wf(old(self)@, event@);
        }
        match event {
            Event::Global { name, interface, version } => {
                let wanted = "wl_output".to_owned();
                let is_output = interface == wanted;
                if is_output && self.next_id > LAST_CLIENT_ID {
                    return Err(ProtocolError::IdsExhausted);
                }
                let ghost record = GlobalRecord { name, interface: interface@, version };
                self.globals.push(Global { name, interface, version });
                assert(global_records(self.globals@) =~= old(self)@.globals.push(record));
                if is_output {
                    Ok(Some(self.bind_output(name, version)))
                } else {
                    Ok(None)
                }
            },
            Event::GlobalRemove { name } => {
                self.forget_global(name);
                self.remove_global(name);
                Ok(None)
            },
            Event::Output { object_id, event } => self.deliver(object_id, event),
        }
    }
}

} // verus!
