//! The completion-queue engine: a deterministic state machine that turns one
//! kernel completion record at a time into the follow-up submissions the
//! caller must make.
//!
//! The caller owns the ring, the sockets and the buffer memory. It feeds
//! every drained completion to [`Engine::dispatch`] and performs the returned
//! [`Action`]s: re-arm an accept, submit a receive or a send, return a leased
//! buffer, close a socket. The whole behaviour of `dispatch` is the spec
//! function [`step`]; the laws at the end of this module state the engine's
//! invariants over it: at most one receive outstanding per live connection, a
//! constant number of outstanding accepts, and every delivered buffer
//! returned exactly once.

use crate::pool::{count_set, count_true, lemma_count_true_all, BufferPool};
use crate::response::RESPONSE_LEN;
use crate::table::{
    fresh_entry, lemma_lowest_free_le_len, live, lowest_free, table_alloc, ConnEntry, ConnTable,
    count_live,
};
use crate::tag::{decode, decode_spec, OpKind};
use vstd::prelude::*;

verus! {

/// The most tokens the connection table may ever hold, so that every token
/// fits the 32-bit id field of a completion tag on any machine.
pub const TABLE_CAP: usize = 0xFFFF_FFFF;

/// The reserved correlation id, under the `ReturnBuffer` kind, that the
/// startup buffer-pool registration carries; ordinary buffer returns carry
/// id 0 and no buffer id reaches this value, so the one registration
/// completion is never mistaken for bookkeeping.
pub const REGISTRATION_ID: u32 = 0xFFFF_FFFF;

/// One record drained from the completion queue: the tag echoed back from
/// the submission, the operation's result, and the id of the buffer the
/// kernel picked for a receive, where it picked one.
#[derive(Clone, Copy, Debug)]
pub struct Completion {
    /// The tag the submission carried, echoed back unchanged.
    pub tag: u64,
    /// The operation's result: a file descriptor or byte count on success,
    /// zero for an orderly peer shutdown on a receive, negative on failure.
    pub result: i32,
    /// The buffer id delivered with a receive completion, if any.
    pub buffer_id: Option<u16>,
}

/// A follow-up submission or side effect the caller must perform.
#[derive(Clone, Copy, Debug, PartialEq, Eq, Structural)]
pub enum Action {
    /// Register the whole buffer array with the kernel, once at startup.
    /// Its submission must carry the reserved [`REGISTRATION_ID`] under the
    /// `ReturnBuffer` kind, so a rejected registration surfaces as a fault
    /// instead of passing for bookkeeping; it must be confirmed before any
    /// other work is submitted.
    RegisterBuffers { count: u16 },
    /// Submit an accept on the listener, correlated by accept-slot handle.
    SubmitAccept { slot: u32 },
    /// Submit a receive for the connection `token` on socket `fd`.
    SubmitReceive { token: u32, fd: i32 },
    /// Submit a send of the fixed response for `token` on socket `fd`.
    SubmitSend { token: u32, fd: i32 },
    /// Hand buffer `bid` back to the kernel as available.
    ReturnBuffer { bid: u16 },
    /// Close the socket of the connection just removed.
    CloseSocket { token: u32, fd: i32 },
}

/// An internal-consistency violation: a completion that the engine's own
/// state says cannot happen. The caller must surface it loudly and stop;
/// none of these is recoverable at runtime.
#[derive(Clone, Copy, Debug, PartialEq, Eq, Structural)]
pub enum Fault {
    /// The tag's kind code belongs to no operation.
    BadTag,
    /// An accept completion names a slot handle that is not in flight.
    UnknownAcceptSlot,
    /// The connection table cannot take one more token.
    TableFull,
    /// A receive or send completion names a token with no live connection.
    UnknownToken,
    /// A receive completed for a connection with no receive outstanding.
    ReceiveNotPending,
    /// A receive delivered data but named no buffer.
    MissingBuffer,
    /// A delivered buffer id lies outside the pool.
    BufferOutOfRange,
    /// A delivered buffer id was already leased to an earlier completion.
    BufferNotAvailable,
    /// A send completed for a connection with no send outstanding.
    SendNotPending,
    /// A connection's count of outstanding sends cannot grow further.
    TooManySends,
    /// A send completion wrote fewer bytes than the fixed response holds.
    ShortSend,
    /// The kernel rejected the buffer-pool registration: a fatal setup
    /// error, unrecoverable and never run past.
    RegistrationFailed,
}

/// The engine's whole state, as contracts speak of it: the connection table,
/// the availability of each pool buffer, and which accept-slot handles have
/// an accept in flight.
#[verifier::ext_equal]
pub ghost struct EngineView {
    pub conns: Seq<Option<ConnEntry>>,
    pub pool: Seq<bool>,
    pub accepts: Seq<bool>,
}

impl EngineView {
    /// Well-formedness, held between any two dispatches:
    /// - the table has room for every token to fit a tag's id field;
    /// - at most one receive is outstanding per live connection;
    /// - every accept slot has an accept in flight, so the number of
    ///   outstanding accepts stays at the configured count;
    /// - every buffer is available: each delivered buffer was returned.
    pub open spec fn wf(self) -> bool {
        &&& self.conns.len() <= TABLE_CAP
        &&& forall|t: int|
            live(self.conns, t) ==> (#[trigger] self.conns[t])->0.recv_pending <= 1
        &&& forall|i: int| 0 <= i < self.accepts.len() ==> self.accepts[i]
        &&& forall|i: int| 0 <= i < self.pool.len() ==> self.pool[i]
    }
}

/// What an accept completion does: the slot handle it names must be in
/// flight; its pinned region comes back to the application and is re-armed
/// for the next accept either way. On success a connection is allocated at
/// the lowest free token and its first receive is submitted.
pub open spec fn step_accept(pre: EngineView, slot: u32, result: i32) -> (EngineView, Result<
    Seq<Action>,
    Fault,
>) {
    if !(slot < pre.accepts.len() && pre.accepts[slot as int]) {
        (pre, Err(Fault::UnknownAcceptSlot))
    } else if result > 0 {
        if pre.conns.len() >= TABLE_CAP {
            (pre, Err(Fault::TableFull))
        } else {
            let t = lowest_free(pre.conns) as u32;
            (
                EngineView { conns: table_alloc(pre.conns, fresh_entry(result)), ..pre },
                Ok(
                    seq![
                        (Action::SubmitReceive { token: t, fd: result }),
                        (Action::SubmitAccept { slot }),
                    ],
                ),
            )
        }
    } else {
        (pre, Ok(seq![(Action::SubmitAccept { slot })]))
    }
}

/// What a receive completion does. With data (`result > 0`): the delivered
/// buffer is leased, the fixed response is submitted, the next receive is
/// submitted, and the buffer is returned, so the connection keeps exactly
/// one receive outstanding and the pool ends as it began. With
/// `result <= 0` (peer closed or error): the buffer, if one was delivered,
/// is returned, and the connection is removed and its socket closed.
pub open spec fn step_receive(
    pre: EngineView,
    token: u32,
    result: i32,
    buffer_id: Option<u16>,
) -> (EngineView, Result<Seq<Action>, Fault>) {
    if !live(pre.conns, token as int) {
        (pre, Err(Fault::UnknownToken))
    } else {
        let e = pre.conns[token as int]->0;
        if e.recv_pending != 1 {
            (pre, Err(Fault::ReceiveNotPending))
        } else {
            match buffer_id {
                Some(bid) => {
                    if bid >= pre.pool.len() {
                        (pre, Err(Fault::BufferOutOfRange))
                    } else if !pre.pool[bid as int] {
                        (pre, Err(Fault::BufferNotAvailable))
                    } else if result > 0 {
                        if e.send_pending == u32::MAX {
                            (pre, Err(Fault::TooManySends))
                        } else {
                            let e2 = ConnEntry {
                                fd: e.fd,
                                recv_pending: 1,
                                send_pending: (e.send_pending + 1) as u32,
                            };
                            (
                                EngineView {
                                    conns: pre.conns.update(token as int, Some(e2)),
                                    ..pre
                                },
                                Ok(
                                    seq![
                                        (Action::ReturnBuffer { bid }),
                                        (Action::SubmitSend { token, fd: e.fd }),
                                        (Action::SubmitReceive { token, fd: e.fd }),
                                    ],
                                ),
                            )
                        }
                    } else {
                        (
                            EngineView { conns: pre.conns.update(token as int, None), ..pre },
                            Ok(
                                seq![
                                    (Action::ReturnBuffer { bid }),
                                    (Action::CloseSocket { token, fd: e.fd }),
                                ],
                            ),
                        )
                    }
                },
                None => {
                    if result > 0 {
                        (pre, Err(Fault::MissingBuffer))
                    } else {
                        (
                            EngineView { conns: pre.conns.update(token as int, None), ..pre },
                            Ok(seq![(Action::CloseSocket { token, fd: e.fd })]),
                        )
                    }
                },
            }
        }
    }
}

/// What a send completion does: nothing further is submitted. A result equal
/// to the fixed response length is the only whole send; any shorter
/// non-negative result is a violation. A negative result is the peer gone;
/// the connection is torn down by its own receive completing with an error,
/// which the kernel delivers in order for the same connection.
pub open spec fn step_send(pre: EngineView, token: u32, result: i32) -> (EngineView, Result<
    Seq<Action>,
    Fault,
>) {
    if !live(pre.conns, token as int) {
        (pre, Err(Fault::UnknownToken))
    } else {
        let e = pre.conns[token as int]->0;
        if e.send_pending == 0 {
            (pre, Err(Fault::SendNotPending))
        } else if result >= 0 && result != RESPONSE_LEN as i32 {
            (pre, Err(Fault::ShortSend))
        } else {
            let e2 = ConnEntry {
                fd: e.fd,
                recv_pending: e.recv_pending,
                send_pending: (e.send_pending - 1) as u32,
            };
            (
                EngineView { conns: pre.conns.update(token as int, Some(e2)), ..pre },
                Ok(Seq::empty()),
            )
        }
    }
}

/// What a completion of the `ReturnBuffer` kind does. An ordinary buffer
/// return is bookkeeping alone. The one completion that carries the reserved
/// registration id confirms the startup buffer-pool registration: a nonzero
/// result there means the kernel rejected the registration, a fatal setup
/// error the engine never runs past.
pub open spec fn step_return(pre: EngineView, id: u32, result: i32) -> (EngineView, Result<
    Seq<Action>,
    Fault,
>) {
    if id == REGISTRATION_ID && result != 0 {
        (pre, Err(Fault::RegistrationFailed))
    } else {
        (pre, Ok(Seq::empty()))
    }
}

/// The engine's whole behaviour on one completion: the state after it and
/// either the actions to perform or the fault it exposes.
pub open spec fn step(pre: EngineView, c: Completion) -> (EngineView, Result<Seq<Action>, Fault>) {
    match decode_spec(c.tag) {
        None => (pre, Err(Fault::BadTag)),
        Some((kind, id)) => match kind {
            OpKind::Accept => step_accept(pre, id, c.result),
            OpKind::Receive => step_receive(pre, id, c.result, c.buffer_id),
            OpKind::Send => step_send(pre, id, c.result),
            OpKind::ReturnBuffer => step_return(pre, id, c.result),
        },
    }
}

/// Whether an executable result carries exactly the actions (or the fault)
/// that the spec-level result names.
pub open spec fn res_agrees(r: Result<Vec<Action>, Fault>, s: Result<Seq<Action>, Fault>) -> bool {
    match r {
        Ok(v) => s is Ok && v@ == s->Ok_0,
        Err(f) => s is Err && f == s->Err_0,
    }
}

/// The registry of pending-accept slot handles. Each in-flight accept owns
/// one handle, whose pinned peer-address region the caller keeps; the handle
/// is popped when that accept's completion is processed and re-armed for the
/// next accept, so the region is reused exactly once per completion.
pub struct AcceptSlots {
    inflight: Vec<bool>,
}

impl View for AcceptSlots {
    type V = Seq<bool>;

    closed spec fn view(&self) -> Seq<bool> {
        self.inflight@
    }
}

impl AcceptSlots {
    /// `count` handles, all in flight: one per accept submitted at startup.
    pub fn new(count: u32) -> (slots: AcceptSlots)
        ensures
            slots@.len() == count,
            forall|i: int| 0 <= i < count ==> slots@[i],
    {
        let mut inflight: Vec<bool> = Vec::new();
        let mut i: u32 = 0;
        while i < count
            invariant
                i <= count,
                inflight@.len() == i,
                forall|j: int| 0 <= j < i ==> inflight@[j],
            decreases count - i,
        {
            inflight.push(true);
            i = i + 1;
        }
        AcceptSlots { inflight }
    }

    /// Whether `slot` is a handle with an accept in flight.
    pub fn is_inflight(&self, slot: u32) -> (r: bool)
        ensures
            r == (slot < self@.len() && self@[slot as int]),
    {
        (slot as usize) < self.inflight.len() && self.inflight[slot as usize]
    }

    /// Pops the handle of a completed accept: its pinned region is back in
    /// the caller's hands.
    pub fn take(&mut self, slot: u32)
        requires
            slot < old(self)@.len(),
            old(self)@[slot as int],
        ensures
            final(self)@ == old(self)@.update(slot as int, false),
    {
        self.inflight.set(slot as usize, false);
    }

    /// Re-arms a popped handle for the next accept submission.
    pub fn arm(&mut self, slot: u32)
        requires
            slot < old(self)@.len(),
            !old(self)@[slot as int],
        ensures
            final(self)@ == old(self)@.update(slot as int, true),
    {
        self.inflight.set(slot as usize, true);
    }

    /// How many accepts are in flight.
    pub fn outstanding(&self) -> (n: usize)
        ensures
            n == count_true(self@),
    {
        count_set(&self.inflight)
    }
}

/// The engine itself: connection table, buffer pool and accept registry,
/// driven one completion at a time.
pub struct Engine {
    conns: ConnTable,
    pool: BufferPool,
    accepts: AcceptSlots,
}

impl View for Engine {
    type V = EngineView;

    closed spec fn view(&self) -> EngineView {
        EngineView { conns: self.conns@, pool: self.pool@, accepts: self.accepts@ }
    }
}

impl Engine {
    /// A fresh engine with `accept_count` standing accepts and `buffer_count`
    /// pool buffers, and the startup submissions: register the whole buffer
    /// array, then one accept per slot handle.
    pub fn new(accept_count: u32, buffer_count: u16) -> (r: (Engine, Vec<Action>))
        ensures
            r.0@.wf(),
            r.0@.conns.len() == 0,
            r.0@.pool.len() == buffer_count,
            r.0@.accepts.len() == accept_count,
            r.1@.len() == accept_count + 1,
            r.1@[0] == (Action::RegisterBuffers { count: buffer_count }),
            forall|i: int|
                1 <= i <= accept_count ==> r.1@[i] == (Action::SubmitAccept {
                    slot: (i - 1) as u32,
                }),
    {
        let engine = Engine {
            conns: ConnTable::new(),
            pool: BufferPool::new(buffer_count),
            accepts: AcceptSlots::new(accept_count),
        };
        let mut actions: Vec<Action> = Vec::new();
        actions.push(Action::RegisterBuffers { count: buffer_count });
        let mut slot: u32 = 0;
        while slot < accept_count
            invariant
                slot <= accept_count,
                actions@.len() == slot + 1,
                actions@[0] == (Action::RegisterBuffers { count: buffer_count }),
                forall|i: int|
                    1 <= i <= slot ==> actions@[i] == (Action::SubmitAccept {
                        slot: (i - 1) as u32,
                    }),
            decreases accept_count - slot,
        {
            actions.push(Action::SubmitAccept { slot });
            slot = slot + 1;
        }
        (engine, actions)
    }

    /// Processes one drained completion: updates the engine's state and
    /// returns the follow-up actions, exactly as [`step`] says, or the
    /// internal-consistency fault the completion exposes, with the state
    /// left as it was.
    pub fn dispatch(&mut self, c: Completion) -> (r: Result<Vec<Action>, Fault>)
        ensures
            final(self)@ == step(old(self)@, c).0,
            res_agrees(r, step(old(self)@, c).1),
    {
        match decode(c.tag) {
            None => Err(Fault::BadTag),
            Some((kind, id)) => match kind {
                OpKind::Accept => self.on_accept(id, c.result),
                OpKind::Receive => self.on_receive(id, c.result, c.buffer_id),
                OpKind::Send => self.on_send(id, c.result),
                OpKind::ReturnBuffer => {
                    if id == REGISTRATION_ID && c.result != 0 {
                        Err(Fault::RegistrationFailed)
                    } else {
                        Ok(Vec::new())
                    }
                },
            },
        }
    }

    fn on_accept(&mut self, slot: u32, result: i32) -> (r: Result<Vec<Action>, Fault>)
        ensures
            final(self)@ == step_accept(old(self)@, slot, result).0,
            res_agrees(r, step_accept(old(self)@, slot, result).1),
    {
        if !self.accepts.is_inflight(slot) {
            return Err(Fault::UnknownAcceptSlot);
        }
        if result > 0 {
            if self.conns.len() >= TABLE_CAP {
                return Err(Fault::TableFull);
            }
            // The completion hands the slot's pinned region back; pop the
            // handle and re-arm it at once for the accept resubmitted below.
            self.accepts.take(slot);
            self.accepts.arm(slot);
            proof {
                assert(self.accepts@ =~= old(self)@.accepts);
                lemma_lowest_free_le_len(old(self)@.conns);
            }
            let token = self.conns.allocate(
                ConnEntry { fd: result, recv_pending: 1, send_pending: 0 },
            );
            let mut acts: Vec<Action> = Vec::new();
            acts.push(Action::SubmitReceive { token: token as u32, fd: result });
            acts.push(Action::SubmitAccept { slot });
            proof {
                assert(self@ =~~= step_accept(old(self)@, slot, result).0);
                assert(acts@ =~= step_accept(old(self)@, slot, result).1->Ok_0);
            }
            Ok(acts)
        } else {
            self.accepts.take(slot);
            self.accepts.arm(slot);
            let mut acts: Vec<Action> = Vec::new();
            acts.push(Action::SubmitAccept { slot });
            proof {
                assert(self.accepts@ =~= old(self)@.accepts);
                assert(self@ =~~= step_accept(old(self)@, slot, result).0);
                assert(acts@ =~= step_accept(old(self)@, slot, result).1->Ok_0);
            }
            Ok(acts)
        }
    }

    fn on_receive(&mut self, token: u32, result: i32, buffer_id: Option<u16>) -> (r: Result<
        Vec<Action>,
        Fault,
    >)
        ensures
            final(self)@ == step_receive(old(self)@, token, result, buffer_id).0,
            res_agrees(r, step_receive(old(self)@, token, result, buffer_id).1),
    {
        let e = match self.conns.get(token as usize) {
            None => {
                return Err(Fault::UnknownToken);
            },
            Some(e) => e,
        };
        if e.recv_pending != 1 {
            return Err(Fault::ReceiveNotPending);
        }
        match buffer_id {
            Some(bid) => {
                if bid as usize >= self.pool.len() {
                    return Err(Fault::BufferOutOfRange);
                }
                if !self.pool.is_available(bid) {
                    return Err(Fault::BufferNotAvailable);
                }
                // The kernel wrote into `bid`; it is the application's for
                // the rest of this dispatch, then goes straight back: the
                // response never depends on the payload.
                self.pool.lease(bid);
                self.pool.return_buffer(bid);
                proof {
                    assert(self.pool@ =~= old(self)@.pool);
                }
                if result > 0 {
                    if e.send_pending == u32::MAX {
                        return Err(Fault::TooManySends);
                    }
                    self.conns.set_entry(
                        token as usize,
                        ConnEntry {
                            fd: e.fd,
                            recv_pending: 1,
                            send_pending: e.send_pending + 1,
                        },
                    );
                    let mut acts: Vec<Action> = Vec::new();
                    acts.push(Action::ReturnBuffer { bid });
                    acts.push(Action::SubmitSend { token, fd: e.fd });
                    acts.push(Action::SubmitReceive { token, fd: e.fd });
                    proof {
                        assert(self@ =~~= step_receive(
                            old(self)@,
                            token,
                            result,
                            buffer_id,
                        ).0);
                        assert(acts@ =~= step_receive(
                            old(self)@,
                            token,
                            result,
                            buffer_id,
                        ).1->Ok_0);
                    }
                    Ok(acts)
                } else {
                    let removed = self.conns.remove(token as usize);
                    let mut acts: Vec<Action> = Vec::new();
                    acts.push(Action::ReturnBuffer { bid });
                    acts.push(Action::CloseSocket { token, fd: removed.fd });
                    proof {
                        assert(self@ =~~= step_receive(
                            old(self)@,
                            token,
                            result,
                            buffer_id,
                        ).0);
                        assert(acts@ =~= step_receive(
                            old(self)@,
                            token,
                            result,
                            buffer_id,
                        ).1->Ok_0);
                    }
                    Ok(acts)
                }
            },
            None => {
                if result > 0 {
                    return Err(Fault::MissingBuffer);
                }
                let removed = self.conns.remove(token as usize);
                let mut acts: Vec<Action> = Vec::new();
                acts.push(Action::CloseSocket { token, fd: removed.fd });
                proof {
                    assert(self@ =~~= step_receive(old(self)@, token, result, buffer_id).0);
                    assert(acts@ =~= step_receive(old(self)@, token, result, buffer_id).1->Ok_0);
                }
                Ok(acts)
            },
        }
    }

    fn on_send(&mut self, token: u32, result: i32) -> (r: Result<Vec<Action>, Fault>)
        ensures
            final(self)@ == step_send(old(self)@, token, result).0,
            res_agrees(r, step_send(old(self)@, token, result).1),
    {
        let e = match self.conns.get(token as usize) {
            None => {
                return Err(Fault::UnknownToken);
            },
            Some(e) => e,
        };
        if e.send_pending == 0 {
            return Err(Fault::SendNotPending);
        }
        if result >= 0 && result != RESPONSE_LEN as i32 {
            return Err(Fault::ShortSend);
        }
        self.conns.set_entry(
            token as usize,
            ConnEntry {
                fd: e.fd,
                recv_pending: e.recv_pending,
                send_pending: e.send_pending - 1,
            },
        );
        proof {
            assert(self@ =~~= step_send(old(self)@, token, result).0);
        }
        Ok(Vec::new())
    }

    /// How many accept operations are in flight.
    pub fn accepts_outstanding(&self) -> (n: usize)
        ensures
            n == count_true(self@.accepts),
    {
        self.accepts.outstanding()
    }

    /// How many connections are live.
    pub fn live_connections(&self) -> (n: usize)
        ensures
            n == count_live(self@.conns),
    {
        self.conns.live_count()
    }

    /// How many pool buffers are available to the kernel.
    pub fn available_buffers(&self) -> (n: usize)
        ensures
            n == count_true(self@.pool),
    {
        self.pool.available_count()
    }

    /// The entry of a live connection token, or `None` for a free token.
    pub fn connection(&self, token: u32) -> (r: Option<ConnEntry>)
        ensures
            r == if live(self@.conns, token as int) {
                self@.conns[token as int]
            } else {
                None::<ConnEntry>
            },
    {
        self.conns.get(token as usize)
    }
}

/// Law: one dispatch preserves every engine invariant. In particular, each
/// live connection keeps at most one receive outstanding, every accept slot
/// keeps an accept in flight, and every buffer a completion delivered is
/// available again once the dispatch is over.
pub proof fn lemma_step_preserves_wf(pre: EngineView, c: Completion)
    requires
        pre.wf(),
    ensures
        step(pre, c).0.wf(),
{
    let post = step(pre, c).0;
    assert(post.pool == pre.pool && post.accepts == pre.accepts);
    match decode_spec(c.tag) {
        None => {},
        Some((kind, id)) => match kind {
            OpKind::Accept => {
                if id < pre.accepts.len() && pre.accepts[id as int] && c.result > 0
                    && pre.conns.len() < TABLE_CAP {
                    lemma_lowest_free_le_len(pre.conns);
                    assert forall|t: int| live(post.conns, t) implies (#[trigger] post.conns[t])
                        ->0.recv_pending <= 1 by {
                        if t != lowest_free(pre.conns) {
                            assert(live(pre.conns, t));
                        }
                    }
                }
            },
            OpKind::Receive => {
                if live(pre.conns, id as int) {
                    assert forall|t: int| live(post.conns, t) implies (#[trigger] post.conns[t])
                        ->0.recv_pending <= 1 by {
                        if t != id {
                            assert(live(pre.conns, t));
                        }
                    }
                }
            },
            OpKind::Send => {
                if live(pre.conns, id as int) {
                    assert forall|t: int| live(post.conns, t) implies (#[trigger] post.conns[t])
                        ->0.recv_pending <= 1 by {
                        if t != id {
                            assert(live(pre.conns, t));
                        }
                    }
                }
            },
            OpKind::ReturnBuffer => {},
        },
    }
}

/// Law: the number of outstanding accept operations never moves from the
/// configured count: every accept completion, successful or not, re-arms its
/// slot, and no other completion touches the registry.
pub proof fn lemma_accepts_outstanding_constant(pre: EngineView, c: Completion)
    requires
        pre.wf(),
    ensures
        step(pre, c).0.accepts == pre.accepts,
        count_true(step(pre, c).0.accepts) == pre.accepts.len(),
{
    lemma_count_true_all(pre.accepts);
}

/// Law: a receive completion that delivered a buffer returns that buffer to
/// the pool exactly once — it is the first action, no later action returns a
/// buffer — and the pool's availability ends exactly as it began.
pub proof fn lemma_buffer_returned_once(pre: EngineView, c: Completion, token: u32, bid: u16)
    requires
        decode_spec(c.tag) == Some((OpKind::Receive, token)),
        c.buffer_id == Some(bid),
        step(pre, c).1 is Ok,
    ensures
        step(pre, c).1->Ok_0[0] == (Action::ReturnBuffer { bid }),
        forall|j: int|
            1 <= j < step(pre, c).1->Ok_0.len() ==> !((#[trigger] step(pre, c).1->Ok_0[j])
                is ReturnBuffer),
        step(pre, c).0.pool == pre.pool,
{
}

/// Law: the connection allocated by a successful accept is exactly the fresh
/// entry — its socket, one outstanding receive, no outstanding send — so a
/// reused token retains nothing from a previous occupant.
pub proof fn lemma_accepted_entry_fresh(pre: EngineView, c: Completion, slot: u32)
    requires
        decode_spec(c.tag) == Some((OpKind::Accept, slot)),
        c.result > 0,
        step(pre, c).1 is Ok,
    ensures
        step(pre, c).0.conns[lowest_free(pre.conns) as int] == Some(fresh_entry(c.result)),
{
    lemma_lowest_free_le_len(pre.conns);
}

} // verus!
