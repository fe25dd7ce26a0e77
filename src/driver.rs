//! The driver core: a bounded submission queue, the tokens handed to the
//! kernel, and the completion entries waiting to be reported.
use vstd::multiset::Multiset;
use vstd::prelude::*;

use crate::op::{
    base_record, Accept, Connect, OpCode, OpKind, RawFd, ReadAt, Recv, RecvFrom, RecvFromVectored,
    RecvVectored, Send, SendTo, SendToVectored, SendVectored, SubmissionEntry, Sync, Timeout,
    WriteAt,
};
use core::time::Duration;
use std::collections::VecDeque;

verus! {

#[verifier::external_type_specification]
#[verifier::external_body]
pub struct ExIoError(std::io::Error);

/// Relies on `std::io::Error::from_raw_os_error`: an error value for an OS error code.
#[verifier::external_body]
fn os_error(code: i32) -> std::io::Error {
    std::io::Error::from_raw_os_error(code)
}

/// Error code of an operation removed before the kernel saw it (`ECANCELED` on Linux).
pub const ECANCELED: i32 = 125;

/// Error code for an invalid argument (`EINVAL` on Linux).
pub const EINVAL: i32 = 22;

/// Submission-queue size when none is given.
pub const DEFAULT_ENTRIES: usize = 256;

/// Token that the kernel-side cancel requests carry; completions with it are
/// the kernel's answers to cancel requests and are filtered out.
pub const CANCEL_USER_DATA: usize = usize::MAX;

/// An operation with a caller-chosen token.
pub struct Operation<'a, O: OpCode> {
    op: &'a mut O,
    user_data: usize,
}

impl<'a, O: OpCode> Operation<'a, O> {
    /// The token.
    pub closed spec fn token(&self) -> usize {
        self.user_data
    }

    /// The operation it refers to.
    pub closed spec fn op_spec(&self) -> O {
        *self.op
    }

    /// The submission record it becomes: the operation's record carrying the token.
    pub open spec fn record(&self) -> SubmissionEntry {
        SubmissionEntry { user_data: self.token(), ..self.op_spec().entry_spec() }
    }

    /// Create an [`Operation`].
    pub fn new(op: &'a mut O, user_data: usize) -> (r: Self)
        ensures
            r.token() == user_data,
            r.op_spec() == *old(op),
    {
        Operation { op, user_data }
    }

    /// The operation.
    pub fn opcode(&mut self) -> (r: &mut O)
        ensures
            *r == old(self).op_spec(),
            final(self).op_spec() == *final(r),
            final(self).token() == old(self).token(),
    {
        self.op
    }

    /// The token.
    pub fn user_data(&self) -> (r: usize)
        ensures
            r == self.token(),
    {
        self.user_data
    }

    fn create_record(&self) -> (r: SubmissionEntry)
        ensures
            r == self.record(),
    {
        let mut r = self.op.create_entry();
        r.user_data = self.user_data;
        r
    }
}

/// A reference to an operation of any kind.
pub enum OpRef<'a> {
    ReadAt(&'a mut ReadAt),
    WriteAt(&'a mut WriteAt),
    Sync(&'a mut Sync),
    Accept(&'a mut Accept),
    Connect(&'a mut Connect),
    Recv(&'a mut Recv),
    RecvVectored(&'a mut RecvVectored),
    Send(&'a mut Send),
    SendVectored(&'a mut SendVectored),
    RecvFrom(&'a mut RecvFrom),
    RecvFromVectored(&'a mut RecvFromVectored),
    SendTo(&'a mut SendTo),
    SendToVectored(&'a mut SendToVectored),
    Timeout(&'a mut Timeout),
}

impl<'a> OpRef<'a> {
    /// The record of the operation referred to.
    pub open spec fn entry_spec(&self) -> SubmissionEntry {
        match self {
            OpRef::ReadAt(op) => (**op).entry_spec(),
            OpRef::WriteAt(op) => (**op).entry_spec(),
            OpRef::Sync(op) => (**op).entry_spec(),
            OpRef::Accept(op) => (**op).entry_spec(),
            OpRef::Connect(op) => (**op).entry_spec(),
            OpRef::Recv(op) => (**op).entry_spec(),
            OpRef::RecvVectored(op) => (**op).entry_spec(),
            OpRef::Send(op) => (**op).entry_spec(),
            OpRef::SendVectored(op) => (**op).entry_spec(),
            OpRef::RecvFrom(op) => (**op).entry_spec(),
            OpRef::RecvFromVectored(op) => (**op).entry_spec(),
            OpRef::SendTo(op) => (**op).entry_spec(),
            OpRef::SendToVectored(op) => (**op).entry_spec(),
            OpRef::Timeout(op) => (**op).entry_spec(),
        }
    }

    /// Build the record of the operation referred to.
    pub fn create_entry(&self) -> (r: SubmissionEntry)
        ensures
            r == self.entry_spec(),
    {
        match self {
            OpRef::ReadAt(op) => op.create_entry(),
            OpRef::WriteAt(op) => op.create_entry(),
            OpRef::Sync(op) => op.create_entry(),
            OpRef::Accept(op) => op.create_entry(),
            OpRef::Connect(op) => op.create_entry(),
            OpRef::Recv(op) => op.create_entry(),
            OpRef::RecvVectored(op) => op.create_entry(),
            OpRef::Send(op) => op.create_entry(),
            OpRef::SendVectored(op) => op.create_entry(),
            OpRef::RecvFrom(op) => op.create_entry(),
            OpRef::RecvFromVectored(op) => op.create_entry(),
            OpRef::SendTo(op) => op.create_entry(),
            OpRef::SendToVectored(op) => op.create_entry(),
            OpRef::Timeout(op) => op.create_entry(),
        }
    }
}

/// An operation of any kind with a caller-chosen token.
pub struct OpObject<'a> {
    op: OpRef<'a>,
    user_data: usize,
}

impl<'a> OpObject<'a> {
    /// The token.
    pub closed spec fn token(&self) -> usize {
        self.user_data
    }

    /// The operation it refers to.
    pub closed spec fn op_spec(&self) -> OpRef<'a> {
        self.op
    }

    /// The submission record it becomes.
    pub open spec fn record(&self) -> SubmissionEntry {
        SubmissionEntry { user_data: self.token(), ..self.op_spec().entry_spec() }
    }

    /// Create an [`OpObject`].
    pub fn new(op: OpRef<'a>, user_data: usize) -> (r: Self)
        ensures
            r.token() == user_data,
            r.op_spec() == op,
    {
        OpObject { op, user_data }
    }

    /// The operation.
    pub fn opcode(&mut self) -> (r: &mut OpRef<'a>)
        ensures
            *r == old(self).op_spec(),
            final(self).op_spec() == *final(r),
            final(self).token() == old(self).token(),
    {
        &mut self.op
    }

    /// The token.
    pub fn user_data(&self) -> (r: usize)
        ensures
            r == self.token(),
    {
        self.user_data
    }

    fn create_record(&self) -> (r: SubmissionEntry)
        ensures
            r == self.record(),
    {
        let mut r = self.op.create_entry();
        r.user_data = self.user_data;
        r
    }
}

/// A completed operation: its token and either a byte count or an OS error code.
#[derive(Debug)]
pub struct Entry {
    user_data: usize,
    result: Result<usize, i32>,
}

/// What a kernel completion result means: a byte count when non-negative,
/// else the negated error code.
pub open spec fn kernel_outcome(res: i32) -> Result<usize, i32> {
    if res >= 0 {
        Ok(res as usize)
    } else if res == i32::MIN {
        Err(i32::MIN)
    } else {
        Err(-res as i32)
    }
}

impl Entry {
    /// The token of the operation.
    pub closed spec fn token(&self) -> usize {
        self.user_data
    }

    /// The byte count, or the OS error code.
    pub closed spec fn outcome(&self) -> Result<usize, i32> {
        self.result
    }

    /// The entry with the given token and outcome.
    pub closed spec fn spec_new(user_data: usize, result: Result<usize, i32>) -> Entry {
        Entry { user_data, result }
    }

    pub proof fn lemma_spec_new(user_data: usize, result: Result<usize, i32>)
        ensures
            #[trigger] Entry::spec_new(user_data, result).token() == user_data,
            Entry::spec_new(user_data, result).outcome() == result,
    {
    }

    /// Create an [`Entry`].
    pub fn new(user_data: usize, result: Result<usize, i32>) -> (r: Self)
        ensures
            r == Entry::spec_new(user_data, result),
            r.token() == user_data,
            r.outcome() == result,
    {
        Entry { user_data, result }
    }

    /// The entry for a kernel completion with result `res`.
    pub fn from_kernel(user_data: usize, res: i32) -> (r: Self)
        ensures
            r == Entry::spec_new(user_data, kernel_outcome(res)),
            r.token() == user_data,
            r.outcome() == kernel_outcome(res),
    {
        let result = if res >= 0 {
            Ok(res as usize)
        } else if res == i32::MIN {
            Err(i32::MIN)
        } else {
            Err(-res)
        };
        Entry { user_data, result }
    }

    /// The token passed with the operation.
    pub fn user_data(&self) -> (r: usize)
        ensures
            r == self.token(),
    {
        self.user_data
    }

    /// The result of the operation.
    pub fn into_result(self) -> (r: std::io::Result<usize>)
        ensures
            r is Ok <==> self.outcome() is Ok,
            self.outcome() is Ok ==> r == Ok::<usize, std::io::Error>(self.outcome()->Ok_0),
    {
        match self.result {
            Ok(n) => Ok(n),
            Err(code) => Err(os_error(code)),
        }
    }
}

/// The tokens of a run of submission records.
pub open spec fn tokens_of(q: Seq<SubmissionEntry>) -> Seq<usize> {
    q.map_values(|e: SubmissionEntry| e.user_data)
}

/// The tokens of a run of completion entries.
pub open spec fn entry_tokens(s: Seq<Entry>) -> Seq<usize> {
    s.map_values(|e: Entry| e.token())
}

/// The records of a run of operation objects.
pub open spec fn records_of(s: Seq<OpObject>) -> Seq<SubmissionEntry> {
    s.map_values(|o: OpObject| o.record())
}

/// Position of the first `t` in `s`, or -1.
pub open spec fn index_of(s: Seq<usize>, t: usize) -> int
    decreases s.len(),
{
    if s.len() == 0 {
        -1
    } else if s[0] == t {
        0
    } else if index_of(s.drop_first(), t) < 0 {
        -1
    } else {
        index_of(s.drop_first(), t) + 1
    }
}

pub proof fn lemma_index_of(s: Seq<usize>, t: usize)
    ensures
        -1 <= index_of(s, t) < s.len(),
        index_of(s, t) >= 0 ==> s[index_of(s, t)] == t,
        index_of(s, t) >= 0 ==> forall|j: int| 0 <= j < index_of(s, t) ==> s[j] != t,
        index_of(s, t) < 0 <==> !s.contains(t),
    decreases s.len(),
{
    if s.len() > 0 {
        lemma_index_of(s.drop_first(), t);
        if s[0] != t {
            if index_of(s.drop_first(), t) >= 0 {
                assert forall|j: int| 0 <= j < index_of(s, t) implies s[j] != t by {
                    if j > 0 {
                        assert(s[j] == s.drop_first()[j - 1]);
                    }
                }
            } else {
                assert forall|j: int| 0 <= j < s.len() implies s[j] != t by {
                    if j > 0 {
                        assert(s[j] == s.drop_first()[j - 1]);
                    }
                }
            }
            if s.contains(t) {
                let j = choose|j: int| 0 <= j < s.len() && s[j] == t;
                assert(s.drop_first()[j - 1] == t);
            }
        }
    }
}

/// The driver's state in the terms its contracts use.
pub struct DriverState {
    /// Submission-queue capacity.
    pub capacity: nat,
    /// Operation records waiting in the submission queue, in push order.
    pub queued: Seq<SubmissionEntry>,
    /// Targets of cancel requests waiting in the submission queue.
    pub cancels: Seq<usize>,
    /// Tokens of operations handed to the kernel and not completed yet.
    pub in_flight: Seq<usize>,
    /// Completion entries produced by the driver itself, not reported yet.
    pub ready: Seq<Entry>,
}

impl DriverState {
    pub open spec fn wf(self) -> bool {
        &&& self.capacity > 0
        &&& self.queued.len() + self.cancels.len() <= self.capacity
    }

    /// Free submission-queue slots.
    pub open spec fn capacity_left(self) -> nat {
        (self.capacity - self.queued.len() - self.cancels.len()) as nat
    }

    /// Tokens of every accepted operation whose entry has not been reported.
    pub open spec fn tokens(self) -> Seq<usize> {
        tokens_of(self.queued) + self.in_flight + entry_tokens(self.ready)
    }

    pub open spec fn outstanding(self) -> Multiset<usize> {
        self.tokens().to_multiset()
    }

    /// The state after `recs` were pushed into the submission queue.
    pub open spec fn push_all(self, recs: Seq<SubmissionEntry>) -> DriverState {
        DriverState { queued: self.queued + recs, ..self }
    }

    /// The state after a cancel request for `t` was honored, or `None` when
    /// it needs a submission-queue slot and there is none.
    pub open spec fn cancel(self, t: usize) -> Option<DriverState> {
        let i = index_of(tokens_of(self.queued), t);
        if i >= 0 {
            Some(
                DriverState {
                    queued: self.queued.remove(i),
                    ready: self.ready.push(Entry::spec_new(t, Err(ECANCELED))),
                    ..self
                },
            )
        } else if self.capacity_left() > 0 {
            Some(DriverState { cancels: self.cancels.push(t), ..self })
        } else {
            None
        }
    }

    /// The state after the submission queue was flushed to the kernel.
    pub open spec fn submitted(self) -> DriverState {
        DriverState {
            queued: Seq::empty(),
            cancels: Seq::empty(),
            in_flight: self.in_flight + tokens_of(self.queued),
            ..self
        }
    }
}

/// Match kernel completions `(token, result)` against the in-flight tokens:
/// the tokens left in flight, and the entries reported, in kernel order.
/// Completions of cancel requests and of unknown tokens are dropped.
pub open spec fn harvest(in_flight: Seq<usize>, cqes: Seq<(usize, i32)>) -> (Seq<usize>, Seq<Entry>)
    decreases cqes.len(),
{
    if cqes.len() == 0 {
        (in_flight, Seq::empty())
    } else {
        let (left, reported) = harvest(in_flight, cqes.drop_last());
        let (t, res) = cqes.last();
        let i = index_of(left, t);
        if t != CANCEL_USER_DATA && i >= 0 {
            (left.remove(i), reported.push(Entry::spec_new(t, kernel_outcome(res))))
        } else {
            (left, reported)
        }
    }
}

impl DriverState {
    /// The entries a harvest of `cqes` reports: the driver's own first, then
    /// the kernel's.
    pub open spec fn reported(self, cqes: Seq<(usize, i32)>) -> Seq<Entry> {
        self.ready + harvest(self.in_flight, cqes).1
    }

    /// The state after a harvest of `cqes`.
    pub open spec fn completed(self, cqes: Seq<(usize, i32)>) -> DriverState {
        DriverState { in_flight: harvest(self.in_flight, cqes).0, ready: Seq::empty(), ..self }
    }
}

/// How many operations a push of `n` of them admits when `left` slots are free.
pub open spec fn admitted(n: nat, left: nat) -> nat {
    if n <= left {
        n
    } else {
        left
    }
}

/// The record of a cancel request for `t`.
pub open spec fn cancel_record(t: usize) -> SubmissionEntry {
    SubmissionEntry { user_data: t, ..base_record(OpKind::AsyncCancel, -1i32) }
}

/// The low-level actions of completion-based I/O.
pub trait CompleteIo<'arena> {
    /// The driver's state.
    spec fn state(&self) -> DriverState;

    /// Attach a descriptor to the driver. On io_uring this needs nothing.
    fn attach(&mut self, fd: RawFd) -> (r: std::io::Result<()>)
        requires
            old(self).state().wf(),
        ensures
            r is Ok,
            final(self).state() == old(self).state(),
    ;

    /// Try to cancel the operation pushed with token `user_data`. An
    /// operation still in the submission queue is removed and reported as
    /// cancelled; otherwise a cancel request takes a submission-queue slot,
    /// and with none free the call fails and changes nothing.
    fn try_cancel(&mut self, user_data: usize) -> (r: Result<(), ()>)
        requires
            old(self).state().wf(),
        ensures
            final(self).state().wf(),
            old(self).state().cancel(user_data) is Some ==> r is Ok && final(self).state()
                == old(self).state().cancel(user_data)->Some_0,
            old(self).state().cancel(user_data) is None ==> r is Err && final(self).state()
                == old(self).state(),
    ;

    /// Try to push an operation into the submission queue; when the queue is
    /// full the operation comes back unchanged.
    fn try_push<O: OpCode>(&mut self, op: Operation<'arena, O>) -> (r: Result<
        (),
        Operation<'arena, O>,
    >)
        requires
            old(self).state().wf(),
        ensures
            final(self).state().wf(),
            r is Err <==> old(self).state().capacity_left() == 0,
            r is Err ==> r->Err_0 == op && final(self).state() == old(self).state(),
            r is Ok ==> final(self).state() == old(self).state().push_all(seq![op.record()]),
    ;

    /// Try to push an operation object into the submission queue.
    fn try_push_dyn(&mut self, op: OpObject<'arena>) -> (r: Result<(), OpObject<'arena>>)
        requires
            old(self).state().wf(),
        ensures
            final(self).state().wf(),
            r is Err <==> old(self).state().capacity_left() == 0,
            r is Err ==> r->Err_0 == op && final(self).state() == old(self).state(),
            r is Ok ==> final(self).state() == old(self).state().push_all(seq![op.record()]),
    ;

    /// Push operations from the front of `ops_queue` while the submission
    /// queue has room; the rest stay in `ops_queue`, in order.
    fn push_queue(&mut self, ops_queue: &mut VecDeque<OpObject<'arena>>)
        requires
            old(self).state().wf(),
        ensures
            final(self).state().wf(),
            final(ops_queue)@ == old(ops_queue)@.subrange(
                admitted(old(ops_queue)@.len(), old(self).state().capacity_left()) as int,
                old(ops_queue)@.len() as int,
            ),
            final(self).state() == old(self).state().push_all(
                records_of(
                    old(ops_queue)@.subrange(
                        0,
                        admitted(old(ops_queue)@.len(), old(self).state().capacity_left()) as int,
                    ),
                ),
            ),
    ;

    /// Free submission-queue slots.
    fn capacity_left(&self) -> (r: usize)
        requires
            self.state().wf(),
        ensures
            r == self.state().capacity_left(),
    ;
}

/// Name for what `Duration::is_zero` returns.
pub uninterp spec fn duration_is_zero(d: Duration) -> bool;

/// Relies on `Duration::is_zero`: whether the duration spans no time.
#[verifier::external_body]
fn is_zero(d: &Duration) -> (r: bool)
    ensures
        r == duration_is_zero(*d),
{
    d.is_zero()
}

/// The io_uring driver core. It keeps the records pushed and not yet
/// submitted, the tokens the kernel holds, and entries it produced itself;
/// the kernel calls are made by its user, who hands it what the kernel
/// reported.
pub struct Driver {
    entries: usize,
    squeue: Vec<SubmissionEntry>,
    cancels: Vec<usize>,
    in_flight: Vec<usize>,
    ready: Vec<Entry>,
}

impl Driver {
    pub closed spec fn view_state(&self) -> DriverState {
        DriverState {
            capacity: self.entries as nat,
            queued: self.squeue@,
            cancels: self.cancels@,
            in_flight: self.in_flight@,
            ready: self.ready@,
        }
    }

    /// A driver with the default submission-queue size.
    pub fn new() -> (r: Self)
        ensures
            r.state().wf(),
            r.state() == (DriverState {
                capacity: DEFAULT_ENTRIES as nat,
                queued: Seq::empty(),
                cancels: Seq::empty(),
                in_flight: Seq::empty(),
                ready: Seq::empty(),
            }),
    {
        Driver {
            entries: DEFAULT_ENTRIES,
            squeue: Vec::new(),
            cancels: Vec::new(),
            in_flight: Vec::new(),
            ready: Vec::new(),
        }
    }

    /// A driver whose submission queue holds `entries` records; a queue of
    /// none is refused with `EINVAL`.
    pub fn with_entries(entries: usize) -> (r: Result<Self, i32>)
        ensures
            r is Err <==> entries == 0,
            r is Err ==> r->Err_0 == EINVAL,
            r is Ok ==> r->Ok_0.state().wf() && r->Ok_0.state() == (DriverState {
                capacity: entries as nat,
                queued: Seq::empty(),
                cancels: Seq::empty(),
                in_flight: Seq::empty(),
                ready: Seq::empty(),
            }),
    {
        if entries == 0 {
            return Err(EINVAL);
        }
        Ok(
            Driver {
                entries,
                squeue: Vec::new(),
                cancels: Vec::new(),
                in_flight: Vec::new(),
                ready: Vec::new(),
            },
        )
    }

    /// Flush the submission queue: the records to hand to the kernel, the
    /// operations first, in push order, then the cancel requests.
    pub fn submit(&mut self) -> (r: Vec<SubmissionEntry>)
        requires
            old(self).state().wf(),
        ensures
            final(self).state().wf(),
            final(self).state() == old(self).state().submitted(),
            r@ == old(self).state().queued + old(self).state().cancels.map_values(
                |t: usize| cancel_record(t),
            ),
    {
        let ghost old_state = self.state();
        let mut records: Vec<SubmissionEntry> = Vec::new();
        let mut i: usize = 0;
        while i < self.squeue.len()
            invariant
                self.entries == old_state.capacity,
                self.squeue@ == old_state.queued,
                self.cancels@ == old_state.cancels,
                self.ready@ == old_state.ready,
                i <= self.squeue.len(),
                records@ == self.squeue@.subrange(0, i as int),
                self.in_flight@ == old_state.in_flight + tokens_of(
                    self.squeue@.subrange(0, i as int),
                ),
            decreases self.squeue.len() - i,
        {
            let rec = self.squeue[i];
            records.push(rec);
            self.in_flight.push(rec.user_data);
            proof {
                assert(self.squeue@.subrange(0, i + 1) == self.squeue@.subrange(0, i as int).push(
                    rec,
                ));
                assert(tokens_of(self.squeue@.subrange(0, i + 1)) == tokens_of(
                    self.squeue@.subrange(0, i as int),
                ).push(rec.user_data));
            }
            i = i + 1;
        }
        proof {
            assert(self.squeue@.subrange(0, i as int) == self.squeue@);
        }
        let ghost ops_done = records@;
        let mut j: usize = 0;
        while j < self.cancels.len()
            invariant
                self.entries == old_state.capacity,
                self.squeue@ == old_state.queued,
                self.cancels@ == old_state.cancels,
                self.ready@ == old_state.ready,
                self.in_flight@ == old_state.in_flight + tokens_of(old_state.queued),
                j <= self.cancels.len(),
                records@ == ops_done + self.cancels@.subrange(0, j as int).map_values(
                    |t: usize| cancel_record(t),
                ),
            decreases self.cancels.len() - j,
        {
            let rec = record_cancel(self.cancels[j]);
            records.push(rec);
            proof {
                assert(self.cancels@.subrange(0, j + 1) == self.cancels@.subrange(0, j as int).push(
                    self.cancels@[j as int],
                ));
                assert(self.cancels@.subrange(0, j + 1).map_values(|t: usize| cancel_record(t))
                    == self.cancels@.subrange(0, j as int).map_values(
                    |t: usize| cancel_record(t),
                ).push(cancel_record(self.cancels@[j as int])));
            }
            j = j + 1;
        }
        proof {
            assert(self.cancels@.subrange(0, j as int) == self.cancels@);
        }
        self.squeue.clear();
        self.cancels.clear();
        assert(self.state() =~= old_state.submitted());
        records
    }

    /// Report completions into `completed`: first the entries the driver
    /// produced itself, then one entry for each kernel completion
    /// `(token, result)` whose token is in flight, in the kernel's order.
    pub fn complete(&mut self, cqes: &Vec<(usize, i32)>, completed: &mut Vec<Entry>)
        requires
            old(self).state().wf(),
        ensures
            final(self).state().wf(),
            final(self).state() == old(self).state().completed(cqes@),
            final(completed)@ == old(completed)@ + old(self).state().reported(cqes@),
    {
        let ghost s0 = self.state();
        completed.append(&mut self.ready);
        let ghost mid = completed@;
        assert(mid == old(completed)@ + s0.ready);
        let mut i: usize = 0;
        while i < cqes.len()
            invariant
                s0 == old(self).state(),
                s0.wf(),
                mid == old(completed)@ + s0.ready,
                self.entries == s0.capacity,
                self.squeue@ == s0.queued,
                self.cancels@ == s0.cancels,
                self.ready@ == Seq::<Entry>::empty(),
                i <= cqes.len(),
                self.in_flight@ == harvest(s0.in_flight, cqes@.subrange(0, i as int)).0,
                completed@ == mid + harvest(s0.in_flight, cqes@.subrange(0, i as int)).1,
            decreases cqes.len() - i,
        {
            let (t, res) = cqes[i];
            proof {
                assert(cqes@.subrange(0, i + 1).drop_last() =~= cqes@.subrange(0, i as int));
                assert(cqes@.subrange(0, i + 1).last() == cqes@[i as int]);
            }
            if t != CANCEL_USER_DATA {
                match position(&self.in_flight, t) {
                    Some(j) => {
                        proof {
                            lemma_index_of(self.in_flight@, t);
                        }
                        self.in_flight.remove(j);
                        completed.push(Entry::from_kernel(t, res));
                        assert(completed@ =~= mid + harvest(
                            s0.in_flight,
                            cqes@.subrange(0, i + 1),
                        ).1);
                    },
                    None => {},
                }
            }
            i = i + 1;
        }
        assert(cqes@.subrange(0, i as int) =~= cqes@);
        assert(completed@ =~= old(completed)@ + s0.reported(cqes@));
    }

    /// How many completions to wait for: none when the driver already holds
    /// entries to report or the timeout is zero, else one.
    pub fn wait_for(&self, timeout: Option<Duration>) -> (r: usize)
        ensures
            r == (if self.state().ready.len() > 0 || (timeout is Some && duration_is_zero(
                timeout->Some_0,
            )) {
                0usize
            } else {
                1usize
            }),
    {
        if self.ready.len() > 0 {
            return 0;
        }
        match timeout {
            Some(d) => if is_zero(&d) {
                0
            } else {
                1
            },
            None => 1,
        }
    }
}

/// Position of the first `t` in `v`.
fn position(v: &Vec<usize>, t: usize) -> (r: Option<usize>)
    ensures
        r is Some <==> index_of(v@, t) >= 0,
        r is Some ==> r->Some_0 == index_of(v@, t),
{
    proof {
        lemma_index_of(v@, t);
    }
    let mut i: usize = 0;
    while i < v.len()
        invariant
            i <= v.len(),
            forall|j: int| 0 <= j < i ==> v@[j] != t,
            -1 <= index_of(v@, t) < v@.len(),
            index_of(v@, t) >= 0 ==> v@[index_of(v@, t)] == t,
            index_of(v@, t) >= 0 ==> forall|j: int| 0 <= j < index_of(v@, t) ==> v@[j] != t,
            index_of(v@, t) < 0 <==> !v@.contains(t),
        decreases v.len() - i,
    {
        if v[i] == t {
            assert(!(index_of(v@, t) < 0));
            return Some(i);
        }
        i = i + 1;
    }
    assert(!v@.contains(t));
    None
}

fn record_cancel(t: usize) -> (r: SubmissionEntry)
    ensures
        r == cancel_record(t),
{
    SubmissionEntry {
        opcode: OpKind::AsyncCancel,
        fd: -1,
        offset: 0,
        len: 0,
        iovecs: 0,
        addr_len: 0,
        datasync: false,
        timeout: None,
        user_data: t,
    }
}

impl<'arena> CompleteIo<'arena> for Driver {
    closed spec fn state(&self) -> DriverState {
        self.view_state()
    }

    fn attach(&mut self, fd: RawFd) -> (r: std::io::Result<()>) {
        Ok(())
    }

    fn try_cancel(&mut self, user_data: usize) -> (r: Result<(), ()>) {
        let ghost s0 = self.state();
        let mut i: usize = 0;
        while i < self.squeue.len()
            invariant
                s0 == old(self).state(),
                s0.wf(),
                self.state() == s0,
                i <= self.squeue.len(),
                forall|j: int| 0 <= j < i ==> self.squeue@[j].user_data != user_data,
            decreases self.squeue.len() - i,
        {
            if self.squeue[i].user_data == user_data {
                proof {
                    let toks = tokens_of(s0.queued);
                    lemma_index_of(toks, user_data);
                    assert(toks[i as int] == user_data);
                    let k = index_of(toks, user_data);
                    assert(k >= 0);
                    assert(k == i) by {
                        if k < i {
                            assert(toks[k] == self.squeue@[k].user_data);
                        }
                    }
                }
                self.squeue.remove(i);
                let e = Entry::new(user_data, Err(ECANCELED));
                self.ready.push(e);
                assert(self.squeue@ == s0.queued.remove(i as int));
                assert(self.ready@ == s0.ready.push(Entry::spec_new(user_data, Err(ECANCELED))));
                assert(self.state() == s0.cancel(user_data)->Some_0);
                return Ok(());
            }
            i = i + 1;
        }
        proof {
            let toks = tokens_of(s0.queued);
            lemma_index_of(toks, user_data);
            assert(!toks.contains(user_data)) by {
                if toks.contains(user_data) {
                    let j = choose|j: int| 0 <= j < toks.len() && toks[j] == user_data;
                    assert(self.squeue@[j].user_data == user_data);
                }
            }
        }
        if self.squeue.len() + self.cancels.len() < self.entries {
            self.cancels.push(user_data);
            assert(self.state() == s0.cancel(user_data)->Some_0);
            Ok(())
        } else {
            Err(())
        }
    }

    fn try_push<O: OpCode>(&mut self, op: Operation<'arena, O>) -> (r: Result<
        (),
        Operation<'arena, O>,
    >) {
        if self.squeue.len() + self.cancels.len() >= self.entries {
            return Err(op);
        }
        let rec = op.create_record();
        self.squeue.push(rec);
        assert(self.squeue@ =~= old(self).squeue@ + seq![op.record()]);
        assert(self.state() == old(self).state().push_all(seq![op.record()]));
        Ok(())
    }

    fn try_push_dyn(&mut self, op: OpObject<'arena>) -> (r: Result<(), OpObject<'arena>>) {
        if self.squeue.len() + self.cancels.len() >= self.entries {
            return Err(op);
        }
        let rec = op.create_record();
        self.squeue.push(rec);
        assert(self.squeue@ =~= old(self).squeue@ + seq![op.record()]);
        assert(self.state() == old(self).state().push_all(seq![op.record()]));
        Ok(())
    }

    fn push_queue(&mut self, ops_queue: &mut VecDeque<OpObject<'arena>>) {
        let ghost s0 = self.state();
        let ghost q0 = ops_queue@;
        let ghost k = admitted(q0.len(), s0.capacity_left());
        let mut pushed: usize = 0;
        while self.squeue.len() + self.cancels.len() < self.entries && ops_queue.len() > 0
            invariant
                s0 == old(self).state(),
                q0 == old(ops_queue)@,
                k == admitted(q0.len(), s0.capacity_left()),
                s0.wf(),
                self.state().wf(),
                pushed <= k,
                k <= q0.len(),
                pushed == self.squeue@.len() - s0.queued.len(),
                ops_queue@ == q0.subrange(pushed as int, q0.len() as int),
                self.state() == s0.push_all(records_of(q0.subrange(0, pushed as int))),
            decreases ops_queue@.len(),
        {
            let op = ops_queue.pop_front().unwrap();
            let rec = op.create_record();
            self.squeue.push(rec);
            proof {
                assert(q0.subrange(0, pushed + 1) =~= q0.subrange(0, pushed as int).push(op));
                assert(records_of(q0.subrange(0, pushed + 1)) =~= records_of(
                    q0.subrange(0, pushed as int),
                ).push(op.record()));
                assert(self.squeue@ =~= s0.queued + records_of(q0.subrange(0, pushed + 1)));
                assert(ops_queue@ =~= q0.subrange(pushed + 1, q0.len() as int));
            }
            pushed = pushed + 1;
        }
        assert(pushed == k);
    }

    fn capacity_left(&self) -> (r: usize) {
        self.entries - self.squeue.len() - self.cancels.len()
    }
}

} // verus!
