//! The operations. Each one only describes what the kernel should do: it
//! becomes a submission record when pushed into a driver, and its buffers stay
//! with it until the completion entry has been observed.
use vstd::prelude::*;

use crate::buf::BufWrapperMut;
use core::time::Duration;

verus! {

/// A raw file descriptor.
pub type RawFd = i32;

/// Size of the peer-address storage that accept and recv-from carry.
pub const SOCKADDR_STORAGE_LEN: usize = 128;

/// The native operation a submission record asks for.
#[derive(Clone, Copy, Debug, PartialEq, Eq, Structural)]
pub enum OpKind {
    Read,
    Write,
    Fsync,
    Accept,
    Connect,
    Readv,
    Writev,
    RecvMsg,
    SendMsg,
    Timeout,
    AsyncCancel,
}

/// A submission record in the kernel's terms: what to do, on which
/// descriptor, over how many bytes, and the token that correlates it with its
/// completion.
#[derive(Clone, Copy, Debug)]
pub struct SubmissionEntry {
    pub opcode: OpKind,
    pub fd: RawFd,
    pub offset: usize,
    /// Bytes the operation's buffers carry (send paths) or can take (receive paths).
    pub len: usize,
    /// Number of buffer slices handed to the kernel.
    pub iovecs: usize,
    /// Size of the socket-address storage or value.
    pub addr_len: usize,
    pub datasync: bool,
    pub timeout: Option<Duration>,
    pub user_data: usize,
}

/// The record with every field but the opcode and descriptor at rest.
pub open spec fn base_record(opcode: OpKind, fd: RawFd) -> SubmissionEntry {
    SubmissionEntry {
        opcode,
        fd,
        offset: 0,
        len: 0,
        iovecs: 0,
        addr_len: 0,
        datasync: false,
        timeout: None,
        user_data: 0,
    }
}

fn record(opcode: OpKind, fd: RawFd) -> (r: SubmissionEntry)
    ensures
        r == base_record(opcode, fd),
{
    SubmissionEntry {
        opcode,
        fd,
        offset: 0,
        len: 0,
        iovecs: 0,
        addr_len: 0,
        datasync: false,
        timeout: None,
        user_data: 0,
    }
}

/// Sum of the lengths of a list of buffers.
pub open spec fn total_len(bufs: Seq<Vec<u8>>) -> nat
    decreases bufs.len(),
{
    if bufs.len() == 0 {
        0
    } else {
        total_len(bufs.drop_last()) + bufs.last()@.len()
    }
}

/// An operation that can be turned into a submission record.
pub trait OpCode {
    /// The record this operation stands for, before a token is attached.
    spec fn entry_spec(&self) -> SubmissionEntry;

    /// Build the submission record.
    fn create_entry(&self) -> (r: SubmissionEntry)
        ensures
            r == self.entry_spec(),
    ;
}

/// Read a file at a given position into a buffer.
#[derive(Debug)]
pub struct ReadAt {
    pub(crate) fd: RawFd,
    pub(crate) offset: usize,
    pub(crate) buffer: BufWrapperMut,
}

impl ReadAt {
    pub closed spec fn fd_spec(&self) -> RawFd {
        self.fd
    }

    pub closed spec fn offset_spec(&self) -> usize {
        self.offset
    }

    pub closed spec fn buffer_spec(&self) -> BufWrapperMut {
        self.buffer
    }

    /// Read at `offset` of `fd` into the spare room of `buffer`.
    pub fn new(fd: RawFd, offset: usize, buffer: Vec<u8>) -> (r: Self)
        ensures
            r.fd_spec() == fd,
            r.offset_spec() == offset,
            r.buffer_spec().wf(),
            r.buffer_spec().initialized() == buffer@,
            r.buffer_spec().capacity() >= buffer@.len(),
    {
        ReadAt { fd, offset, buffer: BufWrapperMut::new(buffer) }
    }

    /// The buffer, for the kernel side and for the adjustment after completion.
    pub fn buffer_mut(&mut self) -> (r: &mut BufWrapperMut)
        ensures
            *r == old(self).buffer_spec(),
            final(self).buffer_spec() == *final(r),
            final(self).fd_spec() == old(self).fd_spec(),
            final(self).offset_spec() == old(self).offset_spec(),
    {
        &mut self.buffer
    }

    /// Take the bytes read back.
    pub fn into_inner(self) -> (r: Vec<u8>)
        requires
            self.buffer_spec().wf(),
        ensures
            r@ == self.buffer_spec().initialized(),
    {
        self.buffer.into_inner()
    }
}

impl OpCode for ReadAt {
    open spec fn entry_spec(&self) -> SubmissionEntry {
        SubmissionEntry {
            offset: self.offset_spec(),
            len: self.buffer_spec().room() as usize,
            iovecs: 1,
            ..base_record(OpKind::Read, self.fd_spec())
        }
    }

    fn create_entry(&self) -> (r: SubmissionEntry) {
        let mut r = record(OpKind::Read, self.fd);
        r.offset = self.offset;
        r.len = self.buffer.uninit_len();
        r.iovecs = 1;
        r
    }
}

/// Write a buffer to a file at a given position.
#[derive(Debug)]
pub struct WriteAt {
    pub(crate) fd: RawFd,
    pub(crate) offset: usize,
    pub(crate) buffer: Vec<u8>,
}

impl WriteAt {
    pub closed spec fn fd_spec(&self) -> RawFd {
        self.fd
    }

    pub closed spec fn offset_spec(&self) -> usize {
        self.offset
    }

    pub closed spec fn buffer_spec(&self) -> Seq<u8> {
        self.buffer@
    }

    /// Write all of `buffer` at `offset` of `fd`.
    pub fn new(fd: RawFd, offset: usize, buffer: Vec<u8>) -> (r: Self)
        ensures
            r.fd_spec() == fd,
            r.offset_spec() == offset,
            r.buffer_spec() == buffer@,
    {
        WriteAt { fd, offset, buffer }
    }

    /// The bytes to send.
    pub fn buffer(&self) -> (r: &Vec<u8>)
        ensures
            r@ == self.buffer_spec(),
    {
        &self.buffer
    }

    /// Take the buffer back.
    pub fn into_inner(self) -> (r: Vec<u8>)
        ensures
            r@ == self.buffer_spec(),
    {
        self.buffer
    }
}

impl OpCode for WriteAt {
    open spec fn entry_spec(&self) -> SubmissionEntry {
        SubmissionEntry {
            offset: self.offset_spec(),
            len: self.buffer_spec().len() as usize,
            iovecs: 1,
            ..base_record(OpKind::Write, self.fd_spec())
        }
    }

    fn create_entry(&self) -> (r: SubmissionEntry) {
        let mut r = record(OpKind::Write, self.fd);
        r.offset = self.offset;
        r.len = self.buffer.len();
        r.iovecs = 1;
        r
    }
}

/// Flush a file to its storage; `datasync` limits the flush to the data.
#[derive(Debug)]
pub struct Sync {
    pub(crate) fd: RawFd,
    pub(crate) datasync: bool,
}

impl Sync {
    pub closed spec fn fd_spec(&self) -> RawFd {
        self.fd
    }

    pub closed spec fn datasync_spec(&self) -> bool {
        self.datasync
    }

    pub fn new(fd: RawFd, datasync: bool) -> (r: Self)
        ensures
            r.fd_spec() == fd,
            r.datasync_spec() == datasync,
    {
        Sync { fd, datasync }
    }
}

impl OpCode for Sync {
    open spec fn entry_spec(&self) -> SubmissionEntry {
        SubmissionEntry { datasync: self.datasync_spec(), ..base_record(OpKind::Fsync, self.fd_spec()) }
    }

    fn create_entry(&self) -> (r: SubmissionEntry) {
        let mut r = record(OpKind::Fsync, self.fd);
        r.datasync = self.datasync;
        r
    }
}

/// Accept a connection; the peer address lands in the operation's storage.
#[derive(Debug)]
pub struct Accept {
    pub(crate) fd: RawFd,
    pub(crate) addr: Vec<u8>,
    pub(crate) addr_len: usize,
}

impl Accept {
    pub closed spec fn fd_spec(&self) -> RawFd {
        self.fd
    }

    /// The peer-address storage.
    pub closed spec fn addr_spec(&self) -> Seq<u8> {
        self.addr@
    }

    /// How many bytes of the storage hold the peer address.
    pub closed spec fn addr_len_spec(&self) -> usize {
        self.addr_len
    }

    pub fn new(fd: RawFd) -> (r: Self)
        ensures
            r.fd_spec() == fd,
            r.addr_spec().len() == SOCKADDR_STORAGE_LEN,
            r.addr_len_spec() == SOCKADDR_STORAGE_LEN,
    {
        Accept { fd, addr: vec![0u8; SOCKADDR_STORAGE_LEN], addr_len: SOCKADDR_STORAGE_LEN }
    }

    /// The storage, for the kernel to write the peer address into.
    pub fn addr_mut(&mut self) -> (r: &mut Vec<u8>)
        ensures
            r@ == old(self).addr_spec(),
            final(self).addr_spec() == final(r)@,
            final(self).fd_spec() == old(self).fd_spec(),
            final(self).addr_len_spec() == old(self).addr_len_spec(),
    {
        &mut self.addr
    }

    /// Record the size of the address the kernel wrote.
    pub fn set_addr_len(&mut self, len: usize)
        requires
            len <= old(self).addr_spec().len(),
        ensures
            final(self).addr_len_spec() == len,
            final(self).addr_spec() == old(self).addr_spec(),
            final(self).fd_spec() == old(self).fd_spec(),
    {
        self.addr_len = len;
    }

    /// The peer address bytes.
    pub fn peer_addr(&self) -> (r: Vec<u8>)
        requires
            self.addr_len_spec() <= self.addr_spec().len(),
        ensures
            r@ == self.addr_spec().subrange(0, self.addr_len_spec() as int),
    {
        prefix(&self.addr, self.addr_len)
    }
}

/// The first `n` bytes of `v`.
fn prefix(v: &Vec<u8>, n: usize) -> (r: Vec<u8>)
    requires
        n <= v.len(),
    ensures
        r@ == v@.subrange(0, n as int),
{
    let mut r: Vec<u8> = Vec::new();
    let mut i: usize = 0;
    while i < n
        invariant
            n <= v.len(),
            i <= n,
            r@ == v@.subrange(0, i as int),
        decreases n - i,
    {
        r.push(v[i]);
        i = i + 1;
    }
    r
}

impl OpCode for Accept {
    open spec fn entry_spec(&self) -> SubmissionEntry {
        SubmissionEntry {
            addr_len: self.addr_spec().len() as usize,
            ..base_record(OpKind::Accept, self.fd_spec())
        }
    }

    fn create_entry(&self) -> (r: SubmissionEntry) {
        let mut r = record(OpKind::Accept, self.fd);
        r.addr_len = self.addr.len();
        r
    }
}

/// Connect a socket to an address, given as the bytes of a socket address.
#[derive(Debug)]
pub struct Connect {
    pub(crate) fd: RawFd,
    pub(crate) addr: Vec<u8>,
}

impl Connect {
    pub closed spec fn fd_spec(&self) -> RawFd {
        self.fd
    }

    pub closed spec fn addr_spec(&self) -> Seq<u8> {
        self.addr@
    }

    pub fn new(fd: RawFd, addr: Vec<u8>) -> (r: Self)
        ensures
            r.fd_spec() == fd,
            r.addr_spec() == addr@,
    {
        Connect { fd, addr }
    }

    /// The socket-address bytes.
    pub fn addr(&self) -> (r: &Vec<u8>)
        ensures
            r@ == self.addr_spec(),
    {
        &self.addr
    }
}

impl OpCode for Connect {
    open spec fn entry_spec(&self) -> SubmissionEntry {
        SubmissionEntry {
            addr_len: self.addr_spec().len() as usize,
            ..base_record(OpKind::Connect, self.fd_spec())
        }
    }

    fn create_entry(&self) -> (r: SubmissionEntry) {
        let mut r = record(OpKind::Connect, self.fd);
        r.addr_len = self.addr.len();
        r
    }
}

/// Receive from a connected socket into a buffer.
#[derive(Debug)]
pub struct Recv {
    pub(crate) fd: RawFd,
    pub(crate) buffer: BufWrapperMut,
}

impl Recv {
    pub closed spec fn fd_spec(&self) -> RawFd {
        self.fd
    }

    pub closed spec fn buffer_spec(&self) -> BufWrapperMut {
        self.buffer
    }

    /// Receive from `fd` into the spare room of `buffer`.
    pub fn new(fd: RawFd, buffer: Vec<u8>) -> (r: Self)
        ensures
            r.fd_spec() == fd,
            r.buffer_spec().wf(),
            r.buffer_spec().initialized() == buffer@,
            r.buffer_spec().capacity() >= buffer@.len(),
    {
        Recv { fd, buffer: BufWrapperMut::new(buffer) }
    }

    /// The buffer, for the kernel side and for the adjustment after completion.
    pub fn buffer_mut(&mut self) -> (r: &mut BufWrapperMut)
        ensures
            *r == old(self).buffer_spec(),
            final(self).buffer_spec() == *final(r),
            final(self).fd_spec() == old(self).fd_spec(),
    {
        &mut self.buffer
    }

    /// Take the bytes received back.
    pub fn into_inner(self) -> (r: Vec<u8>)
        requires
            self.buffer_spec().wf(),
        ensures
            r@ == self.buffer_spec().initialized(),
    {
        self.buffer.into_inner()
    }
}

impl OpCode for Recv {
    open spec fn entry_spec(&self) -> SubmissionEntry {
        SubmissionEntry {
            len: self.buffer_spec().room() as usize,
            iovecs: 1,
            ..base_record(OpKind::Readv, self.fd_spec())
        }
    }

    fn create_entry(&self) -> (r: SubmissionEntry) {
        let mut r = record(OpKind::Readv, self.fd);
        r.len = self.buffer.uninit_len();
        r.iovecs = 1;
        r
    }
}

/// Send a buffer on a connected socket.
#[derive(Debug)]
pub struct Send {
    pub(crate) fd: RawFd,
    pub(crate) buffer: Vec<u8>,
}

impl Send {
    pub closed spec fn fd_spec(&self) -> RawFd {
        self.fd
    }

    pub closed spec fn buffer_spec(&self) -> Seq<u8> {
        self.buffer@
    }

    pub fn new(fd: RawFd, buffer: Vec<u8>) -> (r: Self)
        ensures
            r.fd_spec() == fd,
            r.buffer_spec() == buffer@,
    {
        Send { fd, buffer }
    }

    /// The bytes to send.
    pub fn buffer(&self) -> (r: &Vec<u8>)
        ensures
            r@ == self.buffer_spec(),
    {
        &self.buffer
    }

    /// Take the buffer back.
    pub fn into_inner(self) -> (r: Vec<u8>)
        ensures
            r@ == self.buffer_spec(),
    {
        self.buffer
    }
}

impl OpCode for Send {
    open spec fn entry_spec(&self) -> SubmissionEntry {
        SubmissionEntry {
            len: self.buffer_spec().len() as usize,
            iovecs: 1,
            ..base_record(OpKind::Writev, self.fd_spec())
        }
    }

    fn create_entry(&self) -> (r: SubmissionEntry) {
        let mut r = record(OpKind::Writev, self.fd);
        r.len = self.buffer.len();
        r.iovecs = 1;
        r
    }
}

/// The sum of the lengths of `bufs`.
fn sum_lens(bufs: &Vec<Vec<u8>>) -> (r: usize)
    requires
        total_len(bufs@) <= usize::MAX,
    ensures
        r == total_len(bufs@),
{
    let mut total: usize = 0;
    let mut i: usize = 0;
    while i < bufs.len()
        invariant
            i <= bufs.len(),
            total_len(bufs@) <= usize::MAX,
            total == total_len(bufs@.subrange(0, i as int)),
        decreases bufs.len() - i,
    {
        proof {
            lemma_total_len_prefix(bufs@, i as int + 1);
            assert(bufs@.subrange(0, i + 1).drop_last() == bufs@.subrange(0, i as int));
        }
        total = total + bufs[i].len();
        i = i + 1;
    }
    assert(bufs@.subrange(0, i as int) == bufs@);
    total
}

/// A prefix never carries more bytes than the whole list.
proof fn lemma_total_len_prefix(bufs: Seq<Vec<u8>>, n: int)
    requires
        0 <= n <= bufs.len(),
    ensures
        total_len(bufs.subrange(0, n)) <= total_len(bufs),
    decreases bufs.len() - n,
{
    if n < bufs.len() {
        lemma_total_len_prefix(bufs, n + 1);
        assert(bufs.subrange(0, n + 1).drop_last() == bufs.subrange(0, n));
    } else {
        assert(bufs.subrange(0, n) == bufs);
    }
}

/// Send a list of buffers, in order, on a connected socket.
#[derive(Debug)]
pub struct SendVectored {
    pub(crate) fd: RawFd,
    pub(crate) buffers: Vec<Vec<u8>>,
    pub(crate) total: usize,
}

impl SendVectored {
    pub closed spec fn fd_spec(&self) -> RawFd {
        self.fd
    }

    pub closed spec fn buffers_spec(&self) -> Seq<Vec<u8>> {
        self.buffers@
    }

    pub closed spec fn wf(&self) -> bool {
        self.total == total_len(self.buffers@)
    }

    /// Send `buffers` on `fd`; their lengths must add up to a `usize`.
    pub fn new(fd: RawFd, buffers: Vec<Vec<u8>>) -> (r: Self)
        requires
            total_len(buffers@) <= usize::MAX,
        ensures
            r.wf(),
            r.fd_spec() == fd,
            r.buffers_spec() == buffers@,
    {
        let total = sum_lens(&buffers);
        SendVectored { fd, buffers, total }
    }

    /// The buffers to send.
    pub fn buffers(&self) -> (r: &Vec<Vec<u8>>)
        ensures
            r@ == self.buffers_spec(),
    {
        &self.buffers
    }

    /// Take the buffers back.
    pub fn into_inner(self) -> (r: Vec<Vec<u8>>)
        ensures
            r@ == self.buffers_spec(),
    {
        self.buffers
    }
}

impl OpCode for SendVectored {
    open spec fn entry_spec(&self) -> SubmissionEntry {
        SubmissionEntry {
            len: self.total_spec(),
            iovecs: self.buffers_spec().len() as usize,
            ..base_record(OpKind::Writev, self.fd_spec())
        }
    }

    fn create_entry(&self) -> (r: SubmissionEntry) {
        let mut r = record(OpKind::Writev, self.fd);
        r.len = self.total;
        r.iovecs = self.buffers.len();
        r
    }
}

impl SendVectored {
    /// Bytes carried, as recorded at construction.
    pub closed spec fn total_spec(&self) -> usize {
        self.total
    }
}

/// Receive a datagram into a buffer; the sender's address lands in the
/// operation's storage.
#[derive(Debug)]
pub struct RecvFrom {
    pub(crate) fd: RawFd,
    pub(crate) buffer: BufWrapperMut,
    pub(crate) addr: Vec<u8>,
}

impl RecvFrom {
    pub closed spec fn fd_spec(&self) -> RawFd {
        self.fd
    }

    pub closed spec fn buffer_spec(&self) -> BufWrapperMut {
        self.buffer
    }

    pub closed spec fn addr_spec(&self) -> Seq<u8> {
        self.addr@
    }

    pub fn new(fd: RawFd, buffer: Vec<u8>) -> (r: Self)
        ensures
            r.fd_spec() == fd,
            r.buffer_spec().wf(),
            r.buffer_spec().initialized() == buffer@,
            r.buffer_spec().capacity() >= buffer@.len(),
            r.addr_spec().len() == SOCKADDR_STORAGE_LEN,
    {
        RecvFrom { fd, buffer: BufWrapperMut::new(buffer), addr: vec![0u8; SOCKADDR_STORAGE_LEN] }
    }

    /// The buffer, for the kernel side and for the adjustment after completion.
    pub fn buffer_mut(&mut self) -> (r: &mut BufWrapperMut)
        ensures
            *r == old(self).buffer_spec(),
            final(self).buffer_spec() == *final(r),
            final(self).fd_spec() == old(self).fd_spec(),
            final(self).addr_spec() == old(self).addr_spec(),
    {
        &mut self.buffer
    }

    /// The storage, for the kernel to write the sender's address into.
    pub fn addr_mut(&mut self) -> (r: &mut Vec<u8>)
        ensures
            r@ == old(self).addr_spec(),
            final(self).addr_spec() == final(r)@,
            final(self).fd_spec() == old(self).fd_spec(),
            final(self).buffer_spec() == old(self).buffer_spec(),
    {
        &mut self.addr
    }

    /// Take the bytes received back.
    pub fn into_inner(self) -> (r: Vec<u8>)
        requires
            self.buffer_spec().wf(),
        ensures
            r@ == self.buffer_spec().initialized(),
    {
        self.buffer.into_inner()
    }
}

impl OpCode for RecvFrom {
    open spec fn entry_spec(&self) -> SubmissionEntry {
        SubmissionEntry {
            len: self.buffer_spec().room() as usize,
            iovecs: 1,
            addr_len: self.addr_spec().len() as usize,
            ..base_record(OpKind::RecvMsg, self.fd_spec())
        }
    }

    fn create_entry(&self) -> (r: SubmissionEntry) {
        let mut r = record(OpKind::RecvMsg, self.fd);
        r.len = self.buffer.uninit_len();
        r.iovecs = 1;
        r.addr_len = self.addr.len();
        r
    }
}

/// Send a datagram to an address, given as the bytes of a socket address.
#[derive(Debug)]
pub struct SendTo {
    pub(crate) fd: RawFd,
    pub(crate) buffer: Vec<u8>,
    pub(crate) addr: Vec<u8>,
}

impl SendTo {
    pub closed spec fn fd_spec(&self) -> RawFd {
        self.fd
    }

    pub closed spec fn buffer_spec(&self) -> Seq<u8> {
        self.buffer@
    }

    pub closed spec fn addr_spec(&self) -> Seq<u8> {
        self.addr@
    }

    pub fn new(fd: RawFd, buffer: Vec<u8>, addr: Vec<u8>) -> (r: Self)
        ensures
            r.fd_spec() == fd,
            r.buffer_spec() == buffer@,
            r.addr_spec() == addr@,
    {
        SendTo { fd, buffer, addr }
    }

    /// The bytes to send.
    pub fn buffer(&self) -> (r: &Vec<u8>)
        ensures
            r@ == self.buffer_spec(),
    {
        &self.buffer
    }

    /// The socket-address bytes.
    pub fn addr(&self) -> (r: &Vec<u8>)
        ensures
            r@ == self.addr_spec(),
    {
        &self.addr
    }
}

impl OpCode for SendTo {
    open spec fn entry_spec(&self) -> SubmissionEntry {
        SubmissionEntry {
            len: self.buffer_spec().len() as usize,
            iovecs: 1,
            addr_len: self.addr_spec().len() as usize,
            ..base_record(OpKind::SendMsg, self.fd_spec())
        }
    }

    fn create_entry(&self) -> (r: SubmissionEntry) {
        let mut r = record(OpKind::SendMsg, self.fd);
        r.len = self.buffer.len();
        r.iovecs = 1;
        r.addr_len = self.addr.len();
        r
    }
}

/// A timer: completes after `delay` with a timed-out error.
#[derive(Debug)]
pub struct Timeout {
    pub(crate) delay: Duration,
}

impl Timeout {
    pub closed spec fn delay_spec(&self) -> Duration {
        self.delay
    }

    pub fn new(delay: Duration) -> (r: Self)
        ensures
            r.delay_spec() == delay,
    {
        Timeout { delay }
    }

    /// How long the timer runs.
    pub fn delay(&self) -> (r: Duration)
        ensures
            r == self.delay_spec(),
    {
        self.delay
    }
}

impl OpCode for Timeout {
    open spec fn entry_spec(&self) -> SubmissionEntry {
        SubmissionEntry { timeout: Some(self.delay_spec()), ..base_record(OpKind::Timeout, -1i32) }
    }

    fn create_entry(&self) -> (r: SubmissionEntry) {
        let mut r = record(OpKind::Timeout, -1);
        r.timeout = Some(self.delay);
        r
    }
}

/// Room left over a list of receive buffers.
pub open spec fn total_room(bufs: Seq<BufWrapperMut>) -> nat
    decreases bufs.len(),
{
    if bufs.len() == 0 {
        0
    } else {
        total_room(bufs.drop_last()) + bufs.last().room()
    }
}

/// How many of `n` received bytes land in a buffer whose room starts `before`
/// bytes into the list and spans `room` bytes.
pub open spec fn share_of(n: nat, before: nat, room: nat) -> nat {
    if n <= before {
        0
    } else if n - before >= room {
        room
    } else {
        (n - before) as nat
    }
}

/// Receive from a connected socket into a list of buffers, filled in order.
#[derive(Debug)]
pub struct RecvVectored {
    pub(crate) fd: RawFd,
    pub(crate) buffers: Vec<BufWrapperMut>,
}

impl RecvVectored {
    pub closed spec fn fd_spec(&self) -> RawFd {
        self.fd
    }

    pub closed spec fn buffers_spec(&self) -> Seq<BufWrapperMut> {
        self.buffers@
    }

    pub open spec fn wf(&self) -> bool {
        forall|i: int| 0 <= i < self.buffers_spec().len() ==> (#[trigger] self.buffers_spec()[i]).wf()
    }

    /// Receive from `fd` into the spare room of each of `buffers`, in order.
    pub fn new(fd: RawFd, buffers: Vec<Vec<u8>>) -> (r: Self)
        ensures
            r.wf(),
            r.fd_spec() == fd,
            r.buffers_spec().len() == buffers@.len(),
            forall|i: int|
                0 <= i < buffers@.len() ==> (#[trigger] r.buffers_spec()[i]).initialized()
                    == buffers@[i]@,
    {
        let ghost given = buffers@;
        let mut buffers = buffers;
        let mut wrapped: Vec<BufWrapperMut> = Vec::new();
        let mut rest: Vec<Vec<u8>> = Vec::new();
        while buffers.len() > 0
            invariant
                wrapped@.len() + buffers@.len() == given.len(),
                buffers@ == given.subrange(0, buffers@.len() as int),
                forall|i: int| 0 <= i < wrapped@.len() ==> (#[trigger] wrapped@[i]).wf(),
                forall|i: int|
                    0 <= i < wrapped@.len() ==> (#[trigger] wrapped@[i]).initialized()
                        == given[given.len() - 1 - i]@,
            decreases buffers@.len(),
        {
            let b = buffers.pop().unwrap();
            wrapped.push(BufWrapperMut::new(b));
        }
        let mut ordered: Vec<BufWrapperMut> = Vec::new();
        while wrapped.len() > 0
            invariant
                wrapped@.len() + ordered@.len() == given.len(),
                forall|i: int| 0 <= i < wrapped@.len() ==> (#[trigger] wrapped@[i]).wf(),
                forall|i: int| 0 <= i < ordered@.len() ==> (#[trigger] ordered@[i]).wf(),
                forall|i: int|
                    0 <= i < wrapped@.len() ==> (#[trigger] wrapped@[i]).initialized()
                        == given[given.len() - 1 - i]@,
                forall|i: int|
                    0 <= i < ordered@.len() ==> (#[trigger] ordered@[i]).initialized()
                        == given[i]@,
            decreases wrapped@.len(),
        {
            let b = wrapped.pop().unwrap();
            ordered.push(b);
        }
        RecvVectored { fd, buffers: ordered }
    }

    /// The `i`-th buffer, for the kernel side.
    pub fn buffer_mut(&mut self, i: usize) -> (r: &mut BufWrapperMut)
        requires
            i < old(self).buffers_spec().len(),
        ensures
            *r == old(self).buffers_spec()[i as int],
            final(self).buffers_spec() == old(self).buffers_spec().update(i as int, *final(r)),
            final(self).fd_spec() == old(self).fd_spec(),
    {
        &mut self.buffers[i]
    }

    /// Number of buffers.
    pub fn len(&self) -> (r: usize)
        ensures
            r == self.buffers_spec().len(),
    {
        self.buffers.len()
    }

    /// Mark `n` received bytes as initialized, filling the buffers' rooms in
    /// order.
    pub fn set_init(&mut self, n: usize)
        requires
            old(self).wf(),
            n <= total_room(old(self).buffers_spec()),
        ensures
            final(self).wf(),
            final(self).fd_spec() == old(self).fd_spec(),
            final(self).buffers_spec().len() == old(self).buffers_spec().len(),
            forall|i: int|
                0 <= i < old(self).buffers_spec().len() ==> {
                    &&& (#[trigger] final(self).buffers_spec()[i]).storage()
                        == old(self).buffers_spec()[i].storage()
                    &&& final(self).buffers_spec()[i].init_len() == old(
                        self,
                    ).buffers_spec()[i].init_len() + share_of(
                        n as nat,
                        total_room(old(self).buffers_spec().subrange(0, i)),
                        old(self).buffers_spec()[i].room(),
                    )
                },
    {
        let ghost b0 = self.buffers@;
        let mut i: usize = 0;
        let mut left: usize = n;
        while i < self.buffers.len()
            invariant
                self.fd == old(self).fd,
                b0 == old(self).buffers@,
                self.buffers@.len() == b0.len(),
                i <= b0.len(),
                n <= total_room(b0),
                forall|j: int| 0 <= j < b0.len() ==> (#[trigger] self.buffers@[j]).wf(),
                forall|j: int| 0 <= j < b0.len() ==> (#[trigger] b0[j]).wf(),
                forall|j: int|
                    i <= j < b0.len() ==> #[trigger] self.buffers@[j] == b0[j],
                left as nat == share_left(n as nat, total_room(b0.subrange(0, i as int))),
                forall|j: int|
                    0 <= j < i ==> {
                        &&& (#[trigger] self.buffers@[j]).storage() == b0[j].storage()
                        &&& self.buffers@[j].init_len() == b0[j].init_len() + share_of(
                            n as nat,
                            total_room(b0.subrange(0, j)),
                            b0[j].room(),
                        )
                    },
            decreases b0.len() - i,
        {
            proof {
                assert(b0.subrange(0, i + 1).drop_last() =~= b0.subrange(0, i as int));
            }
            let room = self.buffers[i].uninit_len();
            let take = if left < room {
                left
            } else {
                room
            };
            self.buffers[i].set_init(take);
            left = left - take;
            i = i + 1;
        }
    }

    /// Take the buffers back, each holding exactly its initialized bytes.
    pub fn into_inner(self) -> (r: Vec<Vec<u8>>)
        requires
            self.wf(),
        ensures
            r@.len() == self.buffers_spec().len(),
            forall|i: int|
                0 <= i < r@.len() ==> (#[trigger] r@[i])@ == self.buffers_spec()[i].initialized(),
    {
        let ghost b0 = self.buffers@;
        assert forall|j: int| 0 <= j < b0.len() implies (#[trigger] b0[j]).wf() by {
            assert(self.buffers_spec()[j].wf());
        }
        let mut buffers = self.buffers;
        let mut reversed: Vec<Vec<u8>> = Vec::new();
        while buffers.len() > 0
            invariant
                reversed@.len() + buffers@.len() == b0.len(),
                buffers@ == b0.subrange(0, buffers@.len() as int),
                forall|j: int| 0 <= j < b0.len() ==> (#[trigger] b0[j]).wf(),
                forall|j: int|
                    0 <= j < reversed@.len() ==> (#[trigger] reversed@[j])@ == b0[b0.len() - 1
                        - j].initialized(),
            decreases buffers@.len(),
        {
            let b = buffers.pop().unwrap();
            reversed.push(b.into_inner());
        }
        let mut out: Vec<Vec<u8>> = Vec::new();
        while reversed.len() > 0
            invariant
                reversed@.len() + out@.len() == b0.len(),
                forall|j: int|
                    0 <= j < reversed@.len() ==> (#[trigger] reversed@[j])@ == b0[b0.len() - 1
                        - j].initialized(),
                forall|j: int| 0 <= j < out@.len() ==> (#[trigger] out@[j])@ == b0[j].initialized(),
            decreases reversed@.len(),
        {
            let b = reversed.pop().unwrap();
            out.push(b);
        }
        out
    }
}

/// What is left of `n` received bytes after `before` bytes of room.
pub open spec fn share_left(n: nat, before: nat) -> nat {
    if n <= before {
        0
    } else {
        (n - before) as nat
    }
}

impl OpCode for RecvVectored {
    open spec fn entry_spec(&self) -> SubmissionEntry {
        SubmissionEntry {
            len: if total_room(self.buffers_spec()) <= usize::MAX {
                total_room(self.buffers_spec()) as usize
            } else {
                usize::MAX
            },
            iovecs: self.buffers_spec().len() as usize,
            ..base_record(OpKind::Readv, self.fd_spec())
        }
    }

    fn create_entry(&self) -> (r: SubmissionEntry) {
        let mut total: usize = 0;
        let mut i: usize = 0;
        while i < self.buffers.len()
            invariant
                i <= self.buffers@.len(),
                total == (if total_room(self.buffers@.subrange(0, i as int)) <= usize::MAX {
                    total_room(self.buffers@.subrange(0, i as int)) as usize
                } else {
                    usize::MAX
                }),
            decreases self.buffers@.len() - i,
        {
            proof {
                assert(self.buffers@.subrange(0, i + 1).drop_last() =~= self.buffers@.subrange(
                    0,
                    i as int,
                ));
            }
            total = total.saturating_add(self.buffers[i].uninit_len());
            i = i + 1;
        }
        proof {
            assert(self.buffers@.subrange(0, i as int) =~= self.buffers@);
        }
        let mut r = record(OpKind::Readv, self.fd);
        r.len = total;
        r.iovecs = self.buffers.len();
        r
    }
}

/// Receive a datagram into a list of buffers; the sender's address lands in
/// the operation's storage.
#[derive(Debug)]
pub struct RecvFromVectored {
    pub(crate) inner: RecvVectored,
    pub(crate) addr: Vec<u8>,
}

impl RecvFromVectored {
    /// The buffers, as a vectored receive.
    pub closed spec fn inner_spec(&self) -> RecvVectored {
        self.inner
    }

    pub closed spec fn addr_spec(&self) -> Seq<u8> {
        self.addr@
    }

    pub fn new(fd: RawFd, buffers: Vec<Vec<u8>>) -> (r: Self)
        ensures
            r.inner_spec().wf(),
            r.inner_spec().fd_spec() == fd,
            r.inner_spec().buffers_spec().len() == buffers@.len(),
            forall|i: int|
                0 <= i < buffers@.len() ==> (#[trigger] r.inner_spec().buffers_spec()[i]).initialized()
                    == buffers@[i]@,
            r.addr_spec().len() == SOCKADDR_STORAGE_LEN,
    {
        RecvFromVectored {
            inner: RecvVectored::new(fd, buffers),
            addr: vec![0u8; SOCKADDR_STORAGE_LEN],
        }
    }

    /// The buffers, for the kernel side and for the adjustment after completion.
    pub fn buffers_mut(&mut self) -> (r: &mut RecvVectored)
        ensures
            *r == old(self).inner_spec(),
            final(self).inner_spec() == *final(r),
            final(self).addr_spec() == old(self).addr_spec(),
    {
        &mut self.inner
    }

    /// The storage, for the kernel to write the sender's address into.
    pub fn addr_mut(&mut self) -> (r: &mut Vec<u8>)
        ensures
            r@ == old(self).addr_spec(),
            final(self).addr_spec() == final(r)@,
            final(self).inner_spec() == old(self).inner_spec(),
    {
        &mut self.addr
    }
}

impl OpCode for RecvFromVectored {
    open spec fn entry_spec(&self) -> SubmissionEntry {
        SubmissionEntry {
            opcode: OpKind::RecvMsg,
            addr_len: self.addr_spec().len() as usize,
            ..self.inner_spec().entry_spec()
        }
    }

    fn create_entry(&self) -> (r: SubmissionEntry) {
        let mut r = self.inner.create_entry();
        r.opcode = OpKind::RecvMsg;
        r.addr_len = self.addr.len();
        r
    }
}

/// Send a list of buffers as one datagram to an address, given as the bytes
/// of a socket address.
#[derive(Debug)]
pub struct SendToVectored {
    pub(crate) inner: SendVectored,
    pub(crate) addr: Vec<u8>,
}

impl SendToVectored {
    /// The buffers, as a vectored send.
    pub closed spec fn inner_spec(&self) -> SendVectored {
        self.inner
    }

    pub closed spec fn addr_spec(&self) -> Seq<u8> {
        self.addr@
    }

    /// Send `buffers` on `fd` to `addr`; their lengths must add up to a `usize`.
    pub fn new(fd: RawFd, buffers: Vec<Vec<u8>>, addr: Vec<u8>) -> (r: Self)
        requires
            total_len(buffers@) <= usize::MAX,
        ensures
            r.inner_spec().wf(),
            r.inner_spec().fd_spec() == fd,
            r.inner_spec().buffers_spec() == buffers@,
            r.addr_spec() == addr@,
    {
        SendToVectored { inner: SendVectored::new(fd, buffers), addr }
    }

    /// The buffers to send.
    pub fn buffers(&self) -> (r: &Vec<Vec<u8>>)
        ensures
            r@ == self.inner_spec().buffers_spec(),
    {
        self.inner.buffers()
    }

    /// The socket-address bytes.
    pub fn addr(&self) -> (r: &Vec<u8>)
        ensures
            r@ == self.addr_spec(),
    {
        &self.addr
    }
}

impl OpCode for SendToVectored {
    open spec fn entry_spec(&self) -> SubmissionEntry {
        SubmissionEntry {
            opcode: OpKind::SendMsg,
            addr_len: self.addr_spec().len() as usize,
            ..self.inner_spec().entry_spec()
        }
    }

    fn create_entry(&self) -> (r: SubmissionEntry) {
        let mut r = self.inner.create_entry();
        r.opcode = OpKind::SendMsg;
        r.addr_len = self.addr.len();
        r
    }
}

} // verus!
