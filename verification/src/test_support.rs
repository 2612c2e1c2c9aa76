//! A scripted in-memory transport for examples and tests.

use vstd::prelude::*;

use crate::client::{exchange_calls, frame_reads, new_calls, read_calls, same_link, ClientError};
use crate::frame::{
    build_reader_frame, reader_frame_bytes, reader_packet, reader_packet_error, MAX_DATA_LEN,
};
use crate::transport::{ReaderTransport, TransportCall};

verus! {

/// One scripted request/response interaction for [`MockTransport`].
#[derive(Debug, Clone, PartialEq, Eq)]
pub struct MockInteraction {
    /// Expected command code in the host request.
    pub request_command: u8,
    /// Status code returned in the reader reply.
    pub response_status: u16,
    /// Data payload returned in the reader reply.
    pub response_data: Vec<u8>,
}

/// What a mock transport holds between calls: the bytes waiting to be read
/// and the interactions not yet consumed by a write.
pub struct MockState {
    /// Bytes waiting to be read.
    pub pending: Seq<u8>,
    /// Interactions not yet consumed.
    pub script: Seq<MockInteraction>,
}

/// What a write of `data` returns in state `st`: with interactions left, the
/// request must be a frame (at least three bytes, header `0xFF`) for the next
/// interaction's command; without, every write succeeds.
pub open spec fn mock_write_result(st: MockState, data: Seq<u8>) -> Result<(), &'static str> {
    if st.script.len() == 0 {
        Ok(())
    } else if data.len() < 3 || data[0] != 0xFF {
        Err("invalid request frame")
    } else if data[2] != st.script[0].request_command {
        Err("unexpected request command")
    } else {
        Ok(())
    }
}

/// The state after a write of `data` in state `st`: a write consumes the next
/// interaction, and an accepted one makes that interaction's reply readable.
pub open spec fn mock_after_write(st: MockState, data: Seq<u8>) -> MockState {
    if st.script.len() == 0 {
        st
    } else {
        let next = st.script[0];
        MockState {
            pending: if mock_write_result(st, data) is Ok {
                st.pending + reader_frame_bytes(
                    next.request_command,
                    next.response_status,
                    next.response_data@,
                )
            } else {
                st.pending
            },
            script: st.script.drop_first(),
        }
    }
}

/// What a read of `len` bytes returns in state `st`: the next `len` pending
/// bytes, or `"eof"` when fewer are pending.
pub open spec fn mock_read_result(st: MockState, len: nat) -> Result<Seq<u8>, &'static str> {
    if st.pending.len() < len {
        Err("eof")
    } else {
        Ok(st.pending.take(len as int))
    }
}

/// The state after a read of `len` bytes in state `st`.
pub open spec fn mock_after_read(st: MockState, len: nat) -> MockState {
    if st.pending.len() < len {
        st
    } else {
        MockState { pending: st.pending.skip(len as int), script: st.script }
    }
}

/// The state after call `c` in state `st`, when `c` returned what the mock
/// returns there; `None` when it did not.
pub open spec fn mock_step(st: MockState, c: TransportCall<&'static str>) -> Option<MockState> {
    match c {
        TransportCall::Write { data, result } => if result == mock_write_result(st, data) {
            Some(mock_after_write(st, data))
        } else {
            None
        },
        TransportCall::Read { len, result } => if result == mock_read_result(st, len) {
            Some(mock_after_read(st, len))
        } else {
            None
        },
    }
}

/// The state that the calls `calls` lead to from `st`, when each returned
/// what the mock returns in the state the calls before it left.
pub open spec fn mock_replay(st: MockState, calls: Seq<TransportCall<&'static str>>) -> Option<
    MockState,
>
    decreases calls.len(),
{
    if calls.len() == 0 {
        Some(st)
    } else {
        match mock_replay(st, calls.drop_last()) {
            Some(s) => mock_step(s, calls.last()),
            None => None,
        }
    }
}

/// Replaying one more call is one more step.
pub proof fn lemma_mock_replay_push(
    st: MockState,
    calls: Seq<TransportCall<&'static str>>,
    c: TransportCall<&'static str>,
)
    ensures
        mock_replay(st, calls.push(c)) == match mock_replay(st, calls) {
            Some(s) => mock_step(s, c),
            None => None,
        },
{
    assert(calls.push(c).drop_last() =~= calls);
}

/// Replaying `a` then `b` is replaying `b` from where `a` leads.
pub proof fn lemma_mock_replay_append(
    st: MockState,
    a: Seq<TransportCall<&'static str>>,
    b: Seq<TransportCall<&'static str>>,
)
    ensures
        mock_replay(st, a + b) == match mock_replay(st, a) {
            Some(s) => mock_replay(s, b),
            None => None,
        },
    decreases b.len(),
{
    if b.len() == 0 {
        assert(a + b =~= a);
    } else {
        lemma_mock_replay_append(st, a, b.drop_last());
        assert((a + b).drop_last() =~= a + b.drop_last());
        assert((a + b).last() == b.last());
    }
}

/// The calls of reading one frame, replayed from a state whose pending bytes
/// begin with the well-formed packet `p`, make no failed call, receive `p`
/// and leave the bytes after it pending.
proof fn lemma_mock_frame_reads<T: ReaderTransport<Error = &'static str>, V>(
    st: MockState,
    t0: T,
    t1: T,
    c: Seq<TransportCall<&'static str>>,
    p: Seq<u8>,
    r: Result<V, ClientError<&'static str>>,
)
    requires
        frame_reads(t0, t1, c, r),
        mock_replay(st, c) is Some,
        reader_packet_error(p) is None,
        p.len() <= st.pending.len(),
        st.pending.take(p.len() as int) == p,
    ensures
        !(r matches Err(ClientError::Transport(_))),
        t1.received() == t0.received() + p,
        mock_replay(st, c) == Some(
            MockState { pending: st.pending.skip(p.len() as int), script: st.script },
        ),
{
    reveal_with_fuel(mock_replay, 3);
    let h = st.pending.take(5);
    assert(h[1] == p[1]);
    let st1 = mock_after_read(st, 5);
    assert(c.drop_last().len() == 1 ==> c.drop_last() =~= seq![c[0]]);
    assert(c.len() == 1 ==> c =~= seq![c[0]]);
    assert(c.len() == 2 ==> c.drop_last() =~= seq![c[0]]);
    let n = (p[1] + 2) as nat;
    let b = st1.pending.take(n as int);
    assert(h + b =~= p);
    assert(st1.pending.skip(n as int) =~= st.pending.skip(p.len() as int));
}

/// Reading one frame from a mock whose pending bytes begin with the
/// well-formed packet `p` makes no failed call, receives exactly `p`, and
/// leaves the bytes after it pending and the script as it was.
pub proof fn lemma_mock_read_frame<V>(
    t0: MockTransport,
    t1: MockTransport,
    p: Seq<u8>,
    r: Result<V, ClientError<&'static str>>,
)
    requires
        mock_replay(t0.peer(), t0.calls()) == Some(t0.state()),
        mock_replay(t1.peer(), t1.calls()) == Some(t1.state()),
        read_calls(t0, t1, r),
        reader_packet_error(p) is None,
        p.len() <= t0.pending().len(),
        t0.pending().take(p.len() as int) == p,
    ensures
        !(r matches Err(ClientError::Transport(_))),
        t1.received() == t0.received() + p,
        t1.state() == (MockState {
            pending: t0.pending().skip(p.len() as int),
            script: t0.script(),
        }),
{
    lemma_mock_replay_append(t0.peer(), t0.calls(), new_calls(t0, t1));
    lemma_mock_frame_reads(t0.state(), t0, t1, new_calls(t0, t1), p, r);
}

/// One exchange with a mock that has nothing pending and whose next
/// interaction is for the request's command: the request is accepted, no
/// call fails, exactly that interaction's reply is received, and the rest of
/// the script is left.
pub proof fn lemma_mock_exchange<V>(
    t0: MockTransport,
    t1: MockTransport,
    request: Seq<u8>,
    r: Result<V, ClientError<&'static str>>,
)
    requires
        mock_replay(t0.peer(), t0.calls()) == Some(t0.state()),
        mock_replay(t1.peer(), t1.calls()) == Some(t1.state()),
        exchange_calls(t0, t1, request, r),
        t0.pending() == Seq::<u8>::empty(),
        t0.script().len() > 0,
        request.len() >= 3,
        request[0] == 0xFF,
        request[2] == t0.script()[0].request_command,
        t0.script()[0].response_data@.len() <= MAX_DATA_LEN,
    ensures
        !(r matches Err(ClientError::Transport(_))),
        ({
            let next = t0.script()[0];
            t1.received() == t0.received() + reply_bytes(
                next.request_command,
                next.response_status,
                next.response_data@,
            )
        }),
        t1.state() == (MockState {
            pending: Seq::<u8>::empty(),
            script: t0.script().drop_first(),
        }),
{
    let c = new_calls(t0, t1);
    let next = t0.script()[0];
    let reply = reply_bytes(next.request_command, next.response_status, next.response_data@);
    lemma_mock_replay_append(t0.peer(), t0.calls(), c);
    let c0 = c[0];
    lemma_mock_replay_append(t0.state(), seq![c0], c.drop_first());
    assert(seq![c0] + c.drop_first() =~= c);
    reveal_with_fuel(mock_replay, 2);
    assert(seq![c0].drop_last() =~= Seq::<TransportCall<&'static str>>::empty());
    let st1 = mock_after_write(t0.state(), request);
    assert(reader_frame_bytes(next.request_command, next.response_status, next.response_data@)
        =~= reply);
    assert(st1.pending =~= reply);
    crate::frame::lemma_reader_packet_parses(
        next.request_command,
        next.response_status,
        next.response_data@,
    );
    assert(st1.pending.take(reply.len() as int) =~= reply);
    lemma_mock_frame_reads(st1, t0, t1, c.drop_first(), reply, r);
    assert(st1.pending.skip(reply.len() as int) =~= Seq::<u8>::empty());
}

/// One write, and nothing else, on a mock whose next interaction is for the
/// written frame's command: the write is accepted, that interaction's reply
/// is added to the pending bytes, and the rest of the script is left.
pub proof fn lemma_mock_write(t0: MockTransport, t1: MockTransport, data: Seq<u8>)
    requires
        mock_replay(t0.peer(), t0.calls()) == Some(t0.state()),
        mock_replay(t1.peer(), t1.calls()) == Some(t1.state()),
        same_link(t0, t1),
        new_calls(t0, t1).len() == 1,
        new_calls(t0, t1)[0] matches TransportCall::Write { data: d, .. } && d == data,
        t0.script().len() > 0,
        data.len() >= 3,
        data[0] == 0xFF,
        data[2] == t0.script()[0].request_command,
        t0.script()[0].response_data@.len() <= MAX_DATA_LEN,
    ensures
        new_calls(t0, t1)[0] matches TransportCall::Write { result: Ok(_), .. },
        ({
            let next = t0.script()[0];
            t1.state() == (MockState {
                pending: t0.pending() + reply_bytes(
                    next.request_command,
                    next.response_status,
                    next.response_data@,
                ),
                script: t0.script().drop_first(),
            })
        }),
{
    let c = new_calls(t0, t1);
    let next = t0.script()[0];
    lemma_mock_replay_append(t0.peer(), t0.calls(), c);
    reveal_with_fuel(mock_replay, 2);
    assert(c.drop_last() =~= Seq::<TransportCall<&'static str>>::empty());
    assert(reader_frame_bytes(next.request_command, next.response_status, next.response_data@)
        =~= reply_bytes(next.request_command, next.response_status, next.response_data@));
}

/// The fields of a [`MockTransport`].
struct MockInner {
    rx: Vec<u8>,
    rx_pos: usize,
    scripted: Vec<MockInteraction>,
    next_interaction: usize,
    sent_log: Ghost<Seq<u8>>,
    received_log: Ghost<Seq<u8>>,
    call_log: Ghost<Seq<TransportCall<&'static str>>>,
    start: Ghost<MockState>,
}

impl MockInner {
    spec fn positions_in_range(&self) -> bool {
        &&& self.rx_pos <= self.rx@.len()
        &&& self.next_interaction <= self.scripted@.len()
    }

    spec fn pending(&self) -> Seq<u8> {
        if self.rx_pos <= self.rx@.len() {
            self.rx@.subrange(self.rx_pos as int, self.rx@.len() as int)
        } else {
            Seq::empty()
        }
    }

    spec fn script(&self) -> Seq<MockInteraction> {
        if self.next_interaction <= self.scripted@.len() {
            self.scripted@.subrange(self.next_interaction as int, self.scripted@.len() as int)
        } else {
            Seq::empty()
        }
    }

    spec fn state(&self) -> MockState {
        MockState { pending: self.pending(), script: self.script() }
    }

    spec fn consistent(&self) -> bool {
        &&& self.positions_in_range()
        &&& mock_replay(self.start@, self.call_log@) == Some(self.state())
    }

    fn blank() -> (r: Self)
        ensures
            r.consistent(),
    {
        let r = MockInner {
            rx: Vec::new(),
            rx_pos: 0,
            scripted: Vec::new(),
            next_interaction: 0,
            sent_log: Ghost(Seq::empty()),
            received_log: Ghost(Seq::empty()),
            call_log: Ghost(Seq::empty()),
            start: Ghost(MockState { pending: Seq::empty(), script: Seq::empty() }),
        };
        assert(r.rx@.subrange(0, 0) =~= Seq::<u8>::empty());
        assert(r.scripted@.subrange(0, 0) =~= Seq::<MockInteraction>::empty());
        r
    }

    fn new(rx: Vec<u8>, scripted: Vec<MockInteraction>) -> (r: Self)
        ensures
            r.consistent(),
            r.state() == (MockState { pending: rx@, script: scripted@ }),
            r.start@ == r.state(),
            r.sent_log@ == Seq::<u8>::empty(),
            r.received_log@ == Seq::<u8>::empty(),
            r.call_log@ == Seq::<TransportCall<&'static str>>::empty(),
    {
        let r = MockInner {
            rx,
            rx_pos: 0,
            scripted,
            next_interaction: 0,
            sent_log: Ghost(Seq::empty()),
            received_log: Ghost(Seq::empty()),
            call_log: Ghost(Seq::empty()),
            start: Ghost(MockState { pending: rx@, script: scripted@ }),
        };
        assert(r.rx@.subrange(0, r.rx@.len() as int) =~= r.rx@);
        assert(r.scripted@.subrange(0, r.scripted@.len() as int) =~= r.scripted@);
        r
    }

    fn write(&mut self, data: &[u8]) -> (r: Result<(), &'static str>)
        requires
            old(self).consistent(),
        ensures
            final(self).consistent(),
            final(self).start == old(self).start,
            r == mock_write_result(old(self).state(), data@),
            final(self).state() == mock_after_write(old(self).state(), data@),
            r is Ok ==> final(self).sent_log@ == old(self).sent_log@ + data@,
            final(self).received_log == old(self).received_log,
            final(self).call_log@ == old(self).call_log@.push(
                TransportCall::Write { data: data@, result: r },
            ),
    {
        let ghost st0 = self.state();
        let mut r: Result<(), &'static str> = Ok(());
        if self.next_interaction < self.scripted.len() {
            assert(st0.script[0] == self.scripted@[self.next_interaction as int]);
            let next = &self.scripted[self.next_interaction];
            if data.len() < 3 || data[0] != 0xFF {
                r = Err("invalid request frame");
            } else if data[2] != next.request_command {
                r = Err("unexpected request command");
            } else {
                let reply = reply_frame(
                    next.request_command,
                    next.response_status,
                    next.response_data.as_slice(),
                );
                let mut rx: Vec<u8> = Vec::new();
                crate::bytes::extend_bytes(&mut rx, self.rx.as_slice());
                crate::bytes::extend_bytes(&mut rx, reply.as_slice());
                self.rx = rx;
                assert(self.pending() =~= st0.pending + reply@);
            }
            self.next_interaction = self.next_interaction + 1;
            assert(self.script() =~= st0.script.drop_first());
        }
        if r.is_ok() {
            self.sent_log = Ghost(self.sent_log@ + data@);
        }
        proof {
            lemma_mock_replay_push(
                self.start@,
                self.call_log@,
                TransportCall::Write { data: data@, result: r },
            );
        }
        self.call_log = Ghost(self.call_log@.push(TransportCall::Write { data: data@, result: r }));
        r
    }

    fn read(&mut self, buf: &mut [u8]) -> (r: Result<(), &'static str>)
        requires
            old(self).consistent(),
        ensures
            final(self).consistent(),
            final(self).start == old(self).start,
            final(buf)@.len() == old(buf)@.len(),
            r == match mock_read_result(old(self).state(), old(buf)@.len()) {
                Ok(_) => Ok::<(), &'static str>(()),
                Err(e) => Err(e),
            },
            r is Ok ==> final(buf)@ == old(self).pending().take(old(buf)@.len() as int),
            final(self).state() == mock_after_read(old(self).state(), old(buf)@.len()),
            final(self).sent_log == old(self).sent_log,
            r is Ok ==> final(self).received_log@ == old(self).received_log@ + final(buf)@,
            final(self).call_log@ == old(self).call_log@.push(
                TransportCall::Read {
                    len: old(buf)@.len(),
                    result: match r {
                        Ok(_) => Ok(final(buf)@),
                        Err(e) => Err(e),
                    },
                },
            ),
    {
        let ghost st0 = self.state();
        let ghost len0 = buf@.len();
        if self.rx.len() - self.rx_pos < buf.len() {
            proof {
                lemma_mock_replay_push(
                    self.start@,
                    self.call_log@,
                    TransportCall::Read { len: len0, result: Err("eof") },
                );
            }
            self.call_log = Ghost(
                self.call_log@.push(TransportCall::Read { len: len0, result: Err("eof") }),
            );
            return Err("eof");
        }
        let start = self.rx_pos;
        let mut i: usize = 0;
        while i < buf.len()
            invariant
                buf@.len() == old(buf)@.len(),
                start + buf@.len() <= self.rx@.len(),
                self.rx@.len() == self.rx.len(),
                0 <= i <= buf@.len(),
                forall|j: int| 0 <= j < i ==> buf@[j] == self.rx@[start + j],
            decreases buf@.len() - i,
        {
            buf[i] = self.rx[start + i];
            i = i + 1;
        }
        assert(buf@ =~= st0.pending.take(len0 as int));
        self.rx_pos = start + buf.len();
        assert(self.pending() =~= st0.pending.skip(len0 as int));
        self.received_log = Ghost(self.received_log@ + buf@);
        proof {
            lemma_mock_replay_push(
                self.start@,
                self.call_log@,
                TransportCall::Read { len: len0, result: Ok(buf@) },
            );
        }
        self.call_log = Ghost(self.call_log@.push(TransportCall::Read { len: len0, result: Ok(buf@) }));
        Ok(())
    }
}

/// The byte strings held by a list of byte vectors.
pub open spec fn byte_strings(v: Seq<Vec<u8>>) -> Seq<Seq<u8>> {
    v.map_values(|b: Vec<u8>| b@)
}

/// The reply a reader sends for `command` with `status` and `data`.
pub open spec fn reply_bytes(command: u8, status: u16, data: Seq<u8>) -> Seq<u8> {
    reader_packet(command, status, data)
}

/// Mock transport for examples and tests.
///
/// It either answers each written request with the reply of the next
/// scripted interaction, or hands out a fixed byte stream of replies.
pub struct MockTransport {
    inner: MockInner,
}

impl MockTransport {
    /// Every call recorded so far, replayed from the state the mock was made
    /// in, returned what the mock returns and leads to its present state.
    #[verifier::type_invariant]
    spec fn history_replays(self) -> bool {
        self.inner.consistent()
    }

    /// The bytes still waiting to be read.
    pub closed spec fn pending(&self) -> Seq<u8> {
        self.inner.pending()
    }

    /// The interactions not yet consumed by a write.
    pub closed spec fn script(&self) -> Seq<MockInteraction> {
        self.inner.script()
    }

    /// The present state: pending bytes and interactions left.
    pub open spec fn state(&self) -> MockState {
        MockState { pending: self.pending(), script: self.script() }
    }

    /// Build a request-aware mock transport from scripted interactions.
    ///
    /// The transport validates the command written by the host and injects the
    /// matching response frame automatically.
    pub fn scripted(interactions: Vec<MockInteraction>) -> (r: Self)
        ensures
            r.pending() == Seq::<u8>::empty(),
            r.script() == interactions@,
            r.peer() == r.state(),
            r.sent() == Seq::<u8>::empty(),
            r.received() == Seq::<u8>::empty(),
            r.calls() == Seq::<TransportCall<&'static str>>::empty(),
    {
        MockTransport { inner: MockInner::new(Vec::new(), interactions) }
    }

    /// Build a mock transport that will yield the provided reply frames in order.
    pub fn from_replies(replies: Vec<Vec<u8>>) -> (r: Self)
        ensures
            r.pending() == byte_strings(replies@).flatten(),
            r.script() == Seq::<MockInteraction>::empty(),
            r.peer() == r.state(),
            r.sent() == Seq::<u8>::empty(),
            r.received() == Seq::<u8>::empty(),
            r.calls() == Seq::<TransportCall<&'static str>>::empty(),
    {
        let mut rx: Vec<u8> = Vec::new();
        let mut i: usize = 0;
        while i < replies.len()
            invariant
                0 <= i <= replies@.len(),
                rx@ == byte_strings(replies@.subrange(0, i as int)).flatten(),
            decreases replies@.len() - i,
        {
            let ghost before = byte_strings(replies@.subrange(0, i as int));
            crate::bytes::extend_bytes(&mut rx, replies[i].as_slice());
            proof {
                assert(byte_strings(replies@.subrange(0, i + 1)) =~= before.push(replies@[i as int]@));
                before.lemma_flatten_push(replies@[i as int]@);
            }
            i = i + 1;
        }
        assert(replies@.subrange(0, replies@.len() as int) =~= replies@);
        MockTransport { inner: MockInner::new(rx, Vec::new()) }
    }

    /// Replay of the calls made on this mock: every call recorded in
    /// [`calls`](ReaderTransport::calls) returned what the mock returns in
    /// the state that the calls before it left, starting from the state the
    /// mock was made in ([`peer`](ReaderTransport::peer)), and together they
    /// lead to its present state. The law rests on the mock's type invariant,
    /// which Verus applies only to a value that exists at run time, so it is
    /// stated by a function that does nothing when run.
    pub fn replay_history(&self)
        ensures
            mock_replay(self.peer(), self.calls()) == Some(self.state()),
    {
        proof {
            use_type_invariant(self);
        }
    }
}

impl Default for MockTransport {
    /// A transport with nothing to read and no script.
    fn default() -> (r: Self)
        ensures
            r.pending() == Seq::<u8>::empty(),
            r.script() == Seq::<MockInteraction>::empty(),
    {
        MockTransport::scripted(Vec::new())
    }
}

impl ReaderTransport for MockTransport {
    type Error = &'static str;

    type Peer = MockState;

    closed spec fn sent(&self) -> Seq<u8> {
        self.inner.sent_log@
    }

    closed spec fn received(&self) -> Seq<u8> {
        self.inner.received_log@
    }

    closed spec fn calls(&self) -> Seq<TransportCall<&'static str>> {
        self.inner.call_log@
    }

    closed spec fn peer(&self) -> MockState {
        self.inner.start@
    }

    /// With interactions left, a request must be a frame (at least three
    /// bytes, header `0xFF`) for the next interaction's command; the reply of
    /// that interaction then becomes readable. Without interactions left,
    /// every write succeeds and changes nothing else.
    fn write_all(&mut self, data: &[u8]) -> (r: Result<(), Self::Error>)
        ensures
            r == mock_write_result(old(self).state(), data@),
            final(self).state() == mock_after_write(old(self).state(), data@),
    {
        proof {
            use_type_invariant(&*self);
        }
        let mut cur = MockInner::blank();
        std::mem::swap(&mut cur, &mut self.inner);
        let r = cur.write(data);
        self.inner = cur;
        r
    }

    /// Hand out the next `buf.len()` pending bytes, or fail with `"eof"`
    /// when fewer are pending.
    fn read_exact(&mut self, buf: &mut [u8]) -> (r: Result<(), Self::Error>)
        ensures
            r == match mock_read_result(old(self).state(), old(buf)@.len()) {
                Ok(_) => Ok::<(), &'static str>(()),
                Err(e) => Err(e),
            },
            r is Ok ==> final(buf)@ == old(self).pending().take(old(buf)@.len() as int),
            final(self).state() == mock_after_read(old(self).state(), old(buf)@.len()),
    {
        proof {
            use_type_invariant(&*self);
        }
        let mut cur = MockInner::blank();
        std::mem::swap(&mut cur, &mut self.inner);
        let r = cur.read(buf);
        self.inner = cur;
        r
    }
}

/// Build a full reader reply frame (header + status + payload + CRC).
pub fn reply_frame(command: u8, status: u16, data: &[u8]) -> (r: Vec<u8>)
    ensures
        r@ == reader_frame_bytes(command, status, data@),
        data@.len() <= MAX_DATA_LEN ==> r@ == reply_bytes(command, status, data@),
        r@.len() == data@.len() + 7,
{
    build_reader_frame(command, status, data)
}

} // verus!
