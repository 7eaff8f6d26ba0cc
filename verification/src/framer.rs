//! The stream framer and the polling session: a growable byte buffer that
//! turns raw read chunks into complete lines, feeds each line through the
//! classifier and the state machine, and retains the trailing incomplete
//! line for the next chunk.

use crate::at::{empty_state, ModemState, ModemStateModel};
use crate::classify::{classify, classify_spec, sub_vec, Event, EventModel};
use crate::machine::{apply_event, apply_spec, command_for, Command};
use vstd::prelude::*;

verus! {

pub const CR: u8 = 0x0d;

pub const LF: u8 = 0x0a;

/// The first position at or after `p` where the line terminator starts.
pub open spec fn find_crlf(s: Seq<u8>, p: int) -> Option<int>
    decreases s.len() - p,
{
    if p < 0 || p + 2 > s.len() {
        None
    } else if s[p] == CR && s[p + 1] == LF {
        Some(p)
    } else {
        find_crlf(s, p + 1)
    }
}

pub proof fn lemma_find_crlf_props(s: Seq<u8>, p: int)
    requires
        0 <= p,
    ensures
        match find_crlf(s, p) {
            Some(i) => p <= i && i + 2 <= s.len() && s[i] == CR && s[i + 1] == LF && forall|j: int|
                p <= j < i ==> !(#[trigger] s[j] == CR && s[j + 1] == LF),
            None => forall|j: int|
                p <= j && j + 2 <= s.len() ==> !(#[trigger] s[j] == CR && s[j + 1] == LF),
        },
    decreases s.len() - p,
{
    if p + 2 <= s.len() && !(s[p] == CR && s[p + 1] == LF) {
        lemma_find_crlf_props(s, p + 1);
    }
}

/// A region free of terminators makes the search come up empty.
pub proof fn lemma_find_crlf_none(s: Seq<u8>, p: int)
    requires
        0 <= p,
        forall|j: int| p <= j && j + 2 <= s.len() ==> !(#[trigger] s[j] == CR && s[j + 1] == LF),
    ensures
        find_crlf(s, p) is None,
    decreases s.len() - p,
{
    if p + 2 <= s.len() {
        lemma_find_crlf_none(s, p + 1);
    }
}

/// What one feeding of a buffer produces: the record afterwards, the
/// carry-over fragment, the classified events and emitted commands in
/// order, and how many complete lines were consumed.
pub struct FeedResult {
    pub state: ModemStateModel,
    pub carry: Seq<u8>,
    pub events: Seq<EventModel>,
    pub commands: Seq<Command>,
    pub lines: nat,
}

pub open spec fn opt_cmd_seq(c: Option<Command>) -> Seq<Command> {
    match c {
        Some(x) => seq![x],
        None => Seq::empty(),
    }
}

/// Feeding a buffer: split off a complete line at each terminator, in
/// order. An empty line is skipped. A recognized line is folded into the
/// record and may emit a command. An unrecognized line is retained verbatim
/// as the carry and the rest of the buffer is discarded: it is assumed to
/// be an incomplete line wrongly split, to be completed by the bytes of the
/// next chunk. With no terminator left, the remainder is the carry.
pub open spec fn feed(m: ModemStateModel, buf: Seq<u8>) -> FeedResult
    decreases buf.len(),
    via feed_decreases
{
    match find_crlf(buf, 0) {
        None => FeedResult {
            state: m,
            carry: buf,
            events: Seq::empty(),
            commands: Seq::empty(),
            lines: 0,
        },
        Some(i) => {
            let line = buf.subrange(0, i);
            let rest = buf.subrange(i + 2, buf.len() as int);
            if line.len() == 0 {
                let r = feed(m, rest);
                FeedResult { lines: r.lines + 1, ..r }
            } else {
                let e = classify_spec(line);
                if e is Unrecognized {
                    FeedResult {
                        state: m,
                        carry: line,
                        events: seq![e],
                        commands: Seq::empty(),
                        lines: 1,
                    }
                } else {
                    let r = feed(apply_spec(m, e), rest);
                    FeedResult {
                        state: r.state,
                        carry: r.carry,
                        events: seq![e] + r.events,
                        commands: opt_cmd_seq(command_for(e)) + r.commands,
                        lines: r.lines + 1,
                    }
                }
            }
        },
    }
}

#[via_fn]
proof fn feed_decreases(m: ModemStateModel, buf: Seq<u8>) {
    lemma_find_crlf_props(buf, 0);
}

/// The carry left by a feeding never contains a terminator: it is either
/// the tail after the last terminator or a single unrecognized line.
pub proof fn lemma_feed_carry_no_crlf(m: ModemStateModel, buf: Seq<u8>)
    ensures
        find_crlf(feed(m, buf).carry, 0) is None,
    decreases buf.len(),
{
    lemma_find_crlf_props(buf, 0);
    match find_crlf(buf, 0) {
        None => {},
        Some(i) => {
            let line = buf.subrange(0, i);
            let rest = buf.subrange(i + 2, buf.len() as int);
            if line.len() == 0 {
                lemma_feed_carry_no_crlf(m, rest);
            } else {
                let e = classify_spec(line);
                if e is Unrecognized {
                    assert forall|j: int| 0 <= j && j + 2 <= line.len() implies !(#[trigger] line[j]
                        == CR && line[j + 1] == LF) by {
                        assert(line[j] == buf[j] && line[j + 1] == buf[j + 1]);
                    }
                    lemma_find_crlf_none(line, 0);
                } else {
                    lemma_feed_carry_no_crlf(apply_spec(m, e), rest);
                }
            }
        },
    }
}

/// A valid stream: no complete nonempty line of the buffer classifies as
/// unrecognized, so the framer never has to resynchronize.
pub open spec fn feed_clean(buf: Seq<u8>) -> bool
    decreases buf.len(),
    via feed_clean_decreases
{
    match find_crlf(buf, 0) {
        None => true,
        Some(i) => {
            let line = buf.subrange(0, i);
            let rest = buf.subrange(i + 2, buf.len() as int);
            if line.len() == 0 {
                feed_clean(rest)
            } else {
                !(classify_spec(line) is Unrecognized) && feed_clean(rest)
            }
        },
    }
}

#[via_fn]
proof fn feed_clean_decreases(buf: Seq<u8>) {
    lemma_find_crlf_props(buf, 0);
}

/// The first terminator within the first part of a concatenation is the
/// first terminator of the whole.
pub proof fn lemma_find_crlf_extend(a: Seq<u8>, b: Seq<u8>, p: int)
    requires
        0 <= p,
        find_crlf(a, p) is Some,
    ensures
        find_crlf(a + b, p) == find_crlf(a, p),
    decreases a.len() - p,
{
    if p + 2 <= a.len() {
        assert((a + b)[p] == a[p]);
        assert((a + b)[p + 1] == a[p + 1]);
        if !(a[p] == CR && a[p + 1] == LF) {
            lemma_find_crlf_extend(a, b, p + 1);
        }
    }
}

/// Chunk boundaries do not matter on a valid stream: feeding the same bytes
/// as two consecutive chunks produces the same record, the same carry, and
/// the same event and command sequences as feeding them at once. Cutting a
/// stream into any number of chunks is cutting it in two, repeatedly.
pub proof fn lemma_feed_chunked(m: ModemStateModel, a: Seq<u8>, b: Seq<u8>)
    requires
        feed_clean(a + b),
    ensures
        ({
            let whole = feed(m, a + b);
            let first = feed(m, a);
            let second = feed(first.state, first.carry + b);
            &&& whole.state == second.state
            &&& whole.carry == second.carry
            &&& whole.events == first.events + second.events
            &&& whole.commands == first.commands + second.commands
        }),
    decreases a.len(),
{
    let ab = a + b;
    lemma_find_crlf_props(a, 0);
    lemma_find_crlf_props(ab, 0);
    match find_crlf(a, 0) {
        None => {
            let first = feed(m, a);
            let second = feed(first.state, first.carry + b);
            assert(first.carry + b == ab);
            assert(feed(m, ab).events =~= first.events + second.events);
            assert(feed(m, ab).commands =~= first.commands + second.commands);
        },
        Some(i) => {
            lemma_find_crlf_extend(a, b, 0);
            let line = a.subrange(0, i);
            let rest_a = a.subrange(i + 2, a.len() as int);
            let rest_ab = ab.subrange(i + 2, ab.len() as int);
            assert(ab.subrange(0, i) =~= line);
            assert(rest_ab =~= rest_a + b);
            if line.len() == 0 {
                lemma_feed_chunked(m, rest_a, b);
                let first_r = feed(m, rest_a);
                let second_r = feed(first_r.state, first_r.carry + b);
                assert(feed(m, ab).events =~= feed(m, a).events + second_r.events);
                assert(feed(m, ab).commands =~= feed(m, a).commands + second_r.commands);
            } else {
                let e = classify_spec(line);
                assert(!(e is Unrecognized));
                let ms = apply_spec(m, e);
                lemma_feed_chunked(ms, rest_a, b);
                let first_r = feed(ms, rest_a);
                let second_r = feed(first_r.state, first_r.carry + b);
                assert(feed(m, ab).events =~= (seq![e] + first_r.events) + second_r.events);
                assert(feed(m, ab).commands =~= (opt_cmd_seq(command_for(e)) + first_r.commands)
                    + second_r.commands);
            }
        },
    }
}

/// The result of feeding a run of chunks one after another, starting from
/// a carry-over fragment.
pub open spec fn feed_chunks(m: ModemStateModel, carry: Seq<u8>, chunks: Seq<Seq<u8>>) -> FeedResult
    decreases chunks.len(),
{
    if chunks.len() == 0 {
        FeedResult { state: m, carry, events: Seq::empty(), commands: Seq::empty(), lines: 0 }
    } else {
        let first = feed(m, carry + chunks[0]);
        let rest = feed_chunks(first.state, first.carry, chunks.drop_first());
        FeedResult {
            state: rest.state,
            carry: rest.carry,
            events: first.events + rest.events,
            commands: first.commands + rest.commands,
            lines: first.lines + rest.lines,
        }
    }
}

/// The bytes of a run of chunks, joined.
pub open spec fn concat_chunks(chunks: Seq<Seq<u8>>) -> Seq<u8>
    decreases chunks.len(),
{
    if chunks.len() == 0 {
        Seq::empty()
    } else {
        chunks[0] + concat_chunks(chunks.drop_first())
    }
}

/// On a valid stream the feeding also never leaves a resynchronization
/// fragment behind: whatever follows can be fed as if the cut had not
/// happened.
pub proof fn lemma_feed_chunked_clean(m: ModemStateModel, a: Seq<u8>, b: Seq<u8>)
    requires
        feed_clean(a + b),
    ensures
        feed_clean(feed(m, a).carry + b),
    decreases a.len(),
{
    let ab = a + b;
    lemma_find_crlf_props(a, 0);
    match find_crlf(a, 0) {
        None => {
            assert(feed(m, a).carry + b == ab);
        },
        Some(i) => {
            lemma_find_crlf_extend(a, b, 0);
            let line = a.subrange(0, i);
            let rest_a = a.subrange(i + 2, a.len() as int);
            let rest_ab = ab.subrange(i + 2, ab.len() as int);
            assert(ab.subrange(0, i) =~= line);
            assert(rest_ab =~= rest_a + b);
            if line.len() == 0 {
                lemma_feed_chunked_clean(m, rest_a, b);
            } else {
                let e = classify_spec(line);
                assert(!(e is Unrecognized));
                lemma_feed_chunked_clean(apply_spec(m, e), rest_a, b);
            }
        },
    }
}

/// Every way of cutting the same bytes into consecutive read chunks gives
/// the same record, the same carry, and the same event and command
/// sequences as reading them at once, for any valid stream and any
/// terminator-free starting fragment.
pub proof fn lemma_chunk_splitting_irrelevant(
    m: ModemStateModel,
    carry: Seq<u8>,
    chunks: Seq<Seq<u8>>,
)
    requires
        find_crlf(carry, 0) is None,
        feed_clean(carry + concat_chunks(chunks)),
    ensures
        ({
            let whole = feed(m, carry + concat_chunks(chunks));
            let split = feed_chunks(m, carry, chunks);
            &&& whole.state == split.state
            &&& whole.carry == split.carry
            &&& whole.events == split.events
            &&& whole.commands == split.commands
        }),
    decreases chunks.len(),
{
    if chunks.len() == 0 {
        assert(carry + concat_chunks(chunks) =~= carry);
        lemma_no_terminator_no_output(m, carry);
    } else {
        let a = carry + chunks[0];
        let b = concat_chunks(chunks.drop_first());
        assert(carry + concat_chunks(chunks) =~= a + b);
        lemma_feed_chunked(m, a, b);
        lemma_feed_chunked_clean(m, a, b);
        let first = feed(m, a);
        lemma_feed_carry_no_crlf(m, a);
        lemma_chunk_splitting_irrelevant(first.state, first.carry, chunks.drop_first());
        let rest = feed_chunks(first.state, first.carry, chunks.drop_first());
        assert(feed(m, carry + concat_chunks(chunks)).events =~= first.events + rest.events);
        assert(feed(m, carry + concat_chunks(chunks)).commands =~= first.commands + rest.commands);
    }
}

/// How many acknowledgments a run of events contains.
pub open spec fn count_acks(events: Seq<EventModel>) -> nat {
    events.filter(|e: EventModel| e is Acknowledged).len()
}

/// How many operator queries a run of commands contains.
pub open spec fn count_cops(cmds: Seq<Command>) -> nat {
    cmds.filter(|c: Command| c == Command::CopsQuery).len()
}

/// The operator query is written exactly once per acknowledgment of `AT`:
/// over any buffer, the emitted commands hold as many operator queries as
/// the classified events hold acknowledgments. No other event emits one.
pub proof fn lemma_cops_once_per_ok(m: ModemStateModel, buf: Seq<u8>)
    ensures
        count_cops(feed(m, buf).commands) == count_acks(feed(m, buf).events),
    decreases buf.len(),
{
    reveal_with_fuel(Seq::<EventModel>::filter, 2);
    reveal_with_fuel(Seq::<Command>::filter, 2);
    let ack_pred = |e: EventModel| e is Acknowledged;
    let cops_pred = |c: Command| c == Command::CopsQuery;
    lemma_find_crlf_props(buf, 0);
    match find_crlf(buf, 0) {
        None => {
            assert(Seq::<EventModel>::empty().filter(ack_pred) =~= Seq::<EventModel>::empty());
            assert(Seq::<Command>::empty().filter(cops_pred) =~= Seq::<Command>::empty());
        },
        Some(i) => {
            let line = buf.subrange(0, i);
            let rest = buf.subrange(i + 2, buf.len() as int);
            if line.len() == 0 {
                lemma_cops_once_per_ok(m, rest);
            } else {
                let e = classify_spec(line);
                if e is Unrecognized {
                    assert(seq![e].drop_last() =~= Seq::<EventModel>::empty());
                    assert(seq![e].filter(ack_pred) =~= Seq::<EventModel>::empty());
                    assert(Seq::<Command>::empty().filter(cops_pred) =~= Seq::<Command>::empty());
                } else {
                    let r = feed(apply_spec(m, e), rest);
                    lemma_cops_once_per_ok(apply_spec(m, e), rest);
                    Seq::filter_distributes_over_add(seq![e], r.events, ack_pred);
                    Seq::filter_distributes_over_add(
                        opt_cmd_seq(command_for(e)),
                        r.commands,
                        cops_pred,
                    );
                    assert(seq![e].drop_last() =~= Seq::<EventModel>::empty());
                    assert(count_acks(seq![e]) == count_cops(opt_cmd_seq(command_for(e)))) by {
                        match command_for(e) {
                            Some(c) => {
                                assert(opt_cmd_seq(command_for(e)).drop_last()
                                    =~= Seq::<Command>::empty());
                            },
                            None => {},
                        }
                    }
                }
            }
        },
    }
}

/// With no terminator in the buffer, feeding is a no-op: nothing is
/// classified, nothing is written, the record stands.
pub proof fn lemma_no_terminator_no_output(m: ModemStateModel, buf: Seq<u8>)
    requires
        find_crlf(buf, 0) is None,
    ensures
        feed(m, buf) == (FeedResult {
            state: m,
            carry: buf,
            events: Seq::empty(),
            commands: Seq::empty(),
            lines: 0,
        }),
{
}

/// A read timeout hands the framer no bytes, and a session between chunks
/// never buffers a complete line; so a chunk with no bytes emits no
/// command, classifies no event, and leaves the record and the buffer as
/// they were. Repeated timeouts cannot duplicate a command.
pub proof fn lemma_timeout_is_noop(s: Session)
    requires
        s.wf(),
    ensures
        ({
            let r = feed(s@.state, s@.buf + Seq::<u8>::empty());
            &&& r.state == s@.state
            &&& r.carry == s@.buf
            &&& r.events == Seq::<EventModel>::empty()
            &&& r.commands == Seq::<Command>::empty()
            &&& r.lines == 0
        }),
{
    assert(s@.buf + Seq::<u8>::empty() =~= s@.buf);
    lemma_no_terminator_no_output(s@.state, s@.buf);
}

/// Finds the first terminator in the buffer.
fn find_crlf_exec(s: &[u8]) -> (r: Option<usize>)
    ensures
        match r {
            Some(i) => i + 2 <= s@.len() && find_crlf(s@, 0) == Some(i as int),
            None => find_crlf(s@, 0) is None,
        },
{
    let n = s.len();
    if n < 2 {
        return None;
    }
    let mut i: usize = 0;
    while i <= n - 2
        invariant
            2 <= n == s@.len(),
            0 <= i <= n - 1,
            find_crlf(s@, 0) == find_crlf(s@, i as int),
        decreases n - i,
    {
        if s[i] == CR && s[i + 1] == LF {
            return Some(i);
        }
        i = i + 1;
    }
    None
}

/// The events, commands and publish decision that one read chunk produced.
pub struct ChunkOutput {
    pub events: Vec<Event>,
    pub commands: Vec<Command>,
    pub publish: bool,
}

/// Mathematical model of a session: the status record and the framer's
/// unresolved bytes.
pub struct SessionModel {
    pub state: ModemStateModel,
    pub buf: Seq<u8>,
}

/// A polling session: the status record together with the framer buffer,
/// both owned exclusively by the driver's worker.
pub struct Session {
    state: ModemState,
    buf: Vec<u8>,
}

impl View for Session {
    type V = SessionModel;

    closed spec fn view(&self) -> SessionModel {
        SessionModel { state: self.state@, buf: self.buf@ }
    }
}

impl Session {
    /// The record's numbers are in range and the buffer holds no complete
    /// line between chunks.
    pub closed spec fn wf(&self) -> bool {
        self.state.wf() && find_crlf(self.buf@, 0) is None
    }

    pub fn new() -> (s: Session)
        ensures
            s@.state == empty_state(),
            s@.buf == Seq::<u8>::empty(),
            s.wf(),
    {
        Session { state: ModemState::new(), buf: Vec::new() }
    }

    /// The current record, for reading fields.
    pub fn state(&self) -> (r: &ModemState)
        ensures
            r@ == self@.state,
    {
        &self.state
    }

    /// A value copy of the current record, as published to consumers.
    pub fn snapshot(&self) -> (r: ModemState)
        ensures
            r@ == self@.state,
    {
        ModemState {
            mcc: self.state.mcc,
            mnc: self.state.mnc,
            operator_name: match &self.state.operator_name {
                Some(n) => Some(n.clone()),
                None => None,
            },
            rssi: self.state.rssi,
            cme_error: self.state.cme_error,
            operator_mode: self.state.operator_mode,
            connection_type: self.state.connection_type,
        }
    }

    /// Feeds one read chunk: appends it to the buffer, processes every
    /// complete line, and reports the classified events, the commands to
    /// write, and whether a snapshot is due (at least one complete line).
    pub fn push_chunk(&mut self, chunk: &[u8]) -> (out: ChunkOutput)
        requires
            old(self).wf(),
        ensures
            ({
                let r = feed(old(self)@.state, old(self)@.buf + chunk@);
                &&& final(self)@.state == r.state
                &&& final(self)@.buf == r.carry
                &&& out.events@.map_values(|e: Event| e@) == r.events
                &&& out.commands@ == r.commands
                &&& out.publish == (r.lines > 0)
                &&& final(self).wf()
            }),
    {
        let ghost m0 = self.state@;
        let ghost buf0 = self.buf@;
        let ghost total = buf0 + chunk@;
        let mut k: usize = 0;
        while k < chunk.len()
            invariant
                k <= chunk@.len(),
                self.state == old(self).state,
                self.buf@ == buf0 + chunk@.subrange(0, k as int),
            decreases chunk@.len() - k,
        {
            self.buf.push(chunk[k]);
            k = k + 1;
            proof {
                assert(self.buf@ =~= buf0 + chunk@.subrange(0, k as int));
            }
        }
        proof {
            assert(self.buf@ =~= total);
        }
        let mut events: Vec<Event> = Vec::new();
        let mut commands: Vec<Command> = Vec::new();
        let mut publish = false;
        let ghost mut consumed: nat = 0;
        proof {
            assert(events@.map_values(|e: Event| e@) =~= Seq::<EventModel>::empty());
            assert(feed(m0, total).events =~= Seq::<EventModel>::empty() + feed(
                self@.state,
                self.buf@,
            ).events);
            assert(feed(m0, total).commands =~= Seq::<Command>::empty() + feed(
                self@.state,
                self.buf@,
            ).commands);
        }
        loop
            invariant
                old(self).wf(),
                self.state.wf(),
                feed(m0, total).state == feed(self@.state, self.buf@).state,
                feed(m0, total).carry == feed(self@.state, self.buf@).carry,
                feed(m0, total).events == events@.map_values(|e: Event| e@) + feed(
                    self@.state,
                    self.buf@,
                ).events,
                feed(m0, total).commands == commands@ + feed(self@.state, self.buf@).commands,
                feed(m0, total).lines == consumed + feed(self@.state, self.buf@).lines,
                publish == (consumed > 0),
            ensures
                self.state.wf(),
                find_crlf(self.buf@, 0) is None,
                feed(m0, total).state == feed(self@.state, self.buf@).state,
                feed(m0, total).carry == feed(self@.state, self.buf@).carry,
                feed(m0, total).events == events@.map_values(|e: Event| e@) + feed(
                    self@.state,
                    self.buf@,
                ).events,
                feed(m0, total).commands == commands@ + feed(self@.state, self.buf@).commands,
                feed(m0, total).lines == consumed + feed(self@.state, self.buf@).lines,
                publish == (consumed > 0),
            decreases self.buf@.len(),
        {
            let ghost st = self.state@;
            let ghost cur = self.buf@;
            let blen = self.buf.len();
            let found = find_crlf_exec(self.buf.as_slice());
            match found {
                None => {
                    break ;
                },
                Some(i) => {
                    proof {
                        lemma_find_crlf_props(cur, 0);
                        consumed = consumed + 1;
                    }
                    publish = true;
                    let line = sub_vec(self.buf.as_slice(), 0, i);
                    let rest = sub_vec(self.buf.as_slice(), i + 2, blen);
                    let ghost line_s = cur.subrange(0, i as int);
                    let ghost rest_s = cur.subrange(i + 2, cur.len() as int);
                    self.buf = rest;
                    if line.len() == 0 {
                        proof {
                            assert(feed(st, cur) == FeedResult {
                                lines: feed(st, rest_s).lines + 1,
                                ..feed(st, rest_s)
                            });
                        }
                    } else {
                        let ev = classify(line.as_slice());
                        let ghost e = ev@;
                        proof {
                            assert(e == classify_spec(line_s));
                        }
                        if matches!(ev, Event::Unrecognized) {
                            self.buf = line;
                            events.push(ev);
                            proof {
                                assert(e is Unrecognized);
                                assert(feed(st, cur) == FeedResult {
                                    state: st,
                                    carry: line_s,
                                    events: seq![e],
                                    commands: Seq::empty(),
                                    lines: 1,
                                });
                                assert forall|j: int| 0 <= j && j + 2 <= line_s.len() implies !(
                                #[trigger] line_s[j] == CR && line_s[j + 1] == LF) by {
                                    assert(line_s[j] == cur[j] && line_s[j + 1] == cur[j + 1]);
                                }
                                lemma_find_crlf_none(line_s, 0);
                                assert(feed(self@.state, self.buf@).events
                                    =~= Seq::<EventModel>::empty());
                                assert(events@.map_values(|x: Event| x@) =~= events@.drop_last(
                                ).map_values(|x: Event| x@) + seq![e]);
                                assert(feed(m0, total).events =~= events@.map_values(|x: Event| x@)
                                    + feed(self@.state, self.buf@).events);
                                assert(feed(m0, total).commands =~= commands@ + feed(
                                    self@.state,
                                    self.buf@,
                                ).commands);
                            }
                            break ;
                        } else {
                            let cmd = apply_event(&mut self.state, &ev);
                            events.push(ev);
                            proof {
                                assert(!(e is Unrecognized));
                                assert(feed(st, cur) == FeedResult {
                                    state: feed(apply_spec(st, e), rest_s).state,
                                    carry: feed(apply_spec(st, e), rest_s).carry,
                                    events: seq![e] + feed(apply_spec(st, e), rest_s).events,
                                    commands: opt_cmd_seq(command_for(e)) + feed(
                                        apply_spec(st, e),
                                        rest_s,
                                    ).commands,
                                    lines: feed(apply_spec(st, e), rest_s).lines + 1,
                                });
                                assert(events@.map_values(|x: Event| x@) =~= events@.drop_last(
                                ).map_values(|x: Event| x@) + seq![e]);
                                assert(feed(m0, total).events =~= events@.map_values(|x: Event| x@)
                                    + feed(self@.state, self.buf@).events);
                            }
                            match cmd {
                                Some(c) => {
                                    commands.push(c);
                                    proof {
                                        assert(opt_cmd_seq(command_for(e)) =~= seq![c]);
                                        assert(commands@ =~= commands@.drop_last() + seq![c]);
                                        assert(feed(m0, total).commands =~= commands@ + feed(
                                            self@.state,
                                            self.buf@,
                                        ).commands);
                                    }
                                },
                                None => {
                                    proof {
                                        assert(opt_cmd_seq(command_for(e))
                                            =~= Seq::<Command>::empty());
                                        assert(feed(m0, total).commands =~= commands@ + feed(
                                            self@.state,
                                            self.buf@,
                                        ).commands);
                                    }
                                },
                            }
                        }
                    }
                },
            }
        }
        proof {
            let r = feed(m0, total);
            assert(r.events =~= events@.map_values(|e: Event| e@));
            assert(r.commands =~= commands@);
        }
        ChunkOutput { events, commands, publish }
    }
}

} // verus!
