use vstd::prelude::*;
use vstd::slice::slice_to_vec;
use vstd::string::StringExecFns;
use std::sync::Arc;
use crate::error::{SuperQuinnError, SuperQuinnResult};
use crate::text::{decimal_digits, push_decimal};

verus! {

// MESSAGE FORMAT
// [0..2] = (u16) len of message - N
// [2..4] = (u16) MSG_TYPE_DISCRIMINATOR
// [4..N] = message data
const MSG_LEN_BYTES_LEN: usize = 2;

const MSG_TYPE_BYTES_LEN: usize = 2;

type MessageType = u16;

/// The number that two bytes stand for, least significant byte first.
pub open spec fn le_u16(lo: u8, hi: u8) -> int {
    lo as int + 256 * (hi as int)
}

/// One message on the wire: its length (kept to 16 bits) and its type, both
/// little endian, then its payload.
pub open spec fn frame_bytes(msg_type: u16, data: Seq<u8>) -> Seq<u8> {
    let len = data.len() % 65536;
    seq![(len % 256) as u8, (len / 256) as u8, (msg_type % 256) as u8, (msg_type / 256) as u8]
        + data
}

/// A batch of messages on the wire: their frames, one after another.
pub open spec fn wire_bytes(msgs: Seq<(u16, Seq<u8>)>) -> Seq<u8>
    decreases msgs.len(),
{
    if msgs.len() == 0 {
        Seq::empty()
    } else {
        frame_bytes(msgs[0].0, msgs[0].1) + wire_bytes(msgs.drop_first())
    }
}

/// Reading a batch back from the wire. Frames are read while at least a
/// header's four bytes remain; fewer trailing bytes are ignored. A frame whose
/// announced length runs past the end makes the whole batch invalid.
pub open spec fn parse_frames(data: Seq<u8>) -> Option<Seq<(u16, Seq<u8>)>>
    decreases data.len(),
{
    if data.len() < 4 {
        Some(Seq::empty())
    } else {
        let len = le_u16(data[0], data[1]);
        let msg_type = le_u16(data[2], data[3]) as u16;
        if data.len() - 4 < len {
            None
        } else {
            match parse_frames(data.skip(4 + len)) {
                Some(rest) => Some(seq![(msg_type, data.subrange(4, 4 + len))] + rest),
                None => None,
            }
        }
    }
}

/// Every payload of the batch has a length that 16 bits can hold.
pub open spec fn payloads_fit(msgs: Seq<(u16, Seq<u8>)>) -> bool {
    forall|i: int| 0 <= i < msgs.len() ==> #[trigger] msgs[i].1.len() <= 65535
}

/// `acc` in front of the messages of `rest`, when `rest` is a valid batch.
pub open spec fn prepend(
    acc: Seq<(u16, Seq<u8>)>,
    rest: Option<Seq<(u16, Seq<u8>)>>,
) -> Option<Seq<(u16, Seq<u8>)>> {
    match rest {
        Some(r) => Some(acc + r),
        None => None,
    }
}

/// A batch of messages received from, or bound for, the peer at `.1`, as it
/// travels on the wire.
pub struct WireMessageWithAddr<A>(pub Vec<u8>, pub A);

/// A batch of typed messages received from, or bound for, the peer at `.1`.
pub struct RawMsgsWithAddr<A>(pub Vec<RawMessage>, pub A);

/// One message: its type and its payload.
pub struct RawMessage(MessageType, Vec<u8>);

impl View for RawMessage {
    type V = (u16, Seq<u8>);

    closed spec fn view(&self) -> (u16, Seq<u8>) {
        (self.0, self.1@)
    }
}

/// The type and payload of each message of a list.
pub open spec fn msgs_view(msgs: Seq<RawMessage>) -> Seq<(u16, Seq<u8>)> {
    msgs.map_values(|m: RawMessage| m@)
}

impl<A> WireMessageWithAddr<A> {
    /// Splits the bytes into the messages that they frame; fails with
    /// `InvalidMessage` when a frame announces more payload than is left.
    pub fn to_raw_msgs(self) -> (res: SuperQuinnResult<RawMsgsWithAddr<A>>)
        ensures
            match res {
                Ok(msgs) => parse_frames(self.0@) == Some(msgs_view(msgs.0@)) && msgs.1 == self.1,
                Err(e) => parse_frames(self.0@) is None && e is InvalidMessage,
            },
    {
        let WireMessageWithAddr(data, addr) = self;

        let mut raw_msgs_data: Vec<RawMessage> = Vec::new();
        let mut cursor: usize = 0;

        assert(data@.skip(0) =~= data@);
        assert(msgs_view(raw_msgs_data@) + Seq::<(u16, Seq<u8>)>::empty() =~= Seq::empty());

        while data.len() - cursor >= MSG_LEN_BYTES_LEN + MSG_TYPE_BYTES_LEN
            invariant
                data@ == self.0@,
                cursor <= data.len(),
                parse_frames(data@) == prepend(
                    msgs_view(raw_msgs_data@),
                    parse_frames(data@.skip(cursor as int)),
                ),
            decreases data.len() - cursor,
        {
            let ghost rest = data@.skip(cursor as int);
            let ghost acc = msgs_view(raw_msgs_data@);

            // parse msg_len
            let msg_len: usize = data[cursor] as usize + (data[cursor + 1] as usize) * 256;
            assert(msg_len == le_u16(rest[0], rest[1]));
            cursor += MSG_LEN_BYTES_LEN;

            // parse msg_type
            let msg_type: u16 = data[cursor] as u16 + (data[cursor + 1] as u16) * 256;
            assert(msg_type == le_u16(rest[2], rest[3]) as u16);
            cursor += MSG_TYPE_BYTES_LEN;

            // bounds check
            if msg_len > data.len() - cursor {
                assert(parse_frames(rest) is None);
                return Err(SuperQuinnError::InvalidMessage);
            }

            // extract payload
            let msg_data = slice_to_vec(&data.as_slice()[cursor..cursor + msg_len]);
            assert(msg_data@ =~= rest.subrange(4, 4 + msg_len as int));
            raw_msgs_data.push(RawMessage(msg_type, msg_data));

            cursor += msg_len;

            assert(rest.skip(4 + msg_len as int) =~= data@.skip(cursor as int));
            assert(msgs_view(raw_msgs_data@) =~= acc.push((msg_type, msg_data@)));
            proof {
                match parse_frames(data@.skip(cursor as int)) {
                    Some(r) => {
                        assert(acc.push((msg_type, msg_data@)) + r =~= acc + (seq![
                            (msg_type, msg_data@),
                        ] + r));
                    },
                    None => {},
                }
            }
        }

        assert(msgs_view(raw_msgs_data@) + Seq::<(u16, Seq<u8>)>::empty() =~= msgs_view(
            raw_msgs_data@,
        ));
        Ok(RawMsgsWithAddr(raw_msgs_data, addr))
    }

    /// Frames each message (length, type, payload) and joins the frames.
    /// A payload longer than 16 bits can count has its length truncated in
    /// the header, as `as u16` does.
    pub fn from_raw_msgs(raw_msgs: RawMsgsWithAddr<A>) -> (wire: Self)
        ensures
            wire.0@ == wire_bytes(msgs_view(raw_msgs.0@)),
            wire.1 == raw_msgs.1,
    {
        let RawMsgsWithAddr(msgs, addr) = raw_msgs;
        let ghost all = msgs_view(msgs@);

        let mut wire_msgs_data: Vec<u8> = Vec::new();
        let mut i: usize = 0;

        assert(all.take(0) =~= Seq::<(u16, Seq<u8>)>::empty());

        while i < msgs.len()
            invariant
                i <= msgs.len(),
                all == msgs_view(msgs@),
                wire_msgs_data@ == wire_bytes(all.take(i as int)),
            decreases msgs.len() - i,
        {
            let m = &msgs[i];
            let len16: u16 = (m.1.len() % 65536) as u16;

            let mut wire_msg_data: Vec<u8> = Vec::new();
            wire_msg_data.push((len16 % 256) as u8);  // msg len
            wire_msg_data.push((len16 / 256) as u8);
            wire_msg_data.push((m.0 % 256) as u8);  // msg type
            wire_msg_data.push((m.0 / 256) as u8);
            let mut payload = slice_to_vec(m.1.as_slice());  // msg data
            wire_msg_data.append(&mut payload);

            assert(wire_msg_data@ =~= frame_bytes(all[i as int].0, all[i as int].1));
            wire_msgs_data.append(&mut wire_msg_data);

            proof {
                lemma_wire_bytes_push(all.take(i as int), all[i as int]);
                assert(all.take(i + 1) =~= all.take(i as int).push(all[i as int]));
            }
            i += 1;
        }

        assert(all.take(msgs.len() as int) =~= all);
        WireMessageWithAddr(wire_msgs_data, addr)
    }

    pub fn data(self) -> (d: Vec<u8>)
        ensures
            d == self.0,
    {
        self.0
    }
}

impl RawMessage {
    pub fn new(msg_type: MessageType, data: Vec<u8>) -> (m: Self)
        ensures
            m@ == (msg_type, data@),
    {
        Self(msg_type, data)
    }

    pub fn msg_type(&self) -> (t: MessageType)
        ensures
            t == self@.0,
    {
        self.0
    }

    pub fn msg_data(&self) -> (d: &[u8])
        ensures
            d@ == self@.1,
    {
        self.1.as_slice()
    }
}

impl<A> RawMsgsWithAddr<A> {
    /// The number of messages in the batch.
    pub fn len(&self) -> (n: usize)
        ensures
            n == self.0@.len(),
    {
        self.0.len()
    }
}

/// Encoding a batch that ends with `m` encodes the rest, then `m`.
proof fn lemma_wire_bytes_push(msgs: Seq<(u16, Seq<u8>)>, m: (u16, Seq<u8>))
    ensures
        wire_bytes(msgs.push(m)) == wire_bytes(msgs) + frame_bytes(m.0, m.1),
{
    lemma_wire_bytes_concat(msgs, seq![m]);
    assert(msgs + seq![m] =~= msgs.push(m));
    assert(seq![m].drop_first() =~= Seq::<(u16, Seq<u8>)>::empty());
    assert(wire_bytes(seq![m]) == frame_bytes(m.0, m.1) + wire_bytes(seq![m].drop_first()));
    assert(frame_bytes(m.0, m.1) + Seq::<u8>::empty() =~= frame_bytes(m.0, m.1));
}

/// The wire form of two batches sent one after the other is the wire form
/// of the first followed by that of the second.
pub proof fn lemma_wire_bytes_concat(a: Seq<(u16, Seq<u8>)>, b: Seq<(u16, Seq<u8>)>)
    ensures
        wire_bytes(a + b) == wire_bytes(a) + wire_bytes(b),
    decreases a.len(),
{
    if a.len() == 0 {
        assert(a + b =~= b);
        assert(Seq::<u8>::empty() + wire_bytes(b) =~= wire_bytes(b));
    } else {
        lemma_wire_bytes_concat(a.drop_first(), b);
        assert((a + b).drop_first() =~= a.drop_first() + b);
        assert((a + b)[0] == a[0]);
        let f = frame_bytes(a[0].0, a[0].1);
        assert(f + (wire_bytes(a.drop_first()) + wire_bytes(b)) =~= (f + wire_bytes(
            a.drop_first(),
        )) + wire_bytes(b));
    }
}

/// Decoding what encoding a batch produced gives back the batch, whenever
/// every payload's length fits in the 16-bit length field.
pub proof fn lemma_decode_encoded(msgs: Seq<(u16, Seq<u8>)>)
    requires
        payloads_fit(msgs),
    ensures
        parse_frames(wire_bytes(msgs)) == Some(msgs),
    decreases msgs.len(),
{
    if msgs.len() == 0 {
    } else {
        let ty = msgs[0].0;
        let p = msgs[0].1;
        let rest = msgs.drop_first();
        assert(payloads_fit(rest)) by {
            assert forall|i: int| 0 <= i < rest.len() implies #[trigger] rest[i].1.len()
                <= 65535 by {
                assert(rest[i] == msgs[i + 1]);
            }
        }
        lemma_decode_encoded(rest);
        assert(p.len() <= 65535) by {
            assert(msgs[0].1.len() <= 65535);
        }
        let d = wire_bytes(msgs);
        let f = frame_bytes(ty, p);
        assert(d == f + wire_bytes(rest));
        let len = p.len() as int;
        assert(len % 65536 == len);
        assert(le_u16(d[0], d[1]) == len);
        assert(le_u16(d[2], d[3]) == ty);
        assert(d.skip(4 + len) =~= wire_bytes(rest));
        assert(d.subrange(4, 4 + len) =~= p);
        assert(seq![(ty, p)] + rest =~= msgs);
    }
}

/// Encoding what decoding accepted gives back the input, short of the fewer
/// than four trailing bytes that decoding ignores.
pub proof fn lemma_encode_decoded(data: Seq<u8>)
    ensures
        parse_frames(data) matches Some(msgs) ==> {
            let w = wire_bytes(msgs);
            &&& payloads_fit(msgs)
            &&& w.len() <= data.len() < w.len() + 4
            &&& w == data.take(w.len() as int)
        },
    decreases data.len(),
{
    if data.len() < 4 {
        assert(data.take(0) =~= Seq::<u8>::empty());
    } else {
        let len = le_u16(data[0], data[1]);
        let ty = le_u16(data[2], data[3]) as u16;
        if data.len() - 4 >= len {
            let tail = data.skip(4 + len);
            lemma_encode_decoded(tail);
            if let Some(r) = parse_frames(tail) {
                let p = data.subrange(4, 4 + len);
                let msgs = seq![(ty, p)] + r;
                assert(msgs[0] == (ty, p));
                assert(msgs.drop_first() =~= r);
                assert(payloads_fit(msgs)) by {
                    assert forall|i: int| 0 <= i < msgs.len() implies #[trigger] msgs[i].1.len()
                        <= 65535 by {
                        if i > 0 {
                            assert(msgs[i] == r[i - 1]);
                        }
                    }
                }
                let wr = wire_bytes(r);
                let f = frame_bytes(ty, p);
                assert(len < 65536);
                assert(le_u16(data[2], data[3]) < 65536);
                assert(f =~= data.take(4 + len)) by {
                    assert(f[0] == data[0]);
                    assert(f[1] == data[1]);
                    assert(f[2] == data[2]);
                    assert(f[3] == data[3]);
                }
                assert(wire_bytes(msgs) == f + wr);
                assert(f + wr =~= data.take(4 + len + wr.len() as int)) by {
                    assert(wr =~= tail.take(wr.len() as int));
                }
            }
        }
    }
}

/// Decoding reads one frame at a time: when the input starts with a header
/// announcing `p.len()` bytes of type `t`, followed by exactly those bytes,
/// the first message is `(t, p)`, byte for byte, and the rest of the batch is
/// what the remaining bytes decode to.
pub proof fn lemma_decode_frame(t: u16, p: Seq<u8>, rest: Seq<u8>)
    requires
        p.len() <= 65535,
    ensures
        parse_frames(seq![
            (p.len() % 256) as u8,
            (p.len() / 256) as u8,
            (t % 256) as u8,
            (t / 256) as u8,
        ] + p + rest) == match parse_frames(rest) {
            Some(r) => Some(seq![(t, p)] + r),
            None => None::<Seq<(u16, Seq<u8>)>>,
        },
        parse_frames(seq![
            (p.len() % 256) as u8,
            (p.len() / 256) as u8,
            (t % 256) as u8,
            (t / 256) as u8,
        ] + p) == Some(seq![(t, p)]),
{
    let h = seq![(p.len() % 256) as u8, (p.len() / 256) as u8, (t % 256) as u8, (t / 256) as u8];
    let d = h + p + rest;
    let len = p.len() as int;
    assert(d[0] == h[0] && d[1] == h[1] && d[2] == h[2] && d[3] == h[3]);
    assert(le_u16(d[0], d[1]) == len);
    assert(le_u16(d[2], d[3]) == t);
    assert(d.skip(4 + len) =~= rest);
    assert(d.subrange(4, 4 + len) =~= p);
    let e = h + p;
    assert(e[0] == h[0] && e[1] == h[1] && e[2] == h[2] && e[3] == h[3]);
    assert(e.skip(4 + len) =~= Seq::<u8>::empty());
    assert(e.subrange(4, 4 + len) =~= p);
    assert(parse_frames(Seq::<u8>::empty()) == Some(Seq::<(u16, Seq<u8>)>::empty()));
    assert(seq![(t, p)] + Seq::<(u16, Seq<u8>)>::empty() =~= seq![(t, p)]);
}

/// Decoding accepts an input of fewer than four bytes as an empty batch, and
/// rejects an input whose first header announces more payload than follows.
pub proof fn lemma_decode_short_or_overlong(data: Seq<u8>)
    ensures
        data.len() < 4 ==> parse_frames(data) == Some(Seq::<(u16, Seq<u8>)>::empty()),
        data.len() >= 4 && data[0] as int + 256 * (data[1] as int) > data.len() - 4
            ==> parse_frames(data) is None,
{
}

/// Encoding writes each message as its length and its type, least
/// significant byte first, then its payload unchanged; an empty batch is
/// written as nothing, and the frames of a batch follow one another in order.
pub proof fn lemma_encode_frames(t: u16, p: Seq<u8>, a: Seq<(u16, Seq<u8>)>, b: Seq<(u16, Seq<u8>)>)
    ensures
        wire_bytes(Seq::empty()) == Seq::<u8>::empty(),
        wire_bytes(seq![(t, p)]) == seq![
            ((p.len() % 65536) % 256) as u8,
            ((p.len() % 65536) / 256) as u8,
            (t % 256) as u8,
            (t / 256) as u8,
        ] + p,
        wire_bytes(seq![(t, p)])[0] + 256 * wire_bytes(seq![(t, p)])[1] == p.len() % 65536,
        wire_bytes(a + b) == wire_bytes(a) + wire_bytes(b),
{
    lemma_wire_bytes_concat(a, b);
    let m = seq![(t, p)];
    assert(m.drop_first() =~= Seq::<(u16, Seq<u8>)>::empty());
    assert(wire_bytes(m) == frame_bytes(t, p) + wire_bytes(m.drop_first()));
    assert(frame_bytes(t, p) + Seq::<u8>::empty() =~= frame_bytes(t, p));
    let w = wire_bytes(m);
    let len = p.len() % 65536;
    assert(w[0] == (len % 256) as u8);
    assert(w[1] == (len / 256) as u8);
}

/// Why a batch could not be handed over for sending.
#[derive(Debug)]
pub enum SendMessageError {
    SendMsgError,
    SendVecMsgError(usize),
}

/// The text that describes a send error.
pub open spec fn send_error_text(e: SendMessageError) -> Seq<char> {
    match e {
        SendMessageError::SendMsgError => "send msg error"@,
        SendMessageError::SendVecMsgError(count) => "send msgs error : "@ + decimal_digits(
            count as nat,
        ),
    }
}

impl SendMessageError {
    pub fn to_string(&self) -> (s: String)
        ensures
            s@ == send_error_text(*self),
    {
        match self {
            SendMessageError::SendMsgError => String::from_str("send msg error"),
            SendMessageError::SendVecMsgError(count) => {
                let mut s = String::from_str("send msgs error : ");
                push_decimal(&mut s, *count as u64);
                s
            },
        }
    }
}

/// A message type that can travel in a [`RawMessage`]: it knows its type
/// discriminator and how to turn itself into bytes and back.
pub trait Message: core::fmt::Debug + Sized + Sync + Send + 'static {
    const MSG_TYPE_DISCRIMINATOR: u16;

    fn message_len(&self) -> u16;

    fn pack(&self) -> SuperQuinnResult<Vec<u8>>;

    fn unpack(bytes: &[u8]) -> SuperQuinnResult<Self>;
}

/// Dispatches incoming batches read from the receiver `rx` to `handler`.
pub struct MessageProcessor<R, H> {
    pub rx: R,
    pub handler: Arc<H>,
}

/// Collects the receiver and the handler of a [`MessageProcessor`].
pub struct MessageProcessorBuilder<R, H> {
    pub rx: Option<R>,
    pub handler: Option<H>,
}

impl<R, H> MessageProcessorBuilder<R, H> {
    pub fn new() -> (b: Self)
        ensures
            b.rx is None,
            b.handler is None,
    {
        Self { rx: None, handler: None }
    }

    pub fn with_receiver(self, rx: R) -> (b: Self)
        ensures
            b.rx == Some(rx),
            b.handler == self.handler,
    {
        let mut s = self;
        s.rx = Some(rx);
        s
    }

    pub fn with_handler(self, handler: H) -> (b: Self)
        ensures
            b.rx == self.rx,
            b.handler == Some(handler),
    {
        let mut s = self;
        s.handler = Some(handler);
        s
    }

    /// Makes the processor; both parts must have been given. A caller that
    /// cannot be checked and leaves one out stops with "MessageProcessor
    /// requires a receiver" or "MessageProcessor requires a handler".
    pub fn build(self) -> (p: MessageProcessor<R, H>)
        requires
            self.rx is Some,
            self.handler is Some,
        ensures
            Some(p.rx) == self.rx,
            Some(*p.handler) == self.handler,
    {
        let MessageProcessorBuilder { rx, handler } = self;
        MessageProcessor {
            rx: rx.expect("MessageProcessor requires a receiver"),
            handler: Arc::new(handler.expect("MessageProcessor requires a handler")),
        }
    }
}

impl<R, H> MessageProcessor<R, H> {
    pub fn builder() -> (b: MessageProcessorBuilder<R, H>)
        ensures
            b.rx is None,
            b.handler is None,
    {
        MessageProcessorBuilder::new()
    }
}

} // verus!
