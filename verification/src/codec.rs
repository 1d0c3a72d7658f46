//! Byte-exact codec for the wire messages.
//!
//! Every message maps to exactly one self-contained frame: a one-byte
//! variant tag followed by the fields in order, 32-bit words little-endian.
//!
//! Client frames:
//! - `Register { ip }`: tag 0, then the four address octets (5 bytes).
//! - `State { pose }`: tag 1, then x, y and rotation words (13 bytes).
//!
//! Server frames:
//! - `Welcome(id)`: tag 0, then the id word (5 bytes).
//! - `GoodBye(id)`: tag 1, then the id word (5 bytes).
//! - `Update(list)`: tag 2, then the entry count as a word, then 16 bytes
//!   per entry (id, x, y, rotation).
//!
//! The decoders accept exactly the canonical frames: `decode_client` and
//! `decode_server` return `Some` precisely when some well-formed message
//! encodes to the given bytes, and the encoding lemmas below show that this
//! message is unique, so decoding undoes encoding exactly.
//!
//! This framing is the crate's own: compact, and byte-exact so that the
//! codec can be specified and proved down to the last bit.  It is *not*
//! the tagged JSON that the bundled application's server speaks, where the
//! variant and field names (`Register`, `State` with `pos`/`r`, `Welcome`,
//! `GoodBye`, `Update` with `id`/`position`/`rotation`) appear on the wire
//! as text: a peer expecting that encoding cannot read these frames, and
//! these decoders discard that peer's frames as malformed.  Such a peer is
//! served at the transport boundary instead — the application converts
//! between its peer's encoding and the message types of `msg`, and hands
//! the connection `PollOutcome::Message` rather than `PollOutcome::Frame`
//! — so every contract over decoded messages applies unchanged.

use vstd::prelude::*;
use crate::msg::{ClientMessage, Ipv4, Pose, RemoteState, ServerMessage, ServerMsgView};

verus! {

/// Tag byte of a `Register` frame.
pub const REGISTER_TAG: u8 = 0;

/// Tag byte of a `State` frame.
pub const STATE_TAG: u8 = 1;

/// Tag byte of a `Welcome` frame.
pub const WELCOME_TAG: u8 = 0;

/// Tag byte of a `GoodBye` frame.
pub const GOODBYE_TAG: u8 = 1;

/// Tag byte of an `Update` frame.
pub const UPDATE_TAG: u8 = 2;

/// The little-endian bytes of a 32-bit word.
pub open spec fn le32(x: u32) -> Seq<u8> {
    seq![
        (x & 0xff) as u8,
        ((x >> 8) & 0xff) as u8,
        ((x >> 16) & 0xff) as u8,
        ((x >> 24) & 0xff) as u8,
    ]
}

/// The 32-bit word with the given little-endian bytes.
pub open spec fn word_of_le(b0: u8, b1: u8, b2: u8, b3: u8) -> u32 {
    (b0 as u32) | ((b1 as u32) << 8) | ((b2 as u32) << 16) | ((b3 as u32) << 24)
}

/// Reading back the little-endian bytes of a word gives the word.
pub proof fn lemma_le32_word(x: u32)
    ensures
        word_of_le(le32(x)[0], le32(x)[1], le32(x)[2], le32(x)[3]) == x,
{
    assert(((x & 0xff) as u8 as u32) | ((((x >> 8) & 0xff) as u8 as u32) << 8)
        | ((((x >> 16) & 0xff) as u8 as u32) << 16) | ((((x >> 24) & 0xff) as u8 as u32) << 24)
        == x) by (bit_vector);
}

/// The word built from four bytes has exactly those bytes little-endian.
pub proof fn lemma_word_le32(b0: u8, b1: u8, b2: u8, b3: u8)
    ensures
        le32(word_of_le(b0, b1, b2, b3)) == seq![b0, b1, b2, b3],
{
    assert((((b0 as u32) | ((b1 as u32) << 8) | ((b2 as u32) << 16) | ((b3 as u32) << 24))
        & 0xff) as u8 == b0) by (bit_vector);
    assert(((((b0 as u32) | ((b1 as u32) << 8) | ((b2 as u32) << 16) | ((b3 as u32) << 24))
        >> 8) & 0xff) as u8 == b1) by (bit_vector);
    assert(((((b0 as u32) | ((b1 as u32) << 8) | ((b2 as u32) << 16) | ((b3 as u32) << 24))
        >> 16) & 0xff) as u8 == b2) by (bit_vector);
    assert(((((b0 as u32) | ((b1 as u32) << 8) | ((b2 as u32) << 16) | ((b3 as u32) << 24))
        >> 24) & 0xff) as u8 == b3) by (bit_vector);
    assert(le32(word_of_le(b0, b1, b2, b3)) =~= seq![b0, b1, b2, b3]);
}

/// Two words with the same little-endian bytes are the same word.
pub proof fn lemma_le32_injective(x: u32, y: u32)
    requires
        le32(x) == le32(y),
    ensures
        x == y,
{
    lemma_le32_word(x);
    lemma_le32_word(y);
}

/// Appends the little-endian bytes of `x`.
fn push_word(out: &mut Vec<u8>, x: u32)
    ensures
        final(out)@ == old(out)@ + le32(x),
{
    out.push((x & 0xff) as u8);
    out.push(((x >> 8) & 0xff) as u8);
    out.push(((x >> 16) & 0xff) as u8);
    out.push(((x >> 24) & 0xff) as u8);
    proof {
        assert(out@ =~= old(out)@ + le32(x));
    }
}

/// Reads the little-endian word at offset `i`.
fn read_word(b: &Vec<u8>, i: usize) -> (r: u32)
    requires
        i + 4 <= b@.len(),
    ensures
        r == word_of_le(b@[i as int], b@[i as int + 1], b@[i as int + 2], b@[i as int + 3]),
{
    let _len = b.len();
    (b[i] as u32) | ((b[i + 1] as u32) << 8) | ((b[i + 2] as u32) << 16)
        | ((b[i + 3] as u32) << 24)
}

/// The one byte frame of a client message.
pub open spec fn spec_encode_client(m: ClientMessage) -> Seq<u8> {
    match m {
        ClientMessage::Register { ip } => seq![REGISTER_TAG, ip.a, ip.b, ip.c, ip.d],
        ClientMessage::State { pose } => seq![STATE_TAG] + le32(pose.x_bits) + le32(pose.y_bits)
            + le32(pose.rot_bits),
    }
}

/// Encodes one client message as its frame.
pub fn encode_client(m: &ClientMessage) -> (r: Vec<u8>)
    ensures
        r@ == spec_encode_client(*m),
{
    let mut out: Vec<u8> = Vec::new();
    match m {
        ClientMessage::Register { ip } => {
            out.push(REGISTER_TAG);
            out.push(ip.a);
            out.push(ip.b);
            out.push(ip.c);
            out.push(ip.d);
            proof {
                assert(out@ =~= spec_encode_client(*m));
            }
        },
        ClientMessage::State { pose } => {
            out.push(STATE_TAG);
            push_word(&mut out, pose.x_bits);
            push_word(&mut out, pose.y_bits);
            push_word(&mut out, pose.rot_bits);
            proof {
                assert(out@ =~= spec_encode_client(*m));
            }
        },
    }
    out
}

/// Decodes one client frame; `Some` exactly on the canonical frames.
pub fn decode_client(b: &Vec<u8>) -> (r: Option<ClientMessage>)
    ensures
        match r {
            Some(m) => spec_encode_client(m) == b@,
            None => forall|m: ClientMessage| spec_encode_client(m) != b@,
        },
{
    if b.len() == 0 {
        return None;
    }
    let tag = b[0];
    if tag == REGISTER_TAG && b.len() == 5 {
        let ip = Ipv4 { a: b[1], b: b[2], c: b[3], d: b[4] };
        let m = ClientMessage::Register { ip };
        proof {
            assert(spec_encode_client(m) =~= b@);
        }
        Some(m)
    } else if tag == STATE_TAG && b.len() == 13 {
        let x = read_word(b, 1);
        let y = read_word(b, 5);
        let rot = read_word(b, 9);
        let m = ClientMessage::State { pose: Pose { x_bits: x, y_bits: y, rot_bits: rot } };
        proof {
            lemma_word_le32(b@[1], b@[2], b@[3], b@[4]);
            lemma_word_le32(b@[5], b@[6], b@[7], b@[8]);
            lemma_word_le32(b@[9], b@[10], b@[11], b@[12]);
            assert(spec_encode_client(m) =~= b@);
        }
        Some(m)
    } else {
        proof {
            assert forall|m: ClientMessage| spec_encode_client(m) != b@ by {
                match m {
                    ClientMessage::Register { ip } => {
                        assert(spec_encode_client(m).len() == 5);
                        assert(spec_encode_client(m)[0] == REGISTER_TAG);
                    },
                    ClientMessage::State { pose } => {
                        assert(spec_encode_client(m).len() == 13);
                        assert(spec_encode_client(m)[0] == STATE_TAG);
                    },
                }
            }
        }
        None
    }
}

/// A frame pins the client message down: encoding is injective.  Together
/// with the contract of `decode_client` this says that decoding a message's
/// frame yields back exactly that message, for every variant.
pub proof fn lemma_encode_client_injective(m1: ClientMessage, m2: ClientMessage)
    requires
        spec_encode_client(m1) == spec_encode_client(m2),
    ensures
        m1 == m2,
{
    let e = spec_encode_client(m1);
    match (m1, m2) {
        (ClientMessage::Register { ip: ip1 }, ClientMessage::Register { ip: ip2 }) => {
            assert(ip1.a == e[1] && ip2.a == e[1]);
            assert(ip1.b == e[2] && ip2.b == e[2]);
            assert(ip1.c == e[3] && ip2.c == e[3]);
            assert(ip1.d == e[4] && ip2.d == e[4]);
        },
        (ClientMessage::State { pose: p1 }, ClientMessage::State { pose: p2 }) => {
            assert(le32(p1.x_bits) =~= e.subrange(1, 5));
            assert(le32(p2.x_bits) =~= e.subrange(1, 5));
            lemma_le32_injective(p1.x_bits, p2.x_bits);
            assert(le32(p1.y_bits) =~= e.subrange(5, 9));
            assert(le32(p2.y_bits) =~= e.subrange(5, 9));
            lemma_le32_injective(p1.y_bits, p2.y_bits);
            assert(le32(p1.rot_bits) =~= e.subrange(9, 13));
            assert(le32(p2.rot_bits) =~= e.subrange(9, 13));
            lemma_le32_injective(p1.rot_bits, p2.rot_bits);
        },
        (ClientMessage::Register { ip: ip1 }, ClientMessage::State { pose: p2 }) => {
            assert(spec_encode_client(m1).len() == 5);
            assert(spec_encode_client(m2).len() == 13);
        },
        (ClientMessage::State { pose: p1 }, ClientMessage::Register { ip: ip2 }) => {
            assert(spec_encode_client(m1).len() == 13);
            assert(spec_encode_client(m2).len() == 5);
        },
    }
}

/// The 16 bytes of one update entry.
pub open spec fn spec_encode_state(s: RemoteState) -> Seq<u8> {
    le32(s.id) + le32(s.pose.x_bits) + le32(s.pose.y_bits) + le32(s.pose.rot_bits)
}

/// The concatenated entries of an update list, in order.
pub open spec fn spec_encode_states(s: Seq<RemoteState>) -> Seq<u8>
    decreases s.len(),
{
    if s.len() == 0 {
        Seq::empty()
    } else {
        spec_encode_states(s.drop_last()) + spec_encode_state(s.last())
    }
}

/// A server message is well formed when its frame can carry it: the update
/// entry count must fit in the 32-bit count word.
pub open spec fn wf_server(m: ServerMsgView) -> bool {
    match m {
        ServerMsgView::Update(list) => list.len() < 0x1_0000_0000,
        _ => true,
    }
}

/// The one byte frame of a server message.
pub open spec fn spec_encode_server(m: ServerMsgView) -> Seq<u8> {
    match m {
        ServerMsgView::Welcome(id) => seq![WELCOME_TAG] + le32(id),
        ServerMsgView::GoodBye(id) => seq![GOODBYE_TAG] + le32(id),
        ServerMsgView::Update(list) => seq![UPDATE_TAG] + le32(list.len() as u32)
            + spec_encode_states(list),
    }
}

/// Each update entry takes 16 bytes on the wire.
pub proof fn lemma_encode_states_len(s: Seq<RemoteState>)
    ensures
        spec_encode_states(s).len() == 16 * s.len(),
    decreases s.len(),
{
    if s.len() > 0 {
        lemma_encode_states_len(s.drop_last());
    }
}

/// Appending an entry to the list appends its 16 bytes to the encoding.
pub proof fn lemma_encode_states_push(s: Seq<RemoteState>, st: RemoteState)
    ensures
        spec_encode_states(s.push(st)) == spec_encode_states(s) + spec_encode_state(st),
{
    assert(s.push(st).drop_last() =~= s);
    assert(s.push(st).last() == st);
}

/// Encodes one server message as its frame.
pub fn encode_server(m: &ServerMessage) -> (r: Vec<u8>)
    requires
        wf_server(m@),
    ensures
        r@ == spec_encode_server(m@),
{
    let mut out: Vec<u8> = Vec::new();
    match m {
        ServerMessage::Welcome(id) => {
            out.push(WELCOME_TAG);
            push_word(&mut out, *id);
            proof {
                assert(out@ =~= spec_encode_server(m@));
            }
        },
        ServerMessage::GoodBye(id) => {
            out.push(GOODBYE_TAG);
            push_word(&mut out, *id);
            proof {
                assert(out@ =~= spec_encode_server(m@));
            }
        },
        ServerMessage::Update(list) => {
            out.push(UPDATE_TAG);
            push_word(&mut out, list.len() as u32);
            let ghost header: Seq<u8> = out@;
            let n = list.len();
            for k in 0..n
                invariant
                    n == list@.len(),
                    out@ == header + spec_encode_states(list@.take(k as int)),
            {
                let st = list[k];
                push_word(&mut out, st.id);
                push_word(&mut out, st.pose.x_bits);
                push_word(&mut out, st.pose.y_bits);
                push_word(&mut out, st.pose.rot_bits);
                proof {
                    lemma_encode_states_push(list@.take(k as int), st);
                    assert(list@.take(k as int).push(st) =~= list@.take(k as int + 1));
                    assert(out@ =~= header + spec_encode_states(list@.take(k as int + 1)));
                }
            }
            proof {
                assert(list@.take(n as int) =~= list@);
                assert(out@ =~= spec_encode_server(m@));
            }
        },
    }
    out
}

/// Decodes one server frame; `Some` exactly on the canonical frames of
/// well-formed messages.
pub fn decode_server(b: &Vec<u8>) -> (r: Option<ServerMessage>)
    ensures
        match r {
            Some(m) => wf_server(m@) && spec_encode_server(m@) == b@,
            None => forall|mv: ServerMsgView| wf_server(mv) ==> spec_encode_server(mv) != b@,
        },
{
    proof {
        lemma_server_frame_shape();
    }
    if b.len() < 5 {
        return None;
    }
    let tag = b[0];
    if tag == WELCOME_TAG && b.len() == 5 {
        let id = read_word(b, 1);
        let m = ServerMessage::Welcome(id);
        proof {
            lemma_word_le32(b@[1], b@[2], b@[3], b@[4]);
            assert(spec_encode_server(m@) =~= b@);
        }
        Some(m)
    } else if tag == GOODBYE_TAG && b.len() == 5 {
        let id = read_word(b, 1);
        let m = ServerMessage::GoodBye(id);
        proof {
            lemma_word_le32(b@[1], b@[2], b@[3], b@[4]);
            assert(spec_encode_server(m@) =~= b@);
        }
        Some(m)
    } else if tag == UPDATE_TAG {
        let count = read_word(b, 1);
        let need: u64 = 5u64 + 16u64 * (count as u64);
        if (b.len() as u64) != need {
            proof {
                lemma_word_le32(b@[1], b@[2], b@[3], b@[4]);
                assert forall|mv: ServerMsgView| wf_server(mv) implies spec_encode_server(mv)
                    != b@ by {
                    if spec_encode_server(mv) == b@ {
                        match mv {
                            ServerMsgView::Update(list) => {
                                assert(le32(list.len() as u32) =~= b@.subrange(1, 5));
                                lemma_le32_injective(list.len() as u32, count);
                                lemma_encode_states_len(list);
                            },
                            _ => {},
                        }
                    }
                }
            }
            return None;
        }
        let n = count as usize;
        let blen = b.len();
        let mut list: Vec<RemoteState> = Vec::new();
        for k in 0..n
            invariant
                n == count,
                blen == b@.len(),
                b@.len() == 5 + 16 * (count as int),
                list@.len() == k,
                spec_encode_states(list@) == b@.subrange(5, 5 + 16 * (k as int)),
        {
            let off = 5 + 16 * k;
            let id = read_word(b, off);
            let x = read_word(b, off + 4);
            let y = read_word(b, off + 8);
            let rot = read_word(b, off + 12);
            let st = RemoteState { id, pose: Pose { x_bits: x, y_bits: y, rot_bits: rot } };
            proof {
                let o = off as int;
                lemma_word_le32(b@[o], b@[o + 1], b@[o + 2], b@[o + 3]);
                lemma_word_le32(b@[o + 4], b@[o + 5], b@[o + 6], b@[o + 7]);
                lemma_word_le32(b@[o + 8], b@[o + 9], b@[o + 10], b@[o + 11]);
                lemma_word_le32(b@[o + 12], b@[o + 13], b@[o + 14], b@[o + 15]);
                lemma_encode_states_push(list@, st);
                assert(spec_encode_state(st) =~= b@.subrange(o, o + 16));
                assert(spec_encode_states(list@.push(st)) =~= b@.subrange(5, o + 16));
            }
            list.push(st);
        }
        let m = ServerMessage::Update(list);
        proof {
            lemma_word_le32(b@[1], b@[2], b@[3], b@[4]);
            assert(le32(count) =~= b@.subrange(1, 5));
            assert(spec_encode_server(m@) =~= b@);
        }
        Some(m)
    } else {
        proof {
            assert forall|mv: ServerMsgView| wf_server(mv) implies spec_encode_server(mv)
                != b@ by {
                if spec_encode_server(mv) == b@ {
                    lemma_server_frame_tail(mv);
                }
            }
        }
        None
    }
}

/// Every well-formed server frame is at least 5 bytes and starts with its
/// variant's tag; an update frame's length fixes its entry count.
pub proof fn lemma_server_frame_shape()
    ensures
        forall|mv: ServerMsgView| wf_server(mv) ==> #[trigger] spec_encode_server(mv).len() >= 5,
{
    assert forall|mv: ServerMsgView| wf_server(mv) implies #[trigger] spec_encode_server(
        mv,
    ).len() >= 5 by {
        lemma_server_frame_tail(mv);
    }
}

/// Shape facts about one message's frame: its length and its tag byte.
pub proof fn lemma_server_frame_tail(mv: ServerMsgView)
    ensures
        spec_encode_server(mv).len() >= 5,
        spec_encode_server(mv)[0] == match mv {
            ServerMsgView::Welcome(_) => WELCOME_TAG,
            ServerMsgView::GoodBye(_) => GOODBYE_TAG,
            ServerMsgView::Update(_) => UPDATE_TAG,
        },
        mv matches ServerMsgView::Update(list) ==> spec_encode_server(mv).len() == 5 + 16
            * list.len(),
{
    match mv {
        ServerMsgView::Update(list) => {
            lemma_encode_states_len(list);
        },
        _ => {},
    }
}

/// A frame pins the server message down: encoding is injective on
/// well-formed messages.  Together with the contract of `decode_server`
/// this says that decoding a message's frame yields back exactly that
/// message, for every variant.
pub proof fn lemma_encode_server_injective(m1: ServerMsgView, m2: ServerMsgView)
    requires
        wf_server(m1),
        wf_server(m2),
        spec_encode_server(m1) == spec_encode_server(m2),
    ensures
        m1 == m2,
{
    let e = spec_encode_server(m1);
    lemma_server_frame_tail(m1);
    lemma_server_frame_tail(m2);
    match (m1, m2) {
        (ServerMsgView::Welcome(id1), ServerMsgView::Welcome(id2)) => {
            assert(le32(id1) =~= e.subrange(1, 5));
            assert(le32(id2) =~= e.subrange(1, 5));
            lemma_le32_injective(id1, id2);
        },
        (ServerMsgView::GoodBye(id1), ServerMsgView::GoodBye(id2)) => {
            assert(le32(id1) =~= e.subrange(1, 5));
            assert(le32(id2) =~= e.subrange(1, 5));
            lemma_le32_injective(id1, id2);
        },
        (ServerMsgView::Update(l1), ServerMsgView::Update(l2)) => {
            assert(le32(l1.len() as u32) =~= e.subrange(1, 5));
            assert(le32(l2.len() as u32) =~= e.subrange(1, 5));
            lemma_le32_injective(l1.len() as u32, l2.len() as u32);
            assert(l1.len() == l2.len());
            assert(spec_encode_states(l1) =~= e.subrange(5, e.len() as int));
            assert(spec_encode_states(l2) =~= e.subrange(5, e.len() as int));
            lemma_encode_states_injective(l1, l2);
        },
        _ => {},
    }
}

/// Equal-length update lists with the same entry bytes are the same list.
proof fn lemma_encode_states_injective(l1: Seq<RemoteState>, l2: Seq<RemoteState>)
    requires
        l1.len() == l2.len(),
        spec_encode_states(l1) == spec_encode_states(l2),
    ensures
        l1 == l2,
    decreases l1.len(),
{
    if l1.len() == 0 {
        assert(l1 =~= l2);
    } else {
        let e = spec_encode_states(l1);
        lemma_encode_states_len(l1.drop_last());
        lemma_encode_states_len(l2.drop_last());
        let cut = spec_encode_states(l1.drop_last()).len() as int;
        assert(spec_encode_states(l1.drop_last()) =~= e.subrange(0, cut));
        assert(spec_encode_states(l2.drop_last()) =~= e.subrange(0, cut));
        lemma_encode_states_injective(l1.drop_last(), l2.drop_last());
        let s1 = l1.last();
        let s2 = l2.last();
        assert(spec_encode_state(s1) =~= e.subrange(cut, e.len() as int));
        assert(spec_encode_state(s2) =~= e.subrange(cut, e.len() as int));
        let t = spec_encode_state(s1);
        assert(le32(s1.id) =~= t.subrange(0, 4));
        assert(le32(s2.id) =~= t.subrange(0, 4));
        lemma_le32_injective(s1.id, s2.id);
        assert(le32(s1.pose.x_bits) =~= t.subrange(4, 8));
        assert(le32(s2.pose.x_bits) =~= t.subrange(4, 8));
        lemma_le32_injective(s1.pose.x_bits, s2.pose.x_bits);
        assert(le32(s1.pose.y_bits) =~= t.subrange(8, 12));
        assert(le32(s2.pose.y_bits) =~= t.subrange(8, 12));
        lemma_le32_injective(s1.pose.y_bits, s2.pose.y_bits);
        assert(le32(s1.pose.rot_bits) =~= t.subrange(12, 16));
        assert(le32(s2.pose.rot_bits) =~= t.subrange(12, 16));
        lemma_le32_injective(s1.pose.rot_bits, s2.pose.rot_bits);
        assert(l1 =~= l2) by {
            assert(forall|i: int| 0 <= i < l1.len() - 1 ==> l1[i] == l1.drop_last()[i]
                && l2[i] == l2.drop_last()[i]);
        }
    }
}

} // verus!
