//! Messages between the server and the players, and how they are framed.
//!
//! A message travels as a frame: four bytes that hold the length of the
//! payload, most significant byte first, and then the payload. Bytes arrive
//! and leave in pieces of any size; the buffers here collect what has
//! arrived until a frame is whole, and keep what is still to be sent.

use crate::player::PlayerSymbol;
use crate::pos::GlobalPos;
use vstd::prelude::*;

verus! {

/// Number of bytes that hold the length of a payload.
pub const NBYTES_MESSAGE_LENGTH: usize = 4;

/// What the server tells a player.
#[derive(Debug, Clone, Copy, PartialEq, Eq, Structural)]
pub enum ServerMessage {
    /// The symbol that the player plays with.
    SymbolAssignment(PlayerSymbol),
    /// A round starts, and this player opens it.
    RoundStart(PlayerSymbol),
    /// The opponent played on this tile.
    OpponentPlaceSymbol(GlobalPos),
    /// The opponent gave up.
    OpponentGiveUp,
}

impl ServerMessage {
    /// The symbol of a symbol assignment.
    pub fn symbol_assignment(self) -> (r: PlayerSymbol)
        requires
            self is SymbolAssignment,
        ensures
            self == Self::SymbolAssignment(r),
    {
        match self {
            Self::SymbolAssignment(s) => s,
            _ => unreached(),
        }
    }

    /// The player who opens the round that starts.
    pub fn round_start(self) -> (r: PlayerSymbol)
        requires
            self is RoundStart,
        ensures
            self == Self::RoundStart(r),
    {
        match self {
            Self::RoundStart(s) => s,
            _ => unreached(),
        }
    }

    /// The tile that the opponent played on.
    pub fn opponent_place_symbol(self) -> (r: GlobalPos)
        requires
            self is OpponentPlaceSymbol,
        ensures
            self == Self::OpponentPlaceSymbol(r),
    {
        match self {
            Self::OpponentPlaceSymbol(p) => p,
            _ => unreached(),
        }
    }

    /// Takes note that the opponent gave up.
    pub fn opponent_give_up(self)
        requires
            self is OpponentGiveUp,
    {
    }
}

/// What a player tells the server.
#[derive(Debug, Clone, Copy, PartialEq, Eq, Structural)]
pub enum ClientMessage {
    /// The player plays on this tile.
    PlaceSymbol(GlobalPos),
    /// The player asks for another round.
    StartRoundRequest,
    /// The player gives up.
    GiveUp,
}

impl ClientMessage {
    /// The tile that the player plays on.
    pub fn place_symbol(self) -> (r: GlobalPos)
        requires
            self is PlaceSymbol,
        ensures
            self == Self::PlaceSymbol(r),
    {
        match self {
            Self::PlaceSymbol(p) => p,
            _ => unreached(),
        }
    }

    /// Takes note that the player asks for another round.
    pub fn start_round_request(self)
        requires
            self is StartRoundRequest,
    {
    }

    /// Takes note that the player gives up.
    pub fn give_up(self)
        requires
            self is GiveUp,
    {
    }
}

/// A request for another round, as a message of its own.
#[derive(Debug, Clone, Copy, PartialEq, Eq, Structural)]
pub struct ClientReqRoundStart;

/// The four bytes that hold `len`, most significant byte first.
pub open spec fn spec_length_bytes(len: u32) -> Seq<u8> {
    seq![
        (len / 0x100_0000) as u8,
        (len / 0x1_0000 % 0x100) as u8,
        (len / 0x100 % 0x100) as u8,
        (len % 0x100) as u8,
    ]
}

/// The length that the first four of `bytes` hold, most significant byte
/// first.
pub open spec fn spec_length_of(bytes: Seq<u8>) -> int {
    bytes[0] * 0x100_0000 + bytes[1] * 0x1_0000 + bytes[2] * 0x100 + bytes[3]
}

/// The frame of a payload: its length in four bytes, then the payload.
pub open spec fn spec_frame(payload: Seq<u8>) -> Seq<u8> {
    spec_length_bytes(payload.len() as u32) + payload
}

/// Whether `bytes` start with a whole frame: the four bytes of a length and
/// at least as many bytes after them as the length says.
pub open spec fn starts_with_frame(bytes: Seq<u8>) -> bool {
    bytes.len() >= 4 && bytes.len() - 4 >= spec_length_of(bytes)
}

/// The payload of the frame that `bytes` start with.
pub open spec fn first_payload(bytes: Seq<u8>) -> Seq<u8> {
    bytes.subrange(4, 4 + spec_length_of(bytes))
}

/// What follows the frame that `bytes` start with.
pub open spec fn after_first_frame(bytes: Seq<u8>) -> Seq<u8> {
    bytes.skip(4 + spec_length_of(bytes))
}

/// The length that is read from four length bytes is the length that was
/// written to them.
pub proof fn lemma_length_round_trip(len: u32)
    ensures
        spec_length_bytes(len).len() == 4,
        spec_length_of(spec_length_bytes(len)) == len,
{
}

/// A frame followed by anything starts with a whole frame, whose payload is
/// the payload that was framed and after which comes what followed; and no
/// proper beginning of a frame is a whole frame.
pub proof fn lemma_frame_round_trip(payload: Seq<u8>, rest: Seq<u8>)
    requires
        payload.len() <= u32::MAX,
    ensures
        starts_with_frame(spec_frame(payload) + rest),
        first_payload(spec_frame(payload) + rest) == payload,
        after_first_frame(spec_frame(payload) + rest) == rest,
        forall|n: int|
            0 <= n < spec_frame(payload).len() ==> !starts_with_frame(
                #[trigger] spec_frame(payload).take(n),
            ),
{
    let len = payload.len() as u32;
    let frame = spec_frame(payload);
    let bytes = frame + rest;
    lemma_length_round_trip(len);
    assert(bytes[0] == spec_length_bytes(len)[0]);
    assert(bytes[1] == spec_length_bytes(len)[1]);
    assert(bytes[2] == spec_length_bytes(len)[2]);
    assert(bytes[3] == spec_length_bytes(len)[3]);
    assert(spec_length_of(bytes) == len);
    assert(first_payload(bytes) =~= payload);
    assert(after_first_frame(bytes) =~= rest);
    assert forall|n: int| 0 <= n < frame.len() implies !starts_with_frame(
        #[trigger] frame.take(n),
    ) by {
        let part = frame.take(n);
        if n >= 4 {
            assert(part[0] == spec_length_bytes(len)[0]);
            assert(part[1] == spec_length_bytes(len)[1]);
            assert(part[2] == spec_length_bytes(len)[2]);
            assert(part[3] == spec_length_bytes(len)[3]);
            assert(spec_length_of(part) == len);
        }
    }
}

/// The four bytes that hold `len`, most significant byte first.
pub fn length_bytes(len: u32) -> (r: [u8; 4])
    ensures
        r@ == spec_length_bytes(len),
{
    let bytes = [
        (len / 0x100_0000) as u8,
        (len / 0x1_0000 % 0x100) as u8,
        (len / 0x100 % 0x100) as u8,
        (len % 0x100) as u8,
    ];
    assert(bytes@ =~= spec_length_bytes(len));
    bytes
}

/// The length that four bytes hold, most significant byte first.
pub fn length_of(bytes: [u8; 4]) -> (r: u32)
    ensures
        r == spec_length_of(bytes@),
{
    bytes[0] as u32 * 0x100_0000 + bytes[1] as u32 * 0x1_0000 + bytes[2] as u32 * 0x100
        + bytes[3] as u32
}

/// The frame of a payload: its length in four bytes, then the payload.
pub fn frame_message(payload: &[u8]) -> (r: Vec<u8>)
    requires
        payload.len() <= u32::MAX,
    ensures
        r@ == spec_frame(payload@),
{
    let mut frame: Vec<u8> = Vec::new();
    let prefix = length_bytes(payload.len() as u32);
    frame.extend_from_slice(prefix.as_slice());
    frame.extend_from_slice(payload);
    assert(frame@ =~= spec_frame(payload@));
    frame
}

/// The bytes of a connection that are not dealt with yet: those that have
/// arrived and belong to no whole message so far, and those that are still
/// to be sent.
pub struct MessageBuffer {
    raw_read_data: Vec<u8>,
    raw_write_data: Vec<u8>,
}

impl MessageBuffer {
    /// The bytes that have arrived and were not taken as a message yet.
    pub closed spec fn unread(&self) -> Seq<u8> {
        self.raw_read_data@
    }

    /// The bytes that are still to be sent.
    pub closed spec fn unsent(&self) -> Seq<u8> {
        self.raw_write_data@
    }

    /// Two empty buffers.
    pub fn new() -> (r: Self)
        ensures
            r.unread() == Seq::<u8>::empty(),
            r.unsent() == Seq::<u8>::empty(),
    {
        Self { raw_read_data: Vec::new(), raw_write_data: Vec::new() }
    }

    /// Takes in bytes that have arrived.
    pub fn receive(&mut self, bytes: &[u8])
        ensures
            final(self).unread() == old(self).unread() + bytes@,
            final(self).unsent() == old(self).unsent(),
    {
        self.raw_read_data.extend_from_slice(bytes);
    }

    /// Takes the payload of the first message out of the bytes that have
    /// arrived, if a whole message has arrived.
    pub fn try_read_message(&mut self) -> (r: Option<Vec<u8>>)
        ensures
            final(self).unsent() == old(self).unsent(),
            starts_with_frame(old(self).unread()) ==> r is Some && r->Some_0@ == first_payload(
                old(self).unread(),
            ) && final(self).unread() == after_first_frame(old(self).unread()),
            !starts_with_frame(old(self).unread()) ==> r is None && final(self).unread() == old(
                self,
            ).unread(),
    {
        if self.raw_read_data.len() < NBYTES_MESSAGE_LENGTH {
            return None;
        }
        let msg_len_bytes = [
            self.raw_read_data[0],
            self.raw_read_data[1],
            self.raw_read_data[2],
            self.raw_read_data[3],
        ];
        let msg_len = length_of(msg_len_bytes) as usize;
        if self.raw_read_data.len() - NBYTES_MESSAGE_LENGTH < msg_len {
            return None;
        }
        let whole_msg_len = NBYTES_MESSAGE_LENGTH + msg_len;
        let mut msg_content_bytes = self.raw_read_data.split_off(NBYTES_MESSAGE_LENGTH);
        let rest = msg_content_bytes.split_off(msg_len);
        self.raw_read_data = rest;
        proof {
            assert(msg_content_bytes@ =~= first_payload(old(self).unread()));
            assert(self.raw_read_data@ =~= after_first_frame(old(self).unread()));
        }
        Some(msg_content_bytes)
    }

    /// Puts the frame of a payload behind the bytes that are still to be
    /// sent.
    pub fn queue_message(&mut self, payload: &[u8])
        requires
            payload.len() <= u32::MAX,
        ensures
            final(self).unsent() == old(self).unsent() + spec_frame(payload@),
            final(self).unread() == old(self).unread(),
    {
        let frame = frame_message(payload);
        self.raw_write_data.extend_from_slice(frame.as_slice());
    }

    /// The bytes that are still to be sent, in order.
    pub fn unsent_bytes(&self) -> (r: &[u8])
        ensures
            r@ == self.unsent(),
    {
        self.raw_write_data.as_slice()
    }

    /// Takes note that the first `nbytes` of the bytes to be sent were sent,
    /// and says whether nothing is left to send.
    pub fn mark_sent(&mut self, nbytes: usize) -> (r: bool)
        requires
            nbytes <= old(self).unsent().len(),
        ensures
            final(self).unsent() == old(self).unsent().skip(nbytes as int),
            final(self).unread() == old(self).unread(),
            r == (final(self).unsent().len() == 0),
    {
        let rest = self.raw_write_data.split_off(nbytes);
        self.raw_write_data = rest;
        assert(self.raw_write_data@ =~= old(self).unsent().skip(nbytes as int));
        self.raw_write_data.is_empty()
    }
}

} // verus!
