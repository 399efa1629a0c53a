//! Game messages and their wire encoding.
//!
//! A message is one tag byte naming its kind, followed by the kind's fields
//! in a fixed order: integers as little-endian bytes (4 for `u32`, 8 for
//! `i64`), strings as an 8-byte little-endian byte count followed by that many
//! bytes of UTF-8. A message occupies the whole buffer: bytes left over after
//! the last field make the buffer malformed.

use vstd::bytes::{
    lemma_auto_spec_u32_to_from_le_bytes, lemma_auto_spec_u64_to_from_le_bytes,
    spec_u32_from_le_bytes, spec_u32_to_le_bytes, spec_u64_from_le_bytes, spec_u64_to_le_bytes,
    u32_from_le_bytes, u32_to_le_bytes, u64_from_le_bytes, u64_to_le_bytes,
};
use vstd::prelude::*;
use vstd::slice::{slice_subrange, slice_to_vec};
use vstd::utf8::{
    decode_utf8, decode_utf8_encode_utf8, encode_utf8, encode_utf8_decode_utf8,
    encode_utf8_valid_utf8, valid_utf8,
};

verus! {

/// Tag byte of [`GameMessage::PlayerJoin`].
pub const TAG_PLAYER_JOIN: u8 = 0;

/// Tag byte of [`GameMessage::PlayerLeave`].
pub const TAG_PLAYER_LEAVE: u8 = 1;

/// Tag byte of [`GameMessage::ResourceUpdate`].
pub const TAG_RESOURCE_UPDATE: u8 = 2;

/// Tag byte of [`GameMessage::QuestComplete`].
pub const TAG_QUEST_COMPLETE: u8 = 3;

/// Tag byte of [`GameMessage::MapGenerate`].
pub const TAG_MAP_GENERATE: u8 = 4;

/// Tag byte of [`GameMessage::Chat`].
pub const TAG_CHAT: u8 = 5;

/// Tag byte of [`GameMessage::Ping`].
pub const TAG_PING: u8 = 6;

/// Tag byte of [`GameMessage::Pong`].
pub const TAG_PONG: u8 = 7;

/// A message exchanged between game peers.
#[derive(Debug, Clone)]
pub enum GameMessage {
    PlayerJoin { username: String },
    PlayerLeave { player_id: u32 },
    /// `resources_bits` is the IEEE-754 single-precision bit pattern of the
    /// player's resource amount, carried bit for bit.
    ResourceUpdate { player_id: u32, resources_bits: u32 },
    QuestComplete { player_id: u32, quest_id: u32 },
    MapGenerate { seed: i64 },
    Chat { player_id: u32, message: String },
    Ping,
    Pong,
}

/// The mathematical content of a [`GameMessage`]: strings as their
/// characters.
pub enum MessageView {
    PlayerJoin { username: Seq<char> },
    PlayerLeave { player_id: u32 },
    ResourceUpdate { player_id: u32, resources_bits: u32 },
    QuestComplete { player_id: u32, quest_id: u32 },
    MapGenerate { seed: i64 },
    Chat { player_id: u32, message: Seq<char> },
    Ping,
    Pong,
}

impl View for GameMessage {
    type V = MessageView;

    open spec fn view(&self) -> MessageView {
        match self {
            GameMessage::PlayerJoin { username } => MessageView::PlayerJoin { username: username@ },
            GameMessage::PlayerLeave { player_id } => MessageView::PlayerLeave {
                player_id: *player_id,
            },
            GameMessage::ResourceUpdate { player_id, resources_bits } =>
                MessageView::ResourceUpdate {
                player_id: *player_id,
                resources_bits: *resources_bits,
            },
            GameMessage::QuestComplete { player_id, quest_id } => MessageView::QuestComplete {
                player_id: *player_id,
                quest_id: *quest_id,
            },
            GameMessage::MapGenerate { seed } => MessageView::MapGenerate { seed: *seed },
            GameMessage::Chat { player_id, message } => MessageView::Chat {
                player_id: *player_id,
                message: message@,
            },
            GameMessage::Ping => MessageView::Ping,
            GameMessage::Pong => MessageView::Pong,
        }
    }
}

impl PartialEq for GameMessage {
    fn eq(&self, other: &GameMessage) -> (r: bool)
        ensures
            r == (self@ == other@),
    {
        match (self, other) {
            (GameMessage::PlayerJoin { username: a }, GameMessage::PlayerJoin { username: b }) => *a
                == *b,
            (
                GameMessage::PlayerLeave { player_id: a },
                GameMessage::PlayerLeave { player_id: b },
            ) => *a == *b,
            (
                GameMessage::ResourceUpdate { player_id: a, resources_bits: x },
                GameMessage::ResourceUpdate { player_id: b, resources_bits: y },
            ) => *a == *b && *x == *y,
            (
                GameMessage::QuestComplete { player_id: a, quest_id: x },
                GameMessage::QuestComplete { player_id: b, quest_id: y },
            ) => *a == *b && *x == *y,
            (GameMessage::MapGenerate { seed: a }, GameMessage::MapGenerate { seed: b }) => *a
                == *b,
            (
                GameMessage::Chat { player_id: a, message: x },
                GameMessage::Chat { player_id: b, message: y },
            ) => *a == *b && *x == *y,
            (GameMessage::Ping, GameMessage::Ping) => true,
            (GameMessage::Pong, GameMessage::Pong) => true,
            _ => false,
        }
    }
}

impl vstd::std_specs::cmp::PartialEqSpecImpl for GameMessage {
    open spec fn obeys_eq_spec() -> bool {
        true
    }

    open spec fn eq_spec(&self, other: &GameMessage) -> bool {
        self@ == other@
    }
}

/// Why a buffer does not hold a message.
#[derive(Debug, Clone, Copy, PartialEq, Eq, Structural)]
pub enum DecodeError {
    /// The buffer ends before a field that the tag calls for (an empty
    /// buffer has no tag).
    Truncated,
    /// The first byte names no kind of message.
    UnknownTag,
    /// A string field is not valid UTF-8.
    InvalidUtf8,
    /// Bytes follow the last field of the message.
    TrailingBytes,
}

/// The bytes of a string field: its UTF-8 byte count, then the bytes.
pub open spec fn string_field(s: Seq<char>) -> Seq<u8> {
    spec_u64_to_le_bytes(encode_utf8(s).len() as u64) + encode_utf8(s)
}

/// Whether a string fits a field: its byte count fits in eight bytes, as
/// that of every string in memory does.
pub open spec fn fits_field(s: Seq<char>) -> bool {
    encode_utf8(s).len() <= u64::MAX
}

/// Whether every string of `m` fits a field, as is the case for every
/// [`GameMessage`].
pub open spec fn encodable(m: MessageView) -> bool {
    match m {
        MessageView::PlayerJoin { username } => fits_field(username),
        MessageView::Chat { message, .. } => fits_field(message),
        _ => true,
    }
}

/// The encoding of a message.
pub open spec fn encode_message(m: MessageView) -> Seq<u8> {
    match m {
        MessageView::PlayerJoin { username } => seq![TAG_PLAYER_JOIN] + string_field(username),
        MessageView::PlayerLeave { player_id } => seq![TAG_PLAYER_LEAVE] + spec_u32_to_le_bytes(
            player_id,
        ),
        MessageView::ResourceUpdate { player_id, resources_bits } => seq![TAG_RESOURCE_UPDATE]
            + spec_u32_to_le_bytes(player_id) + spec_u32_to_le_bytes(resources_bits),
        MessageView::QuestComplete { player_id, quest_id } => seq![TAG_QUEST_COMPLETE]
            + spec_u32_to_le_bytes(player_id) + spec_u32_to_le_bytes(quest_id),
        MessageView::MapGenerate { seed } => seq![TAG_MAP_GENERATE] + spec_u64_to_le_bytes(
            seed as u64,
        ),
        MessageView::Chat { player_id, message } => seq![TAG_CHAT] + spec_u32_to_le_bytes(
            player_id,
        ) + string_field(message),
        MessageView::Ping => seq![TAG_PING],
        MessageView::Pong => seq![TAG_PONG],
    }
}

/// The `u32` stored in the four bytes of `b` from `off` on.
pub open spec fn field_u32(b: Seq<u8>, off: int) -> u32 {
    spec_u32_from_le_bytes(b.subrange(off, off + 4))
}

/// The `u64` stored in the eight bytes of `b` from `off` on.
pub open spec fn field_u64(b: Seq<u8>, off: int) -> u64 {
    spec_u64_from_le_bytes(b.subrange(off, off + 8))
}

/// Reads a string field that starts at `off`: its characters and the
/// offset just past it.
pub open spec fn parse_string(b: Seq<u8>, off: int) -> Result<(Seq<char>, int), DecodeError> {
    if b.len() < off + 8 {
        Err(DecodeError::Truncated)
    } else {
        let start = off + 8;
        let end = start + field_u64(b, off);
        if b.len() < end {
            Err(DecodeError::Truncated)
        } else if !valid_utf8(b.subrange(start, end)) {
            Err(DecodeError::InvalidUtf8)
        } else {
            Ok((decode_utf8(b.subrange(start, end)), end))
        }
    }
}

/// `m`, provided that its last field ends where the buffer does.
pub open spec fn ends_at(b: Seq<u8>, m: MessageView, end: int) -> Result<MessageView, DecodeError> {
    if end == b.len() {
        Ok(m)
    } else {
        Err(DecodeError::TrailingBytes)
    }
}

/// What a buffer holds: the message it encodes, or the first fault met
/// reading it from the front.
pub open spec fn parse_message(b: Seq<u8>) -> Result<MessageView, DecodeError> {
    if b.len() == 0 {
        Err(DecodeError::Truncated)
    } else if b[0] == TAG_PLAYER_JOIN {
        match parse_string(b, 1) {
            Ok((username, end)) => ends_at(b, MessageView::PlayerJoin { username }, end),
            Err(e) => Err(e),
        }
    } else if b[0] == TAG_PLAYER_LEAVE {
        if b.len() < 5 {
            Err(DecodeError::Truncated)
        } else {
            ends_at(b, MessageView::PlayerLeave { player_id: field_u32(b, 1) }, 5)
        }
    } else if b[0] == TAG_RESOURCE_UPDATE {
        if b.len() < 9 {
            Err(DecodeError::Truncated)
        } else {
            ends_at(
                b,
                MessageView::ResourceUpdate {
                    player_id: field_u32(b, 1),
                    resources_bits: field_u32(b, 5),
                },
                9,
            )
        }
    } else if b[0] == TAG_QUEST_COMPLETE {
        if b.len() < 9 {
            Err(DecodeError::Truncated)
        } else {
            ends_at(
                b,
                MessageView::QuestComplete { player_id: field_u32(b, 1), quest_id: field_u32(b, 5) },
                9,
            )
        }
    } else if b[0] == TAG_MAP_GENERATE {
        if b.len() < 9 {
            Err(DecodeError::Truncated)
        } else {
            ends_at(
                b,
                MessageView::MapGenerate { seed: spec_u64_from_le_bytes(b.subrange(1, 9)) as i64 },
                9,
            )
        }
    } else if b[0] == TAG_CHAT {
        if b.len() < 5 {
            Err(DecodeError::Truncated)
        } else {
            match parse_string(b, 5) {
                Ok((message, end)) => ends_at(
                    b,
                    MessageView::Chat { player_id: field_u32(b, 1), message },
                    end,
                ),
                Err(e) => Err(e),
            }
        }
    } else if b[0] == TAG_PING {
        ends_at(b, MessageView::Ping, 1)
    } else if b[0] == TAG_PONG {
        ends_at(b, MessageView::Pong, 1)
    } else {
        Err(DecodeError::UnknownTag)
    }
}

/// Relies on `String::from_utf8`: it accepts exactly the valid UTF-8 byte
/// sequences, and the string it returns is made of those bytes.
#[verifier::external_body]
fn utf8_to_string(bytes: &[u8]) -> (r: Option<String>)
    ensures
        r is Some <==> valid_utf8(bytes@),
        r matches Some(s) ==> encode_utf8(s@) == bytes@,
{
    String::from_utf8(bytes.to_vec()).ok()
}

/// Appends `x` as four little-endian bytes.
fn push_u32(out: &mut Vec<u8>, x: u32)
    ensures
        final(out)@ == old(out)@ + spec_u32_to_le_bytes(x),
{
    let mut bytes = u32_to_le_bytes(x);
    out.append(&mut bytes);
}

/// Appends a string field.
fn push_string(out: &mut Vec<u8>, s: &String)
    ensures
        fits_field(s@),
        final(out)@ == old(out)@ + string_field(s@),
{
    let bytes = s.as_str().as_bytes();
    let n = bytes.len();
    assert(n <= u64::MAX);
    let mut count = u64_to_le_bytes(n as u64);
    out.append(&mut count);
    let mut copy = slice_to_vec(bytes);
    out.append(&mut copy);
    assert(final(out)@ =~= old(out)@ + string_field(s@));
}

/// Reads four little-endian bytes at `off`.
fn read_u32(data: &[u8], off: usize) -> (r: u32)
    requires
        off + 4 <= data@.len(),
    ensures
        r == field_u32(data@, off as int),
{
    let len = data.len();
    assert(off + 4 <= len);
    u32_from_le_bytes(slice_subrange(data, off, off + 4))
}

/// Reads the string field that starts at `off`.
fn read_string(data: &[u8], off: usize) -> (r: Result<(String, usize), DecodeError>)
    requires
        off <= data@.len(),
    ensures
        match r {
            Ok((s, end)) => parse_string(data@, off as int) == Ok::<(Seq<char>, int), DecodeError>(
                (s@, end as int),
            ),
            Err(e) => parse_string(data@, off as int) == Err::<(Seq<char>, int), DecodeError>(e),
        },
{
    if data.len() - off < 8 {
        return Err(DecodeError::Truncated);
    }
    let n = u64_from_le_bytes(slice_subrange(data, off, off + 8));
    let start = off + 8;
    let room = data.len() - start;
    if (room as u64) < n {
        return Err(DecodeError::Truncated);
    }
    let end = start + n as usize;
    let bytes = slice_subrange(data, start, end);
    match utf8_to_string(bytes) {
        Some(s) => {
            proof {
                decode_utf8_encode_utf8(bytes@);
                encode_utf8_decode_utf8(s@);
            }
            Ok((s, end))
        },
        None => Err(DecodeError::InvalidUtf8),
    }
}

/// `m` if the buffer ends at `end`.
fn end_at(data: &[u8], m: GameMessage, end: usize) -> (r: Result<GameMessage, DecodeError>)
    ensures
        match r {
            Ok(v) => ends_at(data@, m@, end as int) == Ok::<MessageView, DecodeError>(v@),
            Err(e) => ends_at(data@, m@, end as int) == Err::<MessageView, DecodeError>(e),
        },
{
    if end == data.len() {
        Ok(m)
    } else {
        Err(DecodeError::TrailingBytes)
    }
}

impl GameMessage {
    /// Encodes the message.
    pub fn to_bytes(&self) -> (r: Vec<u8>)
        ensures
            encodable(self@),
            r@ == encode_message(self@),
    {
        let mut out: Vec<u8> = Vec::new();
        match self {
            GameMessage::PlayerJoin { username } => {
                out.push(TAG_PLAYER_JOIN);
                push_string(&mut out, username);
            },
            GameMessage::PlayerLeave { player_id } => {
                out.push(TAG_PLAYER_LEAVE);
                push_u32(&mut out, *player_id);
            },
            GameMessage::ResourceUpdate { player_id, resources_bits } => {
                out.push(TAG_RESOURCE_UPDATE);
                push_u32(&mut out, *player_id);
                push_u32(&mut out, *resources_bits);
            },
            GameMessage::QuestComplete { player_id, quest_id } => {
                out.push(TAG_QUEST_COMPLETE);
                push_u32(&mut out, *player_id);
                push_u32(&mut out, *quest_id);
            },
            GameMessage::MapGenerate { seed } => {
                out.push(TAG_MAP_GENERATE);
                let mut bytes = u64_to_le_bytes(*seed as u64);
                out.append(&mut bytes);
            },
            GameMessage::Chat { player_id, message } => {
                out.push(TAG_CHAT);
                push_u32(&mut out, *player_id);
                push_string(&mut out, message);
            },
            GameMessage::Ping => {
                out.push(TAG_PING);
            },
            GameMessage::Pong => {
                out.push(TAG_PONG);
            },
        }
        assert(out@ =~= encode_message(self@));
        out
    }

    /// Decodes a message that occupies the whole of `data`.
    pub fn from_bytes(data: &[u8]) -> (r: Result<GameMessage, DecodeError>)
        ensures
            match r {
                Ok(m) => parse_message(data@) == Ok::<MessageView, DecodeError>(m@),
                Err(e) => parse_message(data@) == Err::<MessageView, DecodeError>(e),
            },
    {
        if data.len() == 0 {
            return Err(DecodeError::Truncated);
        }
        let tag = data[0];
        if tag == TAG_PLAYER_JOIN {
            let (username, end) = read_string(data, 1)?;
            end_at(data, GameMessage::PlayerJoin { username }, end)
        } else if tag == TAG_PLAYER_LEAVE {
            if data.len() < 5 {
                return Err(DecodeError::Truncated);
            }
            end_at(data, GameMessage::PlayerLeave { player_id: read_u32(data, 1) }, 5)
        } else if tag == TAG_RESOURCE_UPDATE {
            if data.len() < 9 {
                return Err(DecodeError::Truncated);
            }
            let player_id = read_u32(data, 1);
            let resources_bits = read_u32(data, 5);
            end_at(data, GameMessage::ResourceUpdate { player_id, resources_bits }, 9)
        } else if tag == TAG_QUEST_COMPLETE {
            if data.len() < 9 {
                return Err(DecodeError::Truncated);
            }
            let player_id = read_u32(data, 1);
            let quest_id = read_u32(data, 5);
            end_at(data, GameMessage::QuestComplete { player_id, quest_id }, 9)
        } else if tag == TAG_MAP_GENERATE {
            if data.len() < 9 {
                return Err(DecodeError::Truncated);
            }
            let seed = u64_from_le_bytes(slice_subrange(data, 1, 9)) as i64;
            end_at(data, GameMessage::MapGenerate { seed }, 9)
        } else if tag == TAG_CHAT {
            if data.len() < 5 {
                return Err(DecodeError::Truncated);
            }
            let player_id = read_u32(data, 1);
            let (message, end) = read_string(data, 5)?;
            end_at(data, GameMessage::Chat { player_id, message }, end)
        } else if tag == TAG_PING {
            end_at(data, GameMessage::Ping, 1)
        } else if tag == TAG_PONG {
            end_at(data, GameMessage::Pong, 1)
        } else {
            Err(DecodeError::UnknownTag)
        }
    }
}

/// A string field written after `prefix` reads back as the same string,
/// ending where the buffer does.
proof fn lemma_string_field_reads_back(prefix: Seq<u8>, s: Seq<char>)
    requires
        fits_field(s),
    ensures
        parse_string(prefix + string_field(s), prefix.len() as int) == Ok::<
            (Seq<char>, int),
            DecodeError,
        >((s, (prefix + string_field(s)).len() as int)),
{
    lemma_auto_spec_u64_to_from_le_bytes();
    encode_utf8_valid_utf8(s);
    encode_utf8_decode_utf8(s);
    let bytes = encode_utf8(s);
    let n = bytes.len() as u64;
    let b = prefix + string_field(s);
    let off = prefix.len() as int;
    assert(b.subrange(off, off + 8) =~= spec_u64_to_le_bytes(n));
    assert(field_u64(b, off) == n);
    assert(b.subrange(off + 8, off + 8 + n) =~= bytes);
}

/// A string field that reads back is the field of what was read.
proof fn lemma_string_field_canonical(b: Seq<u8>, off: int)
    requires
        0 <= off <= b.len(),
        parse_string(b, off) is Ok,
    ensures
        ({
            let (s, end) = parse_string(b, off)->Ok_0;
            &&& fits_field(s)
            &&& off <= end <= b.len()
            &&& b.subrange(off, end) == string_field(s)
        }),
{
    lemma_auto_spec_u64_to_from_le_bytes();
    let (s, end) = parse_string(b, off)->Ok_0;
    let start = off + 8;
    let bytes = b.subrange(start, end);
    decode_utf8_encode_utf8(bytes);
    assert(encode_utf8(s) == bytes);
    let n = field_u64(b, off);
    assert(b.subrange(off, start).len() == 8);
    assert(spec_u64_to_le_bytes(spec_u64_from_le_bytes(b.subrange(off, start))) == b.subrange(
        off,
        start,
    ));
    assert(b.subrange(off, end) =~= b.subrange(off, start) + bytes);
}

/// Every message whose strings fit a field survives the trip through the
/// wire: decoding its encoding gives it back.
pub proof fn lemma_message_round_trip(m: MessageView)
    requires
        encodable(m),
    ensures
        parse_message(encode_message(m)) == Ok::<MessageView, DecodeError>(m),
{
    lemma_auto_spec_u32_to_from_le_bytes();
    lemma_auto_spec_u64_to_from_le_bytes();
    let b = encode_message(m);
    match m {
        MessageView::PlayerJoin { username } => {
            lemma_string_field_reads_back(seq![TAG_PLAYER_JOIN], username);
        },
        MessageView::PlayerLeave { player_id } => {
            assert(b.subrange(1, 5) =~= spec_u32_to_le_bytes(player_id));
        },
        MessageView::ResourceUpdate { player_id, resources_bits } => {
            assert(b.subrange(1, 5) =~= spec_u32_to_le_bytes(player_id));
            assert(b.subrange(5, 9) =~= spec_u32_to_le_bytes(resources_bits));
        },
        MessageView::QuestComplete { player_id, quest_id } => {
            assert(b.subrange(1, 5) =~= spec_u32_to_le_bytes(player_id));
            assert(b.subrange(5, 9) =~= spec_u32_to_le_bytes(quest_id));
        },
        MessageView::MapGenerate { seed } => {
            assert(b.subrange(1, 9) =~= spec_u64_to_le_bytes(seed as u64));
            assert(((seed as u64) as i64) == seed) by (bit_vector);
        },
        MessageView::Chat { player_id, message } => {
            let prefix = seq![TAG_CHAT] + spec_u32_to_le_bytes(player_id);
            assert(b =~= prefix + string_field(message));
            lemma_string_field_reads_back(prefix, message);
            assert(b.subrange(1, 5) =~= spec_u32_to_le_bytes(player_id));
        },
        MessageView::Ping => {},
        MessageView::Pong => {},
    }
}

/// A buffer that decodes is the encoding of what it decodes to: no two
/// buffers carry the same message.
pub proof fn lemma_message_canonical(b: Seq<u8>)
    requires
        parse_message(b) is Ok,
    ensures
        encodable(parse_message(b)->Ok_0),
        encode_message(parse_message(b)->Ok_0) == b,
{
    lemma_auto_spec_u32_to_from_le_bytes();
    lemma_auto_spec_u64_to_from_le_bytes();
    let m = parse_message(b)->Ok_0;
    if b[0] == TAG_PLAYER_JOIN {
        lemma_string_field_canonical(b, 1);
        assert(b =~= seq![b[0]] + b.subrange(1, b.len() as int));
    } else if b[0] == TAG_CHAT {
        lemma_string_field_canonical(b, 5);
        assert(spec_u32_to_le_bytes(spec_u32_from_le_bytes(b.subrange(1, 5))) == b.subrange(1, 5));
        assert(b =~= seq![b[0]] + b.subrange(1, 5) + b.subrange(5, b.len() as int));
    } else if b[0] == TAG_PLAYER_LEAVE {
        assert(spec_u32_to_le_bytes(spec_u32_from_le_bytes(b.subrange(1, 5))) == b.subrange(1, 5));
        assert(b =~= seq![b[0]] + b.subrange(1, 5));
    } else if b[0] == TAG_RESOURCE_UPDATE || b[0] == TAG_QUEST_COMPLETE {
        assert(spec_u32_to_le_bytes(spec_u32_from_le_bytes(b.subrange(1, 5))) == b.subrange(1, 5));
        assert(spec_u32_to_le_bytes(spec_u32_from_le_bytes(b.subrange(5, 9))) == b.subrange(5, 9));
        assert(b =~= seq![b[0]] + b.subrange(1, 5) + b.subrange(5, 9));
    } else if b[0] == TAG_MAP_GENERATE {
        let x = spec_u64_from_le_bytes(b.subrange(1, 9));
        assert(((x as i64) as u64) == x) by (bit_vector);
        assert(spec_u64_to_le_bytes(x) == b.subrange(1, 9));
        assert(b =~= seq![b[0]] + b.subrange(1, 9));
    } else {
        assert(b =~= seq![b[0]]);
    }
}

} // verus!
