//! The binary replay format: a header of fixed layout, a compressed stream
//! of input frames, and a short trailer.

use std::collections::HashMap;
use vstd::prelude::*;
use vstd::utf8::{decode_utf8, valid_utf8};
use crate::bytes::{
    byte_read, copy_bytes, int_read, long_read, read_byte, read_int, read_long, read_short,
    read_text, short_read, text_from_utf8, text_read, Read,
};
use crate::error::{invalid, malformed, truncated, DecodeError, Field};
use crate::lzma::{lzma_unpack, lzma_unpacked};
use crate::number::{
    is_real_literal, parse_i64, parse_u32, parse_usize, parsed_i64, parsed_u32, parsed_usize,
    RealLiteral,
};
use crate::osu_data::{game_mode_of, GameMode};
use crate::text::{
    chars_of, lemma_split_first, split, split_chars, trim_chars, trimmed, views,
};

verus! {

broadcast use vstd::std_specs::hash::group_hash_axioms;

/// The bits of a mods word that have a meaning.
pub const MODS_MASK: u32 = 0x7fff_ffff;

/// No fail.
pub const MOD_NO_FAIL: u32 = 0x1;

/// Easy.
pub const MOD_EASY: u32 = 0x2;

/// Touch device.
pub const MOD_TOUCH_DEVICE: u32 = 0x4;

/// Hidden.
pub const MOD_HIDDEN: u32 = 0x8;

/// Hard rock.
pub const MOD_HARD_ROCK: u32 = 0x10;

/// Sudden death.
pub const MOD_SUDDEN_DEATH: u32 = 0x20;

/// Double time.
pub const MOD_DOUBLE_TIME: u32 = 0x40;

/// Relax.
pub const MOD_RELAX: u32 = 0x80;

/// Half time.
pub const MOD_HALF_TIME: u32 = 0x100;

/// Nightcore.
pub const MOD_NIGHTCORE: u32 = 0x200;

/// Flashlight.
pub const MOD_FLASHLIGHT: u32 = 0x400;

/// Autoplay.
pub const MOD_AUTOPLAY: u32 = 0x800;

/// Spun out.
pub const MOD_SPUN_OUT: u32 = 0x1000;

/// Autopilot.
pub const MOD_RELAX2: u32 = 0x2000;

/// Perfect.
pub const MOD_PERFECT: u32 = 0x4000;

/// Four keys.
pub const MOD_KEY4: u32 = 0x8000;

/// Five keys.
pub const MOD_KEY5: u32 = 0x1_0000;

/// Six keys.
pub const MOD_KEY6: u32 = 0x2_0000;

/// Seven keys.
pub const MOD_KEY7: u32 = 0x4_0000;

/// Eight keys.
pub const MOD_KEY8: u32 = 0x8_0000;

/// The mods of four to eight keys, together.
pub const MOD_KEY_MOD: u32 = 0xf_8000;

/// Fade in.
pub const MOD_FADE_IN: u32 = 0x10_0000;

/// Random.
pub const MOD_RANDOM: u32 = 0x20_0000;

/// Cinema.
pub const MOD_LAST_MOD: u32 = 0x40_0000;

/// Target practice.
pub const MOD_TARGET_PRACTICE: u32 = 0x80_0000;

/// Nine keys.
pub const MOD_KEY9: u32 = 0x100_0000;

/// Co-op.
pub const MOD_COOP: u32 = 0x200_0000;

/// One key.
pub const MOD_KEY1: u32 = 0x400_0000;

/// Three keys.
pub const MOD_KEY3: u32 = 0x800_0000;

/// Two keys.
pub const MOD_KEY2: u32 = 0x1000_0000;

/// Score version 2.
pub const MOD_SCORE_V2: u32 = 0x2000_0000;

/// Mirror.
pub const MOD_MIRROR: u32 = 0x4000_0000;

/// The game modifiers that a play was made with.
#[derive(Clone, Copy, Debug, PartialEq, Eq)]
pub struct Mods {
    bits: u32,
}

impl View for Mods {
    type V = u32;

    closed spec fn view(&self) -> u32 {
        self.bits
    }
}

impl Mods {
    #[verifier::type_invariant]
    closed spec fn wf(self) -> bool {
        self.bits & !MODS_MASK == 0
    }

    /// The mods that the bits of `bits` stand for; a bit outside the mask is
    /// refused.
    pub fn from_bits(bits: u32) -> (r: Option<Mods>)
        ensures
            r is Some <==> bits & !MODS_MASK == 0,
            r is Some ==> r->0@ == bits,
    {
        if bits & !MODS_MASK == 0 {
            Some(Mods { bits })
        } else {
            None
        }
    }

    /// The bits of this set; none lies outside the mask.
    pub fn bits(&self) -> (r: u32)
        ensures
            r == self@,
            r & !MODS_MASK == 0,
    {
        proof {
            use_type_invariant(self);
        }
        self.bits
    }

    /// Whether every mod of `flags` is in this set.
    pub fn contains(&self, flags: u32) -> (r: bool)
        ensures
            r == (self@ & flags == flags),
    {
        self.bits & flags == flags
    }
}

/// The bits of an input-keys word that have a meaning.
pub const INPUT_KEYS_MASK: u32 = 0x1f;

/// The left mouse button.
pub const KEY_M1: u32 = 0x1;

/// The right mouse button.
pub const KEY_M2: u32 = 0x2;

/// The first key.
pub const KEY_K1: u32 = 0x4;

/// The second key.
pub const KEY_K2: u32 = 0x8;

/// The smoke key.
pub const KEY_SMOKE: u32 = 0x10;

/// The keys and buttons that are down in a frame.
#[derive(Clone, Copy, Debug, PartialEq, Eq)]
pub struct InputKeys {
    bits: u32,
}

impl View for InputKeys {
    type V = u32;

    closed spec fn view(&self) -> u32 {
        self.bits
    }
}

impl InputKeys {
    #[verifier::type_invariant]
    closed spec fn wf(self) -> bool {
        self.bits & !INPUT_KEYS_MASK == 0
    }

    /// The keys that the bits of `bits` stand for; a bit outside the mask is
    /// refused.
    pub fn from_bits(bits: u32) -> (r: Option<InputKeys>)
        ensures
            r is Some <==> bits & !INPUT_KEYS_MASK == 0,
            r is Some ==> r->0@ == bits,
    {
        if bits & !INPUT_KEYS_MASK == 0 {
            Some(InputKeys { bits })
        } else {
            None
        }
    }

    /// The bits of this set; none lies outside the mask.
    pub fn bits(&self) -> (r: u32)
        ensures
            r == self@,
            r & !INPUT_KEYS_MASK == 0,
    {
        proof {
            use_type_invariant(self);
        }
        self.bits
    }

    /// Whether every key of `flags` is in this set.
    pub fn contains(&self, flags: u32) -> (r: bool)
        ensures
            r == (self@ & flags == flags),
    {
        self.bits & flags == flags
    }
}

/// The time delta that marks a record as carrying the seed, not a frame.
pub const SEED_MARKER: i64 = -12345;

/// A signed time delta as the unsigned number with the same 64 bits.
pub open spec fn delta_bits(d: i64) -> u64 {
    if d >= 0 {
        d as u64
    } else {
        (d + 0x1_0000_0000_0000_0000) as u64
    }
}

/// What a frame holds.
pub ghost struct FrameView {
    pub time_delta: u64,
    pub x: Seq<char>,
    pub y: Seq<char>,
    pub input_keys: u32,
}

/// One frame of input: the time since the frame before, the cursor, the keys.
#[derive(Debug)]
pub struct ReplayFrame {
    time_delta: u64,
    x: RealLiteral,
    y: RealLiteral,
    input_keys: InputKeys,
}

impl View for ReplayFrame {
    type V = FrameView;

    closed spec fn view(&self) -> FrameView {
        FrameView {
            time_delta: self.time_delta,
            x: self.x@,
            y: self.y@,
            input_keys: self.input_keys@,
        }
    }
}

impl Default for ReplayFrame {
    fn default() -> (r: Self)
        ensures
            r@ == (FrameView { time_delta: 0, x: seq!['0'], y: seq!['0'], input_keys: 0 }),
    {
        let keys = InputKeys::from_bits(0);
        assert(0u32 & !INPUT_KEYS_MASK == 0) by (bit_vector);
        ReplayFrame {
            time_delta: 0,
            x: RealLiteral::zero(),
            y: RealLiteral::zero(),
            input_keys: keys.unwrap(),
        }
    }
}

impl ReplayFrame {
    /// Milliseconds since the frame before: the bits of a signed number,
    /// read as an unsigned one.
    pub fn time_delta(&self) -> (r: u64)
        ensures
            r == self@.time_delta,
    {
        self.time_delta
    }

    /// The cursor's x coordinate.
    pub fn x(&self) -> (r: &RealLiteral)
        ensures
            r@ == self@.x,
    {
        &self.x
    }

    /// The cursor's y coordinate.
    pub fn y(&self) -> (r: &RealLiteral)
        ensures
            r@ == self@.y,
    {
        &self.y
    }

    /// The keys that are down.
    pub fn input_keys(&self) -> (r: InputKeys)
        ensures
            r@ == self@.input_keys,
    {
        self.input_keys
    }
}

/// The four numbers of a record of the frame stream, before the record is
/// known to be a frame.
pub ghost struct RecordView {
    pub time_delta: i64,
    pub x: Seq<char>,
    pub y: Seq<char>,
    pub keys: u32,
}

/// A record of the frame stream: time delta, x, y and keys, with `|` between.
pub open spec fn record_of(record: Seq<char>) -> Result<RecordView, DecodeError> {
    let parts = split(record, '|');
    match parsed_i64(parts[0]) {
        None => Err(malformed(Field::FrameTimeDelta)),
        Some(time_delta) => if parts.len() < 2 {
            Err(truncated(Field::FrameX))
        } else if !is_real_literal(parts[1]) {
            Err(malformed(Field::FrameX))
        } else if parts.len() < 3 {
            Err(truncated(Field::FrameY))
        } else if !is_real_literal(parts[2]) {
            Err(malformed(Field::FrameY))
        } else if parts.len() < 4 {
            Err(truncated(Field::FrameKeys))
        } else {
            match parsed_u32(parts[3]) {
                None => Err(malformed(Field::FrameKeys)),
                Some(keys) => Ok(RecordView { time_delta, x: parts[1], y: parts[2], keys }),
            }
        },
    }
}

/// The frames of the records from index `i` on, after the frames `acc`. The
/// record with the seed marker ends the stream: it and what follows it are
/// left out, whatever its last field holds.
pub open spec fn frames_from(records: Seq<Seq<char>>, i: int, acc: Seq<FrameView>) -> Result<
    Seq<FrameView>,
    DecodeError,
>
    decreases records.len() - i,
{
    if i < 0 || i >= records.len() {
        Ok(acc)
    } else {
        match record_of(records[i]) {
            Err(e) => Err(e),
            Ok(record) => if record.time_delta == SEED_MARKER {
                Ok(acc)
            } else if record.keys & !INPUT_KEYS_MASK != 0 {
                Err(invalid(Field::FrameKeys))
            } else {
                frames_from(
                    records,
                    i + 1,
                    acc.push(
                        FrameView {
                            time_delta: delta_bits(record.time_delta),
                            x: record.x,
                            y: record.y,
                            input_keys: record.keys,
                        },
                    ),
                )
            },
        }
    }
}

/// The frames that the text of a frame stream holds: records with `,`
/// between, up to the record with the seed marker.
pub open spec fn frames_of(text: Seq<char>) -> Result<Seq<FrameView>, DecodeError> {
    frames_from(split(text, ','), 0, Seq::empty())
}

/// The frames of a decompressed frame stream, which must be UTF-8.
pub open spec fn frame_stream_of(raw: Seq<u8>) -> Result<Seq<FrameView>, DecodeError> {
    if valid_utf8(raw) {
        frames_of(decode_utf8(raw))
    } else {
        Err(invalid(Field::ReplayData))
    }
}

/// The frames of a compressed frame stream.
pub open spec fn packed_frames_of(packed: Seq<u8>) -> Result<Seq<FrameView>, DecodeError> {
    match lzma_unpacked(packed) {
        Some(raw) => frame_stream_of(raw),
        None => Err(invalid(Field::ReplayData)),
    }
}

/// One entry of the life-bar graph: a time and a life value with `|` between.
pub open spec fn life_bar_entry(pair: Seq<char>) -> Result<(usize, Seq<char>), DecodeError> {
    let parts = split(trimmed(pair), '|');
    match parsed_usize(parts[0]) {
        None => Err(malformed(Field::LifeBarGraph)),
        Some(time) => if parts.len() < 2 {
            Err(truncated(Field::LifeBarGraph))
        } else if !is_real_literal(parts[1]) {
            Err(malformed(Field::LifeBarGraph))
        } else {
            Ok((time, parts[1]))
        },
    }
}

/// The graph after the entries from index `i` on have been added to `acc`.
/// Empty entries are passed over; a later entry replaces an earlier one for
/// the same time.
pub open spec fn life_bar_from(pairs: Seq<Seq<char>>, i: int, acc: Map<usize, Seq<char>>) -> Result<
    Map<usize, Seq<char>>,
    DecodeError,
>
    decreases pairs.len() - i,
{
    if i < 0 || i >= pairs.len() {
        Ok(acc)
    } else if pairs[i].len() == 0 {
        life_bar_from(pairs, i + 1, acc)
    } else {
        match life_bar_entry(pairs[i]) {
            Err(e) => Err(e),
            Ok((time, life)) => life_bar_from(pairs, i + 1, acc.insert(time, life)),
        }
    }
}

/// The life-bar graph that a text holds: entries with `,` between.
pub open spec fn life_bar_of(text: Seq<char>) -> Result<Map<usize, Seq<char>>, DecodeError> {
    life_bar_from(split(text, ','), 0, Map::empty())
}

/// The life values of a graph as text.
pub open spec fn life_bar_view(graph: Map<usize, RealLiteral>) -> Map<usize, Seq<char>> {
    Map::new(|time: usize| graph.contains_key(time), |time: usize| graph[time]@)
}

/// The views of a list of frames.
pub open spec fn frame_views(frames: Seq<ReplayFrame>) -> Seq<FrameView> {
    Seq::new(frames.len(), |i: int| frames[i]@)
}

/// What a replay holds.
pub ghost struct ReplayView {
    pub mode: GameMode,
    pub game_ver: u32,
    pub map_md5_hash: Seq<char>,
    pub player_name: Seq<char>,
    pub replay_md5_hash: Seq<char>,
    pub n_300: u16,
    pub n_100: u16,
    pub n_50: u16,
    pub n_geki: u16,
    pub n_katu: u16,
    pub n_miss: u16,
    pub total_score: u32,
    pub max_combo: u16,
    pub perfect_combo: bool,
    pub mods: u32,
    pub life_bar_graph: Map<usize, Seq<char>>,
    pub time_stamp: u64,
    pub compressed_data_length: u32,
    pub replay_data: Seq<FrameView>,
    pub online_score_id: u64,
    pub total_hit_accuracy: u64,
}

/// A decoded replay.
#[derive(Debug)]
pub struct Replay {
    pub mode: GameMode,
    pub game_ver: u32,
    pub map_md5_hash: String,
    pub player_name: String,
    pub replay_md5_hash: String,
    pub n_300: u16,
    pub n_100: u16,
    pub n_50: u16,
    pub n_geki: u16,
    pub n_katu: u16,
    pub n_miss: u16,
    pub total_score: u32,
    pub max_combo: u16,
    /// One byte in the file.
    pub perfect_combo: bool,
    /// Four bytes in the file.
    pub mods: Mods,
    /// Life against time.
    pub life_bar_graph: HashMap<usize, RealLiteral>,
    pub time_stamp: u64,
    /// In bytes.
    pub compressed_data_length: u32,
    pub replay_data: Vec<ReplayFrame>,
    pub online_score_id: u64,
    /// The 64 bits of a double-precision number. Only a play with the target
    /// practice mod has one; any other holds zero.
    pub total_hit_accuracy: u64,
}

impl View for Replay {
    type V = ReplayView;

    open spec fn view(&self) -> ReplayView {
        ReplayView {
            mode: self.mode,
            game_ver: self.game_ver,
            map_md5_hash: self.map_md5_hash@,
            player_name: self.player_name@,
            replay_md5_hash: self.replay_md5_hash@,
            n_300: self.n_300,
            n_100: self.n_100,
            n_50: self.n_50,
            n_geki: self.n_geki,
            n_katu: self.n_katu,
            n_miss: self.n_miss,
            total_score: self.total_score,
            max_combo: self.max_combo,
            perfect_combo: self.perfect_combo,
            mods: self.mods@,
            life_bar_graph: life_bar_view(self.life_bar_graph@),
            time_stamp: self.time_stamp,
            compressed_data_length: self.compressed_data_length,
            replay_data: frame_views(self.replay_data@),
            online_score_id: self.online_score_id,
            total_hit_accuracy: self.total_hit_accuracy,
        }
    }
}

/// Mode, client version, and the three texts that identify the play.
pub open spec fn identity_read(data: Seq<u8>, pos: usize) -> Read<
    (GameMode, u32, Seq<char>, Seq<char>, Seq<char>),
> {
    match byte_read(data, pos, Field::Mode) {
        Err(e) => Err(e),
        Ok((code, p1)) => match game_mode_of(code) {
            None => Err(invalid(Field::Mode)),
            Some(mode) => match int_read(data, p1, Field::GameVersion) {
                Err(e) => Err(e),
                Ok((game_ver, p2)) => match text_read(data, p2, Field::MapHash) {
                    Err(e) => Err(e),
                    Ok((map_hash, p3)) => match text_read(data, p3, Field::PlayerName) {
                        Err(e) => Err(e),
                        Ok((player, p4)) => match text_read(data, p4, Field::ReplayHash) {
                            Err(e) => Err(e),
                            Ok((replay_hash, p5)) => Ok(
                                ((mode, game_ver, map_hash, player, replay_hash), p5),
                            ),
                        },
                    },
                },
            },
        },
    }
}

/// The six judgment counts: 300s, 100s, 50s, gekis, katus, misses.
pub open spec fn counts_read(data: Seq<u8>, pos: usize) -> Read<(u16, u16, u16, u16, u16, u16)> {
    match short_read(data, pos, Field::Count300) {
        Err(e) => Err(e),
        Ok((n_300, p1)) => match short_read(data, p1, Field::Count100) {
            Err(e) => Err(e),
            Ok((n_100, p2)) => match short_read(data, p2, Field::Count50) {
                Err(e) => Err(e),
                Ok((n_50, p3)) => match short_read(data, p3, Field::CountGeki) {
                    Err(e) => Err(e),
                    Ok((n_geki, p4)) => match short_read(data, p4, Field::CountKatu) {
                        Err(e) => Err(e),
                        Ok((n_katu, p5)) => match short_read(data, p5, Field::CountMiss) {
                            Err(e) => Err(e),
                            Ok((n_miss, p6)) => Ok(
                                ((n_300, n_100, n_50, n_geki, n_katu, n_miss), p6),
                            ),
                        },
                    },
                },
            },
        },
    }
}

/// Total score, largest combo, whether the combo was perfect, and the mods.
pub open spec fn score_read(data: Seq<u8>, pos: usize) -> Read<(u32, u16, bool, u32)> {
    match int_read(data, pos, Field::TotalScore) {
        Err(e) => Err(e),
        Ok((total_score, p1)) => match short_read(data, p1, Field::MaxCombo) {
            Err(e) => Err(e),
            Ok((max_combo, p2)) => match byte_read(data, p2, Field::PerfectCombo) {
                Err(e) => Err(e),
                Ok((perfect, p3)) => match int_read(data, p3, Field::Mods) {
                    Err(e) => Err(e),
                    Ok((mods, p4)) => if mods & !MODS_MASK != 0 {
                        Err(invalid(Field::Mods))
                    } else {
                        Ok(((total_score, max_combo, perfect == 1, mods), p4))
                    },
                },
            },
        },
    }
}

/// The life-bar graph: a text, and the graph that it holds.
pub open spec fn life_bar_read(data: Seq<u8>, pos: usize) -> Read<Map<usize, Seq<char>>> {
    match text_read(data, pos, Field::LifeBarGraph) {
        Err(e) => Err(e),
        Ok((text, next)) => match life_bar_of(text) {
            Err(e) => Err(e),
            Ok(graph) => Ok((graph, next)),
        },
    }
}

/// The length of the compressed frame stream, and that many bytes.
pub open spec fn payload_read(data: Seq<u8>, pos: usize) -> Read<(u32, Seq<u8>)> {
    match int_read(data, pos, Field::CompressedLength) {
        Err(e) => Err(e),
        Ok((length, from)) => if from + length > data.len() {
            Err(truncated(Field::ReplayData))
        } else {
            Ok(((length, data.subrange(from as int, from + length)), (from + length) as usize))
        },
    }
}

/// The total hit accuracy: eight bytes where the mods hold target practice,
/// no byte and the value zero where they do not. Whether the field is there
/// goes by that one mod and by nothing else in the replay.
pub open spec fn accuracy_read(data: Seq<u8>, pos: usize, mods: u32) -> Read<u64> {
    if mods & MOD_TARGET_PRACTICE == MOD_TARGET_PRACTICE {
        long_read(data, pos, Field::TotalHitAccuracy)
    } else {
        Ok((0, pos))
    }
}

/// The replay that a buffer starts with, and where it ends in the buffer.
pub open spec fn replay_read(data: Seq<u8>) -> Read<ReplayView> {
    match identity_read(data, 0) {
        Err(e) => Err(e),
        Ok((identity, p1)) => match counts_read(data, p1) {
            Err(e) => Err(e),
            Ok((counts, p2)) => match score_read(data, p2) {
                Err(e) => Err(e),
                Ok((score, p3)) => match life_bar_read(data, p3) {
                    Err(e) => Err(e),
                    Ok((life_bar_graph, p4)) => match long_read(data, p4, Field::TimeStamp) {
                        Err(e) => Err(e),
                        Ok((time_stamp, p5)) => match payload_read(data, p5) {
                            Err(e) => Err(e),
                            Ok((payload, p6)) => match packed_frames_of(payload.1) {
                                Err(e) => Err(e),
                                Ok(replay_data) => match long_read(
                                    data,
                                    p6,
                                    Field::OnlineScoreId,
                                ) {
                                    Err(e) => Err(e),
                                    Ok((online_score_id, p7)) => match accuracy_read(
                                        data,
                                        p7,
                                        score.3,
                                    ) {
                                        Err(e) => Err(e),
                                        Ok((total_hit_accuracy, p8)) => Ok(
                                            (
                                                ReplayView {
                                                    mode: identity.0,
                                                    game_ver: identity.1,
                                                    map_md5_hash: identity.2,
                                                    player_name: identity.3,
                                                    replay_md5_hash: identity.4,
                                                    n_300: counts.0,
                                                    n_100: counts.1,
                                                    n_50: counts.2,
                                                    n_geki: counts.3,
                                                    n_katu: counts.4,
                                                    n_miss: counts.5,
                                                    total_score: score.0,
                                                    max_combo: score.1,
                                                    perfect_combo: score.2,
                                                    mods: score.3,
                                                    life_bar_graph,
                                                    time_stamp,
                                                    compressed_data_length: payload.0,
                                                    replay_data,
                                                    online_score_id,
                                                    total_hit_accuracy,
                                                },
                                                p8,
                                            ),
                                        ),
                                    },
                                },
                            },
                        },
                    },
                },
            },
        },
    }
}

/// The replay that a buffer holds. Bytes after the replay are not looked at.
pub open spec fn replay_of(data: Seq<u8>) -> Result<ReplayView, DecodeError> {
    match replay_read(data) {
        Ok((replay, _)) => Ok(replay),
        Err(e) => Err(e),
    }
}

/// The views of a list of frames with one more frame.
proof fn lemma_frame_views_push(frames: Seq<ReplayFrame>, frame: ReplayFrame)
    ensures
        frame_views(frames.push(frame)) == frame_views(frames).push(frame@),
{
    assert(frame_views(frames.push(frame)) =~= frame_views(frames).push(frame@));
}

/// The view of a graph with one more entry.
proof fn lemma_life_bar_view_insert(
    graph: Map<usize, RealLiteral>,
    time: usize,
    life: RealLiteral,
)
    ensures
        life_bar_view(graph.insert(time, life)) == life_bar_view(graph).insert(time, life@),
{
    assert(life_bar_view(graph.insert(time, life)) =~= life_bar_view(graph).insert(time, life@));
}

/// A signed time delta as the unsigned number with the same 64 bits.
pub fn delta_to_unsigned(d: i64) -> (r: u64)
    ensures
        r == delta_bits(d),
{
    if d >= 0 {
        d as u64
    } else {
        u64::MAX - ((-(d + 1)) as u64)
    }
}

/// The four numbers of one record of the frame stream.
fn decode_record(record: &[char]) -> (r: Result<(i64, RealLiteral, RealLiteral, u32), DecodeError>)
    ensures
        match r {
            Ok((time_delta, x, y, keys)) => record_of(record@) == Ok::<RecordView, DecodeError>(
                RecordView { time_delta, x: x@, y: y@, keys },
            ),
            Err(e) => record_of(record@) == Err::<RecordView, DecodeError>(e),
        },
{
    let parts = split_chars(record, '|');
    assert(forall|i: int| 0 <= i < parts@.len() ==> views(parts@)[i] == parts@[i]@);
    let time_delta = match parse_i64(parts[0].as_slice()) {
        Some(v) => v,
        None => { return Err(DecodeError::malformed(Field::FrameTimeDelta)); },
    };
    if parts.len() < 2 {
        return Err(DecodeError::truncated(Field::FrameX));
    }
    let x = match RealLiteral::parse(parts[1].as_slice()) {
        Some(v) => v,
        None => { return Err(DecodeError::malformed(Field::FrameX)); },
    };
    if parts.len() < 3 {
        return Err(DecodeError::truncated(Field::FrameY));
    }
    let y = match RealLiteral::parse(parts[2].as_slice()) {
        Some(v) => v,
        None => { return Err(DecodeError::malformed(Field::FrameY)); },
    };
    if parts.len() < 4 {
        return Err(DecodeError::truncated(Field::FrameKeys));
    }
    let keys = match parse_u32(parts[3].as_slice()) {
        Some(v) => v,
        None => { return Err(DecodeError::malformed(Field::FrameKeys)); },
    };
    Ok((time_delta, x, y, keys))
}

/// The frames that the text of a frame stream holds.
pub fn decode_frames(text: &[char]) -> (r: Result<Vec<ReplayFrame>, DecodeError>)
    ensures
        match r {
            Ok(frames) => frames_of(text@) == Ok::<Seq<FrameView>, DecodeError>(
                frame_views(frames@),
            ),
            Err(e) => frames_of(text@) == Err::<Seq<FrameView>, DecodeError>(e),
        },
{
    let records = split_chars(text, ',');
    let mut frames: Vec<ReplayFrame> = Vec::new();
    let mut i: usize = 0;
    assert(frame_views(frames@) =~= Seq::empty());
    while i < records.len()
        invariant
            i <= records.len(),
            views(records@) == split(text@, ','),
            frames_of(text@) == frames_from(views(records@), i as int, frame_views(frames@)),
        decreases records.len() - i,
    {
        assert(views(records@)[i as int] == records@[i as int]@);
        let (time_delta, x, y, keys) = decode_record(records[i].as_slice())?;
        if time_delta == SEED_MARKER {
            return Ok(frames);
        }
        let input_keys = match InputKeys::from_bits(keys) {
            Some(v) => v,
            None => { return Err(DecodeError::invalid(Field::FrameKeys)); },
        };
        let frame = ReplayFrame { time_delta: delta_to_unsigned(time_delta), x, y, input_keys };
        proof {
            lemma_frame_views_push(frames@, frame);
        }
        frames.push(frame);
        i += 1;
    }
    Ok(frames)
}

/// The frames of a decompressed frame stream.
pub fn decode_frame_stream(raw: Vec<u8>) -> (r: Result<Vec<ReplayFrame>, DecodeError>)
    ensures
        match r {
            Ok(frames) => frame_stream_of(raw@) == Ok::<Seq<FrameView>, DecodeError>(
                frame_views(frames@),
            ),
            Err(e) => frame_stream_of(raw@) == Err::<Seq<FrameView>, DecodeError>(e),
        },
{
    match text_from_utf8(raw) {
        None => Err(DecodeError::invalid(Field::ReplayData)),
        Some(text) => {
            let chars = chars_of(text.as_str());
            decode_frames(chars.as_slice())
        },
    }
}

/// The frames of a compressed frame stream.
pub fn decode_packed_frames(packed: &[u8]) -> (r: Result<Vec<ReplayFrame>, DecodeError>)
    ensures
        match r {
            Ok(frames) => packed_frames_of(packed@) == Ok::<Seq<FrameView>, DecodeError>(
                frame_views(frames@),
            ),
            Err(e) => packed_frames_of(packed@) == Err::<Seq<FrameView>, DecodeError>(e),
        },
{
    match lzma_unpack(packed) {
        Ok(raw) => decode_frame_stream(raw),
        Err(_) => Err(DecodeError::invalid(Field::ReplayData)),
    }
}

fn decode_life_bar_entry(pair: &[char]) -> (r: Result<(usize, RealLiteral), DecodeError>)
    ensures
        match r {
            Ok((time, life)) => life_bar_entry(pair@) == Ok::<(usize, Seq<char>), DecodeError>(
                (time, life@),
            ),
            Err(e) => life_bar_entry(pair@) == Err::<(usize, Seq<char>), DecodeError>(e),
        },
{
    let entry = trim_chars(pair);
    let parts = split_chars(entry.as_slice(), '|');
    assert(forall|i: int| 0 <= i < parts@.len() ==> views(parts@)[i] == parts@[i]@);
    let time = match parse_usize(parts[0].as_slice()) {
        Some(v) => v,
        None => { return Err(DecodeError::malformed(Field::LifeBarGraph)); },
    };
    if parts.len() < 2 {
        return Err(DecodeError::truncated(Field::LifeBarGraph));
    }
    match RealLiteral::parse(parts[1].as_slice()) {
        Some(life) => Ok((time, life)),
        None => Err(DecodeError::malformed(Field::LifeBarGraph)),
    }
}

/// The life-bar graph that a text holds.
pub fn decode_life_bar(text: &[char]) -> (r: Result<HashMap<usize, RealLiteral>, DecodeError>)
    ensures
        match r {
            Ok(graph) => life_bar_of(text@) == Ok::<Map<usize, Seq<char>>, DecodeError>(
                life_bar_view(graph@),
            ),
            Err(e) => life_bar_of(text@) == Err::<Map<usize, Seq<char>>, DecodeError>(e),
        },
{
    let pairs = split_chars(text, ',');
    let mut graph: HashMap<usize, RealLiteral> = HashMap::new();
    let mut i: usize = 0;
    assert(life_bar_view(graph@) =~= Map::empty());
    while i < pairs.len()
        invariant
            i <= pairs.len(),
            views(pairs@) == split(text@, ','),
            life_bar_of(text@) == life_bar_from(views(pairs@), i as int, life_bar_view(graph@)),
        decreases pairs.len() - i,
    {
        assert(views(pairs@)[i as int] == pairs@[i as int]@);
        if pairs[i].len() > 0 {
            let (time, life) = decode_life_bar_entry(pairs[i].as_slice())?;
            proof {
                lemma_life_bar_view_insert(graph@, time, life);
            }
            graph.insert(time, life);
        }
        i += 1;
    }
    Ok(graph)
}

fn read_identity(data: &[u8], pos: usize) -> (r: Result<
    ((GameMode, u32, String, String, String), usize),
    DecodeError,
>)
    ensures
        match r {
            Ok(((mode, game_ver, map_hash, player, replay_hash), next)) => identity_read(data@, pos)
                == Ok::<((GameMode, u32, Seq<char>, Seq<char>, Seq<char>), usize), DecodeError>(
                ((mode, game_ver, map_hash@, player@, replay_hash@), next),
            ),
            Err(e) => identity_read(data@, pos) == Err::<
                ((GameMode, u32, Seq<char>, Seq<char>, Seq<char>), usize),
                DecodeError,
            >(e),
        },
{
    let (code, p1) = read_byte(data, pos, Field::Mode)?;
    let mode = GameMode::try_from(code)?;
    let (game_ver, p2) = read_int(data, p1, Field::GameVersion)?;
    let (map_hash, p3) = read_text(data, p2, Field::MapHash)?;
    let (player, p4) = read_text(data, p3, Field::PlayerName)?;
    let (replay_hash, p5) = read_text(data, p4, Field::ReplayHash)?;
    Ok(((mode, game_ver, map_hash, player, replay_hash), p5))
}

fn read_counts(data: &[u8], pos: usize) -> (r: Read<(u16, u16, u16, u16, u16, u16)>)
    ensures
        r == counts_read(data@, pos),
{
    let (n_300, p1) = read_short(data, pos, Field::Count300)?;
    let (n_100, p2) = read_short(data, p1, Field::Count100)?;
    let (n_50, p3) = read_short(data, p2, Field::Count50)?;
    let (n_geki, p4) = read_short(data, p3, Field::CountGeki)?;
    let (n_katu, p5) = read_short(data, p4, Field::CountKatu)?;
    let (n_miss, p6) = read_short(data, p5, Field::CountMiss)?;
    Ok(((n_300, n_100, n_50, n_geki, n_katu, n_miss), p6))
}

fn read_score(data: &[u8], pos: usize) -> (r: Result<((u32, u16, bool, Mods), usize), DecodeError>)
    ensures
        match r {
            Ok(((total_score, max_combo, perfect, mods), next)) => score_read(data@, pos) == Ok::<
                ((u32, u16, bool, u32), usize),
                DecodeError,
            >(((total_score, max_combo, perfect, mods@), next)),
            Err(e) => score_read(data@, pos) == Err::<((u32, u16, bool, u32), usize), DecodeError>(
                e,
            ),
        },
{
    let (total_score, p1) = read_int(data, pos, Field::TotalScore)?;
    let (max_combo, p2) = read_short(data, p1, Field::MaxCombo)?;
    let (perfect, p3) = read_byte(data, p2, Field::PerfectCombo)?;
    let (bits, p4) = read_int(data, p3, Field::Mods)?;
    match Mods::from_bits(bits) {
        Some(mods) => Ok(((total_score, max_combo, perfect == 1, mods), p4)),
        None => Err(DecodeError::invalid(Field::Mods)),
    }
}

fn read_life_bar(data: &[u8], pos: usize) -> (r: Result<
    (HashMap<usize, RealLiteral>, usize),
    DecodeError,
>)
    ensures
        match r {
            Ok((graph, next)) => life_bar_read(data@, pos) == Ok::<
                (Map<usize, Seq<char>>, usize),
                DecodeError,
            >((life_bar_view(graph@), next)),
            Err(e) => life_bar_read(data@, pos) == Err::<
                (Map<usize, Seq<char>>, usize),
                DecodeError,
            >(e),
        },
{
    let (text, next) = read_text(data, pos, Field::LifeBarGraph)?;
    let chars = chars_of(text.as_str());
    let graph = decode_life_bar(chars.as_slice())?;
    Ok((graph, next))
}

fn read_payload(data: &[u8], pos: usize) -> (r: Result<((u32, Vec<u8>), usize), DecodeError>)
    ensures
        match r {
            Ok(((length, payload), next)) => payload_read(data@, pos) == Ok::<
                ((u32, Seq<u8>), usize),
                DecodeError,
            >(((length, payload@), next)),
            Err(e) => payload_read(data@, pos) == Err::<((u32, Seq<u8>), usize), DecodeError>(e),
        },
{
    let (length, from) = read_int(data, pos, Field::CompressedLength)?;
    if length as u64 > (data.len() - from) as u64 {
        return Err(DecodeError::truncated(Field::ReplayData));
    }
    let end: usize = from + length as usize;
    Ok(((length, copy_bytes(data, from, end)), end))
}

fn read_accuracy(data: &[u8], pos: usize, mods: Mods) -> (r: Read<u64>)
    ensures
        r == accuracy_read(data@, pos, mods@),
{
    if mods.contains(MOD_TARGET_PRACTICE) {
        read_long(data, pos, Field::TotalHitAccuracy)
    } else {
        Ok((0, pos))
    }
}

impl Replay {
    /// The replay that `value` holds.
    ///
    /// Succeeds exactly where every field can be read in turn; fails with
    /// the kind of the first fault and the field that has it.
    pub fn try_from(value: &[u8]) -> (r: Result<Replay, DecodeError>)
        ensures
            match r {
                Ok(replay) => replay_of(value@) == Ok::<ReplayView, DecodeError>(replay@),
                Err(e) => replay_of(value@) == Err::<ReplayView, DecodeError>(e),
            },
    {
        let (identity, p1) = read_identity(value, 0)?;
        let (counts, p2) = read_counts(value, p1)?;
        let (score, p3) = read_score(value, p2)?;
        let (life_bar_graph, p4) = read_life_bar(value, p3)?;
        let (time_stamp, p5) = read_long(value, p4, Field::TimeStamp)?;
        let (payload, p6) = read_payload(value, p5)?;
        let replay_data = decode_packed_frames(payload.1.as_slice())?;
        let (online_score_id, p7) = read_long(value, p6, Field::OnlineScoreId)?;
        let (total_hit_accuracy, _) = read_accuracy(value, p7, score.3)?;
        Ok(
            Replay {
                mode: identity.0,
                game_ver: identity.1,
                map_md5_hash: identity.2,
                player_name: identity.3,
                replay_md5_hash: identity.4,
                n_300: counts.0,
                n_100: counts.1,
                n_50: counts.2,
                n_geki: counts.3,
                n_katu: counts.4,
                n_miss: counts.5,
                total_score: score.0,
                max_combo: score.1,
                perfect_combo: score.2,
                mods: score.3,
                life_bar_graph,
                time_stamp,
                compressed_data_length: payload.0,
                replay_data,
                online_score_id,
                total_hit_accuracy,
            },
        )
    }

    /// The frames of the replay, in order.
    pub fn replay_frames(&self) -> (r: &[ReplayFrame])
        ensures
            r@ == self.replay_data@,
    {
        self.replay_data.as_slice()
    }

    /// An iterator over the frames of the replay, in order.
    pub fn iter(&self) -> (r: std::slice::Iter<'_, ReplayFrame>)
        ensures
            vstd::std_specs::slice::into_iter_elts(r) == self.replay_data@,
    {
        self.replay_data.as_slice().iter()
    }
}

/// A frame stream whose first record carries the seed marker holds no frame,
/// whatever follows that record.
pub proof fn lemma_seed_first_means_no_frames(text: Seq<char>)
    requires
        record_of(split(text, ',')[0]) is Ok,
        record_of(split(text, ',')[0])->Ok_0.time_delta == SEED_MARKER,
    ensures
        frames_of(text) == Ok::<Seq<FrameView>, DecodeError>(Seq::empty()),
{
    lemma_split_first(text, ',');
}

/// The positions at which the parts of a replay that can be read start and
/// end, and the online score id: the trailer starts where the payload ends.
proof fn lemma_replay_trailer(data: Seq<u8>) -> (at: (usize, usize))
    requires
        replay_read(data) is Ok,
        data.len() <= usize::MAX,
    ensures
        long_read(data, at.0, Field::OnlineScoreId) == Ok::<(u64, usize), DecodeError>(
            (replay_read(data)->Ok_0.0.online_score_id, at.1),
        ),
        at.1 == at.0 + 8,
        accuracy_read(data, at.1, replay_read(data)->Ok_0.0.mods) == Ok::<
            (u64, usize),
            DecodeError,
        >((replay_read(data)->Ok_0.0.total_hit_accuracy, replay_read(data)->Ok_0.1)),
{
    let r1 = identity_read(data, 0);
    assert(r1 is Ok);
    let p1 = r1->Ok_0.1;
    let r2 = counts_read(data, p1);
    assert(r2 is Ok);
    let p2 = r2->Ok_0.1;
    let r3 = score_read(data, p2);
    assert(r3 is Ok);
    let p3 = r3->Ok_0.1;
    let r4 = life_bar_read(data, p3);
    assert(r4 is Ok);
    let p4 = r4->Ok_0.1;
    let r5 = long_read(data, p4, Field::TimeStamp);
    assert(r5 is Ok);
    let p5 = r5->Ok_0.1;
    let r6 = payload_read(data, p5);
    assert(r6 is Ok);
    let p6 = r6->Ok_0.1;
    assert(packed_frames_of(r6->Ok_0.0.1) is Ok);
    let r7 = long_read(data, p6, Field::OnlineScoreId);
    assert(r7 is Ok);
    let p7 = r7->Ok_0.1;
    let r8 = accuracy_read(data, p7, r3->Ok_0.0.3);
    assert(r8 is Ok);
    (p6, p7)
}

/// A replay whose mods do not hold target practice has a total hit accuracy
/// of zero and ends with its online score id: the eight bytes that would
/// hold the accuracy are not read, so they need not be there.
pub proof fn lemma_no_accuracy_without_target_practice(data: Seq<u8>)
    requires
        data.len() <= usize::MAX,
        replay_read(data) is Ok,
        replay_read(data)->Ok_0.0.mods & MOD_TARGET_PRACTICE != MOD_TARGET_PRACTICE,
    ensures
        replay_read(data)->Ok_0.0.total_hit_accuracy == 0,
        replay_read(data)->Ok_0.1 >= 8,
        long_read(data, (replay_read(data)->Ok_0.1 - 8) as usize, Field::OnlineScoreId) == Ok::<
            (u64, usize),
            DecodeError,
        >((replay_read(data)->Ok_0.0.online_score_id, replay_read(data)->Ok_0.1)),
{
    let at = lemma_replay_trailer(data);
}

/// A replay whose mods hold target practice ends with the eight bytes of its
/// total hit accuracy, which follow the online score id.
pub proof fn lemma_accuracy_with_target_practice(data: Seq<u8>)
    requires
        data.len() <= usize::MAX,
        replay_read(data) is Ok,
        replay_read(data)->Ok_0.0.mods & MOD_TARGET_PRACTICE == MOD_TARGET_PRACTICE,
    ensures
        replay_read(data)->Ok_0.1 >= 16,
        long_read(data, (replay_read(data)->Ok_0.1 - 8) as usize, Field::TotalHitAccuracy) == Ok::<
            (u64, usize),
            DecodeError,
        >((replay_read(data)->Ok_0.0.total_hit_accuracy, replay_read(data)->Ok_0.1)),
        long_read(data, (replay_read(data)->Ok_0.1 - 16) as usize, Field::OnlineScoreId) == Ok::<
            (u64, usize),
            DecodeError,
        >(
            (
                replay_read(data)->Ok_0.0.online_score_id,
                (replay_read(data)->Ok_0.1 - 8) as usize,
            ),
        ),
{
    let at = lemma_replay_trailer(data);
}

} // verus!
