use osu_formats::error::{DecodeError, ErrorKind, Field};
use osu_formats::matching::{find_hash, find_map, map_hashes};
use osu_formats::osu_data::GameMode;
use osu_formats::replay::{
    decode_frame_stream, decode_frames, decode_life_bar, decode_packed_frames, delta_to_unsigned,
    InputKeys, Mods, Replay, ReplayFrame, KEY_K1, KEY_M1, KEY_SMOKE, MOD_HIDDEN,
    MOD_TARGET_PRACTICE,
};

fn chars(s: &str) -> Vec<char> {
    s.chars().collect()
}

fn push_varint(out: &mut Vec<u8>, mut n: usize) {
    while n >= 0x80 {
        out.push((n & 0x7f) as u8 | 0x80);
        n >>= 7;
    }
    out.push(n as u8);
}

fn push_text(out: &mut Vec<u8>, s: &str) {
    out.push(0x0b);
    push_varint(out, s.len());
    out.extend_from_slice(s.as_bytes());
}

fn pack(text: &str) -> Vec<u8> {
    let mut input = std::io::BufReader::new(text.as_bytes());
    let mut out = Vec::new();
    lzma_rs::lzma_compress(&mut input, &mut out).unwrap();
    out
}

fn header(mods: u32, life: &str) -> Vec<u8> {
    let mut out = Vec::new();
    out.push(0u8);
    out.extend_from_slice(&20210520u32.to_le_bytes());
    push_text(&mut out, "5d41402abc4b2a76b9719d911017c592");
    push_text(&mut out, "player");
    out.push(0u8);
    for count in [300u16, 100, 50, 3, 2, 1] {
        out.extend_from_slice(&count.to_le_bytes());
    }
    out.extend_from_slice(&1234567u32.to_le_bytes());
    out.extend_from_slice(&456u16.to_le_bytes());
    out.push(1u8);
    out.extend_from_slice(&mods.to_le_bytes());
    push_text(&mut out, life);
    out.extend_from_slice(&637000000000000000u64.to_le_bytes());
    out
}

fn replay_bytes(mods: u32, life: &str, frames: &str) -> Vec<u8> {
    let mut out = header(mods, life);
    let packed = pack(frames);
    out.extend_from_slice(&(packed.len() as u32).to_le_bytes());
    out.extend_from_slice(&packed);
    out.extend_from_slice(&987654321u64.to_le_bytes());
    out
}

fn error(kind: ErrorKind, field: Field) -> DecodeError {
    DecodeError { kind, field }
}

const FRAMES: &str = "-5|256.5|192.25|1,16|100|200|20,-12345|0|0|42,";

#[test]
fn replay_decodes_every_header_field() {
    let bytes = replay_bytes(MOD_HIDDEN, "0|1,1000|0.5,", FRAMES);
    let replay = Replay::try_from(&bytes).unwrap();
    assert_eq!(replay.mode, GameMode::Standard);
    assert_eq!(replay.game_ver, 20210520);
    assert_eq!(replay.map_md5_hash, "5d41402abc4b2a76b9719d911017c592");
    assert_eq!(replay.player_name, "player");
    assert_eq!(replay.replay_md5_hash, "");
    assert_eq!(replay.n_300, 300);
    assert_eq!(replay.n_100, 100);
    assert_eq!(replay.n_50, 50);
    assert_eq!(replay.n_geki, 3);
    assert_eq!(replay.n_katu, 2);
    assert_eq!(replay.n_miss, 1);
    assert_eq!(replay.total_score, 1234567);
    assert_eq!(replay.max_combo, 456);
    assert!(replay.perfect_combo);
    assert_eq!(replay.mods.bits(), MOD_HIDDEN);
    assert!(replay.mods.contains(MOD_HIDDEN));
    assert!(!replay.mods.contains(MOD_TARGET_PRACTICE));
    assert_eq!(replay.life_bar_graph.len(), 2);
    assert_eq!(replay.life_bar_graph[&0].text(), "1");
    assert_eq!(replay.life_bar_graph[&1000].text(), "0.5");
    assert_eq!(replay.time_stamp, 637000000000000000);
    assert_eq!(replay.compressed_data_length as usize, pack(FRAMES).len());
    assert_eq!(replay.online_score_id, 987654321);
    assert_eq!(replay.total_hit_accuracy, 0);
}

#[test]
fn replay_decodes_frames_up_to_the_seed_record() {
    let bytes = replay_bytes(0, "", FRAMES);
    let replay = Replay::try_from(&bytes).unwrap();
    let frames = replay.replay_frames();
    assert_eq!(frames.len(), 2);
    assert_eq!(frames[0].time_delta(), (-5i64) as u64);
    assert_eq!(frames[0].x().text(), "256.5");
    assert_eq!(frames[0].y().text(), "192.25");
    assert_eq!(frames[0].x().text().parse::<f32>().unwrap(), 256.5f32);
    assert_eq!(frames[0].input_keys().bits(), KEY_M1);
    assert_eq!(frames[1].time_delta(), 16);
    assert_eq!(frames[1].input_keys().bits(), KEY_K1 | KEY_SMOKE);
    assert!(frames[1].input_keys().contains(KEY_SMOKE));
    assert_eq!(replay.iter().count(), 2);
    assert!(replay.life_bar_graph.is_empty());
}

#[test]
fn replay_truncated_in_the_version_names_the_version() {
    let bytes = replay_bytes(0, "", FRAMES);
    assert_eq!(
        Replay::try_from(&bytes[..3]).unwrap_err(),
        error(ErrorKind::Truncated, Field::GameVersion)
    );
}

#[test]
fn replay_truncated_anywhere_is_a_truncation() {
    let bytes = replay_bytes(0, "0|1", FRAMES);
    for cut in 0..bytes.len() {
        let err = Replay::try_from(&bytes[..cut]).unwrap_err();
        assert_eq!(err.kind, ErrorKind::Truncated, "cut at {}", cut);
    }
    assert!(Replay::try_from(&bytes).is_ok());
}

#[test]
fn replay_truncated_fields_are_named() {
    let bytes = replay_bytes(0, "", FRAMES);
    assert_eq!(Replay::try_from(&[]).unwrap_err(), error(ErrorKind::Truncated, Field::Mode));
    assert_eq!(
        Replay::try_from(&bytes[..6]).unwrap_err(),
        error(ErrorKind::Truncated, Field::MapHash)
    );
    assert_eq!(
        Replay::try_from(&bytes[..20]).unwrap_err(),
        error(ErrorKind::Truncated, Field::MapHash)
    );
    assert_eq!(
        Replay::try_from(&bytes[..42]).unwrap_err(),
        error(ErrorKind::Truncated, Field::PlayerName)
    );
    assert_eq!(
        Replay::try_from(&bytes[..bytes.len() - 10]).unwrap_err(),
        error(ErrorKind::Truncated, Field::ReplayData)
    );
    assert_eq!(
        Replay::try_from(&bytes[..bytes.len() - 1]).unwrap_err(),
        error(ErrorKind::Truncated, Field::OnlineScoreId)
    );
}

#[test]
fn replay_with_seed_record_first_has_no_frames() {
    let bytes = replay_bytes(0, "", "-12345|0|0|31337,5|1|1|1");
    let replay = Replay::try_from(&bytes).unwrap();
    assert!(replay.replay_frames().is_empty());
    assert!(replay.replay_data.is_empty());
}

#[test]
fn replay_without_target_practice_reads_no_accuracy() {
    let mut bytes = replay_bytes(MOD_HIDDEN, "", FRAMES);
    let short = Replay::try_from(&bytes).unwrap();
    assert_eq!(short.total_hit_accuracy, 0);
    bytes.extend_from_slice(&0.75f64.to_bits().to_le_bytes());
    let long = Replay::try_from(&bytes).unwrap();
    assert_eq!(long.total_hit_accuracy, 0);
    assert_eq!(long.online_score_id, 987654321);
}

#[test]
fn replay_with_target_practice_reads_the_accuracy_bits() {
    let mut bytes = replay_bytes(MOD_TARGET_PRACTICE, "", FRAMES);
    assert_eq!(
        Replay::try_from(&bytes).unwrap_err(),
        error(ErrorKind::Truncated, Field::TotalHitAccuracy)
    );
    bytes.extend_from_slice(&0.75f64.to_bits().to_le_bytes());
    let replay = Replay::try_from(&bytes).unwrap();
    assert_eq!(replay.total_hit_accuracy, 0.75f64.to_bits());
    assert_eq!(f64::from_bits(replay.total_hit_accuracy), 0.75);
}

#[test]
fn replay_refuses_unknown_mode_and_mod_bits() {
    let mut bytes = replay_bytes(0, "", FRAMES);
    bytes[0] = 4;
    assert_eq!(
        Replay::try_from(&bytes).unwrap_err(),
        error(ErrorKind::InvalidEncoding, Field::Mode)
    );
    let bytes = replay_bytes(0x8000_0000, "", FRAMES);
    assert_eq!(
        Replay::try_from(&bytes).unwrap_err(),
        error(ErrorKind::InvalidEncoding, Field::Mods)
    );
}

#[test]
fn replay_refuses_text_that_is_no_utf8() {
    let mut bytes = vec![0u8];
    bytes.extend_from_slice(&1u32.to_le_bytes());
    bytes.extend_from_slice(&[0x0b, 2, 0xff, 0xfe]);
    bytes.extend_from_slice(&[0u8; 64]);
    assert_eq!(
        Replay::try_from(&bytes).unwrap_err(),
        error(ErrorKind::InvalidEncoding, Field::MapHash)
    );
}

#[test]
fn replay_reads_lengths_of_more_than_one_byte() {
    let name = "x".repeat(300);
    let mut bytes = vec![0u8];
    bytes.extend_from_slice(&1u32.to_le_bytes());
    bytes.push(0);
    push_text(&mut bytes, &name);
    assert_eq!(bytes[7], 0xac);
    assert_eq!(bytes[8], 0x02);
    bytes.push(0);
    for _ in 0..6 {
        bytes.extend_from_slice(&0u16.to_le_bytes());
    }
    bytes.extend_from_slice(&0u32.to_le_bytes());
    bytes.extend_from_slice(&0u16.to_le_bytes());
    bytes.push(0);
    bytes.extend_from_slice(&0u32.to_le_bytes());
    bytes.push(0);
    bytes.extend_from_slice(&0u64.to_le_bytes());
    let packed = pack("");
    bytes.extend_from_slice(&(packed.len() as u32).to_le_bytes());
    bytes.extend_from_slice(&packed);
    bytes.extend_from_slice(&7u64.to_le_bytes());
    let err = Replay::try_from(&bytes).unwrap_err();
    assert_eq!(err, error(ErrorKind::MalformedNumber, Field::FrameTimeDelta));
}

#[test]
fn replay_refuses_a_length_that_overflows() {
    let mut bytes = vec![0u8];
    bytes.extend_from_slice(&1u32.to_le_bytes());
    bytes.push(0x0b);
    bytes.extend_from_slice(&[0xff; 12]);
    bytes.push(0x01);
    bytes.extend_from_slice(&[0u8; 16]);
    assert_eq!(
        Replay::try_from(&bytes).unwrap_err(),
        error(ErrorKind::Truncated, Field::MapHash)
    );
}

#[test]
fn replay_refuses_a_payload_that_is_no_lzma() {
    let mut bytes = header(0, "");
    bytes.extend_from_slice(&4u32.to_le_bytes());
    bytes.extend_from_slice(&[0xff, 0xff, 0xff, 0xff]);
    bytes.extend_from_slice(&0u64.to_le_bytes());
    assert_eq!(
        Replay::try_from(&bytes).unwrap_err(),
        error(ErrorKind::InvalidEncoding, Field::ReplayData)
    );
}

#[test]
fn packed_frames_are_unpacked_before_they_are_read() {
    let packed = pack("1|2|3|4,");
    assert!(std::str::from_utf8(&packed).is_err() || packed != b"1|2|3|4,");
    let err = decode_packed_frames(&packed).unwrap_err();
    assert_eq!(err, error(ErrorKind::MalformedNumber, Field::FrameTimeDelta));
    let frames = decode_packed_frames(&pack("1|2|3|4")).unwrap();
    assert_eq!(frames.len(), 1);
    assert_eq!(frames[0].input_keys().bits(), 4);
}

#[test]
fn frame_stream_must_be_utf8() {
    assert_eq!(
        decode_frame_stream(vec![0xff, 0xfe]).unwrap_err(),
        error(ErrorKind::InvalidEncoding, Field::ReplayData)
    );
    assert_eq!(decode_frame_stream(b"3|1.5|2.5|0".to_vec()).unwrap().len(), 1);
}

#[test]
fn frames_errors_name_the_field() {
    let cases = [
        ("x|1|2|3", ErrorKind::MalformedNumber, Field::FrameTimeDelta),
        ("", ErrorKind::MalformedNumber, Field::FrameTimeDelta),
        ("1", ErrorKind::Truncated, Field::FrameX),
        ("1|a", ErrorKind::MalformedNumber, Field::FrameX),
        ("1|2", ErrorKind::Truncated, Field::FrameY),
        ("1|2|", ErrorKind::MalformedNumber, Field::FrameY),
        ("1|2|3", ErrorKind::Truncated, Field::FrameKeys),
        ("1|2|3|-1", ErrorKind::MalformedNumber, Field::FrameKeys),
        ("1|2|3|32", ErrorKind::InvalidEncoding, Field::FrameKeys),
        ("-12345|2|3|x", ErrorKind::MalformedNumber, Field::FrameKeys),
        ("1|2|3|4,2|2|3|64", ErrorKind::InvalidEncoding, Field::FrameKeys),
    ];
    for (text, kind, field) in cases {
        assert_eq!(decode_frames(&chars(text)).unwrap_err(), error(kind, field), "{:?}", text);
    }
}

#[test]
fn seed_record_may_hold_any_number_as_its_last_field() {
    let frames = decode_frames(&chars("7|1|1|1,-12345|0|0|4000000000,junk")).unwrap();
    assert_eq!(frames.len(), 1);
    assert_eq!(frames[0].time_delta(), 7);
}

#[test]
fn time_delta_keeps_its_bits() {
    assert_eq!(delta_to_unsigned(0), 0);
    assert_eq!(delta_to_unsigned(25), 25);
    assert_eq!(delta_to_unsigned(-1), u64::MAX);
    assert_eq!(delta_to_unsigned(-12), 0xffff_ffff_ffff_fff4);
    assert_eq!(delta_to_unsigned(i64::MIN), 0x8000_0000_0000_0000);
    assert_eq!(delta_to_unsigned(i64::MAX), 0x7fff_ffff_ffff_ffff);
}

#[test]
fn life_bar_graph_keeps_the_last_value_of_a_time() {
    let graph = decode_life_bar(&chars("10|0.25,,20|1, 10|0.75 ,")).unwrap();
    assert_eq!(graph.len(), 2);
    assert_eq!(graph[&10].text(), "0.75");
    assert_eq!(graph[&20].text(), "1");
}

#[test]
fn life_bar_graph_errors() {
    let bar = Field::LifeBarGraph;
    assert_eq!(
        decode_life_bar(&chars("a|1")).unwrap_err(),
        error(ErrorKind::MalformedNumber, bar)
    );
    assert_eq!(decode_life_bar(&chars("5")).unwrap_err(), error(ErrorKind::Truncated, bar));
    assert_eq!(
        decode_life_bar(&chars("5|x")).unwrap_err(),
        error(ErrorKind::MalformedNumber, bar)
    );
    assert_eq!(decode_life_bar(&chars(" ")).unwrap_err(), error(ErrorKind::MalformedNumber, bar));
    assert!(decode_life_bar(&chars("")).unwrap().is_empty());
}

#[test]
fn mods_and_keys_refuse_bits_outside_their_masks() {
    assert!(Mods::from_bits(0).is_some());
    assert_eq!(Mods::from_bits(0x7fff_ffff).unwrap().bits(), 0x7fff_ffff);
    assert!(Mods::from_bits(0x8000_0000).is_none());
    assert_eq!(MOD_TARGET_PRACTICE, 1 << 23);
    assert_eq!(InputKeys::from_bits(31).unwrap().bits(), 31);
    assert!(InputKeys::from_bits(32).is_none());
}

#[test]
fn default_frame_is_at_the_origin() {
    let frame = ReplayFrame::default();
    assert_eq!(frame.time_delta(), 0);
    assert_eq!(frame.x().text(), "0");
    assert_eq!(frame.y().text(), "0");
    assert_eq!(frame.input_keys().bits(), 0);
}

#[test]
fn replay_finds_its_beatmap_by_hash() {
    let bytes = replay_bytes(0, "", FRAMES);
    let replay = Replay::try_from(&bytes).unwrap();
    let maps = vec!["other".to_string(), "hello".to_string(), "hello".to_string()];
    assert_eq!(find_map(&replay, &maps), Some(1));
    assert_eq!(find_map(&replay, &maps[..1]), None);
    let hashes = map_hashes(&maps);
    assert_eq!(hashes[1], "5d41402abc4b2a76b9719d911017c592");
    assert_ne!(hashes[0], "other");
    assert_eq!(find_hash(&hashes, "5d41402abc4b2a76b9719d911017c592"), Some(1));
    assert_eq!(find_hash(&hashes, "hello"), None);
}
