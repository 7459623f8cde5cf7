use osu_formats::map::color_data::{find_color, Color, ColorData};
use osu_formats::map::difficulty::Difficulty;
use osu_formats::map::general::General;
use osu_formats::map::hit_object::{
    file_name_of, CustomHitSample, HitObject, HitObjectData, HitObjectMeta, HitSampleData,
    SliderCurveType, SliderData, SpinnerData,
};
use osu_formats::map::metadata::Metadata;
use osu_formats::map::timing_point::{Effects, TimingPoint, EFFECT_KIAI, EFFECT_OMIT_BARLINE};
use osu_formats::map::{decode_colour, lines_of, section_of, Beatmap};
use osu_formats::error::{DecodeError, ErrorKind, Field};
use osu_formats::osu_data::{
    Countdown, GameMode, Hitsound, OverlayPosition, SampleSet, HITSOUND_CLAP, HITSOUND_FINISH,
    HITSOUND_NORMAL, HITSOUND_WHISTLE,
};

fn error(kind: ErrorKind, field: Field) -> DecodeError {
    DecodeError { kind, field }
}

fn chars(s: &str) -> Vec<char> {
    s.chars().collect()
}

const MAP: &str = "osu file format v14\r\n\
\r\n\
[General]\r\n\
AudioFilename: audio.mp3\r\n\
AudioLeadIn: 500\r\n\
PreviewTime: -1\r\n\
Countdown: 2\r\n\
SampleSet: Soft\r\n\
StackLeniency: 0.5\r\n\
Mode: 3\r\n\
LetterboxInBreaks: 1\r\n\
Unknown: whatever\r\n\
OverlayPosition: Above\r\n\
SkinPreference: Default\r\n\
WidescreenStoryboard: 1\r\n\
\r\n\
[Editor]\r\n\
Bookmarks: 1,2,3\r\n\
\r\n\
[Metadata]\r\n\
Title:Song: The Sequel\r\n\
TitleUnicode:Song\r\n\
Artist:Someone\r\n\
Creator:mapper\r\n\
Version:Hard\r\n\
Source:\r\n\
Tags:one  two\tthree \r\n\
BeatmapID:123456\r\n\
BeatmapSetID:7890\r\n\
\r\n\
[Difficulty]\r\n\
HPDrainRate:5\r\n\
CircleSize:4.2\r\n\
OverallDifficulty:8\r\n\
ApproachRate:9.3\r\n\
SliderMultiplier:1.8\r\n\
SliderTickRate:1\r\n\
\r\n\
[TimingPoints]\r\n\
1000,322.58064516129,4,2,1,60,1,0\r\n\
5000,-50,4,2,1,60,0,1\r\n\
\r\n\
[Colours]\r\n\
Combo1 : 1,2,3\r\n\
Color1 : 255,128,0\r\n\
Color2 : 0,202,0\r\n\
Color4 : 9,9,9\r\n\
SliderBorder : 10,20,30\r\n\
\r\n\
[HitObjects]\r\n\
256,192,1000,1,0,0:0:0:0:\r\n\
100,100,2000,6,2,B|200:200|250:200,1,140,2|0,0:0|0:0,0:0:0:0:\r\n\
256,192,3000,12,0,4000,0:0:0:0:\r\n";

#[test]
fn hit_object_circle_line() {
    let object = HitObject::from_str("256,192,1000,1,0,0:0:0:0:").unwrap();
    assert_eq!(object.x(), 256);
    assert_eq!(object.y(), 192);
    assert_eq!(object.timestamp(), 1000);
    assert!(matches!(object.object_data(), HitObjectData::Circle));
    assert!(object.hit_object_meta().is_hit_circle());
    assert_eq!(object.hit_sound().bits(), 0);
    let sample = object.hit_sample();
    assert_eq!(sample.hit_sample_data.normal_set, SampleSet::NoSample);
    assert_eq!(sample.hit_sample_data.addition_set, SampleSet::NoSample);
    assert_eq!(sample.index, 0);
    assert_eq!(sample.volume, 0);
    assert_eq!(sample.file_name, "normal-hitnormal.wav");
}

#[test]
fn hit_object_bare_circle_has_the_default_sample() {
    let object = HitObject::from_str("1,2,3,5,8").unwrap();
    assert!(matches!(object.object_data(), HitObjectData::Circle));
    assert!(object.hit_object_meta().is_new_combo());
    assert_eq!(object.hit_sound().bits(), HITSOUND_CLAP);
    let sample = object.hit_sample();
    assert_eq!(sample.hit_sample_data.normal_set, SampleSet::Normal);
    assert_eq!(sample.hit_sample_data.addition_set, SampleSet::Normal);
    assert_eq!(sample.file_name, "");
}

#[test]
fn hit_object_spinner_line() {
    let object = HitObject::from_str("256,192,1000,8,0,120").unwrap();
    assert!(matches!(object.object_data(), HitObjectData::Spinner(120)));
    assert!(object.hit_object_meta().is_spinner());
    let object = HitObject::from_str("256,192,3000,12,0,4000,1:2:3:40:").unwrap();
    assert!(matches!(object.object_data(), HitObjectData::Spinner(4000)));
    assert_eq!(object.hit_sample().file_name, "normal-hitsoft3.wav");
    assert_eq!(object.hit_sample().volume, 40);
}

#[test]
fn hit_object_slider_line() {
    let line = "100,100,2000,6,2,B|200:200|250:-200,3,140.5,2|0,0:0|1:2,0:0:0:0:";
    let object = HitObject::from_str(line).unwrap();
    assert!(object.hit_object_meta().is_slider());
    assert_eq!(object.hit_sound().bits(), HITSOUND_WHISTLE);
    match object.object_data() {
        HitObjectData::Slider(slider) => {
            assert_eq!(slider.curve_type, SliderCurveType::Bezier);
            assert_eq!(slider.curve_points, vec![(200, 200), (250, -200)]);
            assert_eq!(slider.slides, 3);
            assert_eq!(slider.length.text(), "140.5");
            assert_eq!(slider.length.text().parse::<f64>().unwrap(), 140.5);
            assert_eq!(slider.edge_sounds, vec![2, 0]);
            assert_eq!(slider.edge_sets.len(), 2);
            assert_eq!(slider.edge_sets[1].normal_set, SampleSet::Normal);
            assert_eq!(slider.edge_sets[1].addition_set, SampleSet::Soft);
        }
        other => panic!("not a slider: {:?}", other),
    }
}

#[test]
fn hit_object_errors_name_the_field() {
    let cases = [
        ("", ErrorKind::MalformedNumber, Field::X),
        ("70000,1,1,1,0", ErrorKind::MalformedNumber, Field::X),
        ("1", ErrorKind::Truncated, Field::Y),
        ("1,-2", ErrorKind::MalformedNumber, Field::Y),
        ("1,2", ErrorKind::Truncated, Field::Timestamp),
        ("1,2,x", ErrorKind::MalformedNumber, Field::Timestamp),
        ("1,2,3", ErrorKind::Truncated, Field::ObjectMeta),
        ("1,2,3,256", ErrorKind::MalformedNumber, Field::ObjectMeta),
        ("1,2,3,4", ErrorKind::Truncated, Field::HitSound),
        ("1,2,3,4,s", ErrorKind::MalformedNumber, Field::HitSound),
        ("1,2,3,4,16", ErrorKind::InvalidEncoding, Field::HitSound),
        ("1,2,3,4,0,0:x", ErrorKind::MalformedNumber, Field::HitSample),
        ("1,2,3,4,0,4:0:0:0:", ErrorKind::InvalidEncoding, Field::SampleSet),
        ("1,2,3,2,0,X|1:1,1,1", ErrorKind::InvalidEncoding, Field::CurveType),
        ("1,2,3,2,0,L|1:1", ErrorKind::MalformedNumber, Field::HitSample),
        ("1,2,3,2,0,L", ErrorKind::StructuralMismatch, Field::Slides),
        ("1,2,3,2,0,L,1", ErrorKind::StructuralMismatch, Field::Length),
        ("1,2,3,2,0,L|5,1,1", ErrorKind::StructuralMismatch, Field::CurvePoint),
        ("1,2,3,2,0,L|5:a,1,1", ErrorKind::MalformedNumber, Field::CurvePoint),
        ("1,2,3,2,0,L|5:5,a,1", ErrorKind::MalformedNumber, Field::Slides),
        ("1,2,3,2,0,L|5:5,1,a", ErrorKind::MalformedNumber, Field::Length),
        ("1,2,3,2,0,L|5:5,1,1,x", ErrorKind::MalformedNumber, Field::EdgeSounds),
        ("1,2,3,2,0,L|5:5,1,1,1,9:0,0:0:0:0:", ErrorKind::InvalidEncoding, Field::EdgeSets),
        ("1,2,3,2,0,L|5:5,1,1,1,0:x,0:0:0:0:", ErrorKind::MalformedNumber, Field::EdgeSets),
    ];
    for (line, kind, field) in cases {
        assert_eq!(HitObject::from_str(line).unwrap_err(), error(kind, field), "{:?}", line);
    }
}

#[test]
fn classify_goes_by_the_shape_of_the_tokens() {
    assert!(matches!(HitObjectData::classify(&[]).unwrap(), HitObjectData::Circle));
    assert!(matches!(HitObjectData::classify(&["120"]).unwrap(), HitObjectData::Spinner(120)));
    assert!(matches!(
        HitObjectData::classify(&["P|1:2|3:4", "2", "50"]).unwrap(),
        HitObjectData::Slider(_)
    ));
    assert_eq!(
        HitObjectData::classify(&["-120"]).unwrap_err(),
        error(ErrorKind::InvalidEncoding, Field::CurveType)
    );
}

#[test]
fn slider_edge_lists_may_be_short_or_absent() {
    let slider = SliderData::try_from(&["C|10:20|30:40|50:60", "4", "1e2"]).unwrap();
    assert_eq!(slider.curve_type, SliderCurveType::CentripetalCatmullRom);
    assert_eq!(slider.curve_points.len(), 3);
    assert_eq!(slider.slides, 4);
    assert_eq!(slider.length.text(), "1e2");
    assert!(slider.edge_sounds.is_empty());
    assert!(slider.edge_sets.is_empty());
    let slider = SliderData::try_from(&["L|1:1", "4", "10", "8||2", "1:1"]).unwrap();
    assert_eq!(slider.edge_sounds, vec![8, 2]);
    assert_eq!(
        slider.edge_sets,
        vec![HitSampleData { normal_set: SampleSet::Normal, addition_set: SampleSet::Normal }]
    );
    assert_eq!(
        SliderData::try_from(&[]).unwrap_err(),
        error(ErrorKind::StructuralMismatch, Field::CurveType)
    );
}

#[test]
fn curve_type_codes() {
    assert_eq!(SliderCurveType::from_str("B").unwrap(), SliderCurveType::Bezier);
    assert_eq!(SliderCurveType::from_str("C").unwrap(), SliderCurveType::CentripetalCatmullRom);
    assert_eq!(SliderCurveType::from_str("L").unwrap(), SliderCurveType::Linear);
    assert_eq!(SliderCurveType::from_str("P").unwrap(), SliderCurveType::PerfectCircle);
    assert_eq!(
        SliderCurveType::from_str("b").unwrap_err(),
        error(ErrorKind::InvalidEncoding, Field::CurveType)
    );
}

#[test]
fn meta_byte_packs_the_combo_skip_count() {
    let meta = HitObjectMeta::from_bits(0b0101_0110).unwrap();
    assert_eq!(meta.combo_skip_count(), 5);
    assert!(meta.is_slider());
    assert!(meta.is_new_combo());
    assert!(!meta.is_hit_circle());
    assert!(!meta.is_spinner());
    assert!(!meta.is_mania_hold());
    assert_eq!(meta.bits(), 0b0101_0110);
    let meta = HitObjectMeta::from_bits(0xff).unwrap();
    assert_eq!(meta.combo_skip_count(), 7);
    assert!(meta.is_mania_hold());
    assert_eq!(HitObjectMeta::from_bits(0x8f).unwrap().combo_skip_count(), 0);
}

#[test]
fn custom_hit_sample_file_names() {
    let sample = CustomHitSample::from_str("2:3:1:70:file.wav").unwrap();
    assert_eq!(sample.hit_sample_data.normal_set, SampleSet::Soft);
    assert_eq!(sample.hit_sample_data.addition_set, SampleSet::Drum);
    assert_eq!(sample.index, 1);
    assert_eq!(sample.volume, 70);
    assert_eq!(sample.file_name, "soft-hitdrum.wav");
    assert_eq!(CustomHitSample::from_str("2:3:2:70").unwrap().file_name, "soft-hitdrum2.wav");
    assert_eq!(CustomHitSample::from_str("1:0:255").unwrap().file_name, "normal-hitnormal255.wav");
    assert_eq!(CustomHitSample::from_str("3").unwrap().file_name, "drum-hitnormal.wav");
    assert_eq!(file_name_of(SampleSet::Drum, SampleSet::Soft, 10), "drum-hitsoft10.wav");
    assert_eq!(
        CustomHitSample::from_str("").unwrap_err(),
        error(ErrorKind::MalformedNumber, Field::HitSample)
    );
    assert_eq!(CustomHitSample::default().file_name, "");
}

#[test]
fn hit_sample_data_pairs() {
    assert_eq!(
        HitSampleData::from_str("1:2").unwrap(),
        HitSampleData { normal_set: SampleSet::Normal, addition_set: SampleSet::Soft }
    );
    assert_eq!(
        HitSampleData::from_str("3").unwrap(),
        HitSampleData { normal_set: SampleSet::Drum, addition_set: SampleSet::NoSample }
    );
    assert_eq!(
        HitSampleData::from_str("1:2:junk").unwrap(),
        HitSampleData { normal_set: SampleSet::Normal, addition_set: SampleSet::Soft }
    );
    assert_eq!(
        HitSampleData::from_str("1:7").unwrap_err(),
        error(ErrorKind::InvalidEncoding, Field::SampleSet)
    );
}

#[test]
fn spinner_data_holds_its_end() {
    assert_eq!(SpinnerData { end_time: 5 }.end_time, 5);
}

#[test]
fn timing_point_line() {
    let point = TimingPoint::from_str("1000,-33.3333333333333,4,2,1,60,0,5").unwrap();
    assert_eq!(point.time, 1000);
    assert_eq!(point.beat_length.text(), "-33.3333333333333");
    assert!(point.beat_length.text().parse::<f64>().unwrap() < 0.0);
    assert_eq!(point.meter, 4);
    assert_eq!(point.sample_set, SampleSet::Soft);
    assert_eq!(point.sample_index, 1);
    assert_eq!(point.volume, 60);
    assert!(!point.uninherited);
    assert!(point.effects.contains(EFFECT_KIAI));
    assert!(point.effects.contains(EFFECT_OMIT_BARLINE));
    assert_eq!(point.effects.bits(), 5);
    assert!(TimingPoint::from_str("0,500,4,1,0,100,1,0").unwrap().uninherited);
}

#[test]
fn timing_point_errors_name_the_field() {
    let cases = [
        ("", ErrorKind::MalformedNumber, Field::Time),
        ("1", ErrorKind::Truncated, Field::BeatLength),
        ("1,x", ErrorKind::MalformedNumber, Field::BeatLength),
        ("1,2", ErrorKind::Truncated, Field::Meter),
        ("1,2,x", ErrorKind::MalformedNumber, Field::Meter),
        ("1,2,3", ErrorKind::Truncated, Field::SampleSet),
        ("1,2,3,4", ErrorKind::InvalidEncoding, Field::SampleSet),
        ("1,2,3,1", ErrorKind::Truncated, Field::SampleIndex),
        ("1,2,3,1,1", ErrorKind::Truncated, Field::Volume),
        ("1,2,3,1,1,1", ErrorKind::Truncated, Field::Uninherited),
        ("1,2,3,1,1,1,1", ErrorKind::Truncated, Field::Effects),
        ("1,2,3,1,1,1,1,2", ErrorKind::InvalidEncoding, Field::Effects),
        ("1,2,3,1,1,1,1,x", ErrorKind::MalformedNumber, Field::Effects),
    ];
    for (line, kind, field) in cases {
        assert_eq!(TimingPoint::from_str(line).unwrap_err(), error(kind, field), "{:?}", line);
    }
}

#[test]
fn effects_refuse_bits_outside_the_mask() {
    assert!(Effects::from_bits(0b101).is_some());
    assert!(Effects::from_bits(0b010).is_none());
    assert_eq!(Effects::default().bits(), 0);
    assert_eq!(TimingPoint::default().beat_length.text(), "0");
}

#[test]
fn colours_stop_at_the_first_gap() {
    let table = vec![
        ("Color1".to_string(), Color { r: 1, g: 2, b: 3 }),
        ("Color2".to_string(), Color { r: 4, g: 5, b: 6 }),
        ("SliderBorder".to_string(), Color { r: 7, g: 8, b: 9 }),
        ("Color4".to_string(), Color { r: 10, g: 11, b: 12 }),
    ];
    let data = ColorData::from(&table);
    assert_eq!(data.combo_colors, vec![Color { r: 1, g: 2, b: 3 }, Color { r: 4, g: 5, b: 6 }]);
    assert_eq!(data.slider_border, Some(Color { r: 7, g: 8, b: 9 }));
    assert_eq!(data.slider_track, None);
}

#[test]
fn colours_count_past_nine_and_take_the_last_entry_of_a_name() {
    let mut table = Vec::new();
    for n in 1..=12u8 {
        table.push((format!("Color{}", n), Color { r: n, g: 0, b: 0 }));
    }
    table.push(("Color3".to_string(), Color { r: 33, g: 0, b: 0 }));
    table.push(("SliderTrackOverride".to_string(), Color { r: 0, g: 1, b: 0 }));
    let data = ColorData::from(&table);
    assert_eq!(data.combo_colors.len(), 12);
    assert_eq!(data.combo_colors[2].r, 33);
    assert_eq!(data.combo_colors[11].r, 12);
    assert_eq!(data.slider_track, Some(Color { r: 0, g: 1, b: 0 }));
    assert_eq!(find_color(&table, &"Color3".to_string()), Some(Color { r: 33, g: 0, b: 0 }));
    assert_eq!(find_color(&table, &"Color13".to_string()), None);
    assert!(ColorData::from(&[]).combo_colors.is_empty());
}

#[test]
fn colour_values() {
    assert_eq!(Color::from(&[1, 2, 3, 4]), Color { r: 1, g: 2, b: 3 });
    assert_eq!(decode_colour(&chars("255,128,0")).unwrap(), Color { r: 255, g: 128, b: 0 });
    assert_eq!(decode_colour(&chars("1,2,3,4")).unwrap(), Color { r: 1, g: 2, b: 3 });
    assert_eq!(
        decode_colour(&chars("1,2")).unwrap_err(),
        error(ErrorKind::Truncated, Field::Colour)
    );
    assert_eq!(
        decode_colour(&chars("1,2,256")).unwrap_err(),
        error(ErrorKind::MalformedNumber, Field::Colour)
    );
    assert_eq!(
        decode_colour(&chars("1, 2,3")).unwrap_err(),
        error(ErrorKind::MalformedNumber, Field::Colour)
    );
}

#[test]
fn general_defaults_and_properties() {
    let general = General::default();
    assert_eq!(general.stack_leniency.text(), "0.7");
    assert_eq!(general.countdown, Countdown::Normal);
    assert_eq!(general.sample_set, SampleSet::Normal);
    assert_eq!(general.mode, GameMode::Standard);
    assert_eq!(general.overlay_position, OverlayPosition::NoChange);
    assert_eq!(general.preview_time, None);
    let general = General::from(&[
        "AudioFilename: a.mp3",
        "PreviewTime: 1500",
        "Countdown:0",
        "EpilepsyWarning: 1",
        "CountdownOffset: 3",
        "SpecialStyle: 0",
        "UseSkinSprites: 2",
        "SamplesMatchPlaybackRate: 1",
        "NoSuchKey: 1",
    ])
    .unwrap();
    assert_eq!(general.audio_file, "a.mp3");
    assert_eq!(general.preview_time, Some(1500));
    assert_eq!(general.countdown, Countdown::NoCountdown);
    assert!(general.epilepsy_warning);
    assert_eq!(general.countdown_offset, 3);
    assert!(!general.special_style);
    assert!(general.use_skin_sprites);
    assert!(general.samples_match_playback_rate);
    assert!(!general.always_show_playfield);
}

#[test]
fn general_errors_name_the_field() {
    let cases = [
        ("AudioLeadIn: x", ErrorKind::MalformedNumber, Field::AudioLeadIn),
        ("PreviewTime: -2", ErrorKind::MalformedNumber, Field::PreviewTime),
        ("Countdown: x", ErrorKind::MalformedNumber, Field::Countdown),
        ("Countdown: 4", ErrorKind::InvalidEncoding, Field::Countdown),
        ("SampleSet: Loud", ErrorKind::InvalidEncoding, Field::SampleSet),
        ("StackLeniency: much", ErrorKind::MalformedNumber, Field::StackLeniency),
        ("Mode: 9", ErrorKind::InvalidEncoding, Field::Mode),
        ("Mode: -1", ErrorKind::MalformedNumber, Field::Mode),
        ("LetterboxInBreaks: yes", ErrorKind::MalformedNumber, Field::LetterboxInBreaks),
        ("OverlayPosition: Beside", ErrorKind::InvalidEncoding, Field::OverlayPosition),
        ("WidescreenStoryboard: 256", ErrorKind::MalformedNumber, Field::WidescreenStoryboard),
        ("no colon here", ErrorKind::StructuralMismatch, Field::Property),
    ];
    for (line, kind, field) in cases {
        assert_eq!(General::from(&[line]).unwrap_err(), error(kind, field), "{:?}", line);
    }
}

#[test]
fn metadata_properties() {
    let meta = Metadata::from(&["Title: A: B ", "Tags: x  y\tz", "BeatmapID:42", "Other:1"])
        .unwrap();
    assert_eq!(meta.title, "A: B");
    assert_eq!(meta.tags, vec!["x", "y", "z"]);
    assert_eq!(meta.beatmap_id, 42);
    assert_eq!(meta.beatmap_set_id, 0);
    assert_eq!(
        Metadata::from(&["BeatmapID: -1"]).unwrap_err(),
        error(ErrorKind::MalformedNumber, Field::BeatmapId)
    );
    assert_eq!(
        Metadata::from(&["BeatmapSetID:"]).unwrap_err(),
        error(ErrorKind::MalformedNumber, Field::BeatmapSetId)
    );
    assert!(Metadata::default().tags.is_empty());
}

#[test]
fn difficulty_properties() {
    let diff = Difficulty::from(&["CircleSize:4.2", "SliderTickRate: 2", "Nothing: x"]).unwrap();
    assert_eq!(diff.circle_size.text(), "4.2");
    assert_eq!(diff.circle_size.text().parse::<f32>().unwrap(), 4.2f32);
    assert_eq!(diff.slider_tick_rate.text(), "2");
    assert_eq!(diff.hp_drain_rate.text(), "0");
    assert_eq!(
        Difficulty::from(&["ApproachRate: fast"]).unwrap_err(),
        error(ErrorKind::MalformedNumber, Field::ApproachRate)
    );
    assert_eq!(Difficulty::default().slider_multiplier.text(), "0");
}

#[test]
fn sections_end_at_the_next_header() {
    let text = chars("[A]\n a \n\n b\n[B]\nc\n [A] \nd");
    let lines = lines_of(&text);
    assert_eq!(lines.len(), 8);
    assert_eq!(lines[1], chars("a"));
    assert_eq!(section_of(&lines, "[A]"), vec![chars("a"), chars("b")]);
    assert_eq!(section_of(&lines, "[B]"), vec![chars("c")]);
    assert!(section_of(&lines, "[C]").is_empty());
}

#[test]
fn beatmap_decodes_every_section() {
    let map = Beatmap::from_str(MAP).unwrap();
    let general = map.general();
    assert_eq!(general.audio_file, "audio.mp3");
    assert_eq!(general.audio_lead_in, 500);
    assert_eq!(general.preview_time, None);
    assert_eq!(general.countdown, Countdown::Half);
    assert_eq!(general.sample_set, SampleSet::Soft);
    assert_eq!(general.stack_leniency.text(), "0.5");
    assert_eq!(general.mode, GameMode::Mania);
    assert!(general.letterbox_in_breaks);
    assert_eq!(general.overlay_position, OverlayPosition::Above);
    assert_eq!(general.skin_preference.as_deref(), Some("Default"));
    assert!(general.widescreen_storyboard);
    let meta = map.metadata();
    assert_eq!(meta.title, "Song: The Sequel");
    assert_eq!(meta.creator, "mapper");
    assert_eq!(meta.version, "Hard");
    assert_eq!(meta.source, "");
    assert_eq!(meta.tags, vec!["one", "two", "three"]);
    assert_eq!(meta.beatmap_id, 123456);
    assert_eq!(meta.beatmap_set_id, 7890);
    assert_eq!(map.difficulty().approach_rate.text(), "9.3");
    assert_eq!(map.difficulty().slider_multiplier.text(), "1.8");
    let points = map.timing_points();
    assert_eq!(points.len(), 2);
    assert_eq!(points[0].beat_length.text(), "322.58064516129");
    assert!(points[0].uninherited);
    assert_eq!(points[1].beat_length.text(), "-50");
    assert_eq!(points[1].effects.bits(), EFFECT_KIAI);
    let colors = map.color_data();
    assert_eq!(
        colors.combo_colors,
        vec![Color { r: 255, g: 128, b: 0 }, Color { r: 0, g: 202, b: 0 }]
    );
    assert_eq!(colors.slider_border, Some(Color { r: 10, g: 20, b: 30 }));
    assert_eq!(colors.slider_track, None);
    let objects = map.hit_objects();
    assert_eq!(objects.len(), 3);
    assert!(matches!(objects[0].object_data(), HitObjectData::Circle));
    assert!(matches!(objects[1].object_data(), HitObjectData::Slider(_)));
    assert!(matches!(objects[2].object_data(), HitObjectData::Spinner(4000)));
    assert_eq!(objects[2].timestamp(), 3000);
}

#[test]
fn beatmap_without_sections_is_the_default() {
    let map = Beatmap::from_str("osu file format v14\n").unwrap();
    assert!(map.hit_objects().is_empty());
    assert!(map.timing_points().is_empty());
    assert!(map.color_data().combo_colors.is_empty());
    assert_eq!(map.general().stack_leniency.text(), "0.7");
    let map = Beatmap::default();
    assert!(map.hit_objects().is_empty());
    assert_eq!(map.metadata().title, "");
}

#[test]
fn beatmap_fails_on_the_first_bad_line() {
    assert_eq!(
        Beatmap::from_str("[HitObjects]\n1,2,3,1,0\n1,2\n").unwrap_err(),
        error(ErrorKind::Truncated, Field::Timestamp)
    );
    assert_eq!(
        Beatmap::from_str("[TimingPoints]\nx\n[General]\nMode: 7\n").unwrap_err(),
        error(ErrorKind::InvalidEncoding, Field::Mode)
    );
    assert_eq!(
        Beatmap::from_str("[Colours]\nColor1 : 1,2\n").unwrap_err(),
        error(ErrorKind::Truncated, Field::Colour)
    );
    assert_eq!(
        Beatmap::from_str("[Colours]\nColor1\n").unwrap_err(),
        error(ErrorKind::StructuralMismatch, Field::Colour)
    );
}

#[test]
fn enumerations_refuse_unknown_codes() {
    assert_eq!(Countdown::try_from(3).unwrap(), Countdown::Double);
    assert_eq!(
        Countdown::try_from(4).unwrap_err(),
        error(ErrorKind::InvalidEncoding, Field::Countdown)
    );
    assert_eq!(SampleSet::try_from(0).unwrap(), SampleSet::NoSample);
    assert_eq!(
        SampleSet::try_from(4).unwrap_err(),
        error(ErrorKind::InvalidEncoding, Field::SampleSet)
    );
    assert_eq!(SampleSet::from_str("None").unwrap(), SampleSet::NoSample);
    assert_eq!(SampleSet::from_str("Drum").unwrap(), SampleSet::Drum);
    assert!(SampleSet::from_str("drum").is_err());
    assert_eq!(GameMode::try_from(2).unwrap(), GameMode::CatchTheBeat);
    assert_eq!(
        GameMode::try_from(255).unwrap_err(),
        error(ErrorKind::InvalidEncoding, Field::Mode)
    );
    assert_eq!(OverlayPosition::from_str("Below").unwrap(), OverlayPosition::Below);
    assert!(OverlayPosition::from_str("").is_err());
    assert_eq!(Countdown::default(), Countdown::Normal);
    assert_eq!(SampleSet::default(), SampleSet::Normal);
    assert_eq!(GameMode::default(), GameMode::Standard);
}

#[test]
fn str_rep_names() {
    assert_eq!(SampleSet::NoSample.str_rep(), "normal");
    assert_eq!(SampleSet::Normal.str_rep(), "normal");
    assert_eq!(SampleSet::Soft.str_rep(), "soft");
    assert_eq!(SampleSet::Drum.str_rep(), "drum");
    assert_eq!(Hitsound::from_bits(HITSOUND_NORMAL).unwrap().str_rep(), Some("normal"));
    assert_eq!(Hitsound::from_bits(HITSOUND_WHISTLE).unwrap().str_rep(), Some("whistle"));
    assert_eq!(Hitsound::from_bits(HITSOUND_FINISH).unwrap().str_rep(), Some("finish"));
    assert_eq!(Hitsound::from_bits(HITSOUND_CLAP).unwrap().str_rep(), Some("clap"));
    assert_eq!(Hitsound::from_bits(3).unwrap().str_rep(), None);
    assert_eq!(Hitsound::from_bits(0).unwrap().str_rep(), None);
    assert!(Hitsound::from_bits(16).is_none());
    assert!(Hitsound::from_bits(15).unwrap().contains(HITSOUND_FINISH | HITSOUND_CLAP));
}
