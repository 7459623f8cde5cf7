//! Hit objects: circles, sliders and spinners, one to a line.

use vstd::prelude::*;
use vstd::string::StringExecFns;
use crate::error::{invalid, malformed, mismatch, truncated, DecodeError, Field};
use crate::number::{
    decimal, decimal_of, is_real_literal, parse_i16, parse_u16, parse_u64, parse_u8, parse_usize,
    parsed_i16, parsed_u16, parsed_u64, parsed_u8, parsed_usize, RealLiteral,
};
use crate::osu_data::{sample_set_of, Hitsound, SampleSet, HITSOUND_MASK};
use crate::text::{
    chars_of, chars_of_all, find_char, has_char, is_word, split, split_chars, str_views, string_of,
    views,
};

verus! {

/// The object is a hit circle.
pub const META_HIT_CIRCLE: u8 = 0b0000_0001;

/// The object is a slider.
pub const META_SLIDER: u8 = 0b0000_0010;

/// The object starts a new combo.
pub const META_NEW_COMBO: u8 = 0b0000_0100;

/// The object is a spinner.
pub const META_SPINNER: u8 = 0b0000_1000;

/// The three bits that hold the number of combo colours to skip.
pub const META_COLOR_SKIP: u8 = 0b0111_0000;

/// The object is a hold of the mania mode.
pub const META_MANIA_HOLD: u8 = 0b1000_0000;

/// The meta byte of a hit object: its kind, whether it starts a combo, how
/// many combo colours it skips, and whether it is a mania hold. Each of the
/// eight bits has a meaning, so every byte is a meta byte.
#[derive(Clone, Copy, Debug, PartialEq, Eq)]
pub struct HitObjectMeta {
    bits: u8,
}

impl View for HitObjectMeta {
    type V = u8;

    closed spec fn view(&self) -> u8 {
        self.bits
    }
}

impl HitObjectMeta {
    /// The meta byte with the bits of `bits`.
    pub fn from_bits(bits: u8) -> (r: Option<HitObjectMeta>)
        ensures
            r is Some,
            r->0@ == bits,
    {
        Some(HitObjectMeta { bits })
    }

    /// The eight bits of the byte.
    pub fn bits(&self) -> (r: u8)
        ensures
            r == self@,
    {
        self.bits
    }

    /// Whether every bit of `flags` is set.
    pub fn contains(&self, flags: u8) -> (r: bool)
        ensures
            r == (self@ & flags == flags),
    {
        self.bits & flags == flags
    }

    /// Whether the object is a hit circle.
    pub fn is_hit_circle(&self) -> (r: bool)
        ensures
            r == (self@ & META_HIT_CIRCLE == META_HIT_CIRCLE),
    {
        self.contains(META_HIT_CIRCLE)
    }

    /// Whether the object is a slider.
    pub fn is_slider(&self) -> (r: bool)
        ensures
            r == (self@ & META_SLIDER == META_SLIDER),
    {
        self.contains(META_SLIDER)
    }

    /// Whether the object starts a new combo.
    pub fn is_new_combo(&self) -> (r: bool)
        ensures
            r == (self@ & META_NEW_COMBO == META_NEW_COMBO),
    {
        self.contains(META_NEW_COMBO)
    }

    /// Whether the object is a spinner.
    pub fn is_spinner(&self) -> (r: bool)
        ensures
            r == (self@ & META_SPINNER == META_SPINNER),
    {
        self.contains(META_SPINNER)
    }

    /// Whether the object is a hold of the mania mode.
    pub fn is_mania_hold(&self) -> (r: bool)
        ensures
            r == (self@ & META_MANIA_HOLD == META_MANIA_HOLD),
    {
        self.contains(META_MANIA_HOLD)
    }

    /// The number of combo colours to skip: bits 4 to 6 as a number.
    pub fn combo_skip_count(&self) -> (r: u8)
        ensures
            r == (self@ >> 4) & 0b0000_0111,
            r == (self@ & META_COLOR_SKIP) / 16,
            r <= 7,
    {
        let b = self.bits;
        assert((b >> 4) & 0b0000_0111 == (b & 0b0111_0000) / 16) by (bit_vector);
        assert((b >> 4) & 0b0000_0111 <= 7) by (bit_vector);
        (b >> 4) & 0b0000_0111
    }
}

/// The sample sets of a hit sound: one for the normal sound, one for the
/// additions.
#[derive(Clone, Copy, Debug, PartialEq, Eq, Structural)]
pub struct HitSampleData {
    pub normal_set: SampleSet,
    pub addition_set: SampleSet,
}

impl Default for HitSampleData {
    fn default() -> (r: Self)
        ensures
            r == (HitSampleData { normal_set: SampleSet::Normal, addition_set: SampleSet::Normal }),
    {
        HitSampleData { normal_set: SampleSet::Normal, addition_set: SampleSet::Normal }
    }
}

/// The number of part `j` of `parts`, or zero where there is no such part.
pub open spec fn byte_or_zero(parts: Seq<Seq<char>>, j: int) -> Result<u8, DecodeError> {
    if j < parts.len() {
        match parsed_u8(parts[j]) {
            Some(v) => Ok(v),
            None => Err(malformed(Field::HitSample)),
        }
    } else {
        Ok(0)
    }
}

/// A pair of sample sets: two codes with `:` between; a code that is left
/// out counts as zero.
pub open spec fn hit_sample_data_of(s: Seq<char>) -> Result<HitSampleData, DecodeError> {
    let parts = split(s, ':');
    match byte_or_zero(parts, 0) {
        Err(e) => Err(e),
        Ok(v0) => match byte_or_zero(parts, 1) {
            Err(e) => Err(e),
            Ok(v1) => match sample_set_of(v0) {
                None => Err(invalid(Field::SampleSet)),
                Some(normal_set) => match sample_set_of(v1) {
                    None => Err(invalid(Field::SampleSet)),
                    Some(addition_set) => Ok(HitSampleData { normal_set, addition_set }),
                },
            },
        },
    }
}

/// What a custom hit sample holds.
pub ghost struct CustomHitSampleView {
    pub hit_sample_data: HitSampleData,
    pub index: u8,
    pub volume: u8,
    pub file_name: Seq<char>,
}

/// The samples that a hit object plays in place of the usual ones.
#[derive(Debug)]
pub struct CustomHitSample {
    pub hit_sample_data: HitSampleData,
    pub index: u8,
    pub volume: u8,
    pub file_name: String,
}

impl View for CustomHitSample {
    type V = CustomHitSampleView;

    open spec fn view(&self) -> CustomHitSampleView {
        CustomHitSampleView {
            hit_sample_data: self.hit_sample_data,
            index: self.index,
            volume: self.volume,
            file_name: self.file_name@,
        }
    }
}

/// The hit sample of an object that has none of its own.
pub open spec fn no_custom_sample() -> CustomHitSampleView {
    CustomHitSampleView {
        hit_sample_data: HitSampleData {
            normal_set: SampleSet::Normal,
            addition_set: SampleSet::Normal,
        },
        index: 0,
        volume: 0,
        file_name: Seq::empty(),
    }
}

/// The name of the sample file: the two sets, and the index where it is
/// above one.
pub open spec fn sample_file_name(normal: SampleSet, addition: SampleSet, index: u8) -> Seq<char> {
    normal.rep() + "-hit"@ + addition.rep() + (if index > 1 {
        decimal(index as nat)
    } else {
        Seq::empty()
    }) + ".wav"@
}

/// A custom hit sample: normal set, addition set, index and volume with `:`
/// between. A number that is left out counts as zero; what follows the
/// fourth is not looked at.
pub open spec fn custom_hit_sample_of(s: Seq<char>) -> Result<CustomHitSampleView, DecodeError> {
    let parts = split(s, ':');
    match byte_or_zero(parts, 0) {
        Err(e) => Err(e),
        Ok(v0) => match byte_or_zero(parts, 1) {
            Err(e) => Err(e),
            Ok(v1) => match byte_or_zero(parts, 2) {
                Err(e) => Err(e),
                Ok(index) => match byte_or_zero(parts, 3) {
                    Err(e) => Err(e),
                    Ok(volume) => match sample_set_of(v0) {
                        None => Err(invalid(Field::SampleSet)),
                        Some(normal_set) => match sample_set_of(v1) {
                            None => Err(invalid(Field::SampleSet)),
                            Some(addition_set) => Ok(
                                CustomHitSampleView {
                                    hit_sample_data: HitSampleData { normal_set, addition_set },
                                    index,
                                    volume,
                                    file_name: sample_file_name(normal_set, addition_set, index),
                                },
                            ),
                        },
                    },
                },
            },
        },
    }
}

fn byte_at(parts: &Vec<Vec<char>>, j: usize) -> (r: Result<u8, DecodeError>)
    ensures
        r == byte_or_zero(views(parts@), j as int),
{
    if j < parts.len() {
        assert(views(parts@)[j as int] == parts@[j as int]@);
        match parse_u8(parts[j].as_slice()) {
            Some(v) => Ok(v),
            None => Err(DecodeError::malformed(Field::HitSample)),
        }
    } else {
        Ok(0)
    }
}

impl HitSampleData {
    /// The pair of sample sets that `s` holds.
    pub fn from_chars(s: &[char]) -> (r: Result<HitSampleData, DecodeError>)
        ensures
            r == hit_sample_data_of(s@),
    {
        let parts = split_chars(s, ':');
        let v0 = byte_at(&parts, 0)?;
        let v1 = byte_at(&parts, 1)?;
        let normal_set = SampleSet::try_from(v0)?;
        let addition_set = SampleSet::try_from(v1)?;
        Ok(HitSampleData { normal_set, addition_set })
    }

    /// The pair of sample sets that `s` holds.
    pub fn from_str(s: &str) -> (r: Result<HitSampleData, DecodeError>)
        ensures
            r == hit_sample_data_of(s@),
    {
        let chars = chars_of(s);
        HitSampleData::from_chars(chars.as_slice())
    }
}

impl Default for CustomHitSample {
    fn default() -> (r: Self)
        ensures
            r@ == no_custom_sample(),
    {
        CustomHitSample {
            hit_sample_data: HitSampleData::default(),
            index: 0,
            volume: 0,
            file_name: String::new(),
        }
    }
}

/// The name of the sample file for two sets and an index.
pub fn file_name_of(normal: SampleSet, addition: SampleSet, index: u8) -> (r: String)
    ensures
        r@ == sample_file_name(normal, addition, index),
{
    let mut name = String::from_str(normal.str_rep());
    name.append("-hit");
    name.append(addition.str_rep());
    if index > 1 {
        let digits = string_of(decimal_of(index as u64).as_slice());
        name.append(digits.as_str());
    } else {
        assert(name@ + Seq::<char>::empty() =~= name@);
    }
    name.append(".wav");
    name
}

impl CustomHitSample {
    /// The custom hit sample that `s` holds.
    pub fn from_chars(s: &[char]) -> (r: Result<CustomHitSample, DecodeError>)
        ensures
            match r {
                Ok(sample) => custom_hit_sample_of(s@) == Ok::<CustomHitSampleView, DecodeError>(
                    sample@,
                ),
                Err(e) => custom_hit_sample_of(s@) == Err::<CustomHitSampleView, DecodeError>(e),
            },
    {
        let parts = split_chars(s, ':');
        let v0 = byte_at(&parts, 0)?;
        let v1 = byte_at(&parts, 1)?;
        let index = byte_at(&parts, 2)?;
        let volume = byte_at(&parts, 3)?;
        let normal_set = SampleSet::try_from(v0)?;
        let addition_set = SampleSet::try_from(v1)?;
        Ok(
            CustomHitSample {
                hit_sample_data: HitSampleData { normal_set, addition_set },
                index,
                volume,
                file_name: file_name_of(normal_set, addition_set, index),
            },
        )
    }

    /// The custom hit sample that `s` holds.
    pub fn from_str(s: &str) -> (r: Result<CustomHitSample, DecodeError>)
        ensures
            match r {
                Ok(sample) => custom_hit_sample_of(s@) == Ok::<CustomHitSampleView, DecodeError>(
                    sample@,
                ),
                Err(e) => custom_hit_sample_of(s@) == Err::<CustomHitSampleView, DecodeError>(e),
            },
    {
        let chars = chars_of(s);
        CustomHitSample::from_chars(chars.as_slice())
    }
}

/// The curve that a slider follows between its control points.
#[derive(Clone, Copy, Debug, PartialEq, Eq, Structural)]
pub enum SliderCurveType {
    Bezier,
    CentripetalCatmullRom,
    Linear,
    PerfectCircle,
}

/// The curve type that a code stands for.
pub open spec fn curve_type_named(s: Seq<char>) -> Option<SliderCurveType> {
    if s == "B"@ {
        Some(SliderCurveType::Bezier)
    } else if s == "C"@ {
        Some(SliderCurveType::CentripetalCatmullRom)
    } else if s == "L"@ {
        Some(SliderCurveType::Linear)
    } else if s == "P"@ {
        Some(SliderCurveType::PerfectCircle)
    } else {
        None
    }
}

impl SliderCurveType {
    /// The curve type with code `c`; any other text is refused.
    pub fn from_chars(c: &[char]) -> (r: Result<SliderCurveType, DecodeError>)
        ensures
            r == match curve_type_named(c@) {
                Some(v) => Ok::<SliderCurveType, DecodeError>(v),
                None => Err(invalid(Field::CurveType)),
            },
    {
        if is_word(c, "B") {
            Ok(SliderCurveType::Bezier)
        } else if is_word(c, "C") {
            Ok(SliderCurveType::CentripetalCatmullRom)
        } else if is_word(c, "L") {
            Ok(SliderCurveType::Linear)
        } else if is_word(c, "P") {
            Ok(SliderCurveType::PerfectCircle)
        } else {
            Err(DecodeError::invalid(Field::CurveType))
        }
    }

    /// The curve type with code `c`; any other text is refused.
    pub fn from_str(c: &str) -> (r: Result<SliderCurveType, DecodeError>)
        ensures
            r == match curve_type_named(c@) {
                Some(v) => Ok::<SliderCurveType, DecodeError>(v),
                None => Err(invalid(Field::CurveType)),
            },
    {
        let chars = chars_of(c);
        SliderCurveType::from_chars(chars.as_slice())
    }
}

/// When a spinner ends.
#[derive(Clone, Copy, Debug, PartialEq, Eq, Structural)]
pub struct SpinnerData {
    pub end_time: u64,
}

/// What a slider holds.
pub ghost struct SliderView {
    pub curve_type: SliderCurveType,
    pub curve_points: Seq<(i16, i16)>,
    pub slides: usize,
    pub length: Seq<char>,
    pub edge_sounds: Seq<u8>,
    pub edge_sets: Seq<HitSampleData>,
}

/// The path of a slider and what it sounds like. The hit object's own
/// position is the first point of the path; `curve_points` holds the others.
/// The two edge lists may be shorter than the number of slides.
#[derive(Debug)]
pub struct SliderData {
    pub curve_type: SliderCurveType,
    pub curve_points: Vec<(i16, i16)>,
    pub slides: usize,
    pub length: RealLiteral,
    pub edge_sounds: Vec<u8>,
    pub edge_sets: Vec<HitSampleData>,
}

impl View for SliderData {
    type V = SliderView;

    open spec fn view(&self) -> SliderView {
        SliderView {
            curve_type: self.curve_type,
            curve_points: self.curve_points@,
            slides: self.slides,
            length: self.length@,
            edge_sounds: self.edge_sounds@,
            edge_sets: self.edge_sets@,
        }
    }
}

/// A control point: `x:y`. What follows a second colon is not looked at.
pub open spec fn curve_point_of(pair: Seq<char>) -> Result<(i16, i16), DecodeError> {
    let parts = split(pair, ':');
    match parsed_i16(parts[0]) {
        None => Err(malformed(Field::CurvePoint)),
        Some(x) => if parts.len() < 2 {
            Err(mismatch(Field::CurvePoint))
        } else {
            match parsed_i16(parts[1]) {
                None => Err(malformed(Field::CurvePoint)),
                Some(y) => Ok((x, y)),
            }
        },
    }
}

/// The control points of the pieces from index `i` on, after the points `acc`.
pub open spec fn curve_points_from(pieces: Seq<Seq<char>>, i: int, acc: Seq<(i16, i16)>) -> Result<
    Seq<(i16, i16)>,
    DecodeError,
>
    decreases pieces.len() - i,
{
    if i < 0 || i >= pieces.len() {
        Ok(acc)
    } else {
        match curve_point_of(pieces[i]) {
            Err(e) => Err(e),
            Ok(point) => curve_points_from(pieces, i + 1, acc.push(point)),
        }
    }
}

/// The edge sounds of the pieces from index `i` on, after the sounds `acc`.
/// Empty pieces are passed over.
pub open spec fn edge_sounds_from(pieces: Seq<Seq<char>>, i: int, acc: Seq<u8>) -> Result<
    Seq<u8>,
    DecodeError,
>
    decreases pieces.len() - i,
{
    if i < 0 || i >= pieces.len() {
        Ok(acc)
    } else if pieces[i].len() == 0 {
        edge_sounds_from(pieces, i + 1, acc)
    } else {
        match parsed_u8(pieces[i]) {
            None => Err(malformed(Field::EdgeSounds)),
            Some(sound) => edge_sounds_from(pieces, i + 1, acc.push(sound)),
        }
    }
}

/// The edge sets of the pieces from index `i` on, after the sets `acc`.
/// Empty pieces are passed over. A piece that is no pair of sample sets
/// fails with the kind of its fault, as a fault of the edge sets.
pub open spec fn edge_sets_from(pieces: Seq<Seq<char>>, i: int, acc: Seq<HitSampleData>) -> Result<
    Seq<HitSampleData>,
    DecodeError,
>
    decreases pieces.len() - i,
{
    if i < 0 || i >= pieces.len() {
        Ok(acc)
    } else if pieces[i].len() == 0 {
        edge_sets_from(pieces, i + 1, acc)
    } else {
        match hit_sample_data_of(pieces[i]) {
            Err(e) => Err(DecodeError { kind: e.kind, field: Field::EdgeSets }),
            Ok(set) => edge_sets_from(pieces, i + 1, acc.push(set)),
        }
    }
}

/// Token `j`, or the empty text where there is no such token.
pub open spec fn token_or_empty(tokens: Seq<Seq<char>>, j: int) -> Seq<char> {
    if 0 <= j < tokens.len() {
        tokens[j]
    } else {
        Seq::empty()
    }
}

/// The slider that the parameter tokens of a hit object hold: the curve
/// (type and control points with `|` between), the number of slides, the
/// length, and then, where they are there, the edge sounds and the edge
/// sets, each with `|` between.
pub open spec fn slider_of(tokens: Seq<Seq<char>>) -> Result<SliderView, DecodeError> {
    if tokens.len() < 1 {
        Err(mismatch(Field::CurveType))
    } else {
        let curve = split(tokens[0], '|');
        match curve_type_named(curve[0]) {
            None => Err(invalid(Field::CurveType)),
            Some(curve_type) => match curve_points_from(curve, 1, Seq::empty()) {
                Err(e) => Err(e),
                Ok(curve_points) => if tokens.len() < 2 {
                    Err(mismatch(Field::Slides))
                } else {
                    match parsed_usize(tokens[1]) {
                        None => Err(malformed(Field::Slides)),
                        Some(slides) => if tokens.len() < 3 {
                            Err(mismatch(Field::Length))
                        } else if !is_real_literal(tokens[2]) {
                            Err(malformed(Field::Length))
                        } else {
                            match edge_sounds_from(
                                split(token_or_empty(tokens, 3), '|'),
                                0,
                                Seq::empty(),
                            ) {
                                Err(e) => Err(e),
                                Ok(edge_sounds) => match edge_sets_from(
                                    split(token_or_empty(tokens, 4), '|'),
                                    0,
                                    Seq::empty(),
                                ) {
                                    Err(e) => Err(e),
                                    Ok(edge_sets) => Ok(
                                        SliderView {
                                            curve_type,
                                            curve_points,
                                            slides,
                                            length: tokens[2],
                                            edge_sounds,
                                            edge_sets,
                                        },
                                    ),
                                },
                            }
                        },
                    }
                },
            },
        }
    }
}

fn decode_curve_point(pair: &[char]) -> (r: Result<(i16, i16), DecodeError>)
    ensures
        r == curve_point_of(pair@),
{
    let parts = split_chars(pair, ':');
    assert(forall|i: int| 0 <= i < parts@.len() ==> views(parts@)[i] == parts@[i]@);
    let x = match parse_i16(parts[0].as_slice()) {
        Some(v) => v,
        None => { return Err(DecodeError::malformed(Field::CurvePoint)); },
    };
    if parts.len() < 2 {
        return Err(DecodeError::mismatch(Field::CurvePoint));
    }
    match parse_i16(parts[1].as_slice()) {
        Some(y) => Ok((x, y)),
        None => Err(DecodeError::malformed(Field::CurvePoint)),
    }
}

fn decode_curve_points(pieces: &Vec<Vec<char>>) -> (r: Result<Vec<(i16, i16)>, DecodeError>)
    ensures
        match r {
            Ok(points) => curve_points_from(views(pieces@), 1, Seq::empty()) == Ok::<
                Seq<(i16, i16)>,
                DecodeError,
            >(points@),
            Err(e) => curve_points_from(views(pieces@), 1, Seq::empty()) == Err::<
                Seq<(i16, i16)>,
                DecodeError,
            >(e),
        },
{
    let mut points: Vec<(i16, i16)> = Vec::new();
    let mut i: usize = 1;
    while i < pieces.len()
        invariant
            1 <= i,
            curve_points_from(views(pieces@), 1, Seq::empty()) == curve_points_from(
                views(pieces@),
                i as int,
                points@,
            ),
        decreases pieces.len() - i,
    {
        assert(views(pieces@)[i as int] == pieces@[i as int]@);
        let point = decode_curve_point(pieces[i].as_slice())?;
        points.push(point);
        i += 1;
    }
    Ok(points)
}

fn decode_edge_sounds(token: &[char]) -> (r: Result<Vec<u8>, DecodeError>)
    ensures
        match r {
            Ok(sounds) => edge_sounds_from(split(token@, '|'), 0, Seq::empty()) == Ok::<
                Seq<u8>,
                DecodeError,
            >(sounds@),
            Err(e) => edge_sounds_from(split(token@, '|'), 0, Seq::empty()) == Err::<
                Seq<u8>,
                DecodeError,
            >(e),
        },
{
    let pieces = split_chars(token, '|');
    let mut sounds: Vec<u8> = Vec::new();
    let mut i: usize = 0;
    while i < pieces.len()
        invariant
            views(pieces@) == split(token@, '|'),
            edge_sounds_from(split(token@, '|'), 0, Seq::empty()) == edge_sounds_from(
                views(pieces@),
                i as int,
                sounds@,
            ),
        decreases pieces.len() - i,
    {
        assert(views(pieces@)[i as int] == pieces@[i as int]@);
        if pieces[i].len() > 0 {
            match parse_u8(pieces[i].as_slice()) {
                Some(sound) => sounds.push(sound),
                None => { return Err(DecodeError::malformed(Field::EdgeSounds)); },
            }
        }
        i += 1;
    }
    Ok(sounds)
}

fn decode_edge_sets(token: &[char]) -> (r: Result<Vec<HitSampleData>, DecodeError>)
    ensures
        match r {
            Ok(sets) => edge_sets_from(split(token@, '|'), 0, Seq::empty()) == Ok::<
                Seq<HitSampleData>,
                DecodeError,
            >(sets@),
            Err(e) => edge_sets_from(split(token@, '|'), 0, Seq::empty()) == Err::<
                Seq<HitSampleData>,
                DecodeError,
            >(e),
        },
{
    let pieces = split_chars(token, '|');
    let mut sets: Vec<HitSampleData> = Vec::new();
    let mut i: usize = 0;
    while i < pieces.len()
        invariant
            views(pieces@) == split(token@, '|'),
            edge_sets_from(split(token@, '|'), 0, Seq::empty()) == edge_sets_from(
                views(pieces@),
                i as int,
                sets@,
            ),
        decreases pieces.len() - i,
    {
        assert(views(pieces@)[i as int] == pieces@[i as int]@);
        if pieces[i].len() > 0 {
            match HitSampleData::from_chars(pieces[i].as_slice()) {
                Ok(set) => sets.push(set),
                Err(e) => { return Err(DecodeError { kind: e.kind, field: Field::EdgeSets }); },
            }
        }
        i += 1;
    }
    Ok(sets)
}

impl SliderData {
    /// The slider that the parameter tokens hold.
    pub fn from_tokens(tokens: &[Vec<char>]) -> (r: Result<SliderData, DecodeError>)
        ensures
            match r {
                Ok(slider) => slider_of(views(tokens@)) == Ok::<SliderView, DecodeError>(slider@),
                Err(e) => slider_of(views(tokens@)) == Err::<SliderView, DecodeError>(e),
            },
    {
        assert(forall|i: int| 0 <= i < tokens@.len() ==> views(tokens@)[i] == tokens@[i]@);
        if tokens.len() < 1 {
            return Err(DecodeError::mismatch(Field::CurveType));
        }
        let curve = split_chars(tokens[0].as_slice(), '|');
        assert(views(curve@)[0] == curve@[0]@);
        let curve_type = SliderCurveType::from_chars(curve[0].as_slice())?;
        let curve_points = decode_curve_points(&curve)?;
        if tokens.len() < 2 {
            return Err(DecodeError::mismatch(Field::Slides));
        }
        let slides = match parse_usize(tokens[1].as_slice()) {
            Some(v) => v,
            None => { return Err(DecodeError::malformed(Field::Slides)); },
        };
        if tokens.len() < 3 {
            return Err(DecodeError::mismatch(Field::Length));
        }
        let length = match RealLiteral::parse(tokens[2].as_slice()) {
            Some(v) => v,
            None => { return Err(DecodeError::malformed(Field::Length)); },
        };
        let nothing: Vec<char> = Vec::new();
        let edge_sounds = if tokens.len() > 3 {
            decode_edge_sounds(tokens[3].as_slice())?
        } else {
            decode_edge_sounds(nothing.as_slice())?
        };
        let edge_sets = if tokens.len() > 4 {
            decode_edge_sets(tokens[4].as_slice())?
        } else {
            decode_edge_sets(nothing.as_slice())?
        };
        Ok(SliderData { curve_type, curve_points, slides, length, edge_sounds, edge_sets })
    }

    /// The slider that the parameter tokens hold.
    pub fn try_from(tokens: &[&str]) -> (r: Result<SliderData, DecodeError>)
        ensures
            match r {
                Ok(slider) => slider_of(str_views(tokens@)) == Ok::<SliderView, DecodeError>(
                    slider@,
                ),
                Err(e) => slider_of(str_views(tokens@)) == Err::<SliderView, DecodeError>(e),
            },
    {
        let chars = chars_of_all(tokens);
        SliderData::from_tokens(chars.as_slice())
    }
}

/// What the payload of a hit object holds.
pub ghost enum HitObjectDataView {
    Circle,
    Slider(SliderView),
    Spinner(u64),
}

/// The payload of a hit object. A spinner holds the time at which it ends.
#[derive(Debug)]
pub enum HitObjectData {
    Circle,
    Slider(SliderData),
    Spinner(u64),
}

impl View for HitObjectData {
    type V = HitObjectDataView;

    open spec fn view(&self) -> HitObjectDataView {
        match self {
            HitObjectData::Circle => HitObjectDataView::Circle,
            HitObjectData::Slider(slider) => HitObjectDataView::Slider(slider@),
            HitObjectData::Spinner(end) => HitObjectDataView::Spinner(*end),
        }
    }
}

/// The kind of hit object that the parameter tokens make: a circle where
/// there are none, a spinner where the first is an unsigned number, a slider
/// in every other case.
pub open spec fn object_data_of(params: Seq<Seq<char>>) -> Result<HitObjectDataView, DecodeError> {
    if params.len() == 0 {
        Ok(HitObjectDataView::Circle)
    } else {
        match parsed_u64(params[0]) {
            Some(end) => Ok(HitObjectDataView::Spinner(end)),
            None => match slider_of(params) {
                Ok(slider) => Ok(HitObjectDataView::Slider(slider)),
                Err(e) => Err(e),
            },
        }
    }
}

impl HitObjectData {
    /// The payload that the parameter tokens make.
    pub fn from_tokens(params: &[Vec<char>]) -> (r: Result<HitObjectData, DecodeError>)
        ensures
            match r {
                Ok(data) => object_data_of(views(params@)) == Ok::<HitObjectDataView, DecodeError>(
                    data@,
                ),
                Err(e) => object_data_of(views(params@)) == Err::<HitObjectDataView, DecodeError>(
                    e,
                ),
            },
    {
        if params.len() == 0 {
            return Ok(HitObjectData::Circle);
        }
        assert(views(params@)[0] == params@[0]@);
        match parse_u64(params[0].as_slice()) {
            Some(end) => Ok(HitObjectData::Spinner(end)),
            None => {
                let slider = SliderData::from_tokens(params)?;
                Ok(HitObjectData::Slider(slider))
            },
        }
    }

    /// The payload that the parameter tokens make.
    pub fn classify(params: &[&str]) -> (r: Result<HitObjectData, DecodeError>)
        ensures
            match r {
                Ok(data) => object_data_of(str_views(params@)) == Ok::<
                    HitObjectDataView,
                    DecodeError,
                >(data@),
                Err(e) => object_data_of(str_views(params@)) == Err::<
                    HitObjectDataView,
                    DecodeError,
                >(e),
            },
    {
        let chars = chars_of_all(params);
        HitObjectData::from_tokens(chars.as_slice())
    }
}

/// What a hit object holds.
pub ghost struct HitObjectView {
    pub x: u16,
    pub y: u16,
    pub timestamp: u64,
    pub hit_object_meta: u8,
    pub hit_sound: u8,
    pub hit_sample: CustomHitSampleView,
    pub object_data: HitObjectDataView,
}

/// One hit object of a beatmap.
#[derive(Debug)]
pub struct HitObject {
    x: u16,
    y: u16,
    timestamp: u64,
    hit_object_meta: HitObjectMeta,
    hit_sound: Hitsound,
    hit_sample: CustomHitSample,
    object_data: HitObjectData,
}

impl View for HitObject {
    type V = HitObjectView;

    closed spec fn view(&self) -> HitObjectView {
        HitObjectView {
            x: self.x,
            y: self.y,
            timestamp: self.timestamp,
            hit_object_meta: self.hit_object_meta@,
            hit_sound: self.hit_sound@,
            hit_sample: self.hit_sample@,
            object_data: self.object_data@,
        }
    }
}

/// Whether the last of the tokens after the fifth is a custom hit sample:
/// it is one where it holds a colon.
pub open spec fn ends_with_sample(rest: Seq<Seq<char>>) -> bool {
    rest.len() > 0 && has_char(rest.last(), ':')
}

/// The hit object that a line holds: x, y, time, meta byte and hit sound,
/// then the parameters of the object, then the custom hit sample, all with
/// `,` between. The parameters and the sample may be left out.
pub open spec fn hit_object_of(line: Seq<char>) -> Result<HitObjectView, DecodeError> {
    let tokens = split(line, ',');
    match parsed_u16(tokens[0]) {
        None => Err(malformed(Field::X)),
        Some(x) => if tokens.len() < 2 {
            Err(truncated(Field::Y))
        } else {
            match parsed_u16(tokens[1]) {
                None => Err(malformed(Field::Y)),
                Some(y) => if tokens.len() < 3 {
                    Err(truncated(Field::Timestamp))
                } else {
                    match parsed_u64(tokens[2]) {
                        None => Err(malformed(Field::Timestamp)),
                        Some(timestamp) => if tokens.len() < 4 {
                            Err(truncated(Field::ObjectMeta))
                        } else {
                            match parsed_u8(tokens[3]) {
                                None => Err(malformed(Field::ObjectMeta)),
                                Some(hit_object_meta) => if tokens.len() < 5 {
                                    Err(truncated(Field::HitSound))
                                } else {
                                    match parsed_u8(tokens[4]) {
                                        None => Err(malformed(Field::HitSound)),
                                        Some(hit_sound) => if hit_sound & !HITSOUND_MASK != 0 {
                                            Err(invalid(Field::HitSound))
                                        } else {
                                            hit_object_tail(
                                                tokens.skip(5),
                                                x,
                                                y,
                                                timestamp,
                                                hit_object_meta,
                                                hit_sound,
                                            )
                                        },
                                    }
                                },
                            }
                        },
                    }
                },
            }
        },
    }
}

/// The hit object with the given five fields and the tokens that follow them.
pub open spec fn hit_object_tail(
    rest: Seq<Seq<char>>,
    x: u16,
    y: u16,
    timestamp: u64,
    hit_object_meta: u8,
    hit_sound: u8,
) -> Result<HitObjectView, DecodeError> {
    let sample = if ends_with_sample(rest) {
        custom_hit_sample_of(rest.last())
    } else {
        Ok(no_custom_sample())
    };
    let params = if ends_with_sample(rest) {
        rest.drop_last()
    } else {
        rest
    };
    match sample {
        Err(e) => Err(e),
        Ok(hit_sample) => match object_data_of(params) {
            Err(e) => Err(e),
            Ok(object_data) => Ok(
                HitObjectView {
                    x,
                    y,
                    timestamp,
                    hit_object_meta,
                    hit_sound,
                    hit_sample,
                    object_data,
                },
            ),
        },
    }
}

impl HitObject {
    /// The x coordinate.
    pub fn x(&self) -> (r: u16)
        ensures
            r == self@.x,
    {
        self.x
    }

    /// The y coordinate.
    pub fn y(&self) -> (r: u16)
        ensures
            r == self@.y,
    {
        self.y
    }

    /// The time of the object, in milliseconds.
    pub fn timestamp(&self) -> (r: u64)
        ensures
            r == self@.timestamp,
    {
        self.timestamp
    }

    /// The meta byte of the object.
    pub fn hit_object_meta(&self) -> (r: HitObjectMeta)
        ensures
            r@ == self@.hit_object_meta,
    {
        self.hit_object_meta
    }

    /// The sounds that the object plays.
    pub fn hit_sound(&self) -> (r: Hitsound)
        ensures
            r@ == self@.hit_sound,
    {
        self.hit_sound
    }

    /// The samples that the object plays them with.
    pub fn hit_sample(&self) -> (r: &CustomHitSample)
        ensures
            r@ == self@.hit_sample,
    {
        &self.hit_sample
    }

    /// What kind of object it is, with what that kind holds.
    pub fn object_data(&self) -> (r: &HitObjectData)
        ensures
            r@ == self@.object_data,
    {
        &self.object_data
    }

    /// The hit object that `line` holds.
    pub fn from_chars(line: &[char]) -> (r: Result<HitObject, DecodeError>)
        ensures
            match r {
                Ok(object) => hit_object_of(line@) == Ok::<HitObjectView, DecodeError>(object@),
                Err(e) => hit_object_of(line@) == Err::<HitObjectView, DecodeError>(e),
            },
    {
        let tokens = split_chars(line, ',');
        assert(forall|i: int| 0 <= i < tokens@.len() ==> views(tokens@)[i] == tokens@[i]@);
        let x = match parse_u16(tokens[0].as_slice()) {
            Some(v) => v,
            None => { return Err(DecodeError::malformed(Field::X)); },
        };
        if tokens.len() < 2 {
            return Err(DecodeError::truncated(Field::Y));
        }
        let y = match parse_u16(tokens[1].as_slice()) {
            Some(v) => v,
            None => { return Err(DecodeError::malformed(Field::Y)); },
        };
        if tokens.len() < 3 {
            return Err(DecodeError::truncated(Field::Timestamp));
        }
        let timestamp = match parse_u64(tokens[2].as_slice()) {
            Some(v) => v,
            None => { return Err(DecodeError::malformed(Field::Timestamp)); },
        };
        if tokens.len() < 4 {
            return Err(DecodeError::truncated(Field::ObjectMeta));
        }
        let hit_object_meta = match parse_u8(tokens[3].as_slice()) {
            Some(v) => HitObjectMeta { bits: v },
            None => { return Err(DecodeError::malformed(Field::ObjectMeta)); },
        };
        if tokens.len() < 5 {
            return Err(DecodeError::truncated(Field::HitSound));
        }
        let sound_bits = match parse_u8(tokens[4].as_slice()) {
            Some(v) => v,
            None => { return Err(DecodeError::malformed(Field::HitSound)); },
        };
        let hit_sound = match Hitsound::from_bits(sound_bits) {
            Some(v) => v,
            None => { return Err(DecodeError::invalid(Field::HitSound)); },
        };
        let n = tokens.len();
        let ghost rest = views(tokens@).skip(5);
        let with_sample = n > 5 && find_char(tokens[n - 1].as_slice(), ':', 0) < tokens[n
            - 1].len();
        assert(with_sample == ends_with_sample(rest));
        let hit_sample = if with_sample {
            CustomHitSample::from_chars(tokens[n - 1].as_slice())?
        } else {
            CustomHitSample::default()
        };
        let end: usize = if with_sample {
            n - 1
        } else {
            n
        };
        let params = &tokens.as_slice()[5..end];
        proof {
            let spec_params = if ends_with_sample(rest) {
                rest.drop_last()
            } else {
                rest
            };
            assert(views(params@) =~= spec_params);
        }
        let object_data = HitObjectData::from_tokens(params)?;
        Ok(HitObject { x, y, timestamp, hit_object_meta, hit_sound, hit_sample, object_data })
    }

    /// The hit object that the line `s` holds.
    pub fn from_str(s: &str) -> (r: Result<HitObject, DecodeError>)
        ensures
            match r {
                Ok(object) => hit_object_of(s@) == Ok::<HitObjectView, DecodeError>(object@),
                Err(e) => hit_object_of(s@) == Err::<HitObjectView, DecodeError>(e),
            },
    {
        let chars = chars_of(s);
        HitObject::from_chars(chars.as_slice())
    }
}

} // verus!
