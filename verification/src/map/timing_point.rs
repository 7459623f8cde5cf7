//! Timing points: one to a line, eight fields with `,` between.

use vstd::prelude::*;
use crate::error::{invalid, malformed, truncated, DecodeError, Field};
use crate::number::{
    is_real_literal, parse_u64, parse_u8, parsed_u64, parsed_u8, RealLiteral,
};
use crate::osu_data::{sample_set_of, SampleSet};
use crate::text::{chars_of, split, split_chars, views};

verus! {

/// The bits of an effects byte that have a meaning.
pub const EFFECTS_MASK: u8 = 0b0000_0101;

/// Kiai time is on.
pub const EFFECT_KIAI: u8 = 0b0000_0001;

/// The first barline is left out.
pub const EFFECT_OMIT_BARLINE: u8 = 0b0000_0100;

/// The effects of a timing point: kiai time, and whether the first barline
/// is left out.
#[derive(Clone, Copy, Debug, PartialEq, Eq)]
pub struct Effects {
    bits: u8,
}

impl View for Effects {
    type V = u8;

    closed spec fn view(&self) -> u8 {
        self.bits
    }
}

impl Default for Effects {
    fn default() -> (r: Self)
        ensures
            r@ == 0,
    {
        assert(0u8 & !EFFECTS_MASK == 0) by (bit_vector);
        Effects { bits: 0 }
    }
}

impl Effects {
    #[verifier::type_invariant]
    closed spec fn wf(self) -> bool {
        self.bits & !EFFECTS_MASK == 0
    }

    /// The effects that the bits of `bits` stand for; a bit outside the two
    /// that have a meaning is refused.
    pub fn from_bits(bits: u8) -> (r: Option<Effects>)
        ensures
            r is Some <==> bits & !EFFECTS_MASK == 0,
            r is Some ==> r->0@ == bits,
    {
        if bits & !EFFECTS_MASK == 0 {
            Some(Effects { bits })
        } else {
            None
        }
    }

    /// The bits of this set; none lies outside the mask.
    pub fn bits(&self) -> (r: u8)
        ensures
            r == self@,
            r & !EFFECTS_MASK == 0,
    {
        proof {
            use_type_invariant(self);
        }
        self.bits
    }

    /// Whether every effect of `flags` is in this set.
    pub fn contains(&self, flags: u8) -> (r: bool)
        ensures
            r == (self@ & flags == flags),
    {
        self.bits & flags == flags
    }
}

/// What a timing point holds.
pub ghost struct TimingPointView {
    pub time: u64,
    pub beat_length: Seq<char>,
    pub meter: u8,
    pub sample_set: SampleSet,
    pub sample_index: u8,
    pub volume: u8,
    pub uninherited: bool,
    pub effects: u8,
}

/// A timing point. A beat length below zero marks a point that inherits its
/// timing; the sign is kept as it was read.
#[derive(Debug)]
pub struct TimingPoint {
    pub time: u64,
    pub beat_length: RealLiteral,
    pub meter: u8,
    pub sample_set: SampleSet,
    pub sample_index: u8,
    pub volume: u8,
    pub uninherited: bool,
    pub effects: Effects,
}

impl View for TimingPoint {
    type V = TimingPointView;

    open spec fn view(&self) -> TimingPointView {
        TimingPointView {
            time: self.time,
            beat_length: self.beat_length@,
            meter: self.meter,
            sample_set: self.sample_set,
            sample_index: self.sample_index,
            volume: self.volume,
            uninherited: self.uninherited,
            effects: self.effects@,
        }
    }
}

/// The number below 256 that token `j` holds.
pub open spec fn byte_token(tokens: Seq<Seq<char>>, j: int, field: Field) -> Result<
    u8,
    DecodeError,
> {
    if j >= tokens.len() {
        Err(truncated(field))
    } else {
        match parsed_u8(tokens[j]) {
            Some(v) => Ok(v),
            None => Err(malformed(field)),
        }
    }
}

/// The timing point that a line holds: time, beat length, meter, sample set,
/// sample index, volume, whether it is uninherited, and effects.
pub open spec fn timing_point_of(line: Seq<char>) -> Result<TimingPointView, DecodeError> {
    let tokens = split(line, ',');
    match parsed_u64(tokens[0]) {
        None => Err(malformed(Field::Time)),
        Some(time) => if tokens.len() < 2 {
            Err(truncated(Field::BeatLength))
        } else if !is_real_literal(tokens[1]) {
            Err(malformed(Field::BeatLength))
        } else {
            match byte_token(tokens, 2, Field::Meter) {
                Err(e) => Err(e),
                Ok(meter) => match byte_token(tokens, 3, Field::SampleSet) {
                    Err(e) => Err(e),
                    Ok(set) => match sample_set_of(set) {
                        None => Err(invalid(Field::SampleSet)),
                        Some(sample_set) => match byte_token(tokens, 4, Field::SampleIndex) {
                            Err(e) => Err(e),
                            Ok(sample_index) => match byte_token(tokens, 5, Field::Volume) {
                                Err(e) => Err(e),
                                Ok(volume) => match byte_token(tokens, 6, Field::Uninherited) {
                                    Err(e) => Err(e),
                                    Ok(uninherited) => match byte_token(
                                        tokens,
                                        7,
                                        Field::Effects,
                                    ) {
                                        Err(e) => Err(e),
                                        Ok(effects) => if effects & !EFFECTS_MASK != 0 {
                                            Err(invalid(Field::Effects))
                                        } else {
                                            Ok(
                                                TimingPointView {
                                                    time,
                                                    beat_length: tokens[1],
                                                    meter,
                                                    sample_set,
                                                    sample_index,
                                                    volume,
                                                    uninherited: uninherited == 1,
                                                    effects,
                                                },
                                            )
                                        },
                                    },
                                },
                            },
                        },
                    },
                },
            }
        },
    }
}

fn byte_token_at(tokens: &Vec<Vec<char>>, j: usize, field: Field) -> (r: Result<u8, DecodeError>)
    ensures
        r == byte_token(views(tokens@), j as int, field),
{
    if j >= tokens.len() {
        Err(DecodeError::truncated(field))
    } else {
        assert(views(tokens@)[j as int] == tokens@[j as int]@);
        match parse_u8(tokens[j].as_slice()) {
            Some(v) => Ok(v),
            None => Err(DecodeError::malformed(field)),
        }
    }
}

impl Default for TimingPoint {
    fn default() -> (r: Self)
        ensures
            r@ == (TimingPointView {
                time: 0,
                beat_length: seq!['0'],
                meter: 0,
                sample_set: SampleSet::Normal,
                sample_index: 0,
                volume: 0,
                uninherited: false,
                effects: 0,
            }),
    {
        TimingPoint {
            time: 0,
            beat_length: RealLiteral::zero(),
            meter: 0,
            sample_set: SampleSet::Normal,
            sample_index: 0,
            volume: 0,
            uninherited: false,
            effects: Effects::default(),
        }
    }
}

impl TimingPoint {
    /// The timing point that `line` holds.
    pub fn from_chars(line: &[char]) -> (r: Result<TimingPoint, DecodeError>)
        ensures
            match r {
                Ok(point) => timing_point_of(line@) == Ok::<TimingPointView, DecodeError>(point@),
                Err(e) => timing_point_of(line@) == Err::<TimingPointView, DecodeError>(e),
            },
    {
        let tokens = split_chars(line, ',');
        assert(forall|i: int| 0 <= i < tokens@.len() ==> views(tokens@)[i] == tokens@[i]@);
        let time = match parse_u64(tokens[0].as_slice()) {
            Some(v) => v,
            None => { return Err(DecodeError::malformed(Field::Time)); },
        };
        if tokens.len() < 2 {
            return Err(DecodeError::truncated(Field::BeatLength));
        }
        let beat_length = match RealLiteral::parse(tokens[1].as_slice()) {
            Some(v) => v,
            None => { return Err(DecodeError::malformed(Field::BeatLength)); },
        };
        let meter = byte_token_at(&tokens, 2, Field::Meter)?;
        let set = byte_token_at(&tokens, 3, Field::SampleSet)?;
        let sample_set = SampleSet::try_from(set)?;
        let sample_index = byte_token_at(&tokens, 4, Field::SampleIndex)?;
        let volume = byte_token_at(&tokens, 5, Field::Volume)?;
        let uninherited = byte_token_at(&tokens, 6, Field::Uninherited)?;
        let bits = byte_token_at(&tokens, 7, Field::Effects)?;
        let effects = match Effects::from_bits(bits) {
            Some(v) => v,
            None => { return Err(DecodeError::invalid(Field::Effects)); },
        };
        Ok(
            TimingPoint {
                time,
                beat_length,
                meter,
                sample_set,
                sample_index,
                volume,
                uninherited: uninherited == 1,
                effects,
            },
        )
    }

    /// The timing point that the line `value` holds.
    pub fn from_str(value: &str) -> (r: Result<TimingPoint, DecodeError>)
        ensures
            match r {
                Ok(point) => timing_point_of(value@) == Ok::<TimingPointView, DecodeError>(
                    point@,
                ),
                Err(e) => timing_point_of(value@) == Err::<TimingPointView, DecodeError>(e),
            },
    {
        let chars = chars_of(value);
        TimingPoint::from_chars(chars.as_slice())
    }
}

} // verus!
