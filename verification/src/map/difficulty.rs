//! The section of difficulty settings.

use vstd::prelude::*;
use crate::error::{malformed, mismatch, DecodeError, Field};
use crate::number::{is_real_literal, RealLiteral};
use crate::text::{chars_of_all, is_word, key_value, split_key_value, str_views, views};

verus! {

/// What the difficulty settings hold.
pub ghost struct DifficultyView {
    pub hp_drain_rate: Seq<char>,
    pub circle_size: Seq<char>,
    pub overall_difficulty: Seq<char>,
    pub approach_rate: Seq<char>,
    pub slider_multiplier: Seq<char>,
    pub slider_tick_rate: Seq<char>,
}

/// The difficulty settings of a beatmap.
#[derive(Debug)]
pub struct Difficulty {
    pub hp_drain_rate: RealLiteral,
    pub circle_size: RealLiteral,
    pub overall_difficulty: RealLiteral,
    pub approach_rate: RealLiteral,
    pub slider_multiplier: RealLiteral,
    pub slider_tick_rate: RealLiteral,
}

impl View for Difficulty {
    type V = DifficultyView;

    open spec fn view(&self) -> DifficultyView {
        DifficultyView {
            hp_drain_rate: self.hp_drain_rate@,
            circle_size: self.circle_size@,
            overall_difficulty: self.overall_difficulty@,
            approach_rate: self.approach_rate@,
            slider_multiplier: self.slider_multiplier@,
            slider_tick_rate: self.slider_tick_rate@,
        }
    }
}

/// The difficulty settings of a beatmap that sets none: every one is zero.
pub open spec fn difficulty_default() -> DifficultyView {
    DifficultyView {
        hp_drain_rate: seq!['0'],
        circle_size: seq!['0'],
        overall_difficulty: seq!['0'],
        approach_rate: seq!['0'],
        slider_multiplier: seq!['0'],
        slider_tick_rate: seq!['0'],
    }
}

/// A setting: the literal of a real number.
pub open spec fn setting_of(value: Seq<char>, field: Field) -> Result<Seq<char>, DecodeError> {
    if is_real_literal(value) {
        Ok(value)
    } else {
        Err(malformed(field))
    }
}

/// The settings `d` after the property `key` has been set to `value`. A key
/// that is not known changes nothing.
pub open spec fn difficulty_set(d: DifficultyView, key: Seq<char>, value: Seq<char>) -> Result<
    DifficultyView,
    DecodeError,
> {
    if key == "HPDrainRate"@ {
        match setting_of(value, Field::HpDrainRate) {
            Ok(v) => Ok(DifficultyView { hp_drain_rate: v, ..d }),
            Err(e) => Err(e),
        }
    } else if key == "CircleSize"@ {
        match setting_of(value, Field::CircleSize) {
            Ok(v) => Ok(DifficultyView { circle_size: v, ..d }),
            Err(e) => Err(e),
        }
    } else if key == "OverallDifficulty"@ {
        match setting_of(value, Field::OverallDifficulty) {
            Ok(v) => Ok(DifficultyView { overall_difficulty: v, ..d }),
            Err(e) => Err(e),
        }
    } else if key == "ApproachRate"@ {
        match setting_of(value, Field::ApproachRate) {
            Ok(v) => Ok(DifficultyView { approach_rate: v, ..d }),
            Err(e) => Err(e),
        }
    } else if key == "SliderMultiplier"@ {
        match setting_of(value, Field::SliderMultiplier) {
            Ok(v) => Ok(DifficultyView { slider_multiplier: v, ..d }),
            Err(e) => Err(e),
        }
    } else if key == "SliderTickRate"@ {
        match setting_of(value, Field::SliderTickRate) {
            Ok(v) => Ok(DifficultyView { slider_tick_rate: v, ..d }),
            Err(e) => Err(e),
        }
    } else {
        Ok(d)
    }
}

/// The settings after the lines from index `i` on have been applied to
/// `acc`, each line a key and a value with a colon between.
pub open spec fn difficulty_from(lines: Seq<Seq<char>>, i: int, acc: DifficultyView) -> Result<
    DifficultyView,
    DecodeError,
>
    decreases lines.len() - i,
{
    if i < 0 || i >= lines.len() {
        Ok(acc)
    } else {
        match key_value(lines[i]) {
            None => Err(mismatch(Field::Property)),
            Some((key, value)) => match difficulty_set(acc, key, value) {
                Err(e) => Err(e),
                Ok(next) => difficulty_from(lines, i + 1, next),
            },
        }
    }
}

/// The difficulty settings that the lines of the section set.
pub open spec fn difficulty_of(lines: Seq<Seq<char>>) -> Result<DifficultyView, DecodeError> {
    difficulty_from(lines, 0, difficulty_default())
}

/// The setting that `value` holds.
pub fn parse_setting(value: &[char], field: Field) -> (r: Result<RealLiteral, DecodeError>)
    ensures
        match r {
            Ok(v) => setting_of(value@, field) == Ok::<Seq<char>, DecodeError>(v@),
            Err(e) => setting_of(value@, field) == Err::<Seq<char>, DecodeError>(e),
        },
{
    match RealLiteral::parse(value) {
        Some(v) => Ok(v),
        None => Err(DecodeError::malformed(field)),
    }
}

impl Default for Difficulty {
    fn default() -> (r: Self)
        ensures
            r@ == difficulty_default(),
    {
        Difficulty {
            hp_drain_rate: RealLiteral::zero(),
            circle_size: RealLiteral::zero(),
            overall_difficulty: RealLiteral::zero(),
            approach_rate: RealLiteral::zero(),
            slider_multiplier: RealLiteral::zero(),
            slider_tick_rate: RealLiteral::zero(),
        }
    }
}

impl Difficulty {
    /// These settings with the property `key` set to `value`.
    #[verifier::rlimit(40)]
    pub fn with(self, key: &[char], value: &[char]) -> (r: Result<Difficulty, DecodeError>)
        ensures
            match r {
                Ok(next) => difficulty_set(self@, key@, value@) == Ok::<
                    DifficultyView,
                    DecodeError,
                >(next@),
                Err(e) => difficulty_set(self@, key@, value@) == Err::<
                    DifficultyView,
                    DecodeError,
                >(e),
            },
    {
        let mut d = self;
        if is_word(key, "HPDrainRate") {
            d.hp_drain_rate = parse_setting(value, Field::HpDrainRate)?;
        } else if is_word(key, "CircleSize") {
            d.circle_size = parse_setting(value, Field::CircleSize)?;
        } else if is_word(key, "OverallDifficulty") {
            d.overall_difficulty = parse_setting(value, Field::OverallDifficulty)?;
        } else if is_word(key, "ApproachRate") {
            d.approach_rate = parse_setting(value, Field::ApproachRate)?;
        } else if is_word(key, "SliderMultiplier") {
            d.slider_multiplier = parse_setting(value, Field::SliderMultiplier)?;
        } else if is_word(key, "SliderTickRate") {
            d.slider_tick_rate = parse_setting(value, Field::SliderTickRate)?;
        }
        Ok(d)
    }

    /// The difficulty settings that the lines of the section set.
    pub fn from_lines(lines: &[Vec<char>]) -> (r: Result<Difficulty, DecodeError>)
        ensures
            match r {
                Ok(d) => difficulty_of(views(lines@)) == Ok::<DifficultyView, DecodeError>(d@),
                Err(e) => difficulty_of(views(lines@)) == Err::<DifficultyView, DecodeError>(e),
            },
    {
        let mut diff = Difficulty::default();
        let mut i: usize = 0;
        while i < lines.len()
            invariant
                i <= lines.len(),
                difficulty_of(views(lines@)) == difficulty_from(views(lines@), i as int, diff@),
            decreases lines.len() - i,
        {
            assert(views(lines@)[i as int] == lines@[i as int]@);
            match split_key_value(lines[i].as_slice()) {
                None => { return Err(DecodeError::mismatch(Field::Property)); },
                Some((key, value)) => {
                    diff = diff.with(key.as_slice(), value.as_slice())?;
                },
            }
            i += 1;
        }
        Ok(diff)
    }

    /// The difficulty settings that the lines of the section set.
    pub fn from(lines: &[&str]) -> (r: Result<Difficulty, DecodeError>)
        ensures
            match r {
                Ok(d) => difficulty_of(str_views(lines@)) == Ok::<DifficultyView, DecodeError>(
                    d@,
                ),
                Err(e) => difficulty_of(str_views(lines@)) == Err::<DifficultyView, DecodeError>(
                    e,
                ),
            },
    {
        let chars = chars_of_all(lines);
        Difficulty::from_lines(chars.as_slice())
    }
}

} // verus!
