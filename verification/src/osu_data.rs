//! The small enumerations and bit sets that both formats share.

use vstd::prelude::*;
use crate::error::{invalid, DecodeError, Field};
use crate::text::{chars_of, is_word};

verus! {

/// How the countdown before the first hit object runs.
#[derive(Clone, Copy, Debug, PartialEq, Eq, Structural)]
pub enum Countdown {
    NoCountdown,
    Normal,
    Half,
    Double,
}

/// The countdown that a code stands for.
pub open spec fn countdown_of(v: u8) -> Option<Countdown> {
    if v == 0 {
        Some(Countdown::NoCountdown)
    } else if v == 1 {
        Some(Countdown::Normal)
    } else if v == 2 {
        Some(Countdown::Half)
    } else if v == 3 {
        Some(Countdown::Double)
    } else {
        None
    }
}

impl Default for Countdown {
    fn default() -> (r: Self)
        ensures
            r == Countdown::Normal,
    {
        Countdown::Normal
    }
}

impl Countdown {
    /// The countdown with code `v`; codes above 3 are refused.
    pub fn try_from(v: u8) -> (r: Result<Countdown, DecodeError>)
        ensures
            r == match countdown_of(v) {
                Some(c) => Ok::<Countdown, DecodeError>(c),
                None => Err(invalid(Field::Countdown)),
            },
    {
        match v {
            0 => Ok(Countdown::NoCountdown),
            1 => Ok(Countdown::Normal),
            2 => Ok(Countdown::Half),
            3 => Ok(Countdown::Double),
            _ => Err(DecodeError::invalid(Field::Countdown)),
        }
    }
}

/// A set of hit-sound samples.
#[derive(Clone, Copy, Debug, PartialEq, Eq, Structural)]
pub enum SampleSet {
    NoSample,
    Normal,
    Soft,
    Drum,
}

/// The sample set that a code stands for.
pub open spec fn sample_set_of(v: u8) -> Option<SampleSet> {
    if v == 0 {
        Some(SampleSet::NoSample)
    } else if v == 1 {
        Some(SampleSet::Normal)
    } else if v == 2 {
        Some(SampleSet::Soft)
    } else if v == 3 {
        Some(SampleSet::Drum)
    } else {
        None
    }
}

/// The sample set that a name stands for.
pub open spec fn sample_set_named(s: Seq<char>) -> Option<SampleSet> {
    if s == "None"@ {
        Some(SampleSet::NoSample)
    } else if s == "Normal"@ {
        Some(SampleSet::Normal)
    } else if s == "Soft"@ {
        Some(SampleSet::Soft)
    } else if s == "Drum"@ {
        Some(SampleSet::Drum)
    } else {
        None
    }
}

impl Default for SampleSet {
    fn default() -> (r: Self)
        ensures
            r == SampleSet::Normal,
    {
        SampleSet::Normal
    }
}

impl SampleSet {
    /// The word for this set in the name of a sample file. A hit object
    /// without a set of its own plays the normal one.
    pub open spec fn rep(self) -> Seq<char> {
        match self {
            SampleSet::NoSample => "normal"@,
            SampleSet::Normal => "normal"@,
            SampleSet::Soft => "soft"@,
            SampleSet::Drum => "drum"@,
        }
    }

    /// The word for this set in the name of a sample file.
    pub fn str_rep(&self) -> (r: &'static str)
        ensures
            r@ == self.rep(),
    {
        match self {
            SampleSet::NoSample => "normal",
            SampleSet::Normal => "normal",
            SampleSet::Soft => "soft",
            SampleSet::Drum => "drum",
        }
    }

    /// The sample set with code `v`; codes above 3 are refused.
    pub fn try_from(v: u8) -> (r: Result<SampleSet, DecodeError>)
        ensures
            r == match sample_set_of(v) {
                Some(s) => Ok::<SampleSet, DecodeError>(s),
                None => Err(invalid(Field::SampleSet)),
            },
    {
        match v {
            0 => Ok(SampleSet::NoSample),
            1 => Ok(SampleSet::Normal),
            2 => Ok(SampleSet::Soft),
            3 => Ok(SampleSet::Drum),
            _ => Err(DecodeError::invalid(Field::SampleSet)),
        }
    }

    /// The sample set that `s` names; any other text is refused.
    pub fn from_chars(s: &[char]) -> (r: Result<SampleSet, DecodeError>)
        ensures
            r == match sample_set_named(s@) {
                Some(v) => Ok::<SampleSet, DecodeError>(v),
                None => Err(invalid(Field::SampleSet)),
            },
    {
        if is_word(s, "None") {
            Ok(SampleSet::NoSample)
        } else if is_word(s, "Normal") {
            Ok(SampleSet::Normal)
        } else if is_word(s, "Soft") {
            Ok(SampleSet::Soft)
        } else if is_word(s, "Drum") {
            Ok(SampleSet::Drum)
        } else {
            Err(DecodeError::invalid(Field::SampleSet))
        }
    }

    /// The sample set that `s` names; any other text is refused.
    pub fn from_str(s: &str) -> (r: Result<SampleSet, DecodeError>)
        ensures
            r == match sample_set_named(s@) {
                Some(v) => Ok::<SampleSet, DecodeError>(v),
                None => Err(invalid(Field::SampleSet)),
            },
    {
        let chars = chars_of(s);
        SampleSet::from_chars(chars.as_slice())
    }
}

/// The bits of a hit-sound byte that have a meaning.
pub const HITSOUND_MASK: u8 = 0b0000_1111;

/// The normal sound.
pub const HITSOUND_NORMAL: u8 = 0b0000_0001;

/// The whistle.
pub const HITSOUND_WHISTLE: u8 = 0b0000_0010;

/// The finish.
pub const HITSOUND_FINISH: u8 = 0b0000_0100;

/// The clap.
pub const HITSOUND_CLAP: u8 = 0b0000_1000;

/// The sounds that a hit object plays: any of normal, whistle, finish, clap.
#[derive(Clone, Copy, Debug, PartialEq, Eq)]
pub struct Hitsound {
    bits: u8,
}

impl View for Hitsound {
    type V = u8;

    closed spec fn view(&self) -> u8 {
        self.bits
    }
}

impl Hitsound {
    #[verifier::type_invariant]
    closed spec fn wf(self) -> bool {
        self.bits & !HITSOUND_MASK == 0
    }

    /// The sounds that the bits of `bits` stand for; a bit outside the four
    /// that have a meaning is refused.
    pub fn from_bits(bits: u8) -> (r: Option<Hitsound>)
        ensures
            r is Some <==> bits & !HITSOUND_MASK == 0,
            r is Some ==> r->0@ == bits,
    {
        if bits & !HITSOUND_MASK == 0 {
            Some(Hitsound { bits })
        } else {
            None
        }
    }

    /// The bits of this set; none lies outside the mask.
    pub fn bits(&self) -> (r: u8)
        ensures
            r == self@,
            r & !HITSOUND_MASK == 0,
    {
        proof {
            use_type_invariant(self);
        }
        self.bits
    }

    /// Whether every sound of `flags` is in this set.
    pub fn contains(&self, flags: u8) -> (r: bool)
        ensures
            r == (self@ & flags == flags),
    {
        self.bits & flags == flags
    }

    /// The name of a set of exactly one sound.
    pub open spec fn rep(self) -> Option<Seq<char>> {
        if self@ == HITSOUND_NORMAL {
            Some("normal"@)
        } else if self@ == HITSOUND_WHISTLE {
            Some("whistle"@)
        } else if self@ == HITSOUND_FINISH {
            Some("finish"@)
        } else if self@ == HITSOUND_CLAP {
            Some("clap"@)
        } else {
            None
        }
    }

    /// The name of the sound, where the set holds exactly one.
    pub fn str_rep(&self) -> (r: Option<&'static str>)
        ensures
            r is Some <==> self.rep() is Some,
            r is Some ==> r->0@ == self.rep()->0,
    {
        if self.bits == HITSOUND_NORMAL {
            Some("normal")
        } else if self.bits == HITSOUND_WHISTLE {
            Some("whistle")
        } else if self.bits == HITSOUND_FINISH {
            Some("finish")
        } else if self.bits == HITSOUND_CLAP {
            Some("clap")
        } else {
            None
        }
    }
}

/// The game mode that a beatmap or a replay was made for.
#[derive(Clone, Copy, Debug, PartialEq, Eq, Structural)]
pub enum GameMode {
    Standard,
    Taiko,
    CatchTheBeat,
    Mania,
}

/// The game mode that a code stands for.
pub open spec fn game_mode_of(v: u8) -> Option<GameMode> {
    if v == 0 {
        Some(GameMode::Standard)
    } else if v == 1 {
        Some(GameMode::Taiko)
    } else if v == 2 {
        Some(GameMode::CatchTheBeat)
    } else if v == 3 {
        Some(GameMode::Mania)
    } else {
        None
    }
}

impl Default for GameMode {
    fn default() -> (r: Self)
        ensures
            r == GameMode::Standard,
    {
        GameMode::Standard
    }
}

impl GameMode {
    /// The game mode with code `v`; codes above 3 are refused.
    pub fn try_from(v: u8) -> (r: Result<GameMode, DecodeError>)
        ensures
            r == match game_mode_of(v) {
                Some(m) => Ok::<GameMode, DecodeError>(m),
                None => Err(invalid(Field::Mode)),
            },
    {
        match v {
            0 => Ok(GameMode::Standard),
            1 => Ok(GameMode::Taiko),
            2 => Ok(GameMode::CatchTheBeat),
            3 => Ok(GameMode::Mania),
            _ => Err(DecodeError::invalid(Field::Mode)),
        }
    }
}

/// Where hit circle overlays are drawn, relative to hit numbers.
#[derive(Clone, Copy, Debug, PartialEq, Eq, Structural)]
pub enum OverlayPosition {
    NoChange,
    Below,
    Above,
}

/// The overlay position that a name stands for.
pub open spec fn overlay_position_named(s: Seq<char>) -> Option<OverlayPosition> {
    if s == "NoChange"@ {
        Some(OverlayPosition::NoChange)
    } else if s == "Below"@ {
        Some(OverlayPosition::Below)
    } else if s == "Above"@ {
        Some(OverlayPosition::Above)
    } else {
        None
    }
}

impl OverlayPosition {
    /// The overlay position that `s` names; any other text is refused.
    pub fn from_chars(s: &[char]) -> (r: Result<OverlayPosition, DecodeError>)
        ensures
            r == match overlay_position_named(s@) {
                Some(v) => Ok::<OverlayPosition, DecodeError>(v),
                None => Err(invalid(Field::OverlayPosition)),
            },
    {
        if is_word(s, "NoChange") {
            Ok(OverlayPosition::NoChange)
        } else if is_word(s, "Below") {
            Ok(OverlayPosition::Below)
        } else if is_word(s, "Above") {
            Ok(OverlayPosition::Above)
        } else {
            Err(DecodeError::invalid(Field::OverlayPosition))
        }
    }

    /// The overlay position that `s` names; any other text is refused.
    pub fn from_str(s: &str) -> (r: Result<OverlayPosition, DecodeError>)
        ensures
            r == match overlay_position_named(s@) {
                Some(v) => Ok::<OverlayPosition, DecodeError>(v),
                None => Err(invalid(Field::OverlayPosition)),
            },
    {
        let chars = chars_of(s);
        OverlayPosition::from_chars(chars.as_slice())
    }
}

} // verus!
