//! The one error type of every decoder.

use vstd::prelude::*;

verus! {

/// Why a decoder gave up.
#[derive(Clone, Copy, Debug, PartialEq, Eq, Structural)]
pub enum ErrorKind {
    /// Fewer bytes or tokens than the format asks for.
    Truncated,
    /// Text that is no UTF-8, a code outside an enumeration, a bit outside a
    /// mask, a payload that does not decompress.
    InvalidEncoding,
    /// A token that should be a number and is none.
    MalformedNumber,
    /// A record whose parts do not fit together.
    StructuralMismatch,
}

/// The field or stage at which a decoder gave up.
#[derive(Clone, Copy, Debug, PartialEq, Eq, Structural)]
pub enum Field {
    // Replay header
    Mode,
    GameVersion,
    MapHash,
    PlayerName,
    ReplayHash,
    Count300,
    Count100,
    Count50,
    CountGeki,
    CountKatu,
    CountMiss,
    TotalScore,
    MaxCombo,
    PerfectCombo,
    Mods,
    LifeBarGraph,
    TimeStamp,
    CompressedLength,
    // Replay frame stream
    ReplayData,
    FrameTimeDelta,
    FrameX,
    FrameY,
    FrameKeys,
    // Replay trailer
    OnlineScoreId,
    TotalHitAccuracy,
    // Hit object
    X,
    Y,
    Timestamp,
    ObjectMeta,
    HitSound,
    HitSample,
    CurveType,
    CurvePoint,
    Slides,
    Length,
    EdgeSounds,
    EdgeSets,
    // Timing point
    Time,
    BeatLength,
    Meter,
    SampleSet,
    SampleIndex,
    Volume,
    Uninherited,
    Effects,
    // General section
    Property,
    AudioLeadIn,
    PreviewTime,
    Countdown,
    StackLeniency,
    LetterboxInBreaks,
    UseSkinSprites,
    OverlayPosition,
    EpilepsyWarning,
    CountdownOffset,
    SpecialStyle,
    WidescreenStoryboard,
    SamplesMatchPlaybackRate,
    // Metadata section
    BeatmapId,
    BeatmapSetId,
    // Difficulty section
    HpDrainRate,
    CircleSize,
    OverallDifficulty,
    ApproachRate,
    SliderMultiplier,
    SliderTickRate,
    // Colours section
    Colour,
}

/// A decoding failure: what went wrong, and where.
#[derive(Clone, Copy, Debug, PartialEq, Eq, Structural)]
pub struct DecodeError {
    pub kind: ErrorKind,
    pub field: Field,
}

/// Too little input for `field`.
pub open spec fn truncated(field: Field) -> DecodeError {
    DecodeError { kind: ErrorKind::Truncated, field }
}

/// `field` holds a value that its encoding does not allow.
pub open spec fn invalid(field: Field) -> DecodeError {
    DecodeError { kind: ErrorKind::InvalidEncoding, field }
}

/// The token of `field` is no number.
pub open spec fn malformed(field: Field) -> DecodeError {
    DecodeError { kind: ErrorKind::MalformedNumber, field }
}

/// The record lacks the part that `field` names.
pub open spec fn mismatch(field: Field) -> DecodeError {
    DecodeError { kind: ErrorKind::StructuralMismatch, field }
}

impl DecodeError {
/// Too little input for `field`.
    pub fn truncated(field: Field) -> (r: DecodeError)
        ensures
            r == truncated(field),
    {
        DecodeError { kind: ErrorKind::Truncated, field }
    }

/// `field` holds a value that its encoding does not allow.
    pub fn invalid(field: Field) -> (r: DecodeError)
        ensures
            r == invalid(field),
    {
        DecodeError { kind: ErrorKind::InvalidEncoding, field }
    }

/// The token of `field` is no number.
    pub fn malformed(field: Field) -> (r: DecodeError)
        ensures
            r == malformed(field),
    {
        DecodeError { kind: ErrorKind::MalformedNumber, field }
    }

/// The record lacks the part that `field` names.
    pub fn mismatch(field: Field) -> (r: DecodeError)
        ensures
            r == mismatch(field),
    {
        DecodeError { kind: ErrorKind::StructuralMismatch, field }
    }
}

} // verus!
