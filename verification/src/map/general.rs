//! The section of general properties.

use vstd::prelude::*;
use crate::error::{invalid, malformed, mismatch, DecodeError, Field};
use crate::number::{
    digits_end, is_real_literal, parse_u8, parse_usize, parsed_u8, parsed_usize, RealLiteral,
};
use crate::osu_data::{
    countdown_of, game_mode_of, overlay_position_named, sample_set_named, Countdown, GameMode,
    OverlayPosition, SampleSet,
};
use crate::text::{chars_of_all, is_word, key_value, split_key_value, str_views, string_of, views};

verus! {

/// What the general properties hold.
pub ghost struct GeneralView {
    pub audio_file: Seq<char>,
    pub audio_lead_in: usize,
    pub preview_time: Option<usize>,
    pub countdown: Countdown,
    pub sample_set: SampleSet,
    pub stack_leniency: Seq<char>,
    pub mode: GameMode,
    pub letterbox_in_breaks: bool,
    pub use_skin_sprites: bool,
    pub always_show_playfield: bool,
    pub overlay_position: OverlayPosition,
    pub skin_preference: Option<Seq<char>>,
    pub epilepsy_warning: bool,
    pub countdown_offset: usize,
    pub special_style: bool,
    pub widescreen_storyboard: bool,
    pub samples_match_playback_rate: bool,
}

/// The general properties of a beatmap.
#[derive(Debug)]
pub struct General {
    pub audio_file: String,
    pub audio_lead_in: usize,
    pub preview_time: Option<usize>,
    pub countdown: Countdown,
    pub sample_set: SampleSet,
    pub stack_leniency: RealLiteral,
    pub mode: GameMode,
    pub letterbox_in_breaks: bool,
    pub use_skin_sprites: bool,
    pub always_show_playfield: bool,
    pub overlay_position: OverlayPosition,
    pub skin_preference: Option<String>,
    pub epilepsy_warning: bool,
    pub countdown_offset: usize,
    pub special_style: bool,
    pub widescreen_storyboard: bool,
    pub samples_match_playback_rate: bool,
}

impl View for General {
    type V = GeneralView;

    open spec fn view(&self) -> GeneralView {
        GeneralView {
            audio_file: self.audio_file@,
            audio_lead_in: self.audio_lead_in,
            preview_time: self.preview_time,
            countdown: self.countdown,
            sample_set: self.sample_set,
            stack_leniency: self.stack_leniency@,
            mode: self.mode,
            letterbox_in_breaks: self.letterbox_in_breaks,
            use_skin_sprites: self.use_skin_sprites,
            always_show_playfield: self.always_show_playfield,
            overlay_position: self.overlay_position,
            skin_preference: match self.skin_preference {
                Some(name) => Some(name@),
                None => None,
            },
            epilepsy_warning: self.epilepsy_warning,
            countdown_offset: self.countdown_offset,
            special_style: self.special_style,
            widescreen_storyboard: self.widescreen_storyboard,
            samples_match_playback_rate: self.samples_match_playback_rate,
        }
    }
}

/// The general properties of a beatmap that sets none.
pub open spec fn general_default() -> GeneralView {
    GeneralView {
        audio_file: Seq::empty(),
        audio_lead_in: 0,
        preview_time: None,
        countdown: Countdown::Normal,
        sample_set: SampleSet::Normal,
        stack_leniency: seq!['0', '.', '7'],
        mode: GameMode::Standard,
        letterbox_in_breaks: false,
        use_skin_sprites: false,
        always_show_playfield: false,
        overlay_position: OverlayPosition::NoChange,
        skin_preference: None,
        epilepsy_warning: false,
        countdown_offset: 0,
        special_style: false,
        widescreen_storyboard: false,
        samples_match_playback_rate: false,
    }
}

/// A switch: a number below 256, on where it is not zero.
pub open spec fn flag_of(value: Seq<char>, field: Field) -> Result<bool, DecodeError> {
    match parsed_u8(value) {
        Some(v) => Ok(v != 0),
        None => Err(malformed(field)),
    }
}

/// A count.
pub open spec fn count_of(value: Seq<char>, field: Field) -> Result<usize, DecodeError> {
    match parsed_usize(value) {
        Some(v) => Ok(v),
        None => Err(malformed(field)),
    }
}

/// The general properties `g` after the property `key` has been set to
/// `value`. A key that is not known changes nothing; a known key with a
/// value that cannot be read is an error.
pub open spec fn general_set(g: GeneralView, key: Seq<char>, value: Seq<char>) -> Result<
    GeneralView,
    DecodeError,
> {
    if key == "AudioFilename"@ {
        Ok(GeneralView { audio_file: value, ..g })
    } else if key == "AudioLeadIn"@ {
        match count_of(value, Field::AudioLeadIn) {
            Ok(v) => Ok(GeneralView { audio_lead_in: v, ..g }),
            Err(e) => Err(e),
        }
    } else if key == "PreviewTime"@ {
        if value == "-1"@ {
            Ok(GeneralView { preview_time: None, ..g })
        } else {
            match count_of(value, Field::PreviewTime) {
                Ok(v) => Ok(GeneralView { preview_time: Some(v), ..g }),
                Err(e) => Err(e),
            }
        }
    } else if key == "Countdown"@ {
        match parsed_u8(value) {
            None => Err(malformed(Field::Countdown)),
            Some(code) => match countdown_of(code) {
                None => Err(invalid(Field::Countdown)),
                Some(v) => Ok(GeneralView { countdown: v, ..g }),
            },
        }
    } else if key == "SampleSet"@ {
        match sample_set_named(value) {
            None => Err(invalid(Field::SampleSet)),
            Some(v) => Ok(GeneralView { sample_set: v, ..g }),
        }
    } else if key == "StackLeniency"@ {
        if is_real_literal(value) {
            Ok(GeneralView { stack_leniency: value, ..g })
        } else {
            Err(malformed(Field::StackLeniency))
        }
    } else if key == "Mode"@ {
        match parsed_u8(value) {
            None => Err(malformed(Field::Mode)),
            Some(code) => match game_mode_of(code) {
                None => Err(invalid(Field::Mode)),
                Some(v) => Ok(GeneralView { mode: v, ..g }),
            },
        }
    } else if key == "LetterboxInBreaks"@ {
        match flag_of(value, Field::LetterboxInBreaks) {
            Ok(v) => Ok(GeneralView { letterbox_in_breaks: v, ..g }),
            Err(e) => Err(e),
        }
    } else if key == "UseSkinSprites"@ {
        match flag_of(value, Field::UseSkinSprites) {
            Ok(v) => Ok(GeneralView { use_skin_sprites: v, ..g }),
            Err(e) => Err(e),
        }
    } else if key == "OverlayPosition"@ {
        match overlay_position_named(value) {
            None => Err(invalid(Field::OverlayPosition)),
            Some(v) => Ok(GeneralView { overlay_position: v, ..g }),
        }
    } else if key == "SkinPreference"@ {
        Ok(GeneralView { skin_preference: Some(value), ..g })
    } else if key == "EpilepsyWarning"@ {
        match flag_of(value, Field::EpilepsyWarning) {
            Ok(v) => Ok(GeneralView { epilepsy_warning: v, ..g }),
            Err(e) => Err(e),
        }
    } else if key == "CountdownOffset"@ {
        match count_of(value, Field::CountdownOffset) {
            Ok(v) => Ok(GeneralView { countdown_offset: v, ..g }),
            Err(e) => Err(e),
        }
    } else if key == "SpecialStyle"@ {
        match flag_of(value, Field::SpecialStyle) {
            Ok(v) => Ok(GeneralView { special_style: v, ..g }),
            Err(e) => Err(e),
        }
    } else if key == "WidescreenStoryboard"@ {
        match flag_of(value, Field::WidescreenStoryboard) {
            Ok(v) => Ok(GeneralView { widescreen_storyboard: v, ..g }),
            Err(e) => Err(e),
        }
    } else if key == "SamplesMatchPlaybackRate"@ {
        match flag_of(value, Field::SamplesMatchPlaybackRate) {
            Ok(v) => Ok(GeneralView { samples_match_playback_rate: v, ..g }),
            Err(e) => Err(e),
        }
    } else {
        Ok(g)
    }
}

/// The general properties after the lines from index `i` on have been
/// applied to `acc`, each line a key and a value with a colon between.
pub open spec fn general_from(lines: Seq<Seq<char>>, i: int, acc: GeneralView) -> Result<
    GeneralView,
    DecodeError,
>
    decreases lines.len() - i,
{
    if i < 0 || i >= lines.len() {
        Ok(acc)
    } else {
        match key_value(lines[i]) {
            None => Err(mismatch(Field::Property)),
            Some((key, value)) => match general_set(acc, key, value) {
                Err(e) => Err(e),
                Ok(next) => general_from(lines, i + 1, next),
            },
        }
    }
}

/// The general properties that the lines of the section set.
pub open spec fn general_of(lines: Seq<Seq<char>>) -> Result<GeneralView, DecodeError> {
    general_from(lines, 0, general_default())
}

/// The switch that `value` holds.
pub fn parse_flag(value: &[char], field: Field) -> (r: Result<bool, DecodeError>)
    ensures
        r == flag_of(value@, field),
{
    match parse_u8(value) {
        Some(v) => Ok(v != 0),
        None => Err(DecodeError::malformed(field)),
    }
}

/// The count that `value` holds.
pub fn parse_count(value: &[char], field: Field) -> (r: Result<usize, DecodeError>)
    ensures
        r == count_of(value@, field),
{
    match parse_usize(value) {
        Some(v) => Ok(v),
        None => Err(DecodeError::malformed(field)),
    }
}

fn default_stack_leniency() -> (r: RealLiteral)
    ensures
        r@ == seq!['0', '.', '7'],
{
    let text: [char; 3] = ['0', '.', '7'];
    assert(text@ =~= seq!['0', '.', '7']);
    assert(is_real_literal(text@)) by {
        reveal_with_fuel(digits_end, 4);
    }
    match RealLiteral::parse(text.as_slice()) {
        Some(v) => v,
        None => RealLiteral::zero(),
    }
}

impl Default for General {
    fn default() -> (r: Self)
        ensures
            r@ == general_default(),
    {
        General {
            audio_file: String::new(),
            audio_lead_in: 0,
            preview_time: None,
            countdown: Countdown::Normal,
            sample_set: SampleSet::Normal,
            stack_leniency: default_stack_leniency(),
            mode: GameMode::Standard,
            letterbox_in_breaks: false,
            use_skin_sprites: false,
            always_show_playfield: false,
            overlay_position: OverlayPosition::NoChange,
            skin_preference: None,
            epilepsy_warning: false,
            countdown_offset: 0,
            special_style: false,
            widescreen_storyboard: false,
            samples_match_playback_rate: false,
        }
    }
}

impl General {
    /// These properties with the property `key` set to `value`.
    #[verifier::rlimit(80)]
    pub fn with(self, key: &[char], value: &[char]) -> (r: Result<General, DecodeError>)
        ensures
            match r {
                Ok(next) => general_set(self@, key@, value@) == Ok::<GeneralView, DecodeError>(
                    next@,
                ),
                Err(e) => general_set(self@, key@, value@) == Err::<GeneralView, DecodeError>(e),
            },
    {
        let mut g = self;
        if is_word(key, "AudioFilename") {
            g.audio_file = string_of(value);
        } else if is_word(key, "AudioLeadIn") {
            g.audio_lead_in = parse_count(value, Field::AudioLeadIn)?;
        } else if is_word(key, "PreviewTime") {
            if is_word(value, "-1") {
                g.preview_time = None;
            } else {
                g.preview_time = Some(parse_count(value, Field::PreviewTime)?);
            }
        } else if is_word(key, "Countdown") {
            match parse_u8(value) {
                None => { return Err(DecodeError::malformed(Field::Countdown)); },
                Some(code) => { g.countdown = Countdown::try_from(code)?; },
            }
        } else if is_word(key, "SampleSet") {
            g.sample_set = SampleSet::from_chars(value)?;
        } else if is_word(key, "StackLeniency") {
            match RealLiteral::parse(value) {
                Some(v) => { g.stack_leniency = v; },
                None => { return Err(DecodeError::malformed(Field::StackLeniency)); },
            }
        } else if is_word(key, "Mode") {
            match parse_u8(value) {
                None => { return Err(DecodeError::malformed(Field::Mode)); },
                Some(code) => { g.mode = GameMode::try_from(code)?; },
            }
        } else if is_word(key, "LetterboxInBreaks") {
            g.letterbox_in_breaks = parse_flag(value, Field::LetterboxInBreaks)?;
        } else if is_word(key, "UseSkinSprites") {
            g.use_skin_sprites = parse_flag(value, Field::UseSkinSprites)?;
        } else if is_word(key, "OverlayPosition") {
            g.overlay_position = OverlayPosition::from_chars(value)?;
        } else if is_word(key, "SkinPreference") {
            g.skin_preference = Some(string_of(value));
        } else if is_word(key, "EpilepsyWarning") {
            g.epilepsy_warning = parse_flag(value, Field::EpilepsyWarning)?;
        } else if is_word(key, "CountdownOffset") {
            g.countdown_offset = parse_count(value, Field::CountdownOffset)?;
        } else if is_word(key, "SpecialStyle") {
            g.special_style = parse_flag(value, Field::SpecialStyle)?;
        } else if is_word(key, "WidescreenStoryboard") {
            g.widescreen_storyboard = parse_flag(value, Field::WidescreenStoryboard)?;
        } else if is_word(key, "SamplesMatchPlaybackRate") {
            g.samples_match_playback_rate = parse_flag(value, Field::SamplesMatchPlaybackRate)?;
        }
        Ok(g)
    }

    /// The general properties that the lines of the section set.
    pub fn from_lines(lines: &[Vec<char>]) -> (r: Result<General, DecodeError>)
        ensures
            match r {
                Ok(g) => general_of(views(lines@)) == Ok::<GeneralView, DecodeError>(g@),
                Err(e) => general_of(views(lines@)) == Err::<GeneralView, DecodeError>(e),
            },
    {
        let mut general = General::default();
        let mut i: usize = 0;
        while i < lines.len()
            invariant
                i <= lines.len(),
                general_of(views(lines@)) == general_from(views(lines@), i as int, general@),
            decreases lines.len() - i,
        {
            assert(views(lines@)[i as int] == lines@[i as int]@);
            match split_key_value(lines[i].as_slice()) {
                None => { return Err(DecodeError::mismatch(Field::Property)); },
                Some((key, value)) => {
                    general = general.with(key.as_slice(), value.as_slice())?;
                },
            }
            i += 1;
        }
        Ok(general)
    }

    /// The general properties that the lines of the section set.
    pub fn from(lines: &[&str]) -> (r: Result<General, DecodeError>)
        ensures
            match r {
                Ok(g) => general_of(str_views(lines@)) == Ok::<GeneralView, DecodeError>(g@),
                Err(e) => general_of(str_views(lines@)) == Err::<GeneralView, DecodeError>(e),
            },
    {
        let chars = chars_of_all(lines);
        General::from_lines(chars.as_slice())
    }
}

} // verus!
