//! The text beatmap format: sections of lines, each section with a record
//! type of its own.

pub mod color_data;
pub mod difficulty;
pub mod general;
pub mod hit_object;
pub mod metadata;
pub mod timing_point;

use vstd::prelude::*;
use crate::map::color_data::{color_data_of, table_view, Color, ColorData, ColorDataView};
use crate::map::difficulty::{difficulty_default, difficulty_of, Difficulty, DifficultyView};
use crate::map::general::{general_default, general_of, General, GeneralView};
use crate::map::hit_object::{hit_object_of, HitObject, HitObjectView};
use crate::map::metadata::{metadata_default, metadata_of, Metadata, MetadataView};
use crate::map::timing_point::{timing_point_of, TimingPoint, TimingPointView};
use crate::error::{malformed, mismatch, truncated, DecodeError, Field};
use crate::number::{parse_u8, parsed_u8};
use crate::text::{
    chars_of, copy_range, is_word, key_value, lemma_views_push, split, split_chars,
    split_key_value, string_of, trim_chars, trimmed, views,
};

verus! {

/// The lines of a text, each without the white space at its two ends.
pub open spec fn trimmed_lines(text: Seq<char>) -> Seq<Seq<char>> {
    let raw = split(text, '\n');
    Seq::new(raw.len(), |i: int| trimmed(raw[i]))
}

/// Whether a line opens a section: it does where it starts with `[`.
pub open spec fn is_header(line: Seq<char>) -> bool {
    line.len() > 0 && line[0] == '['
}

/// The index of the first line at or after `i` that is `header`, or the
/// number of lines where there is none.
pub open spec fn header_index(lines: Seq<Seq<char>>, header: Seq<char>, i: int) -> int
    decreases lines.len() - i,
{
    if i < 0 || i >= lines.len() {
        lines.len() as int
    } else if lines[i] == header {
        i
    } else {
        header_index(lines, header, i + 1)
    }
}

/// The lines from index `i` up to the next header, without the empty ones,
/// after the lines `acc`.
pub open spec fn body_from(lines: Seq<Seq<char>>, i: int, acc: Seq<Seq<char>>) -> Seq<Seq<char>>
    decreases lines.len() - i,
{
    if i < 0 || i >= lines.len() || is_header(lines[i]) {
        acc
    } else if lines[i].len() == 0 {
        body_from(lines, i + 1, acc)
    } else {
        body_from(lines, i + 1, acc.push(lines[i]))
    }
}

/// The lines of the section that `header` opens: those after the first line
/// that is `header`, up to the next header or the end, without the empty
/// ones. No line where no line is `header`.
pub open spec fn section(lines: Seq<Seq<char>>, header: Seq<char>) -> Seq<Seq<char>> {
    let h = header_index(lines, header, 0);
    if h >= lines.len() {
        Seq::empty()
    } else {
        body_from(lines, h + 1, Seq::empty())
    }
}

/// The timing points of the lines from index `i` on, after the points `acc`.
pub open spec fn timing_points_from(
    lines: Seq<Seq<char>>,
    i: int,
    acc: Seq<TimingPointView>,
) -> Result<Seq<TimingPointView>, DecodeError>
    decreases lines.len() - i,
{
    if i < 0 || i >= lines.len() {
        Ok(acc)
    } else {
        match timing_point_of(lines[i]) {
            Err(e) => Err(e),
            Ok(point) => timing_points_from(lines, i + 1, acc.push(point)),
        }
    }
}

/// The hit objects of the lines from index `i` on, after the objects `acc`.
pub open spec fn hit_objects_from(lines: Seq<Seq<char>>, i: int, acc: Seq<HitObjectView>) -> Result<
    Seq<HitObjectView>,
    DecodeError,
>
    decreases lines.len() - i,
{
    if i < 0 || i >= lines.len() {
        Ok(acc)
    } else {
        match hit_object_of(lines[i]) {
            Err(e) => Err(e),
            Ok(object) => hit_objects_from(lines, i + 1, acc.push(object)),
        }
    }
}

/// The numbers of the parts from index `i` on, after the numbers `acc`.
pub open spec fn components_from(parts: Seq<Seq<char>>, i: int, acc: Seq<u8>) -> Result<
    Seq<u8>,
    DecodeError,
>
    decreases parts.len() - i,
{
    if i < 0 || i >= parts.len() {
        Ok(acc)
    } else {
        match parsed_u8(parts[i]) {
            None => Err(malformed(Field::Colour)),
            Some(v) => components_from(parts, i + 1, acc.push(v)),
        }
    }
}

/// A colour: three or more numbers below 256 with `,` between; the first
/// three are red, green and blue.
pub open spec fn colour_of(value: Seq<char>) -> Result<Color, DecodeError> {
    match components_from(split(value, ','), 0, Seq::empty()) {
        Err(e) => Err(e),
        Ok(parts) => if parts.len() < 3 {
            Err(truncated(Field::Colour))
        } else {
            Ok(Color { r: parts[0], g: parts[1], b: parts[2] })
        },
    }
}

/// A line of the colour section: a name and a colour with a colon between.
pub open spec fn colour_entry(line: Seq<char>) -> Result<(Seq<char>, Color), DecodeError> {
    match key_value(line) {
        None => Err(mismatch(Field::Colour)),
        Some((name, value)) => match colour_of(value) {
            Err(e) => Err(e),
            Ok(color) => Ok((name, color)),
        },
    }
}

/// The colour table of the lines from index `i` on, after the entries `acc`.
pub open spec fn colours_from(
    lines: Seq<Seq<char>>,
    i: int,
    acc: Seq<(Seq<char>, Color)>,
) -> Result<Seq<(Seq<char>, Color)>, DecodeError>
    decreases lines.len() - i,
{
    if i < 0 || i >= lines.len() {
        Ok(acc)
    } else {
        match colour_entry(lines[i]) {
            Err(e) => Err(e),
            Ok(entry) => colours_from(lines, i + 1, acc.push(entry)),
        }
    }
}

/// What a beatmap holds.
pub ghost struct BeatmapView {
    pub general: GeneralView,
    pub metadata: MetadataView,
    pub difficulty: DifficultyView,
    pub timing_points: Seq<TimingPointView>,
    pub color_data: ColorDataView,
    pub hit_objects: Seq<HitObjectView>,
}

/// The beatmap that a text holds. Each of the six sections is looked up by
/// its header; a section that is not there is empty. The first line that
/// cannot be read, in the order general, metadata, difficulty, timing
/// points, hit objects, colours, fails the whole text.
pub open spec fn beatmap_of(text: Seq<char>) -> Result<BeatmapView, DecodeError> {
    let lines = trimmed_lines(text);
    match general_of(section(lines, "[General]"@)) {
        Err(e) => Err(e),
        Ok(general) => match metadata_of(section(lines, "[Metadata]"@)) {
            Err(e) => Err(e),
            Ok(metadata) => match difficulty_of(section(lines, "[Difficulty]"@)) {
                Err(e) => Err(e),
                Ok(difficulty) => match timing_points_from(
                    section(lines, "[TimingPoints]"@),
                    0,
                    Seq::empty(),
                ) {
                    Err(e) => Err(e),
                    Ok(timing_points) => match hit_objects_from(
                        section(lines, "[HitObjects]"@),
                        0,
                        Seq::empty(),
                    ) {
                        Err(e) => Err(e),
                        Ok(hit_objects) => match colours_from(
                            section(lines, "[Colours]"@),
                            0,
                            Seq::empty(),
                        ) {
                            Err(e) => Err(e),
                            Ok(table) => Ok(
                                BeatmapView {
                                    general,
                                    metadata,
                                    difficulty,
                                    timing_points,
                                    color_data: color_data_of(table),
                                    hit_objects,
                                },
                            ),
                        },
                    },
                },
            },
        },
    }
}

/// The views of a list of timing points.
pub open spec fn timing_point_views(points: Seq<TimingPoint>) -> Seq<TimingPointView> {
    Seq::new(points.len(), |i: int| points[i]@)
}

/// The views of a list of hit objects.
pub open spec fn hit_object_views(objects: Seq<HitObject>) -> Seq<HitObjectView> {
    Seq::new(objects.len(), |i: int| objects[i]@)
}

/// A decoded beatmap.
#[derive(Debug)]
pub struct Beatmap {
    general: General,
    metadata: Metadata,
    difficulty: Difficulty,
    timing_points: Vec<TimingPoint>,
    color_data: ColorData,
    hit_objects: Vec<HitObject>,
}

impl View for Beatmap {
    type V = BeatmapView;

    closed spec fn view(&self) -> BeatmapView {
        BeatmapView {
            general: self.general@,
            metadata: self.metadata@,
            difficulty: self.difficulty@,
            timing_points: timing_point_views(self.timing_points@),
            color_data: self.color_data@,
            hit_objects: hit_object_views(self.hit_objects@),
        }
    }
}

/// The lines of `text`, each trimmed.
pub fn lines_of(text: &[char]) -> (r: Vec<Vec<char>>)
    ensures
        views(r@) == trimmed_lines(text@),
{
    let raw = split_chars(text, '\n');
    let mut out: Vec<Vec<char>> = Vec::new();
    let mut i: usize = 0;
    while i < raw.len()
        invariant
            i <= raw.len(),
            views(raw@) == split(text@, '\n'),
            out@.len() == i,
            forall|j: int| 0 <= j < i ==> (#[trigger] out@[j])@ == trimmed(raw@[j]@),
        decreases raw.len() - i,
    {
        out.push(trim_chars(raw[i].as_slice()));
        i += 1;
    }
    assert forall|j: int| 0 <= j < raw@.len() implies views(raw@)[j] == raw@[j]@ by {}
    assert(views(out@) =~= trimmed_lines(text@));
    out
}

/// The lines of the section that `header` opens.
pub fn section_of(lines: &Vec<Vec<char>>, header: &str) -> (r: Vec<Vec<char>>)
    ensures
        views(r@) == section(views(lines@), header@),
{
    let ghost all = views(lines@);
    assert forall|j: int| 0 <= j < lines@.len() implies all[j] == lines@[j]@ by {}
    let mut h: usize = 0;
    while h < lines.len() && !is_word(lines[h].as_slice(), header)
        invariant
            h <= lines.len(),
            all == views(lines@),
            forall|j: int| 0 <= j < lines@.len() ==> all[j] == lines@[j]@,
            header_index(all, header@, 0) == header_index(all, header@, h as int),
        decreases lines.len() - h,
    {
        h += 1;
    }
    let mut out: Vec<Vec<char>> = Vec::new();
    if h >= lines.len() {
        assert(views(out@) =~= Seq::empty());
        return out;
    }
    let mut i: usize = h + 1;
    assert(views(out@) =~= Seq::empty());
    while i < lines.len() && !(lines[i].len() > 0 && lines[i][0] == '[')
        invariant
            h < i <= lines.len(),
            all == views(lines@),
            forall|j: int| 0 <= j < lines@.len() ==> all[j] == lines@[j]@,
            section(all, header@) == body_from(all, i as int, views(out@)),
        decreases lines.len() - i,
    {
        if lines[i].len() > 0 {
            let line = copy_range(lines[i].as_slice(), 0, lines[i].len());
            assert(line@ =~= lines@[i as int]@);
            proof {
                lemma_views_push(out@, line);
            }
            out.push(line);
        }
        i += 1;
    }
    out
}

fn decode_timing_points(lines: &Vec<Vec<char>>) -> (r: Result<Vec<TimingPoint>, DecodeError>)
    ensures
        match r {
            Ok(points) => timing_points_from(views(lines@), 0, Seq::empty()) == Ok::<
                Seq<TimingPointView>,
                DecodeError,
            >(timing_point_views(points@)),
            Err(e) => timing_points_from(views(lines@), 0, Seq::empty()) == Err::<
                Seq<TimingPointView>,
                DecodeError,
            >(e),
        },
{
    let mut points: Vec<TimingPoint> = Vec::new();
    let mut i: usize = 0;
    assert(timing_point_views(points@) =~= Seq::empty());
    while i < lines.len()
        invariant
            i <= lines.len(),
            timing_points_from(views(lines@), 0, Seq::empty()) == timing_points_from(
                views(lines@),
                i as int,
                timing_point_views(points@),
            ),
        decreases lines.len() - i,
    {
        assert(views(lines@)[i as int] == lines@[i as int]@);
        let point = TimingPoint::from_chars(lines[i].as_slice())?;
        assert(timing_point_views(points@.push(point)) =~= timing_point_views(points@).push(
            point@,
        ));
        points.push(point);
        i += 1;
    }
    Ok(points)
}

fn decode_hit_objects(lines: &Vec<Vec<char>>) -> (r: Result<Vec<HitObject>, DecodeError>)
    ensures
        match r {
            Ok(objects) => hit_objects_from(views(lines@), 0, Seq::empty()) == Ok::<
                Seq<HitObjectView>,
                DecodeError,
            >(hit_object_views(objects@)),
            Err(e) => hit_objects_from(views(lines@), 0, Seq::empty()) == Err::<
                Seq<HitObjectView>,
                DecodeError,
            >(e),
        },
{
    let mut objects: Vec<HitObject> = Vec::new();
    let mut i: usize = 0;
    assert(hit_object_views(objects@) =~= Seq::empty());
    while i < lines.len()
        invariant
            i <= lines.len(),
            hit_objects_from(views(lines@), 0, Seq::empty()) == hit_objects_from(
                views(lines@),
                i as int,
                hit_object_views(objects@),
            ),
        decreases lines.len() - i,
    {
        assert(views(lines@)[i as int] == lines@[i as int]@);
        let object = HitObject::from_chars(lines[i].as_slice())?;
        assert(hit_object_views(objects@.push(object)) =~= hit_object_views(objects@).push(
            object@,
        ));
        objects.push(object);
        i += 1;
    }
    Ok(objects)
}

/// The colour that `value` holds.
pub fn decode_colour(value: &[char]) -> (r: Result<Color, DecodeError>)
    ensures
        r == colour_of(value@),
{
    let parts = split_chars(value, ',');
    let mut numbers: Vec<u8> = Vec::new();
    let mut i: usize = 0;
    while i < parts.len()
        invariant
            i <= parts.len(),
            views(parts@) == split(value@, ','),
            components_from(split(value@, ','), 0, Seq::empty()) == components_from(
                views(parts@),
                i as int,
                numbers@,
            ),
        decreases parts.len() - i,
    {
        assert(views(parts@)[i as int] == parts@[i as int]@);
        match parse_u8(parts[i].as_slice()) {
            Some(v) => numbers.push(v),
            None => { return Err(DecodeError::malformed(Field::Colour)); },
        }
        i += 1;
    }
    if numbers.len() < 3 {
        return Err(DecodeError::truncated(Field::Colour));
    }
    Ok(Color::from(numbers.as_slice()))
}

fn decode_colours(lines: &Vec<Vec<char>>) -> (r: Result<Vec<(String, Color)>, DecodeError>)
    ensures
        match r {
            Ok(table) => colours_from(views(lines@), 0, Seq::empty()) == Ok::<
                Seq<(Seq<char>, Color)>,
                DecodeError,
            >(table_view(table@)),
            Err(e) => colours_from(views(lines@), 0, Seq::empty()) == Err::<
                Seq<(Seq<char>, Color)>,
                DecodeError,
            >(e),
        },
{
    let mut table: Vec<(String, Color)> = Vec::new();
    let mut i: usize = 0;
    assert(table_view(table@) =~= Seq::empty());
    while i < lines.len()
        invariant
            i <= lines.len(),
            colours_from(views(lines@), 0, Seq::empty()) == colours_from(
                views(lines@),
                i as int,
                table_view(table@),
            ),
        decreases lines.len() - i,
    {
        assert(views(lines@)[i as int] == lines@[i as int]@);
        match split_key_value(lines[i].as_slice()) {
            None => { return Err(DecodeError::mismatch(Field::Colour)); },
            Some((name, value)) => {
                let color = decode_colour(value.as_slice())?;
                let entry = (string_of(name.as_slice()), color);
                assert(table_view(table@.push(entry)) =~= table_view(table@).push(
                    (name@, color),
                ));
                table.push(entry);
            },
        }
        i += 1;
    }
    Ok(table)
}

impl Default for Beatmap {
    fn default() -> (r: Self)
        ensures
            r@ == (BeatmapView {
                general: general_default(),
                metadata: metadata_default(),
                difficulty: difficulty_default(),
                timing_points: Seq::empty(),
                color_data: color_data_of(Seq::empty()),
                hit_objects: Seq::empty(),
            }),
    {
        let none: Vec<(String, Color)> = Vec::new();
        assert(table_view(none@) =~= Seq::empty());
        let r = Beatmap {
            general: General::default(),
            metadata: Metadata::default(),
            difficulty: Difficulty::default(),
            timing_points: Vec::new(),
            color_data: ColorData::from(none.as_slice()),
            hit_objects: Vec::new(),
        };
        assert(timing_point_views(r.timing_points@) =~= Seq::empty());
        assert(hit_object_views(r.hit_objects@) =~= Seq::empty());
        r
    }
}

impl Beatmap {
    /// The hit objects of the beatmap, in the order of the file.
    pub fn hit_objects(&self) -> (r: &[HitObject])
        ensures
            hit_object_views(r@) == self@.hit_objects,
    {
        self.hit_objects.as_slice()
    }

    /// The general properties of the beatmap.
    pub fn general(&self) -> (r: &General)
        ensures
            r@ == self@.general,
    {
        &self.general
    }

    /// The metadata of the beatmap.
    pub fn metadata(&self) -> (r: &Metadata)
        ensures
            r@ == self@.metadata,
    {
        &self.metadata
    }

    /// The difficulty settings of the beatmap.
    pub fn difficulty(&self) -> (r: &Difficulty)
        ensures
            r@ == self@.difficulty,
    {
        &self.difficulty
    }

    /// The timing points of the beatmap, in the order of the file.
    pub fn timing_points(&self) -> (r: &[TimingPoint])
        ensures
            timing_point_views(r@) == self@.timing_points,
    {
        self.timing_points.as_slice()
    }

    /// The colours of the beatmap.
    pub fn color_data(&self) -> (r: &ColorData)
        ensures
            r@ == self@.color_data,
    {
        &self.color_data
    }

    /// The beatmap that the text `s` holds.
    ///
    /// Succeeds exactly where every line of the six sections can be read;
    /// fails with the kind and the field of the first line that cannot.
    pub fn from_str(s: &str) -> (r: Result<Beatmap, DecodeError>)
        ensures
            match r {
                Ok(map) => beatmap_of(s@) == Ok::<BeatmapView, DecodeError>(map@),
                Err(e) => beatmap_of(s@) == Err::<BeatmapView, DecodeError>(e),
            },
    {
        let text = chars_of(s);
        let lines = lines_of(text.as_slice());
        let general = General::from_lines(section_of(&lines, "[General]").as_slice())?;
        let metadata = Metadata::from_lines(section_of(&lines, "[Metadata]").as_slice())?;
        let difficulty = Difficulty::from_lines(section_of(&lines, "[Difficulty]").as_slice())?;
        let timing_points = decode_timing_points(&section_of(&lines, "[TimingPoints]"))?;
        let hit_objects = decode_hit_objects(&section_of(&lines, "[HitObjects]"))?;
        let table = decode_colours(&section_of(&lines, "[Colours]"))?;
        let color_data = ColorData::from(table.as_slice());
        Ok(Beatmap { general, metadata, difficulty, timing_points, color_data, hit_objects })
    }
}

} // verus!
