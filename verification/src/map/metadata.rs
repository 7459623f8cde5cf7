//! The section of metadata.

use vstd::prelude::*;
use crate::error::{malformed, mismatch, DecodeError, Field};
use crate::number::{parse_u64, parsed_u64};
use crate::text::{
    chars_of_all, is_word, key_value, split_key_value, split_words, str_views, string_of, views,
    words,
};

verus! {

/// What the metadata holds.
pub ghost struct MetadataView {
    pub title: Seq<char>,
    pub title_unicode: Seq<char>,
    pub artist: Seq<char>,
    pub artist_unicode: Seq<char>,
    pub creator: Seq<char>,
    pub version: Seq<char>,
    pub source: Seq<char>,
    pub tags: Seq<Seq<char>>,
    pub beatmap_id: u64,
    pub beatmap_set_id: u64,
}

/// The metadata of a beatmap.
#[derive(Debug)]
pub struct Metadata {
    pub title: String,
    pub title_unicode: String,
    pub artist: String,
    pub artist_unicode: String,
    pub creator: String,
    pub version: String,
    pub source: String,
    pub tags: Vec<String>,
    pub beatmap_id: u64,
    pub beatmap_set_id: u64,
}

/// The views of a list of strings.
pub open spec fn string_views(v: Seq<String>) -> Seq<Seq<char>> {
    Seq::new(v.len(), |i: int| v[i]@)
}

impl View for Metadata {
    type V = MetadataView;

    open spec fn view(&self) -> MetadataView {
        MetadataView {
            title: self.title@,
            title_unicode: self.title_unicode@,
            artist: self.artist@,
            artist_unicode: self.artist_unicode@,
            creator: self.creator@,
            version: self.version@,
            source: self.source@,
            tags: string_views(self.tags@),
            beatmap_id: self.beatmap_id,
            beatmap_set_id: self.beatmap_set_id,
        }
    }
}

/// The metadata of a beatmap that sets none.
pub open spec fn metadata_default() -> MetadataView {
    MetadataView {
        title: Seq::empty(),
        title_unicode: Seq::empty(),
        artist: Seq::empty(),
        artist_unicode: Seq::empty(),
        creator: Seq::empty(),
        version: Seq::empty(),
        source: Seq::empty(),
        tags: Seq::empty(),
        beatmap_id: 0,
        beatmap_set_id: 0,
    }
}

/// The metadata `m` after the property `key` has been set to `value`. A key
/// that is not known changes nothing; the tags are the words of the value.
pub open spec fn metadata_set(m: MetadataView, key: Seq<char>, value: Seq<char>) -> Result<
    MetadataView,
    DecodeError,
> {
    if key == "Title"@ {
        Ok(MetadataView { title: value, ..m })
    } else if key == "TitleUnicode"@ {
        Ok(MetadataView { title_unicode: value, ..m })
    } else if key == "Artist"@ {
        Ok(MetadataView { artist: value, ..m })
    } else if key == "ArtistUnicode"@ {
        Ok(MetadataView { artist_unicode: value, ..m })
    } else if key == "Creator"@ {
        Ok(MetadataView { creator: value, ..m })
    } else if key == "Version"@ {
        Ok(MetadataView { version: value, ..m })
    } else if key == "Source"@ {
        Ok(MetadataView { source: value, ..m })
    } else if key == "Tags"@ {
        Ok(MetadataView { tags: words(value), ..m })
    } else if key == "BeatmapID"@ {
        match parsed_u64(value) {
            Some(v) => Ok(MetadataView { beatmap_id: v, ..m }),
            None => Err(malformed(Field::BeatmapId)),
        }
    } else if key == "BeatmapSetID"@ {
        match parsed_u64(value) {
            Some(v) => Ok(MetadataView { beatmap_set_id: v, ..m }),
            None => Err(malformed(Field::BeatmapSetId)),
        }
    } else {
        Ok(m)
    }
}

/// The metadata after the lines from index `i` on have been applied to
/// `acc`, each line a key and a value with a colon between.
pub open spec fn metadata_from(lines: Seq<Seq<char>>, i: int, acc: MetadataView) -> Result<
    MetadataView,
    DecodeError,
>
    decreases lines.len() - i,
{
    if i < 0 || i >= lines.len() {
        Ok(acc)
    } else {
        match key_value(lines[i]) {
            None => Err(mismatch(Field::Property)),
            Some((key, value)) => match metadata_set(acc, key, value) {
                Err(e) => Err(e),
                Ok(next) => metadata_from(lines, i + 1, next),
            },
        }
    }
}

/// The metadata that the lines of the section set.
pub open spec fn metadata_of(lines: Seq<Seq<char>>) -> Result<MetadataView, DecodeError> {
    metadata_from(lines, 0, metadata_default())
}

/// The strings that hold the given texts.
pub fn strings_of(texts: &Vec<Vec<char>>) -> (r: Vec<String>)
    ensures
        string_views(r@) == views(texts@),
{
    let mut out: Vec<String> = Vec::new();
    let mut i: usize = 0;
    while i < texts.len()
        invariant
            i <= texts.len(),
            out@.len() == i,
            forall|j: int| 0 <= j < i ==> (#[trigger] out@[j])@ == texts@[j]@,
        decreases texts.len() - i,
    {
        out.push(string_of(texts[i].as_slice()));
        i += 1;
    }
    assert(string_views(out@) =~= views(texts@));
    out
}

impl Default for Metadata {
    fn default() -> (r: Self)
        ensures
            r@ == metadata_default(),
    {
        let r = Metadata {
            title: String::new(),
            title_unicode: String::new(),
            artist: String::new(),
            artist_unicode: String::new(),
            creator: String::new(),
            version: String::new(),
            source: String::new(),
            tags: Vec::new(),
            beatmap_id: 0,
            beatmap_set_id: 0,
        };
        assert(string_views(r.tags@) =~= Seq::empty());
        r
    }
}

impl Metadata {
    /// This metadata with the property `key` set to `value`.
    #[verifier::rlimit(40)]
    pub fn with(self, key: &[char], value: &[char]) -> (r: Result<Metadata, DecodeError>)
        ensures
            match r {
                Ok(next) => metadata_set(self@, key@, value@) == Ok::<MetadataView, DecodeError>(
                    next@,
                ),
                Err(e) => metadata_set(self@, key@, value@) == Err::<MetadataView, DecodeError>(
                    e,
                ),
            },
    {
        let mut m = self;
        if is_word(key, "Title") {
            m.title = string_of(value);
        } else if is_word(key, "TitleUnicode") {
            m.title_unicode = string_of(value);
        } else if is_word(key, "Artist") {
            m.artist = string_of(value);
        } else if is_word(key, "ArtistUnicode") {
            m.artist_unicode = string_of(value);
        } else if is_word(key, "Creator") {
            m.creator = string_of(value);
        } else if is_word(key, "Version") {
            m.version = string_of(value);
        } else if is_word(key, "Source") {
            m.source = string_of(value);
        } else if is_word(key, "Tags") {
            let tags = split_words(value);
            m.tags = strings_of(&tags);
        } else if is_word(key, "BeatmapID") {
            match parse_u64(value) {
                Some(v) => { m.beatmap_id = v; },
                None => { return Err(DecodeError::malformed(Field::BeatmapId)); },
            }
        } else if is_word(key, "BeatmapSetID") {
            match parse_u64(value) {
                Some(v) => { m.beatmap_set_id = v; },
                None => { return Err(DecodeError::malformed(Field::BeatmapSetId)); },
            }
        }
        Ok(m)
    }

    /// The metadata that the lines of the section set.
    pub fn from_lines(lines: &[Vec<char>]) -> (r: Result<Metadata, DecodeError>)
        ensures
            match r {
                Ok(m) => metadata_of(views(lines@)) == Ok::<MetadataView, DecodeError>(m@),
                Err(e) => metadata_of(views(lines@)) == Err::<MetadataView, DecodeError>(e),
            },
    {
        let mut meta = Metadata::default();
        let mut i: usize = 0;
        while i < lines.len()
            invariant
                i <= lines.len(),
                metadata_of(views(lines@)) == metadata_from(views(lines@), i as int, meta@),
            decreases lines.len() - i,
        {
            assert(views(lines@)[i as int] == lines@[i as int]@);
            match split_key_value(lines[i].as_slice()) {
                None => { return Err(DecodeError::mismatch(Field::Property)); },
                Some((key, value)) => {
                    meta = meta.with(key.as_slice(), value.as_slice())?;
                },
            }
            i += 1;
        }
        Ok(meta)
    }

    /// The metadata that the lines of the section set.
    pub fn from(lines: &[&str]) -> (r: Result<Metadata, DecodeError>)
        ensures
            match r {
                Ok(m) => metadata_of(str_views(lines@)) == Ok::<MetadataView, DecodeError>(m@),
                Err(e) => metadata_of(str_views(lines@)) == Err::<MetadataView, DecodeError>(e),
            },
    {
        let chars = chars_of_all(lines);
        Metadata::from_lines(chars.as_slice())
    }
}

} // verus!
