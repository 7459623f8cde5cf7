//! Finding the beatmap that a replay was played on, by the hash that the
//! replay holds of the beatmap's text.

use vstd::prelude::*;
use vstd::string::StringExecFns;
use crate::replay::Replay;

verus! {

/// The MD5 digest of the UTF-8 bytes of a text, as 32 hexadecimal digits in
/// lower case.
pub uninterp spec fn md5_hex(text: Seq<char>) -> Seq<char>;

/// `md5::compute` on the bytes of `text`, with the digest written in lower-case
/// hexadecimal. The digest is a function of the text alone; this gives that
/// function the name `md5_hex` and claims no more of it.
#[verifier::external_body]
fn content_hash(text: &str) -> (r: String)
    ensures
        r@ == md5_hex(text@),
{
    format!("{:x}", md5::compute(text))
}

/// The hash of each of the given beatmap texts.
pub fn map_hashes(maps: &[String]) -> (r: Vec<String>)
    ensures
        r@.len() == maps@.len(),
        forall|i: int| 0 <= i < maps@.len() ==> (#[trigger] r@[i])@ == md5_hex(maps@[i]@),
{
    let mut out: Vec<String> = Vec::new();
    let mut i: usize = 0;
    while i < maps.len()
        invariant
            i <= maps.len(),
            out@.len() == i,
            forall|j: int| 0 <= j < i ==> (#[trigger] out@[j])@ == md5_hex(maps@[j]@),
        decreases maps.len() - i,
    {
        out.push(content_hash(maps[i].as_str()));
        i += 1;
    }
    out
}

/// The index of the first of `hashes` that equals `wanted`.
pub fn find_hash(hashes: &[String], wanted: &str) -> (r: Option<usize>)
    ensures
        match r {
            Some(i) => i < hashes@.len() && hashes@[i as int]@ == wanted@ && forall|j: int|
                0 <= j < i ==> (#[trigger] hashes@[j])@ != wanted@,
            None => forall|j: int| 0 <= j < hashes@.len() ==> (#[trigger] hashes@[j])@ != wanted@,
        },
{
    let target = String::from_str(wanted);
    let mut i: usize = 0;
    while i < hashes.len()
        invariant
            i <= hashes.len(),
            target@ == wanted@,
            forall|j: int| 0 <= j < i ==> (#[trigger] hashes@[j])@ != wanted@,
        decreases hashes.len() - i,
    {
        if hashes[i] == target {
            return Some(i);
        }
        i += 1;
    }
    None
}

/// The index of the first of the beatmap texts `maps` whose hash is the one
/// that `replay` holds; nothing where the replay was played on none of them.
pub fn find_map(replay: &Replay, maps: &[String]) -> (r: Option<usize>)
    ensures
        match r {
            Some(i) => i < maps@.len() && md5_hex(maps@[i as int]@) == replay@.map_md5_hash
                && forall|j: int|
                0 <= j < i ==> md5_hex(#[trigger] maps@[j]@) != replay@.map_md5_hash,
            None => forall|j: int|
                0 <= j < maps@.len() ==> md5_hex(#[trigger] maps@[j]@) != replay@.map_md5_hash,
        },
{
    let hashes = map_hashes(maps);
    let found = find_hash(hashes.as_slice(), replay.map_md5_hash.as_str());
    proof {
        assert forall|j: int| 0 <= j < maps@.len() implies (hashes@[j]@ == md5_hex(
            #[trigger] maps@[j]@,
        )) by {
            assert(hashes@[j]@ == md5_hex(maps@[j]@));
        }
    }
    found
}

} // verus!
