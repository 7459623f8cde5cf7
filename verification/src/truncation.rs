//! What the replay decoder does with a buffer that was cut short: it says
//! that the buffer is truncated, at the field that the cut falls in.

use vstd::prelude::*;
use crate::bytes::{
    byte_read, int_read, lemma_varint_last, long_read, short_read, text_read, varint_last,
    varint_read, varint_value, Read, TEXT_PRESENT,
};
use crate::error::{truncated, DecodeError, Field};
use crate::replay::{
    accuracy_read, counts_read, identity_read, life_bar_read, packed_frames_of, payload_read,
    replay_of, replay_read, score_read, ReplayView,
};

verus! {

/// How a reader of one field fares on a buffer cut to `n` bytes: where the
/// field ends within the `n` bytes it reads what it read from the whole
/// buffer, and where it does not, the field is truncated.
pub open spec fn cut_field<T>(
    whole: Read<T>,
    part: Read<T>,
    pos: usize,
    n: int,
    field: Field,
) -> bool {
    match whole {
        Ok((_, next)) => pos <= next && if next <= n {
            part == whole
        } else {
            part == Err::<(T, usize), DecodeError>(truncated(field))
        },
        Err(_) => true,
    }
}

proof fn lemma_cut_byte(data: Seq<u8>, n: int, pos: usize, field: Field)
    requires
        0 <= n <= data.len() <= usize::MAX,
    ensures
        cut_field(byte_read(data, pos, field), byte_read(data.take(n), pos, field), pos, n, field),
{
}

proof fn lemma_cut_short(data: Seq<u8>, n: int, pos: usize, field: Field)
    requires
        0 <= n <= data.len() <= usize::MAX,
    ensures
        cut_field(
            short_read(data, pos, field),
            short_read(data.take(n), pos, field),
            pos,
            n,
            field,
        ),
{
}

proof fn lemma_cut_int(data: Seq<u8>, n: int, pos: usize, field: Field)
    requires
        0 <= n <= data.len() <= usize::MAX,
    ensures
        cut_field(int_read(data, pos, field), int_read(data.take(n), pos, field), pos, n, field),
{
}

proof fn lemma_cut_long(data: Seq<u8>, n: int, pos: usize, field: Field)
    requires
        0 <= n <= data.len() <= usize::MAX,
    ensures
        cut_field(long_read(data, pos, field), long_read(data.take(n), pos, field), pos, n, field),
{
}

proof fn lemma_varint_last_cut(data: Seq<u8>, n: int, pos: int)
    requires
        0 <= n <= data.len(),
        0 <= pos,
    ensures
        varint_last(data, pos) < n ==> varint_last(data.take(n), pos) == varint_last(data, pos),
        varint_last(data, pos) >= n ==> varint_last(data.take(n), pos) == n,
    decreases data.len() - pos,
{
    if pos < n {
        lemma_varint_last(data, pos);
        if data[pos] >= 0x80 {
            lemma_varint_last_cut(data, n, pos + 1);
            if pos + 1 <= data.len() {
                lemma_varint_last(data, pos + 1);
            }
        }
    } else if pos <= data.len() {
        lemma_varint_last(data, pos);
    }
}

proof fn lemma_varint_value_cut(data: Seq<u8>, n: int, pos: int, count: nat)
    requires
        0 <= pos,
        pos + count <= n <= data.len(),
    ensures
        varint_value(data.take(n), pos, count) == varint_value(data, pos, count),
    decreases count,
{
    if count > 0 {
        lemma_varint_value_cut(data, n, pos, (count - 1) as nat);
    }
}

proof fn lemma_cut_varint(data: Seq<u8>, n: int, pos: usize, field: Field)
    requires
        0 <= n <= data.len() <= usize::MAX,
    ensures
        cut_field(
            varint_read(data, pos, field),
            varint_read(data.take(n), pos, field),
            pos,
            n,
            field,
        ),
{
    lemma_varint_last_cut(data, n, pos as int);
    if pos <= data.len() {
        lemma_varint_last(data, pos as int);
    }
    let last = varint_last(data, pos as int);
    if last < n {
        lemma_varint_value_cut(data, n, pos as int, (last - pos + 1) as nat);
    }
}

proof fn lemma_cut_text(data: Seq<u8>, n: int, pos: usize, field: Field)
    requires
        0 <= n <= data.len() <= usize::MAX,
    ensures
        cut_field(text_read(data, pos, field), text_read(data.take(n), pos, field), pos, n, field),
{
    lemma_cut_byte(data, n, pos, field);
    if text_read(data, pos, field) is Ok {
        let (marker, start) = byte_read(data, pos, field)->Ok_0;
        if marker == TEXT_PRESENT {
            lemma_cut_varint(data, n, start, field);
            let (length, from) = varint_read(data, start, field)->Ok_0;
            let len = length->0;
            if from + len <= n {
                assert(data.take(n).subrange(from as int, from + len) =~= data.subrange(
                    from as int,
                    from + len,
                ));
            }
        }
    }
}

/// The end of what was read.
pub open spec fn end_of<T>(read: Read<T>) -> usize {
    read->Ok_0.1
}

/// The field of the identity of a replay at `pos` that byte `n` lies in.
pub open spec fn identity_field(data: Seq<u8>, pos: usize, n: int) -> Field {
    let p1 = end_of(byte_read(data, pos, Field::Mode));
    let p2 = end_of(int_read(data, p1, Field::GameVersion));
    let p3 = end_of(text_read(data, p2, Field::MapHash));
    let p4 = end_of(text_read(data, p3, Field::PlayerName));
    if n < p1 {
        Field::Mode
    } else if n < p2 {
        Field::GameVersion
    } else if n < p3 {
        Field::MapHash
    } else if n < p4 {
        Field::PlayerName
    } else {
        Field::ReplayHash
    }
}

/// The judgment count at `pos` that byte `n` lies in.
pub open spec fn counts_field(pos: usize, n: int) -> Field {
    if n < pos + 2 {
        Field::Count300
    } else if n < pos + 4 {
        Field::Count100
    } else if n < pos + 6 {
        Field::Count50
    } else if n < pos + 8 {
        Field::CountGeki
    } else if n < pos + 10 {
        Field::CountKatu
    } else {
        Field::CountMiss
    }
}

/// The field of the score at `pos` that byte `n` lies in.
pub open spec fn score_field(pos: usize, n: int) -> Field {
    if n < pos + 4 {
        Field::TotalScore
    } else if n < pos + 6 {
        Field::MaxCombo
    } else if n < pos + 7 {
        Field::PerfectCombo
    } else {
        Field::Mods
    }
}

/// The part of the payload at `pos` that byte `n` lies in: its length, or
/// the compressed frame stream.
pub open spec fn payload_field(pos: usize, n: int) -> Field {
    if n < pos + 4 {
        Field::CompressedLength
    } else {
        Field::ReplayData
    }
}

/// The field of the replay in `data` that byte `n` lies in.
pub open spec fn field_at(data: Seq<u8>, n: int) -> Field {
    let p1 = end_of(identity_read(data, 0));
    let p2 = end_of(counts_read(data, p1));
    let p3 = end_of(score_read(data, p2));
    let p4 = end_of(life_bar_read(data, p3));
    let p5 = end_of(long_read(data, p4, Field::TimeStamp));
    let p6 = end_of(payload_read(data, p5));
    let p7 = end_of(long_read(data, p6, Field::OnlineScoreId));
    if n < p1 {
        identity_field(data, 0, n)
    } else if n < p2 {
        counts_field(p1, n)
    } else if n < p3 {
        score_field(p2, n)
    } else if n < p4 {
        Field::LifeBarGraph
    } else if n < p5 {
        Field::TimeStamp
    } else if n < p6 {
        payload_field(p5, n)
    } else if n < p7 {
        Field::OnlineScoreId
    } else {
        Field::TotalHitAccuracy
    }
}

proof fn lemma_cut_identity(data: Seq<u8>, n: int, pos: usize)
    requires
        0 <= n <= data.len() <= usize::MAX,
    ensures
        cut_field(
            identity_read(data, pos),
            identity_read(data.take(n), pos),
            pos,
            n,
            identity_field(data, pos, n),
        ),
{
    if identity_read(data, pos) is Ok {
        lemma_cut_byte(data, n, pos, Field::Mode);
        let p1 = byte_read(data, pos, Field::Mode)->Ok_0.1;
        lemma_cut_int(data, n, p1, Field::GameVersion);
        let p2 = int_read(data, p1, Field::GameVersion)->Ok_0.1;
        lemma_cut_text(data, n, p2, Field::MapHash);
        let p3 = text_read(data, p2, Field::MapHash)->Ok_0.1;
        lemma_cut_text(data, n, p3, Field::PlayerName);
        let p4 = text_read(data, p3, Field::PlayerName)->Ok_0.1;
        lemma_cut_text(data, n, p4, Field::ReplayHash);
    }
}

proof fn lemma_cut_counts(data: Seq<u8>, n: int, pos: usize)
    requires
        0 <= n <= data.len() <= usize::MAX,
    ensures
        cut_field(
            counts_read(data, pos),
            counts_read(data.take(n), pos),
            pos,
            n,
            counts_field(pos, n),
        ),
{
    if counts_read(data, pos) is Ok {
        lemma_cut_short(data, n, pos, Field::Count300);
        let p1 = short_read(data, pos, Field::Count300)->Ok_0.1;
        lemma_cut_short(data, n, p1, Field::Count100);
        let p2 = short_read(data, p1, Field::Count100)->Ok_0.1;
        lemma_cut_short(data, n, p2, Field::Count50);
        let p3 = short_read(data, p2, Field::Count50)->Ok_0.1;
        lemma_cut_short(data, n, p3, Field::CountGeki);
        let p4 = short_read(data, p3, Field::CountGeki)->Ok_0.1;
        lemma_cut_short(data, n, p4, Field::CountKatu);
        let p5 = short_read(data, p4, Field::CountKatu)->Ok_0.1;
        lemma_cut_short(data, n, p5, Field::CountMiss);
    }
}

proof fn lemma_cut_score(data: Seq<u8>, n: int, pos: usize)
    requires
        0 <= n <= data.len() <= usize::MAX,
    ensures
        cut_field(
            score_read(data, pos),
            score_read(data.take(n), pos),
            pos,
            n,
            score_field(pos, n),
        ),
{
    if score_read(data, pos) is Ok {
        lemma_cut_int(data, n, pos, Field::TotalScore);
        let p1 = int_read(data, pos, Field::TotalScore)->Ok_0.1;
        lemma_cut_short(data, n, p1, Field::MaxCombo);
        let p2 = short_read(data, p1, Field::MaxCombo)->Ok_0.1;
        lemma_cut_byte(data, n, p2, Field::PerfectCombo);
        let p3 = byte_read(data, p2, Field::PerfectCombo)->Ok_0.1;
        lemma_cut_int(data, n, p3, Field::Mods);
    }
}

proof fn lemma_cut_life_bar(data: Seq<u8>, n: int, pos: usize)
    requires
        0 <= n <= data.len() <= usize::MAX,
    ensures
        cut_field(
            life_bar_read(data, pos),
            life_bar_read(data.take(n), pos),
            pos,
            n,
            Field::LifeBarGraph,
        ),
{
    lemma_cut_text(data, n, pos, Field::LifeBarGraph);
}

proof fn lemma_cut_payload(data: Seq<u8>, n: int, pos: usize)
    requires
        0 <= n <= data.len() <= usize::MAX,
    ensures
        cut_field(
            payload_read(data, pos),
            payload_read(data.take(n), pos),
            pos,
            n,
            payload_field(pos, n),
        ),
{
    lemma_cut_int(data, n, pos, Field::CompressedLength);
    if payload_read(data, pos) is Ok {
        let (length, from) = int_read(data, pos, Field::CompressedLength)->Ok_0;
        if from + length <= n {
            assert(data.take(n).subrange(from as int, from + length) =~= data.subrange(
                from as int,
                from + length,
            ));
        }
    }
}

proof fn lemma_cut_accuracy(data: Seq<u8>, n: int, pos: usize, mods: u32)
    requires
        0 <= n <= data.len() <= usize::MAX,
        pos <= n,
    ensures
        cut_field(
            accuracy_read(data, pos, mods),
            accuracy_read(data.take(n), pos, mods),
            pos,
            n,
            Field::TotalHitAccuracy,
        ),
{
    lemma_cut_long(data, n, pos, Field::TotalHitAccuracy);
}

/// A buffer that holds a replay, cut anywhere before the end of the replay,
/// does not decode: the decoder gives no replay, and reports that the field
/// in which the cut falls is truncated.
pub proof fn lemma_truncated_replay(data: Seq<u8>, n: int)
    requires
        data.len() <= usize::MAX,
        replay_read(data) is Ok,
        0 <= n < end_of(replay_read(data)),
    ensures
        replay_of(data.take(n)) == Err::<ReplayView, DecodeError>(truncated(field_at(data, n))),
{
    let part = data.take(n);
    let r1 = identity_read(data, 0);
    assert(r1 is Ok);
    let p1 = r1->Ok_0.1;
    let r2 = counts_read(data, p1);
    assert(r2 is Ok);
    let p2 = r2->Ok_0.1;
    let r3 = score_read(data, p2);
    assert(r3 is Ok);
    let p3 = r3->Ok_0.1;
    let r4 = life_bar_read(data, p3);
    assert(r4 is Ok);
    let p4 = r4->Ok_0.1;
    let r5 = long_read(data, p4, Field::TimeStamp);
    assert(r5 is Ok);
    let p5 = r5->Ok_0.1;
    let r6 = payload_read(data, p5);
    assert(r6 is Ok);
    let p6 = r6->Ok_0.1;
    assert(packed_frames_of(r6->Ok_0.0.1) is Ok);
    let r7 = long_read(data, p6, Field::OnlineScoreId);
    assert(r7 is Ok);
    let p7 = r7->Ok_0.1;
    let r8 = accuracy_read(data, p7, r3->Ok_0.0.3);
    assert(r8 is Ok);
    assert(r8->Ok_0.1 == replay_read(data)->Ok_0.1);
    lemma_cut_identity(data, n, 0);
    lemma_cut_counts(data, n, p1);
    lemma_cut_score(data, n, p2);
    lemma_cut_life_bar(data, n, p3);
    lemma_cut_long(data, n, p4, Field::TimeStamp);
    lemma_cut_payload(data, n, p5);
    lemma_cut_long(data, n, p6, Field::OnlineScoreId);
    let e = Err::<(ReplayView, usize), DecodeError>(truncated(field_at(data, n)));
    if p1 > n {
        assert(replay_read(part) == e);
    } else if p2 > n {
        assert(replay_read(part) == e);
    } else if p3 > n {
        assert(replay_read(part) == e);
    } else if p4 > n {
        assert(replay_read(part) == e);
    } else if p5 > n {
        assert(replay_read(part) == e);
    } else if p6 > n {
        assert(replay_read(part) == e);
    } else if p7 > n {
        assert(replay_read(part) == e);
    } else {
        lemma_cut_accuracy(data, n, p7, r3->Ok_0.0.3);
        assert(replay_read(part) == e);
    }
}

} // verus!
