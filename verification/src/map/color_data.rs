//! The colours of a beatmap: the combo colours, and the two slider colours.

use vstd::prelude::*;
use vstd::string::StringExecFns;
use crate::number::{decimal, decimal_of};
use crate::text::string_of;

verus! {

/// A colour: red, green, blue.
#[derive(Clone, Copy, Debug, Default, PartialEq, Eq, Structural)]
pub struct Color {
    pub r: u8,
    pub g: u8,
    pub b: u8,
}

impl Color {
    /// The colour with the first three numbers of `slice` as red, green and
    /// blue.
    pub fn from(slice: &[u8]) -> (c: Color)
        requires
            slice.len() >= 3,
        ensures
            c == (Color { r: slice[0], g: slice[1], b: slice[2] }),
    {
        Color { r: slice[0], g: slice[1], b: slice[2] }
    }
}

/// What a colour table holds: names and colours, in the order in which they
/// were given.
pub open spec fn table_view(table: Seq<(String, Color)>) -> Seq<(Seq<char>, Color)> {
    Seq::new(table.len(), |i: int| (table[i].0@, table[i].1))
}

/// The colour that a table gives a name: that of the last entry with the name.
pub open spec fn color_named(table: Seq<(Seq<char>, Color)>, name: Seq<char>) -> Option<Color>
    decreases table.len(),
{
    if table.len() == 0 {
        None
    } else if table.last().0 == name {
        Some(table.last().1)
    } else {
        color_named(table.drop_last(), name)
    }
}

/// The name of combo colour `n`.
pub open spec fn combo_name(n: nat) -> Seq<char> {
    "Color"@ + decimal(n)
}

/// The combo colours from number `n` on: those of the names `Color<n>`,
/// `Color<n+1>`, ... for as long as the table holds each of them. The first
/// name that is missing ends the list, whatever names come after it.
pub open spec fn combo_colors_from(table: Seq<(Seq<char>, Color)>, n: nat) -> Seq<Color>
    decreases usize::MAX - n,
{
    if n >= usize::MAX {
        Seq::empty()
    } else {
        match color_named(table, combo_name(n)) {
            None => Seq::empty(),
            Some(color) => seq![color] + combo_colors_from(table, n + 1),
        }
    }
}

/// What the colours of a beatmap hold.
pub ghost struct ColorDataView {
    pub combo_colors: Seq<Color>,
    pub slider_track: Option<Color>,
    pub slider_border: Option<Color>,
}

/// The colours that a table of names and colours stands for.
pub open spec fn color_data_of(table: Seq<(Seq<char>, Color)>) -> ColorDataView {
    ColorDataView {
        combo_colors: combo_colors_from(table, 1),
        slider_track: color_named(table, "SliderTrackOverride"@),
        slider_border: color_named(table, "SliderBorder"@),
    }
}

/// The colours of a beatmap.
#[derive(Debug, Default)]
pub struct ColorData {
    pub combo_colors: Vec<Color>,
    pub slider_track: Option<Color>,
    pub slider_border: Option<Color>,
}

impl View for ColorData {
    type V = ColorDataView;

    open spec fn view(&self) -> ColorDataView {
        ColorDataView {
            combo_colors: self.combo_colors@,
            slider_track: self.slider_track,
            slider_border: self.slider_border,
        }
    }
}

/// The colour that `table` gives `name`.
pub fn find_color(table: &[(String, Color)], name: &String) -> (r: Option<Color>)
    ensures
        r == color_named(table_view(table@), name@),
{
    let ghost whole = table_view(table@);
    let mut i: usize = table.len();
    assert(whole.take(i as int) =~= whole);
    while i > 0
        invariant
            i <= table.len(),
            whole == table_view(table@),
            color_named(whole, name@) == color_named(whole.take(i as int), name@),
        decreases i,
    {
        assert(whole.take(i as int).last() == whole[i - 1]);
        assert(whole.take(i as int).drop_last() =~= whole.take(i - 1));
        if table[i - 1].0 == *name {
            return Some(table[i - 1].1);
        }
        i -= 1;
    }
    None
}

impl ColorData {
    /// The colours that a table of names and colours stands for.
    pub fn from(table: &[(String, Color)]) -> (r: ColorData)
        ensures
            r@ == color_data_of(table_view(table@)),
    {
        let ghost whole = table_view(table@);
        let mut combo_colors: Vec<Color> = Vec::new();
        let mut n: usize = 1;
        let mut done = false;
        assert(combo_colors@ + combo_colors_from(whole, 1) =~= combo_colors_from(whole, 1));
        while !done
            invariant
                1 <= n,
                whole == table_view(table@),
                !done ==> combo_colors_from(whole, 1) == combo_colors@ + combo_colors_from(
                    whole,
                    n as nat,
                ),
                done ==> combo_colors_from(whole, 1) == combo_colors@,
            decreases
                    (if done {
                        0
                    } else {
                        1 + usize::MAX - n
                    }),
        {
            if n == usize::MAX {
                assert(combo_colors@ + Seq::<Color>::empty() =~= combo_colors@);
                done = true;
            } else {
                let mut name = String::from_str("Color");
                let digits = string_of(decimal_of(n as u64).as_slice());
                name.append(digits.as_str());
                match find_color(table, &name) {
                    None => {
                        assert(combo_colors@ + Seq::<Color>::empty() =~= combo_colors@);
                        done = true;
                    },
                    Some(color) => {
                        assert(combo_colors@ + (seq![color] + combo_colors_from(
                            whole,
                            (n + 1) as nat,
                        )) =~= combo_colors@.push(color) + combo_colors_from(
                            whole,
                            (n + 1) as nat,
                        ));
                        combo_colors.push(color);
                        n += 1;
                    },
                }
            }
        }
        let track = String::from_str("SliderTrackOverride");
        let border = String::from_str("SliderBorder");
        ColorData {
            combo_colors,
            slider_track: find_color(table, &track),
            slider_border: find_color(table, &border),
        }
    }
}

/// The combo colours from number `from` on, where the table holds the names
/// for `from` to `last` and lacks the one for `last + 1`.
proof fn lemma_combo_run(table: Seq<(Seq<char>, Color)>, from: nat, last: nat)
    requires
        1 <= from <= last + 1 < usize::MAX,
        forall|n: nat| from <= n <= last ==> color_named(table, #[trigger] combo_name(n)) is Some,
        color_named(table, combo_name(last + 1)) is None,
    ensures
        combo_colors_from(table, from).len() == last + 1 - from,
        forall|n: nat|
            from <= n <= last ==> combo_colors_from(table, from)[n - from] == color_named(
                table,
                #[trigger] combo_name(n),
            )->0,
    decreases last + 1 - from,
{
    if from <= last {
        lemma_combo_run(table, from + 1, last);
        let head = color_named(table, combo_name(from))->0;
        let rest = combo_colors_from(table, from + 1);
        assert(combo_colors_from(table, from) == seq![head] + rest);
        assert forall|n: nat| from <= n <= last implies combo_colors_from(table, from)[n - from]
            == color_named(table, #[trigger] combo_name(n))->0 by {
            if n > from {
                assert((seq![head] + rest)[n - from] == rest[n - (from + 1)]);
            }
        }
    }
}

/// The combo colours end at the first number whose name the table lacks:
/// where it holds the names for 1 to `count` and not the one for
/// `count + 1`, there are exactly `count` combo colours, whatever names of
/// higher numbers it holds.
pub proof fn lemma_combo_colors_stop_at_gap(table: Seq<(Seq<char>, Color)>, count: nat)
    requires
        count + 1 < usize::MAX,
        forall|n: nat| 1 <= n <= count ==> color_named(table, #[trigger] combo_name(n)) is Some,
        color_named(table, combo_name(count + 1)) is None,
    ensures
        color_data_of(table).combo_colors.len() == count,
        forall|n: nat|
            1 <= n <= count ==> color_data_of(table).combo_colors[n - 1] == color_named(
                table,
                #[trigger] combo_name(n),
            )->0,
{
    lemma_combo_run(table, 1, count);
}

} // verus!
