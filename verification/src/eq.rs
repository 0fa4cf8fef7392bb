//! The equalizer's bands and presets, found by name or number. The gains
//! themselves are floating-point values and are kept by the caller.
use vstd::prelude::*;

use crate::num::{parse_int_spec, parse_usize};
use crate::text::{chars_eq_str, chars_of};

verus! {

/// The number of bands.
pub const EQ_NUM_BANDS: usize = 10;

/// The number of presets.
pub const EQ_NUM_PRESETS: usize = 4;

/// The names of the bands, from the lowest frequency up.
pub open spec fn band_names() -> Seq<Seq<char>> {
    seq![
        "sub"@,
        "bass"@,
        "low_mid"@,
        "mid"@,
        "high_mid"@,
        "presence"@,
        "brilliance"@,
        "air"@,
        "upper"@,
        "super"@,
    ]
}

/// The names of the presets, in the order of their gains.
pub open spec fn preset_names() -> Seq<Seq<char>> {
    seq!["flat"@, "bass_boost"@, "treble_boost"@, "vocal"@]
}

/// The first position of `x` in `names`.
pub open spec fn position_of(names: Seq<Seq<char>>, x: Seq<char>) -> Option<int>
    decreases names.len(),
{
    if names.len() == 0 {
        None
    } else if names[0] == x {
        Some(0)
    } else {
        match position_of(names.drop_first(), x) {
            Some(i) => Some(i + 1),
            None => None,
        }
    }
}

/// The name of band `i`.
pub fn band_name(i: usize) -> (r: &'static str)
    requires
        i < EQ_NUM_BANDS,
    ensures
        r@ == band_names()[i as int],
{
    match i {
        0 => "sub",
        1 => "bass",
        2 => "low_mid",
        3 => "mid",
        4 => "high_mid",
        5 => "presence",
        6 => "brilliance",
        7 => "air",
        8 => "upper",
        _ => "super",
    }
}

/// The name of preset `i`.
pub fn preset_name(i: usize) -> (r: &'static str)
    requires
        i < EQ_NUM_PRESETS,
    ensures
        r@ == preset_names()[i as int],
{
    match i {
        0 => "flat",
        1 => "bass_boost",
        2 => "treble_boost",
        _ => "vocal",
    }
}

fn find_name(names_len: usize, is_band: bool, text: &[char]) -> (r: Option<usize>)
    requires
        is_band ==> names_len == EQ_NUM_BANDS,
        !is_band ==> names_len == EQ_NUM_PRESETS,
    ensures
        ({
            let names = if is_band {
                band_names()
            } else {
                preset_names()
            };
            match position_of(names, text@) {
                Some(i) => r == Some(i as usize),
                None => r is None,
            }
        }),
{
    let ghost names = if is_band {
        band_names()
    } else {
        preset_names()
    };
    assert(names.len() == names_len);
    assert(names.skip(0) =~= names);
    let mut i: usize = 0;
    while i < names_len
        invariant
            names == (if is_band {
                band_names()
            } else {
                preset_names()
            }),
            names.len() == names_len,
            is_band ==> names_len == EQ_NUM_BANDS,
            !is_band ==> names_len == EQ_NUM_PRESETS,
            i <= names_len,
            position_of(names, text@) == match position_of(names.skip(i as int), text@) {
                Some(k) => Some(k + i),
                None => None,
            },
        decreases names_len - i,
    {
        let name = if is_band {
            band_name(i)
        } else {
            preset_name(i)
        };
        assert(names.skip(i as int)[0] == names[i as int]);
        if chars_eq_str(text, name) {
            return Some(i);
        }
        assert(names.skip(i as int).drop_first() =~= names.skip(i + 1));
        i = i + 1;
    }
    None
}

/// The band that `name_or_index` designates: a number below the number of
/// bands, or else the name of a band.
pub fn resolve_band(name_or_index: &str) -> (r: Option<usize>)
    ensures
        match parse_int_spec(name_or_index@, false, 0, usize::MAX as int) {
            Ok(i) => if i < EQ_NUM_BANDS {
                r == Some(i as usize)
            } else {
                r is None
            },
            Err(_) => match position_of(band_names(), name_or_index@) {
                Some(i) => r == Some(i as usize),
                None => r is None,
            },
        },
{
    let text = chars_of(name_or_index);
    match parse_usize(&text) {
        Ok(index) => {
            if index < EQ_NUM_BANDS {
                Some(index)
            } else {
                None
            }
        },
        Err(_) => find_name(EQ_NUM_BANDS, true, &text),
    }
}

/// The preset named `name`.
pub fn find_preset(name: &str) -> (r: Option<usize>)
    ensures
        match position_of(preset_names(), name@) {
            Some(i) => r == Some(i as usize),
            None => r is None,
        },
{
    let text = chars_of(name);
    find_name(EQ_NUM_PRESETS, false, &text)
}

} // verus!
