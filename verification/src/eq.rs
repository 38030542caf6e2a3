//! The ten-band equalizer: presets, curves and the cycle through them.
//!
//! Gains are whole tenths of a decibel.

use vstd::prelude::*;
use vstd::string::*;

use crate::text::{
    lower_char, lowered, opt_str, opt_text, opt_view, same_ignoring_case, trim_text, trimmed,
};

verus! {

pub const EQ_BAND_COUNT: usize = 10;

/// The limits of a gain, in tenths of a decibel.
pub const EQ_MIN_TENTHS: i16 = -120;

pub const EQ_MAX_TENTHS: i16 = 120;

/// How many presets there are.
pub const EQ_PRESET_COUNT: usize = 16;

/// The centre frequencies of the bands, in Hz.
pub fn eq_frequencies_hz() -> (r: [u32; 10])
    ensures
        r@ == seq![
            70u32,
            180u32,
            320u32,
            600u32,
            1000u32,
            3000u32,
            6000u32,
            12000u32,
            14000u32,
            16000u32,
        ],
{
    let r: [u32; 10] = [70, 180, 320, 600, 1000, 3000, 6000, 12000, 14000, 16000];
    assert(r@ =~= seq![
        70u32,
        180u32,
        320u32,
        600u32,
        1000u32,
        3000u32,
        6000u32,
        12000u32,
        14000u32,
        16000u32,
    ]);
    r
}

// ---------------------------------------------------------------------------
// Presets
// ---------------------------------------------------------------------------

/// The names of the presets.
pub open spec fn preset_name(i: int) -> Seq<char> {
    if i == 0 {
        "Flat"@
    } else if i == 1 {
        "Rock"@
    } else if i == 2 {
        "Pop"@
    } else if i == 3 {
        "Jazz"@
    } else if i == 4 {
        "Classical"@
    } else if i == 5 {
        "Bass Boost"@
    } else if i == 6 {
        "Treble Boost"@
    } else if i == 7 {
        "Vocal"@
    } else if i == 8 {
        "Electronic"@
    } else if i == 9 {
        "Acoustic"@
    } else if i == 10 {
        "Hip-Hop"@
    } else if i == 11 {
        "R&B"@
    } else if i == 12 {
        "Loudness"@
    } else if i == 13 {
        "Late Night"@
    } else if i == 14 {
        "Podcast"@
    } else {
        "Small Speakers"@
    }
}

/// The gains of the presets, band by band.
pub open spec fn preset_bands(i: int) -> Seq<i16> {
    if i == 0 {
        seq![0i16, 0i16, 0i16, 0i16, 0i16, 0i16, 0i16, 0i16, 0i16, 0i16]
    } else if i == 1 {
        seq![50i16, 40i16, 20i16, -10i16, -20i16, 20i16, 40i16, 50i16, 50i16, 50i16]
    } else if i == 2 {
        seq![-10i16, 20i16, 40i16, 50i16, 40i16, 10i16, -10i16, -10i16, 10i16, 20i16]
    } else if i == 3 {
        seq![30i16, 40i16, 20i16, 10i16, -10i16, -10i16, 10i16, 20i16, 30i16, 40i16]
    } else if i == 4 {
        seq![30i16, 20i16, 10i16, 0i16, -10i16, -10i16, 0i16, 20i16, 30i16, 40i16]
    } else if i == 5 {
        seq![80i16, 60i16, 40i16, 20i16, 0i16, 0i16, 0i16, 0i16, 0i16, 0i16]
    } else if i == 6 {
        seq![0i16, 0i16, 0i16, 0i16, 0i16, 10i16, 30i16, 50i16, 60i16, 70i16]
    } else if i == 7 {
        seq![-20i16, -10i16, 10i16, 40i16, 50i16, 40i16, 20i16, 0i16, -10i16, -20i16]
    } else if i == 8 {
        seq![60i16, 40i16, 10i16, -10i16, -20i16, 10i16, 30i16, 40i16, 50i16, 60i16]
    } else if i == 9 {
        seq![30i16, 30i16, 20i16, 0i16, 10i16, 20i16, 30i16, 30i16, 20i16, 10i16]
    } else if i == 10 {
        seq![70i16, 50i16, 30i16, 10i16, -10i16, -10i16, 10i16, 30i16, 30i16, 30i16]
    } else if i == 11 {
        seq![40i16, 60i16, 30i16, 10i16, -10i16, 10i16, 20i16, 20i16, 10i16, 0i16]
    } else if i == 12 {
        seq![60i16, 40i16, 10i16, 0i16, -20i16, -10i16, 10i16, 40i16, 50i16, 50i16]
    } else if i == 13 {
        seq![50i16, 30i16, 10i16, 0i16, -20i16, -10i16, 0i16, 20i16, 30i16, 30i16]
    } else if i == 14 {
        seq![-30i16, -10i16, 20i16, 40i16, 40i16, 30i16, 10i16, -10i16, -20i16, -30i16]
    } else {
        seq![70i16, 50i16, 40i16, 20i16, 10i16, 0i16, -10i16, 0i16, 10i16, 20i16]
    }
}

/// The name of a preset.
pub fn preset_name_at(i: usize) -> (r: &'static str)
    requires
        i < 16,
    ensures
        r@ == preset_name(i as int),
{
    if i == 0 {
        "Flat"
    } else if i == 1 {
        "Rock"
    } else if i == 2 {
        "Pop"
    } else if i == 3 {
        "Jazz"
    } else if i == 4 {
        "Classical"
    } else if i == 5 {
        "Bass Boost"
    } else if i == 6 {
        "Treble Boost"
    } else if i == 7 {
        "Vocal"
    } else if i == 8 {
        "Electronic"
    } else if i == 9 {
        "Acoustic"
    } else if i == 10 {
        "Hip-Hop"
    } else if i == 11 {
        "R&B"
    } else if i == 12 {
        "Loudness"
    } else if i == 13 {
        "Late Night"
    } else if i == 14 {
        "Podcast"
    } else {
        "Small Speakers"
    }
}

/// The gains of a preset.
pub fn preset_bands_at(i: usize) -> (r: [i16; 10])
    requires
        i < 16,
    ensures
        r@ == preset_bands(i as int),
{
    let r: [i16; 10] = if i == 0 {
        [0, 0, 0, 0, 0, 0, 0, 0, 0, 0]
    } else if i == 1 {
        [50, 40, 20, -10, -20, 20, 40, 50, 50, 50]
    } else if i == 2 {
        [-10, 20, 40, 50, 40, 10, -10, -10, 10, 20]
    } else if i == 3 {
        [30, 40, 20, 10, -10, -10, 10, 20, 30, 40]
    } else if i == 4 {
        [30, 20, 10, 0, -10, -10, 0, 20, 30, 40]
    } else if i == 5 {
        [80, 60, 40, 20, 0, 0, 0, 0, 0, 0]
    } else if i == 6 {
        [0, 0, 0, 0, 0, 10, 30, 50, 60, 70]
    } else if i == 7 {
        [-20, -10, 10, 40, 50, 40, 20, 0, -10, -20]
    } else if i == 8 {
        [60, 40, 10, -10, -20, 10, 30, 40, 50, 60]
    } else if i == 9 {
        [30, 30, 20, 0, 10, 20, 30, 30, 20, 10]
    } else if i == 10 {
        [70, 50, 30, 10, -10, -10, 10, 30, 30, 30]
    } else if i == 11 {
        [40, 60, 30, 10, -10, 10, 20, 20, 10, 0]
    } else if i == 12 {
        [60, 40, 10, 0, -20, -10, 10, 40, 50, 50]
    } else if i == 13 {
        [50, 30, 10, 0, -20, -10, 0, 20, 30, 30]
    } else if i == 14 {
        [-30, -10, 20, 40, 40, 30, 10, -10, -20, -30]
    } else {
        [70, 50, 40, 20, 10, 0, -10, 0, 10, 20]
    };
    assert(r@ =~= preset_bands(i as int));
    r
}

/// Preset names differ from one another even where case is ignored.
pub proof fn preset_names_are_distinct(i: int, j: int)
    requires
        0 <= i < 16,
        0 <= j < 16,
        i != j,
    ensures
        lowered(preset_name(i)) != lowered(preset_name(j)),
{
    reveal_strlit("Flat");
    reveal_strlit("Rock");
    reveal_strlit("Pop");
    reveal_strlit("Jazz");
    reveal_strlit("Classical");
    reveal_strlit("Bass Boost");
    reveal_strlit("Treble Boost");
    reveal_strlit("Vocal");
    reveal_strlit("Electronic");
    reveal_strlit("Acoustic");
    reveal_strlit("Hip-Hop");
    reveal_strlit("R&B");
    reveal_strlit("Loudness");
    reveal_strlit("Late Night");
    reveal_strlit("Podcast");
    reveal_strlit("Small Speakers");
    let a = lowered(preset_name(i));
    let b = lowered(preset_name(j));
    assert(a.len() == preset_name(i).len());
    assert(b.len() == preset_name(j).len());
    assert(a[0] == lower_char(preset_name(i)[0]));
    assert(b[0] == lower_char(preset_name(j)[0]));
}

/// Every preset has ten gains within the limits.
pub proof fn preset_bands_are_in_range(i: int, k: int)
    requires
        0 <= i < 16,
        0 <= k < 10,
    ensures
        preset_bands(i).len() == 10,
        -120 <= preset_bands(i)[k] <= 120,
{
}

// ---------------------------------------------------------------------------
// Curves
// ---------------------------------------------------------------------------

/// Ten gains.
#[derive(Clone, Copy, Debug, PartialEq, Eq, Hash)]
pub struct EqBands {
    gains: [i16; 10],
}

impl View for EqBands {
    type V = Seq<i16>;

    closed spec fn view(&self) -> Seq<i16> {
        self.gains@
    }
}

impl EqBands {
    /// Gains that are in tenths already.
    pub fn from_tenths(tenths: [i16; 10]) -> (r: Self)
        ensures
            r@ == tenths@,
    {
        EqBands { gains: tenths }
    }

    pub fn tenths(self) -> (r: [i16; 10])
        ensures
            r@ == self@,
    {
        self.gains
    }

    /// Gains of a caller, which have to be ten, and each within the limits: a
    /// partial curve is a mistake, and clamping one would hide it.
    pub fn from_gains(gains: &[i64]) -> (r: Option<Self>)
        ensures
            r is Some <==> gains@.len() == 10 && forall|k: int|
                0 <= k < 10 ==> -120 <= #[trigger] gains@[k] <= 120,
            r matches Some(bands) ==> bands@.len() == 10 && forall|k: int|
                0 <= k < 10 ==> #[trigger] bands@[k] == gains@[k],
    {
        if gains.len() != 10 {
            return None;
        }
        let mut out: [i16; 10] = [0; 10];
        let mut i: usize = 0;
        while i < 10
            invariant
                i <= 10,
                gains@.len() == 10,
                forall|k: int|
                    0 <= k < i ==> EQ_MIN_TENTHS <= #[trigger] gains@[k] <= EQ_MAX_TENTHS,
                forall|k: int| 0 <= k < i ==> #[trigger] out@[k] == gains@[k],
            decreases 10 - i,
        {
            let gain: i64 = gains[i];
            if gain < -120 || gain > 120 {
                return None;
            }
            out[i] = gain as i16;
            i = i + 1;
        }
        Some(EqBands { gains: out })
    }
}

/// A gain forced into the limits.
pub open spec fn clamped_gain(tenths: int) -> int {
    if tenths < -120 {
        -120
    } else if tenths > 120 {
        120
    } else {
        tenths
    }
}

/// A gain forced into the limits, for a caller that steps a band.
pub fn clamp_band_tenths(tenths: i64) -> (r: i16)
    ensures
        r == clamped_gain(tenths as int),
{
    if tenths < -120 {
        -120
    } else if tenths > 120 {
        120
    } else {
        tenths as i16
    }
}

/// A curve and the preset that it came from, if it came from one.
#[derive(Clone, Debug, PartialEq, Eq, Hash)]
pub struct EqSettings {
    preset: Option<String>,
    bands: [i16; 10],
}

/// A curve as plain values.
pub struct EqModel {
    pub preset: Option<Seq<char>>,
    pub bands: Seq<i16>,
}

impl View for EqSettings {
    type V = EqModel;

    closed spec fn view(&self) -> EqModel {
        EqModel { preset: opt_text(self.preset), bands: self.bands@ }
    }
}

/// The curve of a preset.
pub open spec fn preset_curve(i: int) -> EqModel {
    EqModel { preset: Some(preset_name(i)), bands: preset_bands(i) }
}

/// The first preset from `from` on whose name is the given one, case ignored;
/// 16 where there is none.
pub open spec fn preset_index_from(name: Seq<char>, from: int) -> int
    decreases 16 - from,
{
    if from >= 16 || lowered(preset_name(from)) == lowered(name) {
        from
    } else {
        preset_index_from(name, from + 1)
    }
}

/// The preset of that name, case ignored; 16 where there is none.
pub open spec fn preset_index(name: Seq<char>) -> int {
    preset_index_from(name, 0)
}

fn find_preset(name: &str) -> (r: usize)
    ensures
        r == preset_index(name@),
        r <= 16,
{
    let mut i: usize = 0;
    while i < 16 && !same_ignoring_case(preset_name_at(i), name)
        invariant
            i <= 16,
            preset_index(name@) == preset_index_from(name@, i as int),
        decreases 16 - i,
    {
        i = i + 1;
    }
    i
}

/// The curve behind a preset in the cycle. A curve of no preset steps to the
/// first.
pub open spec fn next_curve(preset: Option<Seq<char>>) -> EqModel {
    let index = match preset {
        Some(name) => if preset_index(name) < 16 {
            preset_index(name)
        } else {
            15
        },
        None => 15,
    };
    preset_curve((index + 1) % 16)
}

fn preset_settings(i: usize) -> (r: EqSettings)
    requires
        i < 16,
    ensures
        r@ == preset_curve(i as int),
{
    EqSettings { preset: Some(preset_name_at(i).to_owned()), bands: preset_bands_at(i) }
}

impl EqSettings {
    /// The curve that changes nothing.
    pub fn flat() -> (r: Self)
        ensures
            r@ == preset_curve(0),
    {
        preset_settings(0)
    }

    /// The preset of that name; white space around it and case do not matter.
    pub fn from_preset(name: &str) -> (r: Option<Self>)
        ensures
            opt_view(r) == if preset_index(trimmed(name@)) < 16 {
                Some(preset_curve(preset_index(trimmed(name@))))
            } else {
                None
            },
    {
        let wanted = trim_text(name);
        let i: usize = find_preset(wanted.as_str());
        if i < 16 {
            Some(preset_settings(i))
        } else {
            None
        }
    }

    /// A curve of the user's own.
    pub fn from_bands(bands: EqBands) -> (r: Self)
        ensures
            r@ == (EqModel { preset: None, bands: bands@ }),
    {
        EqSettings { preset: None, bands: bands.tenths() }
    }

    /// A curve as it was stored. The name it was stored under need not be one
    /// of a preset any more.
    pub fn from_parts(preset: Option<String>, bands: EqBands) -> (r: Self)
        ensures
            r@ == (EqModel { preset: opt_text(preset), bands: bands@ }),
    {
        EqSettings { preset, bands: bands.tenths() }
    }

    pub fn preset(&self) -> (r: Option<&str>)
        ensures
            opt_str(r) == self@.preset,
    {
        match &self.preset {
            Some(name) => Some(name.as_str()),
            None => None,
        }
    }

    pub fn bands(&self) -> (r: EqBands)
        ensures
            r@ == self@.bands,
    {
        EqBands { gains: self.bands }
    }

    pub fn bands_tenths(&self) -> (r: [i16; 10])
        ensures
            r@ == self@.bands,
    {
        self.bands
    }

    /// Whether no band changes anything.
    pub fn is_flat(&self) -> (r: bool)
        ensures
            r == (forall|k: int| 0 <= k < 10 ==> #[trigger] self@.bands[k] == 0),
            self@.bands.len() == 10,
    {
        let mut i: usize = 0;
        while i < 10
            invariant
                i <= 10,
                forall|k: int| 0 <= k < i ==> #[trigger] self@.bands[k] == 0,
            decreases 10 - i,
        {
            if self.bands[i] != 0 {
                assert(self@.bands[i as int] != 0);
                return false;
            }
            i = i + 1;
        }
        true
    }

    /// The curve with one band set, forced into the limits; it is no preset
    /// any more. A band that does not exist changes no gain.
    pub fn with_band_tenths(&self, index: usize, tenths: i64) -> (r: Self)
        ensures
            r@.preset is None,
            r@.bands == if index < 10 {
                self@.bands.update(index as int, clamped_gain(tenths as int) as i16)
            } else {
                self@.bands
            },
    {
        let mut bands: [i16; 10] = self.bands;
        if index < 10 {
            bands[index] = clamp_band_tenths(tenths);
        }
        EqSettings { preset: None, bands }
    }

    /// The next preset in the cycle.
    pub fn next_preset(&self) -> (r: Self)
        ensures
            r@ == next_curve(self@.preset),
    {
        let index: usize = match &self.preset {
            Some(name) => {
                let i: usize = find_preset(name.as_str());
                if i < 16 {
                    i
                } else {
                    15
                }
            },
            None => 15,
        };
        preset_settings((index + 1) % 16)
    }

    /// The name of the preset, or `Custom`.
    pub fn label(&self) -> (r: &str)
        ensures
            r@ == match self@.preset {
                Some(name) => name,
                None => "Custom"@,
            },
    {
        match &self.preset {
            Some(name) => name.as_str(),
            None => "Custom",
        }
    }
}

impl Default for EqSettings {
    fn default() -> (r: Self)
        ensures
            r@ == preset_curve(0),
    {
        EqSettings::flat()
    }
}

// ---------------------------------------------------------------------------
// Laws
// ---------------------------------------------------------------------------

proof fn lemma_preset_index(i: int, from: int)
    requires
        0 <= from <= i < 16,
    ensures
        preset_index_from(preset_name(i), from) == i,
    decreases i - from,
{
    if from < i {
        preset_names_are_distinct(from, i);
        lemma_preset_index(i, from + 1);
    }
}

/// Every preset is found under its own name.
pub proof fn presets_are_found_by_name(i: int)
    requires
        0 <= i < 16,
    ensures
        preset_index(preset_name(i)) == i,
{
    lemma_preset_index(i, 0);
}

/// The cycle visits the presets in their order and wraps; a custom curve
/// leaves it for the first preset and is never come back to.
pub proof fn presets_cycle_in_order(i: int)
    requires
        0 <= i < 16,
    ensures
        next_curve(preset_curve(i).preset) == preset_curve((i + 1) % 16),
        next_curve(None) == preset_curve(0),
        next_curve(preset_curve(i).preset).preset is Some,
{
    presets_are_found_by_name(i);
}

/// The curve after so many steps of the cycle.
pub open spec fn curve_after(curve: EqModel, steps: nat) -> EqModel
    decreases steps,
{
    if steps == 0 {
        curve
    } else {
        next_curve(curve_after(curve, (steps - 1) as nat).preset)
    }
}

proof fn lemma_curve_after(i: int, steps: nat)
    requires
        0 <= i < 16,
    ensures
        curve_after(preset_curve(i), steps) == preset_curve((i + steps) % 16),
    decreases steps,
{
    if steps > 0 {
        let k = (i + steps - 1) % 16;
        lemma_curve_after(i, (steps - 1) as nat);
        presets_cycle_in_order(k);
    }
}

/// Sixteen steps of the cycle come back to where they started.
pub proof fn preset_cycle_returns(i: int)
    requires
        0 <= i < 16,
    ensures
        curve_after(preset_curve(i), 16) == preset_curve(i),
{
    lemma_curve_after(i, 16);
}

/// A gain within the limits is kept, and one beyond them becomes the limit:
/// twelve decibels either way, in tenths.
pub proof fn gains_are_kept_in_range(tenths: int)
    ensures
        -120 <= clamped_gain(tenths) <= 120,
        -120 <= tenths <= 120 ==> clamped_gain(tenths) == tenths,
        tenths < -120 ==> clamped_gain(tenths) == -120,
        tenths > 120 ==> clamped_gain(tenths) == 120,
{
}

proof fn lemma_preset_index_from(name: Seq<char>, from: int)
    requires
        0 <= from <= 16,
    ensures
        from <= preset_index_from(name, from) <= 16,
        preset_index_from(name, from) < 16 ==> lowered(
            preset_name(preset_index_from(name, from)),
        ) == lowered(name),
        forall|k: int|
            from <= k < preset_index_from(name, from) ==> lowered(#[trigger] preset_name(k))
                != lowered(name),
    decreases 16 - from,
{
    if from < 16 && lowered(preset_name(from)) != lowered(name) {
        lemma_preset_index_from(name, from + 1);
    }
}

/// A name finds the preset that is named so, whatever the case of its letters,
/// and one that no preset has finds none.
pub proof fn names_find_their_preset(name: Seq<char>)
    ensures
        0 <= preset_index(name) <= 16,
        preset_index(name) < 16 ==> lowered(preset_name(preset_index(name))) == lowered(name),
        preset_index(name) == 16 <==> forall|k: int|
            0 <= k < 16 ==> lowered(#[trigger] preset_name(k)) != lowered(name),
{
    lemma_preset_index_from(name, 0);
    if preset_index(name) < 16 {
        let k = preset_index(name);
        assert(lowered(preset_name(k)) == lowered(name));
    }
}

/// The curve behind a named preset is the next in the list, behind the last
/// one the first; a name that no preset has, or none, steps to the first.
pub proof fn the_cycle_goes_on_from_the_name(preset: Option<Seq<char>>, i: int)
    requires
        0 <= i < 16,
    ensures
        preset is Some && lowered(preset->0) == lowered(preset_name(i)) && i < 15 ==> next_curve(
            preset,
        ).preset == Some(preset_name(i + 1)) && next_curve(preset).bands == preset_bands(i + 1),
        preset is Some && lowered(preset->0) == lowered(preset_name(15)) ==> next_curve(
            preset,
        ).preset == Some(preset_name(0)) && next_curve(preset).bands == preset_bands(0),
        preset is None ==> next_curve(preset).preset == Some(preset_name(0)),
        preset is Some && (forall|k: int|
            0 <= k < 16 ==> lowered(#[trigger] preset_name(k)) != lowered(preset->0)) ==> next_curve(
            preset,
        ).preset == Some(preset_name(0)),
{
    if preset is Some {
        let name = preset->0;
        names_find_their_preset(name);
        let found = preset_index(name);
        if lowered(name) == lowered(preset_name(i)) {
            if found < 16 && found != i {
                preset_names_are_distinct(found, i);
            }
            assert(found == i);
        }
        if lowered(name) == lowered(preset_name(15)) {
            if found < 16 && found != 15 {
                preset_names_are_distinct(found, 15);
            }
            assert(found == 15);
        }
    }
}

/// The presets and their curves, band by band from the lowest on.
pub proof fn presets_have_their_curves()
    ensures
        preset_curve(0) == (EqModel {
            preset: Some("Flat"@),
            bands: seq![0i16, 0i16, 0i16, 0i16, 0i16, 0i16, 0i16, 0i16, 0i16, 0i16],
        }),
        preset_curve(1) == (EqModel {
            preset: Some("Rock"@),
            bands: seq![50i16, 40i16, 20i16, -10i16, -20i16, 20i16, 40i16, 50i16, 50i16, 50i16],
        }),
        preset_curve(2) == (EqModel {
            preset: Some("Pop"@),
            bands: seq![-10i16, 20i16, 40i16, 50i16, 40i16, 10i16, -10i16, -10i16, 10i16, 20i16],
        }),
        preset_curve(3) == (EqModel {
            preset: Some("Jazz"@),
            bands: seq![30i16, 40i16, 20i16, 10i16, -10i16, -10i16, 10i16, 20i16, 30i16, 40i16],
        }),
        preset_curve(4) == (EqModel {
            preset: Some("Classical"@),
            bands: seq![30i16, 20i16, 10i16, 0i16, -10i16, -10i16, 0i16, 20i16, 30i16, 40i16],
        }),
        preset_curve(5) == (EqModel {
            preset: Some("Bass Boost"@),
            bands: seq![80i16, 60i16, 40i16, 20i16, 0i16, 0i16, 0i16, 0i16, 0i16, 0i16],
        }),
        preset_curve(6) == (EqModel {
            preset: Some("Treble Boost"@),
            bands: seq![0i16, 0i16, 0i16, 0i16, 0i16, 10i16, 30i16, 50i16, 60i16, 70i16],
        }),
        preset_curve(7) == (EqModel {
            preset: Some("Vocal"@),
            bands: seq![-20i16, -10i16, 10i16, 40i16, 50i16, 40i16, 20i16, 0i16, -10i16, -20i16],
        }),
        preset_curve(8) == (EqModel {
            preset: Some("Electronic"@),
            bands: seq![60i16, 40i16, 10i16, -10i16, -20i16, 10i16, 30i16, 40i16, 50i16, 60i16],
        }),
        preset_curve(9) == (EqModel {
            preset: Some("Acoustic"@),
            bands: seq![30i16, 30i16, 20i16, 0i16, 10i16, 20i16, 30i16, 30i16, 20i16, 10i16],
        }),
        preset_curve(10) == (EqModel {
            preset: Some("Hip-Hop"@),
            bands: seq![70i16, 50i16, 30i16, 10i16, -10i16, -10i16, 10i16, 30i16, 30i16, 30i16],
        }),
        preset_curve(11) == (EqModel {
            preset: Some("R&B"@),
            bands: seq![40i16, 60i16, 30i16, 10i16, -10i16, 10i16, 20i16, 20i16, 10i16, 0i16],
        }),
        preset_curve(12) == (EqModel {
            preset: Some("Loudness"@),
            bands: seq![60i16, 40i16, 10i16, 0i16, -20i16, -10i16, 10i16, 40i16, 50i16, 50i16],
        }),
        preset_curve(13) == (EqModel {
            preset: Some("Late Night"@),
            bands: seq![50i16, 30i16, 10i16, 0i16, -20i16, -10i16, 0i16, 20i16, 30i16, 30i16],
        }),
        preset_curve(14) == (EqModel {
            preset: Some("Podcast"@),
            bands: seq![-30i16, -10i16, 20i16, 40i16, 40i16, 30i16, 10i16, -10i16, -20i16, -30i16],
        }),
        preset_curve(15) == (EqModel {
            preset: Some("Small Speakers"@),
            bands: seq![70i16, 50i16, 40i16, 20i16, 10i16, 0i16, -10i16, 0i16, 10i16, 20i16],
        }),
{
}

/// Gains and presets are taken as is told of them.
pub proof fn curves_are_chosen_as_told()
    ensures
        forall|tenths: i64, answer: i16|
            #[trigger] call_ensures(clamp_band_tenths, (tenths,), answer) ==> {
                &&& answer == clamped_gain(tenths as int)
            },
        forall|gains: &[i64], answer: Option<EqBands>|
            #[trigger] call_ensures(EqBands::from_gains, (gains,), answer) ==> {
                &&& answer is Some <==> gains@.len() == 10 && forall|k: int|
                    0 <= k < 10 ==> -120 <= #[trigger] gains@[k] <= 120
                &&& answer matches Some(bands) ==> bands@.len() == 10 && forall|k: int|
                    0 <= k < 10 ==> #[trigger] bands@[k] == gains@[k]
            },
        forall|name: &str, answer: Option<EqSettings>|
            #[trigger] call_ensures(EqSettings::from_preset, (name,), answer) ==> {
                &&& opt_view(answer) == if preset_index(trimmed(name@)) < 16 {
                    Some(preset_curve(preset_index(trimmed(name@))))
                } else {
                    None
                }
            },
        forall|this: &EqSettings, answer: EqSettings|
            #[trigger] call_ensures(EqSettings::next_preset, (this,), answer) ==> {
                &&& answer@ == next_curve(this@.preset)
            },
{
}

} // verus!
