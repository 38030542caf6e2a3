//! Playback rates, in hundredths.

use vstd::prelude::*;
use vstd::string::*;

use crate::text::{
    chars_of, concat2, concat4, decimal, decimal2, from_range, is_white_space, lemma_trimmed_fixed,
    trim_text, trimmed, u64_text, u64_text2,
};

verus! {

/// A playback rate in hundredths: 150 plays one and a half times as fast.
/// Every rate lies between a half and three and a half.
#[derive(Clone, Copy, Debug, PartialEq, Eq, Hash, PartialOrd, Ord, Structural)]
pub struct PlaybackSpeed {
    rate: u16,
}

/// The range of rates, and a notch of it, in hundredths.
pub const MIN_RATE: u16 = 50;

pub const MAX_RATE: u16 = 350;

pub const NORMAL_RATE: u16 = 100;

pub const RATE_STEP: u16 = 10;

/// A rate forced into the range.
pub open spec fn clamped_rate(h: int) -> int {
    if h < 50 {
        50
    } else if h > 350 {
        350
    } else {
        h
    }
}

/// What a rate is shown as: `1x`, `1.5x`, `1.25x`.
pub open spec fn rate_text(h: nat) -> Seq<char> {
    if h % 100 == 0 {
        decimal(h / 100) + "x"@
    } else if h % 10 == 0 {
        decimal(h / 100) + "."@ + decimal((h % 100) / 10) + "x"@
    } else {
        decimal(h / 100) + "."@ + decimal2(h % 100) + "x"@
    }
}

impl View for PlaybackSpeed {
    type V = int;

    closed spec fn view(&self) -> int {
        self.rate as int
    }
}

impl PlaybackSpeed {
    #[verifier::type_invariant]
    spec fn in_range(&self) -> bool {
        50 <= self.rate <= 350
    }

    /// The normal rate.
    pub fn normal() -> (r: Self)
        ensures
            r@ == 100,
    {
        PlaybackSpeed { rate: NORMAL_RATE }
    }

    /// The slowest rate.
    pub fn min() -> (r: Self)
        ensures
            r@ == 50,
    {
        PlaybackSpeed { rate: MIN_RATE }
    }

    /// The fastest rate.
    pub fn max() -> (r: Self)
        ensures
            r@ == 350,
    {
        PlaybackSpeed { rate: MAX_RATE }
    }

    /// The rate of so many hundredths, forced into the range.
    pub fn from_hundredths(hundredths: i64) -> (r: Self)
        ensures
            r@ == clamped_rate(hundredths as int),
    {
        if hundredths < 50 {
            PlaybackSpeed { rate: MIN_RATE }
        } else if hundredths > 350 {
            PlaybackSpeed { rate: MAX_RATE }
        } else {
            PlaybackSpeed { rate: hundredths as u16 }
        }
    }

    pub fn hundredths(self) -> (r: u16)
        ensures
            r == self@,
            50 <= r <= 350,
    {
        proof {
            use_type_invariant(&self);
        }
        self.rate
    }

    pub fn is_normal(self) -> (r: bool)
        ensures
            r == (self@ == 100),
    {
        self.rate == NORMAL_RATE
    }

    /// One notch faster, up to the fastest rate.
    pub fn faster(self) -> (r: Self)
        ensures
            r@ == clamped_rate(self@ + 10),
            50 <= self@ <= 350,
    {
        proof {
            use_type_invariant(&self);
        }
        let next: u16 = self.rate + RATE_STEP;
        if next > MAX_RATE {
            PlaybackSpeed { rate: MAX_RATE }
        } else {
            PlaybackSpeed { rate: next }
        }
    }

    /// One notch slower, down to the slowest rate.
    pub fn slower(self) -> (r: Self)
        ensures
            r@ == clamped_rate(self@ - 10),
            50 <= self@ <= 350,
    {
        proof {
            use_type_invariant(&self);
        }
        let next: u16 = self.rate.saturating_sub(RATE_STEP);
        if next < MIN_RATE {
            PlaybackSpeed { rate: MIN_RATE }
        } else {
            PlaybackSpeed { rate: next }
        }
    }

    /// What the rate is shown as.
    pub fn label(self) -> (r: String)
        ensures
            r@ == rate_text(self@ as nat),
    {
        let whole: u16 = self.rate / 100;
        let frac: u16 = self.rate % 100;
        let whole_text = u64_text(whole as u64);
        if frac == 0 {
            concat2(whole_text.as_str(), "x")
        } else if frac % 10 == 0 {
            let tenths = u64_text((frac / 10) as u64);
            concat4(whole_text.as_str(), ".", tenths.as_str(), "x")
        } else {
            let digits = u64_text2(frac as u64);
            concat4(whole_text.as_str(), ".", digits.as_str(), "x")
        }
    }
}

impl Default for PlaybackSpeed {
    fn default() -> (r: Self)
        ensures
            r@ == 100,
    {
        PlaybackSpeed::normal()
    }
}

/// A notch up undoes a notch down, and the other way round, wherever the
/// first step did not meet the end of the range.
pub proof fn speed_steps_undo_each_other(h: int)
    requires
        50 <= h <= 350,
    ensures
        h + 10 <= 350 ==> clamped_rate(clamped_rate(h + 10) - 10) == h,
        h - 10 >= 50 ==> clamped_rate(clamped_rate(h - 10) + 10) == h,
{
}

// ---------------------------------------------------------------------------
// Reading a rate
// ---------------------------------------------------------------------------

/// The numeral of a written rate, and whether it counts hundredths: `1.5x`
/// holds `1.5`, `150%` holds the percentage `150`.
#[derive(Clone, Debug, PartialEq, Eq)]
pub struct RateText {
    pub numeral: String,
    pub percent: bool,
}

pub open spec fn is_times_sign(c: char) -> bool {
    c == 'x' || c == 'X' || c == '\u{d7}'
}

/// A text without the times signs at its end.
pub open spec fn drop_times(s: Seq<char>) -> Seq<char>
    decreases s.len(),
{
    if s.len() > 0 && is_times_sign(s.last()) {
        drop_times(s.drop_last())
    } else {
        s
    }
}

/// The numeral and the unit of a written rate.
pub open spec fn rate_parts(s: Seq<char>) -> (Seq<char>, bool) {
    let t = drop_times(trimmed(s));
    if t.len() > 0 && t.last() == '%' {
        (trimmed(t.drop_last()), true)
    } else {
        (t, false)
    }
}

/// Takes a written rate apart: white space around it and times signs behind
/// it are dropped, and a percent sign at its end is its unit.
pub fn split_rate(input: &str) -> (r: RateText)
    ensures
        (r.numeral@, r.percent) == rate_parts(input@),
{
    let t = trim_text(input);
    let v = chars_of(t.as_str());
    let mut j: usize = v.len();
    assert(v@.take(v@.len() as int) =~= v@);
    while j > 0 && (v[j - 1] == 'x' || v[j - 1] == 'X' || v[j - 1] == '\u{d7}')
        invariant
            j <= v@.len(),
            drop_times(v@.take(j as int)) == drop_times(v@),
        decreases j,
    {
        assert(v@.take(j as int).drop_last() =~= v@.take(j as int - 1));
        j = j - 1;
    }
    assert(drop_times(v@) == v@.take(j as int));
    if j > 0 && v[j - 1] == '%' {
        let inner = from_range(v.as_slice(), 0, j - 1);
        assert(inner@ =~= v@.take(j as int).drop_last());
        RateText { numeral: trim_text(inner.as_str()), percent: true }
    } else {
        let inner = from_range(v.as_slice(), 0, j);
        assert(inner@ =~= v@.take(j as int));
        RateText { numeral: inner, percent: false }
    }
}

/// A rate within the range is kept, and one beyond it becomes the nearest end:
/// half the normal rate, or three and a half times it.
pub proof fn rates_are_kept_in_range(h: int)
    ensures
        50 <= clamped_rate(h) <= 350,
        50 <= h <= 350 ==> clamped_rate(h) == h,
        h < 50 ==> clamped_rate(h) == 50,
        h > 350 ==> clamped_rate(h) == 350,
{
}

/// A rate of so many whole, tenths and hundredths is shown with as many
/// decimals as it needs.
pub proof fn rates_are_shown_as_short_as_can_be(whole: nat, tenths: nat, hundredths: nat)
    requires
        tenths < 10,
        hundredths < 10,
    ensures
        ({
            let shown = rate_text(100 * whole + 10 * tenths + hundredths);
            &&& tenths == 0 && hundredths == 0 ==> shown == decimal(whole) + "x"@
            &&& tenths > 0 && hundredths == 0 ==> shown == decimal(whole) + "."@ + decimal(tenths)
                + "x"@
            &&& hundredths > 0 ==> shown == decimal(whole) + "."@ + decimal(tenths) + decimal(
                hundredths,
            ) + "x"@
        }),
{
    let h = 100 * whole + 10 * tenths + hundredths;
    let rest = 10 * tenths + hundredths;
    assert(h / 100 == whole && h % 100 == rest);
    assert(h % 10 == hundredths);
    assert(rest / 10 == tenths && rest % 10 == hundredths);
    if hundredths > 0 {
        assert(decimal2(rest) =~= decimal(tenths) + decimal(hundredths));
        assert(decimal(whole) + "."@ + decimal2(rest) + "x"@ =~= decimal(whole) + "."@ + decimal(
            tenths,
        ) + decimal(hundredths) + "x"@);
    }
}

/// A written rate is its numeral, with a times sign behind it, a percent sign,
/// or nothing; white space around all of it does not matter.
pub proof fn rates_are_read_with_their_unit(numeral: Seq<char>, sign: char, input: Seq<char>)
    requires
        numeral.len() > 0,
        !is_white_space(numeral[0]),
        !is_white_space(numeral.last()),
        numeral.last() != 'x' && numeral.last() != 'X' && numeral.last() != '\u{d7}'
            && numeral.last() != '%',
        sign == 'x' || sign == 'X' || sign == '\u{d7}',
    ensures
        trimmed(input) == numeral ==> rate_parts(input) == (numeral, false),
        trimmed(input) == numeral.push(sign) ==> rate_parts(input) == (numeral, false),
        trimmed(input) == numeral.push('%') ==> rate_parts(input) == (numeral, true),
        trimmed(input) == numeral.push('%').push(sign) ==> rate_parts(input) == (numeral, true),
{
    lemma_trimmed_fixed(numeral);
    assert(drop_times(numeral) == numeral);
    assert(numeral.push(sign).drop_last() =~= numeral);
    assert(numeral.push('%').drop_last() =~= numeral);
    assert(numeral.push('%').push(sign).drop_last() =~= numeral.push('%'));
    assert(drop_times(numeral.push(sign)) == numeral);
    assert(drop_times(numeral.push('%')) == numeral.push('%'));
    assert(drop_times(numeral.push('%').push(sign)) == numeral.push('%'));
}

/// Rates are read, set, stepped and shown as is told of them.
pub proof fn rates_are_set_as_told()
    ensures
        forall|input: &str, answer: RateText|
            #[trigger] call_ensures(split_rate, (input,), answer) ==> {
                &&& (answer.numeral@, answer.percent) == rate_parts(input@)
            },
        forall|hundredths: i64, answer: PlaybackSpeed|
            #[trigger] call_ensures(PlaybackSpeed::from_hundredths, (hundredths,), answer) ==> {
                &&& answer@ == clamped_rate(hundredths as int)
            },
        forall|this: PlaybackSpeed, answer: PlaybackSpeed|
            #[trigger] call_ensures(PlaybackSpeed::faster, (this,), answer) ==> {
                &&& answer@ == clamped_rate(this@ + 10)
                &&& 50 <= this@ <= 350
            },
        forall|this: PlaybackSpeed, answer: PlaybackSpeed|
            #[trigger] call_ensures(PlaybackSpeed::slower, (this,), answer) ==> {
                &&& answer@ == clamped_rate(this@ - 10)
                &&& 50 <= this@ <= 350
            },
        forall|this: PlaybackSpeed, answer: String|
            #[trigger] call_ensures(PlaybackSpeed::label, (this,), answer) ==> {
                &&& answer@ == rate_text(this@ as nat)
            },
{
}

} // verus!
