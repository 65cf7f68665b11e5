//! Texts and colours for numbers.

use crate::double::Double;
use crate::text::{decimal, decimal_text, digit_char, signed_decimal, signed_decimal_text};
use vstd::arithmetic::power2::{lemma2_to64, lemma_pow2_unfold, pow2};
use vstd::prelude::*;
use vstd::string::*;

verus! {

/// A colour by its red, green and blue parts.
#[derive(Clone, Copy, Debug, PartialEq, Eq, Structural)]
pub struct Rgb {
    pub red: u8,
    pub green: u8,
    pub blue: u8,
}

/// The colour of what is up.
pub open spec fn spec_green() -> Rgb {
    Rgb { red: 0, green: 200, blue: 80 }
}

/// The colour of what is up.
#[verifier::when_used_as_spec(spec_green)]
pub fn green() -> (r: Rgb)
    ensures
        r == spec_green(),
{
    Rgb { red: 0, green: 200, blue: 80 }
}

/// The colour of what is down.
pub open spec fn spec_red() -> Rgb {
    Rgb { red: 255, green: 80, blue: 80 }
}

/// The colour of what is down.
#[verifier::when_used_as_spec(spec_red)]
pub fn red() -> (r: Rgb)
    ensures
        r == spec_red(),
{
    Rgb { red: 255, green: 80, blue: 80 }
}

/// The colour of a change: green from zero on, red below it and for what is not a
/// number.
pub open spec fn color_of_change(x: Double) -> Rgb {
    if Double::zero().le(x) {
        green()
    } else {
        red()
    }
}

/// The colour of a change.
pub fn change_color(x: Double) -> (r: Rgb)
    ensures
        r == color_of_change(x),
{
    if x.is_at_least(Double::zero()) {
        green()
    } else {
        red()
    }
}

/// Which of three descending levels a number reaches first: 0 for the highest, 3
/// where it reaches none.
pub open spec fn band(x: Double, high: Double, middle: Double, low: Double) -> int {
    if high.le(x) {
        0
    } else if middle.le(x) {
        1
    } else if low.le(x) {
        2
    } else {
        3
    }
}

fn band_of(x: Double, high: Double, middle: Double, low: Double) -> (r: u8)
    ensures
        r == band(x, high, middle, low),
        r <= 3,
{
    if x.is_at_least(high) {
        0
    } else if x.is_at_least(middle) {
        1
    } else if x.is_at_least(low) {
        2
    } else {
        3
    }
}

/// The levels of volatility: 0.05, 0.03 and 0.01.
pub open spec fn volatility_band(vol: Double) -> int {
    band(
        vol,
        Double { bits: 0x3FA9_9999_9999_999A },
        Double { bits: 0x3F9E_B851_EB85_1EB8 },
        Double { bits: 0x3F84_7AE1_47AE_147B },
    )
}

/// The colour of a volatility: hot, warm, mild or cool.
pub open spec fn color_of_volatility(vol: Double) -> Rgb {
    let b = volatility_band(vol);
    if b == 0 {
        Rgb { red: 255, green: 80, blue: 80 }
    } else if b == 1 {
        Rgb { red: 255, green: 180, blue: 0 }
    } else if b == 2 {
        Rgb { red: 200, green: 200, blue: 100 }
    } else {
        Rgb { red: 150, green: 150, blue: 150 }
    }
}

/// The colour of a volatility: hot, warm, mild or cool.
pub fn volatility_color(vol: Double) -> (r: Rgb)
    ensures
        r == color_of_volatility(vol),
{
    match band_of(
        vol,
        Double { bits: 0x3FA9_9999_9999_999A },
        Double { bits: 0x3F9E_B851_EB85_1EB8 },
        Double { bits: 0x3F84_7AE1_47AE_147B },
    ) {
        0 => Rgb { red: 255, green: 80, blue: 80 },
        1 => Rgb { red: 255, green: 180, blue: 0 },
        2 => Rgb { red: 200, green: 200, blue: 100 },
        _ => Rgb { red: 150, green: 150, blue: 150 },
    }
}

/// The levels of a score: 80, 60 and 40.
pub open spec fn score_band(score: Double) -> int {
    band(
        score,
        Double { bits: 0x4054_0000_0000_0000 },
        Double { bits: 0x404E_0000_0000_0000 },
        Double { bits: 0x4044_0000_0000_0000 },
    )
}

/// The colour of a score.
pub open spec fn color_of_score(score: Double) -> Rgb {
    let b = score_band(score);
    if b == 0 {
        Rgb { red: 0, green: 255, blue: 100 }
    } else if b == 1 {
        Rgb { red: 180, green: 220, blue: 0 }
    } else if b == 2 {
        Rgb { red: 200, green: 200, blue: 100 }
    } else {
        Rgb { red: 150, green: 150, blue: 150 }
    }
}

/// The colour of a score.
pub fn score_color(score: Double) -> (r: Rgb)
    ensures
        r == color_of_score(score),
{
    match band_of(
        score,
        Double { bits: 0x4054_0000_0000_0000 },
        Double { bits: 0x404E_0000_0000_0000 },
        Double { bits: 0x4044_0000_0000_0000 },
    ) {
        0 => Rgb { red: 0, green: 255, blue: 100 },
        1 => Rgb { red: 180, green: 220, blue: 0 },
        2 => Rgb { red: 200, green: 200, blue: 100 },
        _ => Rgb { red: 150, green: 150, blue: 150 },
    }
}

/// The levels of a price: 1000, 1 and 0.01.
pub open spec fn price_band(price: Double) -> int {
    band(
        price,
        Double { bits: 0x408F_4000_0000_0000 },
        Double { bits: 0x3FF0_0000_0000_0000 },
        Double { bits: 0x3F84_7AE1_47AE_147B },
    )
}

/// How many decimals a price is shown with: the smaller it is, the more.
pub fn price_decimals(price: Double) -> (r: usize)
    ensures
        r == 2 + 2 * price_band(price),
{
    match band_of(
        price,
        Double { bits: 0x408F_4000_0000_0000 },
        Double { bits: 0x3FF0_0000_0000_0000 },
        Double { bits: 0x3F84_7AE1_47AE_147B },
    ) {
        0 => 2,
        1 => 4,
        2 => 6,
        _ => 8,
    }
}

/// The unit in which a volume is shown.
#[derive(Clone, Copy, Debug, PartialEq, Eq, Structural)]
pub enum VolumeUnit {
    Billions,
    Millions,
    Thousands,
    Ones,
}

/// The unit in which a volume is shown: the largest of which there is at least one.
pub open spec fn unit_of_volume(vol: Double) -> VolumeUnit {
    let b = band(
        vol,
        Double { bits: 0x41CD_CD65_0000_0000 },
        Double { bits: 0x412E_8480_0000_0000 },
        Double { bits: 0x408F_4000_0000_0000 },
    );
    if b == 0 {
        VolumeUnit::Billions
    } else if b == 1 {
        VolumeUnit::Millions
    } else if b == 2 {
        VolumeUnit::Thousands
    } else {
        VolumeUnit::Ones
    }
}

/// The unit in which a volume is shown.
pub fn volume_unit(vol: Double) -> (r: VolumeUnit)
    ensures
        r == unit_of_volume(vol),
{
    match band_of(
        vol,
        Double { bits: 0x41CD_CD65_0000_0000 },
        Double { bits: 0x412E_8480_0000_0000 },
        Double { bits: 0x408F_4000_0000_0000 },
    ) {
        0 => VolumeUnit::Billions,
        1 => VolumeUnit::Millions,
        2 => VolumeUnit::Thousands,
        _ => VolumeUnit::Ones,
    }
}

impl VolumeUnit {
    /// How many ones the unit holds.
    pub open spec fn size(self) -> nat {
        match self {
            VolumeUnit::Billions => 1_000_000_000,
            VolumeUnit::Millions => 1_000_000,
            VolumeUnit::Thousands => 1_000,
            VolumeUnit::Ones => 1,
        }
    }

    /// How many ones the unit holds.
    pub fn ones(&self) -> (r: u64)
        ensures
            r == self.size(),
    {
        match self {
            VolumeUnit::Billions => 1_000_000_000,
            VolumeUnit::Millions => 1_000_000,
            VolumeUnit::Thousands => 1_000,
            VolumeUnit::Ones => 1,
        }
    }

    /// How many decimals a volume in this unit is shown with.
    pub fn decimals(&self) -> (r: usize)
        ensures
            r == if *self == VolumeUnit::Ones {
                0usize
            } else {
                1usize
            },
    {
        match self {
            VolumeUnit::Ones => 0,
            _ => 1,
        }
    }

    /// What stands behind a volume in this unit.
    pub fn suffix(&self) -> (r: &'static str)
        ensures
            r@ == match self {
                VolumeUnit::Billions => "B"@,
                VolumeUnit::Millions => "M"@,
                VolumeUnit::Thousands => "K"@,
                VolumeUnit::Ones => ""@,
            },
    {
        match self {
            VolumeUnit::Billions => "B",
            VolumeUnit::Millions => "M",
            VolumeUnit::Thousands => "K",
            VolumeUnit::Ones => "",
        }
    }
}

/// `n / d` rounded to the nearest whole number, halves to the even one.
pub open spec fn nearest(n: nat, d: nat) -> nat
    recommends
        d > 0,
{
    let q = n / d;
    let twice = 2 * (n % d);
    if twice < d || (twice == d && q % 2 == 0) {
        q
    } else {
        q + 1
    }
}

/// The distance of the doubles around `n`, found by doubling from `step`: the
/// smallest one at which 53 bits reach beyond `n`.
pub open spec fn spacing(n: nat, step: nat) -> nat
    decreases n - step,
{
    if step == 0 || n < 0x20_0000_0000_0000 * step {
        step
    } else {
        spacing(n, 2 * step)
    }
}

/// The double nearest to a whole number.
pub open spec fn as_double(n: nat) -> nat {
    nearest(n, spacing(n, 1)) * spacing(n, 1)
}

/// A whole number below 2^53 is a double itself.
pub proof fn small_numbers_are_doubles(n: nat)
    requires
        n < 0x20_0000_0000_0000,
    ensures
        as_double(n) == n,
{
    let one = spacing(n, 1);
    assert(n / one == n && n % one == 0 && n * one == n) by (nonlinear_arith)
        requires
            one == 1,
    ;
}

/// A number of bytes in a unit, with one decimal.
pub open spec fn in_unit(bytes: nat, unit: nat, suffix: Seq<char>) -> Seq<char> {
    let tenths = nearest(as_double(bytes) * 10, unit);
    decimal(tenths / 10) + seq!['.', digit_char(tenths % 10)] + suffix
}

/// A size in bytes, in the largest unit of which there is at least one.
pub open spec fn size_text(bytes: nat) -> Seq<char> {
    if bytes >= 0x4000_0000 {
        in_unit(bytes, 0x4000_0000, "GB"@)
    } else if bytes >= 0x10_0000 {
        in_unit(bytes, 0x10_0000, "MB"@)
    } else if bytes >= 0x400 {
        in_unit(bytes, 0x400, "KB"@)
    } else {
        decimal(bytes) + "B"@
    }
}

fn nearest_of(n: u128, d: u128) -> (r: u128)
    requires
        0 < d,
        2 * d <= u128::MAX,
        n < u128::MAX,
    ensures
        r == nearest(n as nat, d as nat),
{
    let q: u128 = n / d;
    let twice: u128 = 2 * (n % d);
    if twice < d || (twice == d && q % 2 == 0) {
        q
    } else {
        assert(q <= n) by (nonlinear_arith)
            requires
                q == n / d,
                d > 0,
                n >= 0,
        ;
        q + 1
    }
}

fn spacing_of(n: u64) -> (r: u128)
    ensures
        r == spacing(n as nat, 1),
        1 <= r <= 4096,
{
    let mut step: u128 = 1;
    while n as u128 >= 0x20_0000_0000_0000 * step
        invariant
            1 <= step <= 4096,
            spacing(n as nat, 1) == spacing(n as nat, step as nat),
        decreases 4096 - step,
    {
        step = 2 * step;
    }
    step
}

fn double_of(n: u64) -> (r: u128)
    ensures
        r == as_double(n as nat),
        r <= 0x1_0000_0000_0000_0000 + 4096,
{
    let step: u128 = spacing_of(n);
    let q: u128 = nearest_of(n as u128, step);
    proof {
        let (m, s, k) = (n as int, step as int, q as int);
        assert(k <= m / s + 1);
        assert(k * s <= m + s) by (nonlinear_arith)
            requires
                k <= m / s + 1,
                s > 0,
                m >= 0,
        ;
    }
    q * step
}

fn unit_text(bytes: u64, unit: u64, suffix: &str) -> (r: String)
    requires
        0x400 <= unit <= 0x4000_0000,
    ensures
        r@ == in_unit(bytes as nat, unit as nat, suffix@),
{
    let n: u128 = double_of(bytes);
    let tenths: u128 = nearest_of(n * 10, unit as u128);
    proof {
        let (m, u, t) = (n * 10, unit as int, tenths as int);
        assert(t <= m / u + 1);
        assert(m / u <= m / 0x400) by (nonlinear_arith)
            requires
                u >= 0x400,
                m >= 0,
        ;
    }
    let mut r = decimal_text((tenths / 10) as u64);
    r.append(".");
    r.append(decimal_text((tenths % 10) as u64).as_str());
    r.append(suffix);
    proof {
        reveal_strlit(".");
        reveal_with_fuel(decimal, 2);
        assert(r@ =~= in_unit(bytes as nat, unit as nat, suffix@));
    }
    r
}

/// A size in bytes, in the largest unit of which there is at least one.
pub fn format_bytes(bytes: u64) -> (r: String)
    ensures
        r@ == size_text(bytes as nat),
{
    if bytes >= 1_073_741_824 {
        unit_text(bytes, 1_073_741_824, "GB")
    } else if bytes >= 1_048_576 {
        unit_text(bytes, 1_048_576, "MB")
    } else if bytes >= 1_024 {
        unit_text(bytes, 1_024, "KB")
    } else {
        decimal_text(bytes).concat("B")
    }
}

/// Two numbers with their units.
pub open spec fn two_parts(a: int, a_unit: Seq<char>, b: int, b_unit: Seq<char>) -> Seq<char> {
    signed_decimal(a) + a_unit + " "@ + signed_decimal(b) + b_unit
}

/// A duration in its two largest units; below a minute, and where it is negative,
/// in seconds.
pub open spec fn duration_text(secs: int) -> Seq<char> {
    if secs >= 86400 {
        two_parts(secs / 86400, "d"@, secs % 86400 / 3600, "h"@)
    } else if secs >= 3600 {
        two_parts(secs / 3600, "h"@, secs % 3600 / 60, "m"@)
    } else if secs >= 60 {
        two_parts(secs / 60, "m"@, secs % 60, "s"@)
    } else {
        signed_decimal(secs) + "s"@
    }
}

fn parts_text(a: i64, a_unit: &str, b: i64, b_unit: &str) -> (r: String)
    ensures
        r@ == two_parts(a as int, a_unit@, b as int, b_unit@),
{
    let mut r = signed_decimal_text(a);
    r.append(a_unit);
    r.append(" ");
    r.append(signed_decimal_text(b).as_str());
    r.append(b_unit);
    r
}

/// A duration in its two largest units.
pub fn format_duration(secs: i64) -> (r: String)
    ensures
        r@ == duration_text(secs as int),
{
    if secs >= 86400 {
        parts_text(secs / 86400, "d", (secs % 86400) / 3600, "h")
    } else if secs >= 3600 {
        parts_text(secs / 3600, "h", (secs % 3600) / 60, "m")
    } else if secs >= 60 {
        parts_text(secs / 60, "m", secs % 60, "s")
    } else {
        signed_decimal_text(secs).concat("s")
    }
}

/// A change from zero on is green, and one below zero, or that is no number, red.
pub proof fn gains_are_green_and_losses_red(x: Double)
    ensures
        (Double { bits: 0 }).le(x) ==> color_of_change(x) == (Rgb { red: 0, green: 200, blue: 80 }),
        !(Double { bits: 0 }).le(x) ==> color_of_change(x) == (Rgb { red: 255, green: 80, blue: 80 }),
{
}

/// Volatility is hot from 0.05 on, warm from 0.03, mild from 0.01, and cool below.
pub proof fn volatility_warms_with_its_size(x: Double)
    ensures
        ({
            let hot = Double { bits: 0x3FA9_9999_9999_999A };
            let warm = Double { bits: 0x3F9E_B851_EB85_1EB8 };
            let mild = Double { bits: 0x3F84_7AE1_47AE_147B };
            let c = color_of_volatility(x);
            &&& hot.le(x) ==> c == (Rgb { red: 255, green: 80, blue: 80 })
            &&& warm.le(x) && x.lt(hot) ==> c == (Rgb { red: 255, green: 180, blue: 0 })
            &&& mild.le(x) && x.lt(warm) ==> c == (Rgb { red: 200, green: 200, blue: 100 })
            &&& x.lt(mild) || x.nan() ==> c == (Rgb { red: 150, green: 150, blue: 150 })
        }),
{
}

/// Scores have their colours from 80, 60 and 40 on.
pub proof fn scores_brighten_with_their_size(x: Double)
    ensures
        ({
            let eighty = Double { bits: 0x4054_0000_0000_0000 };
            let sixty = Double { bits: 0x404E_0000_0000_0000 };
            let forty = Double { bits: 0x4044_0000_0000_0000 };
            let c = color_of_score(x);
            &&& eighty.le(x) ==> c == (Rgb { red: 0, green: 255, blue: 100 })
            &&& sixty.le(x) && x.lt(eighty) ==> c == (Rgb { red: 180, green: 220, blue: 0 })
            &&& forty.le(x) && x.lt(sixty) ==> c == (Rgb { red: 200, green: 200, blue: 100 })
            &&& x.lt(forty) || x.nan() ==> c == (Rgb { red: 150, green: 150, blue: 150 })
        }),
{
}

/// Prices have two decimals from a thousand on, four from one, six from a hundredth, and
/// eight below; volumes are shown in the largest unit of which there is at least one.
pub proof fn prices_and_volumes_are_shown_by_their_size(x: Double)
    ensures
        ({
            let thousand = Double { bits: 0x408F_4000_0000_0000 };
            let one = Double { bits: 0x3FF0_0000_0000_0000 };
            let hundredth = Double { bits: 0x3F84_7AE1_47AE_147B };
            &&& thousand.le(x) ==> 2 + 2 * price_band(x) == 2
            &&& one.le(x) && x.lt(thousand) ==> 2 + 2 * price_band(x) == 4
            &&& hundredth.le(x) && x.lt(one) ==> 2 + 2 * price_band(x) == 6
            &&& x.lt(hundredth) || x.nan() ==> 2 + 2 * price_band(x) == 8
        }),
        ({
            let billion = Double { bits: 0x41CD_CD65_0000_0000 };
            let million = Double { bits: 0x412E_8480_0000_0000 };
            let thousand = Double { bits: 0x408F_4000_0000_0000 };
            &&& billion.le(x) ==> unit_of_volume(x) == VolumeUnit::Billions
            &&& million.le(x) && x.lt(billion) ==> unit_of_volume(x) == VolumeUnit::Millions
            &&& thousand.le(x) && x.lt(million) ==> unit_of_volume(x) == VolumeUnit::Thousands
            &&& x.lt(thousand) || x.nan() ==> unit_of_volume(x) == VolumeUnit::Ones
        }),
        VolumeUnit::Billions.size() == 1000 * VolumeUnit::Millions.size(),
        VolumeUnit::Millions.size() == 1000 * VolumeUnit::Thousands.size(),
        VolumeUnit::Thousands.size() == 1000 * VolumeUnit::Ones.size(),
        VolumeUnit::Ones.size() == 1,
{
}

/// Rounding takes the nearest whole number, and of two that are as near the even one.
pub proof fn rounding_is_to_the_nearest(n: nat, d: nat)
    requires
        d > 0,
    ensures
        ({
            let off = n - d * nearest(n, d);
            &&& -d <= 2 * off <= d
            &&& 2 * off == d || 2 * off == -d ==> nearest(n, d) % 2 == 0
        }),
{
    let (q, r) = (n / d, n % d);
    assert(n == d * q + r && r < d) by (nonlinear_arith)
        requires
            q == n / d,
            r == n % d,
            d > 0,
    ;
    assert(d * (q + 1) == d * q + d) by (nonlinear_arith);
}

/// The doubles around a whole number lie close enough that 53 bits reach beyond it, and
/// no closer than they have to.
pub proof fn spacing_is_as_fine_as_53_bits_allow(n: nat)
    ensures
        spacing(n, 1) >= 1,
        n < 0x20_0000_0000_0000 * spacing(n, 1),
        spacing(n, 1) > 1 ==> n >= 0x10_0000_0000_0000 * spacing(n, 1),
        exists|e: nat| spacing(n, 1) == #[trigger] pow2(e),
{
    lemma2_to64();
    assert(pow2(0) == 1);
    lemma_spacing(n, 1, 0);
}

proof fn lemma_spacing(n: nat, step: nat, e: nat)
    requires
        step == pow2(e),
        step >= 1,
        step > 1 ==> n >= 0x10_0000_0000_0000 * step,
    ensures
        spacing(n, step) >= 1,
        n < 0x20_0000_0000_0000 * spacing(n, step),
        spacing(n, step) > 1 ==> n >= 0x10_0000_0000_0000 * spacing(n, step),
        exists|f: nat| spacing(n, step) == #[trigger] pow2(f),
    decreases n - step,
{
    if n >= 0x20_0000_0000_0000 * step {
        lemma_pow2_unfold(e + 1);
        lemma_spacing(n, 2 * step, e + 1);
    }
}

/// A whole number is taken for a multiple of the spacing of doubles around it, the
/// nearest there is.
pub proof fn doubles_are_the_nearest_there_are(n: nat)
    ensures
        as_double(n) == spacing(n, 1) * nearest(n, spacing(n, 1)),
        -spacing(n, 1) <= 2 * (n - as_double(n)) <= spacing(n, 1),
{
    spacing_is_as_fine_as_53_bits_allow(n);
    let s = spacing(n, 1);
    rounding_is_to_the_nearest(n, s);
    assert(s * nearest(n, s) == nearest(n, s) * s) by (nonlinear_arith);
}

/// A size is written in the largest unit of which there is at least one, as tenths of the
/// unit: below a kilobyte in bytes.
pub proof fn sizes_are_written_in_tenths_of_their_unit(bytes: nat, tenths: nat)
    ensures
        bytes < 1024 ==> size_text(bytes) == decimal(bytes) + "B"@,
        1024 <= bytes < 1024 * 1024 && tenths == nearest(10 * as_double(bytes), 1024)
            ==> size_text(bytes) == decimal(tenths / 10) + seq!['.', digit_char(tenths % 10)]
            + "KB"@,
        1024 * 1024 <= bytes < 1024 * 1024 * 1024 && tenths == nearest(
            10 * as_double(bytes),
            1024 * 1024,
        ) ==> size_text(bytes) == decimal(tenths / 10) + seq!['.', digit_char(tenths % 10)]
            + "MB"@,
        1024 * 1024 * 1024 <= bytes && tenths == nearest(10 * as_double(bytes), 1024 * 1024 * 1024)
            ==> size_text(bytes) == decimal(tenths / 10) + seq!['.', digit_char(tenths % 10)]
            + "GB"@,
{
}

/// A duration is written in its two largest units, what is less than the smaller one left
/// aside; below a minute in seconds.
pub proof fn durations_are_written_in_their_largest_units(a: nat, b: nat, rest: nat)
    ensures
        a > 0 && b < 24 && rest < 3600 ==> duration_text((86400 * a + 3600 * b + rest) as int) == decimal(a)
            + "d"@ + " "@ + decimal(b) + "h"@,
        0 < a < 24 && b < 60 && rest < 60 ==> duration_text((3600 * a + 60 * b + rest) as int) == decimal(a)
            + "h"@ + " "@ + decimal(b) + "m"@,
        0 < a < 60 && b < 60 ==> duration_text(60 * a + b as int) == decimal(a) + "m"@ + " "@
            + decimal(b) + "s"@,
        a < 60 ==> duration_text(a as int) == decimal(a) + "s"@,
        a > 0 ==> duration_text(-(a as int)) == seq!['-'] + decimal(a) + "s"@,
{
}

} // verus!
