//! How warm the device is.
//!
//! Temperatures come in as degrees Celsius; turning the kernel's figures into degrees
//! is left to whoever reads them.
use vstd::prelude::*;

use crate::config::Celsius;
use crate::text;

verus! {

/// The bit pattern of zero degrees.
pub const ZERO_DEGREES: u32 = 0;

/// The bit pattern of 32 degrees, taken for a battery that cannot be measured.
pub const THIRTY_TWO_DEGREES: u32 = 0x4200_0000;

/// The bit pattern of 35 degrees, taken for a chip that cannot be measured.
pub const THIRTY_FIVE_DEGREES: u32 = 0x420c_0000;

/// The bit pattern of 100 degrees, beyond which no battery is believed to be.
pub const HUNDRED_DEGREES: u32 = 0x42c8_0000;

/// The bit pattern of 120 degrees, beyond which no chip is believed to be.
pub const HUNDRED_TWENTY_DEGREES: u32 = 0x42f0_0000;

/// How warm chip and battery are.
#[derive(Debug, Clone, Copy, PartialEq, Eq, Structural)]
pub struct ThermalReport {
    pub max_soc_temp_c: Celsius,
    pub battery_temp_c: Celsius,
}

/// A thermal zone: its type, and the temperature where it can be read.
#[derive(Debug, Clone)]
pub struct ThermalZone {
    pub zone_type: String,
    pub temp: Option<Celsius>,
}

/// A zone of this type, in small letters, measures a chip.
pub open spec fn measures_chip(lower: Seq<char>) -> bool {
    text::has_part_of(
        lower,
        seq![
            "cpu"@,
            "soc"@,
            "tsens"@,
            "mtktscpu"@,
            "cluster"@,
            "ap-therm"@,
            "exynos"@,
            "tensor"@,
            "gpu"@,
        ],
    )
}

/// `true` where a zone of this type, in small letters, measures a chip.
pub fn is_soc_zone(lower: &str) -> (r: bool)
    ensures
        r == measures_chip(lower@),
{
    let names = [
        "cpu",
        "soc",
        "tsens",
        "mtktscpu",
        "cluster",
        "ap-therm",
        "exynos",
        "tensor",
        "gpu",
    ];
    assert(text::literals(names@) =~= seq![
        "cpu"@,
        "soc"@,
        "tsens"@,
        "mtktscpu"@,
        "cluster"@,
        "ap-therm"@,
        "exynos"@,
        "tensor"@,
        "gpu"@,
    ]);
    text::contains_part(lower, &names)
}

/// A directory of this name is a thermal zone.
pub fn is_thermal_zone(name: &str) -> (r: bool)
    ensures
        r == text::has_prefix(name@, "thermal_zone"@),
{
    text::starts_with_text(name, "thermal_zone")
}

/// A temperature strictly between zero and a limit.
pub open spec fn is_believed(temp: Celsius, limit: u32) -> bool {
    (Celsius { bits: ZERO_DEGREES }).is_below(temp) && temp.is_below(Celsius { bits: limit })
}

/// `true` for a temperature strictly between zero and a limit.
fn believe(temp: Celsius, limit: u32) -> (r: bool)
    ensures
        r == is_believed(temp, limit),
{
    (Celsius { bits: ZERO_DEGREES }).below(temp) && temp.below(Celsius { bits: limit })
}

/// The first temperature of a battery that is believed.
pub open spec fn battery_temp(readings: Seq<Option<Celsius>>) -> Celsius
    decreases readings.len(),
{
    if readings.len() == 0 {
        Celsius { bits: THIRTY_TWO_DEGREES }
    } else if readings[0] is Some && is_believed(readings[0]->0, HUNDRED_DEGREES) {
        readings[0]->0
    } else {
        battery_temp(readings.drop_first())
    }
}

/// The temperature of a zone counts: it is believed, and the zone measures a chip or,
/// where `chips` is not set, something else.
pub open spec fn counts(zone: ThermalZone, chips: bool) -> bool {
    &&& zone.temp is Some
    &&& is_believed(zone.temp->0, HUNDRED_TWENTY_DEGREES)
    &&& measures_chip(text::lowercase(zone.zone_type@)) == chips
}

/// The highest temperature of the zones that count, zero where none does. Of equal
/// ones the first is taken.
pub open spec fn highest(zones: Seq<ThermalZone>, chips: bool) -> Celsius
    decreases zones.len(),
{
    if zones.len() == 0 {
        Celsius { bits: ZERO_DEGREES }
    } else {
        let before = highest(zones.drop_last(), chips);
        let zone = zones.last();
        if counts(zone, chips) && before.is_below(zone.temp->0) {
            zone.temp->0
        } else {
            before
        }
    }
}

/// The temperature of the chip: the highest of the zones that measure a chip, or else
/// of the others.
pub open spec fn chip_temp(zones: Seq<ThermalZone>) -> Celsius {
    let chip = highest(zones, true);
    let other = highest(zones, false);
    if chip.bits != ZERO_DEGREES {
        chip
    } else if other.bits != ZERO_DEGREES {
        other
    } else {
        Celsius { bits: THIRTY_FIVE_DEGREES }
    }
}

/// How warm the device is, by the readings of its batteries and its thermal zones, in
/// the order in which they were read.
pub fn read_thermal(batteries: &Vec<Option<Celsius>>, zones: &Vec<ThermalZone>) -> (r:
    ThermalReport)
    ensures
        r.battery_temp_c == battery_temp(batteries@),
        r.max_soc_temp_c == chip_temp(zones@),
{
    ThermalReport { max_soc_temp_c: read_chip(zones), battery_temp_c: read_battery(batteries) }
}

fn read_battery(batteries: &Vec<Option<Celsius>>) -> (r: Celsius)
    ensures
        r == battery_temp(batteries@),
{
    let mut i: usize = 0;
    assert(batteries@.skip(0) =~= batteries@);
    while i < batteries.len()
        invariant
            i <= batteries.len(),
            battery_temp(batteries@) == battery_temp(batteries@.skip(i as int)),
        decreases batteries.len() - i,
    {
        assert(batteries@.skip(i as int).drop_first() =~= batteries@.skip(i + 1));
        match batteries[i] {
            Some(temp) => {
                if believe(temp, HUNDRED_DEGREES) {
                    return temp;
                }
            },
            None => {},
        }
        i = i + 1;
    }
    Celsius { bits: THIRTY_TWO_DEGREES }
}

fn read_chip(zones: &Vec<ThermalZone>) -> (r: Celsius)
    ensures
        r == chip_temp(zones@),
{
    let mut chip = Celsius { bits: ZERO_DEGREES };
    let mut other = Celsius { bits: ZERO_DEGREES };
    let mut i: usize = 0;
    assert(zones@.take(0) =~= Seq::empty());
    while i < zones.len()
        invariant
            i <= zones.len(),
            chip == highest(zones@.take(i as int), true),
            other == highest(zones@.take(i as int), false),
        decreases zones.len() - i,
    {
        assert(zones@.take(i + 1).drop_last() =~= zones@.take(i as int));
        assert(zones@.take(i + 1).last() == zones@[i as int]);
        let lower = text::lower_text(zones[i].zone_type.as_str());
        match zones[i].temp {
            Some(temp) => {
                if believe(temp, HUNDRED_TWENTY_DEGREES) {
                    if is_soc_zone(lower.as_str()) {
                        if chip.below(temp) {
                            chip = temp;
                        }
                    } else if other.below(temp) {
                        other = temp;
                    }
                }
            },
            None => {},
        }
        i = i + 1;
    }
    assert(zones@.take(i as int) =~= zones@);
    if chip.bits != ZERO_DEGREES {
        chip
    } else if other.bits != ZERO_DEGREES {
        other
    } else {
        Celsius { bits: THIRTY_FIVE_DEGREES }
    }
}

/// No zone that counts as a chip is warmer than what is reported.
pub proof fn law_no_chip_is_warmer(zones: Seq<ThermalZone>, i: int)
    requires
        0 <= i < zones.len(),
        counts(zones[i], true),
    ensures
        !chip_temp(zones).is_below(zones[i].temp->0),
{
    lemma_highest(zones, true);
    let chip = highest(zones, true);
    assert(!chip.is_below(zones[i].temp->0));
    if chip.bits == ZERO_DEGREES {
        assert((Celsius { bits: ZERO_DEGREES }).is_below(zones[i].temp->0));
    }
}

proof fn lemma_highest(zones: Seq<ThermalZone>, chips: bool)
    ensures
        !highest(zones, chips).is_nan(),
        forall|i: int|
            0 <= i < zones.len() && counts(#[trigger] zones[i], chips) ==> !highest(
                zones,
                chips,
            ).is_below(zones[i].temp->0),
    decreases zones.len(),
{
    if zones.len() > 0 {
        lemma_highest(zones.drop_last(), chips);
        assert forall|i: int| 0 <= i < zones.len() && counts(#[trigger] zones[i], chips) implies !highest(
            zones,
            chips,
        ).is_below(zones[i].temp->0) by {
            if i < zones.len() - 1 {
                assert(zones.drop_last()[i] == zones[i]);
            }
        }
    }
}

/// What is reported of the battery is always a temperature that a battery may have.
pub proof fn law_battery_is_believed(readings: Seq<Option<Celsius>>)
    ensures
        is_believed(battery_temp(readings), HUNDRED_DEGREES),
    decreases readings.len(),
{
    if readings.len() > 0 {
        law_battery_is_believed(readings.drop_first());
    }
}

/// The temperature is a number above zero and below the limit, given as bit patterns of
/// positive numbers.
pub open spec fn lies_below(temp: Celsius, limit: u32) -> bool {
    0 < temp.bits < limit
}

/// Positive bit patterns are ordered as the numbers that they stand for.
proof fn lemma_lies_below(temp: Celsius, limit: u32)
    requires
        limit <= 0x7f80_0000,
    ensures
        is_believed(temp, limit) <==> lies_below(temp, limit),
{
}

proof fn lemma_first_battery(readings: Seq<Option<Celsius>>)
    ensures
        battery_temp(readings).bits == THIRTY_TWO_DEGREES && (forall|i: int|
            0 <= i < readings.len() ==> !(#[trigger] readings[i] matches Some(t) && lies_below(
                t,
                HUNDRED_DEGREES,
            ))) || exists|i: int|
            0 <= i < readings.len() && #[trigger] readings[i] == Some(battery_temp(readings))
                && lies_below(battery_temp(readings), HUNDRED_DEGREES) && forall|j: int|
                0 <= j < i ==> !(#[trigger] readings[j] matches Some(t) && lies_below(
                    t,
                    HUNDRED_DEGREES,
                )),
    decreases readings.len(),
{
    if readings.len() > 0 {
        let rest = readings.drop_first();
        if readings[0] is Some {
            lemma_lies_below(readings[0]->0, HUNDRED_DEGREES);
        }
        if readings[0] is Some && is_believed(readings[0]->0, HUNDRED_DEGREES) {
            assert(readings[0] == Some(battery_temp(readings)));
        } else {
            lemma_first_battery(rest);
            assert forall|j: int| 0 < j < readings.len() implies #[trigger] readings[j] == rest[j
                - 1] by {}
            if exists|i: int|
                0 <= i < rest.len() && #[trigger] rest[i] == Some(battery_temp(rest)) && lies_below(
                    battery_temp(rest),
                    HUNDRED_DEGREES,
                ) && forall|j: int|
                    0 <= j < i ==> !(#[trigger] rest[j] matches Some(t) && lies_below(
                        t,
                        HUNDRED_DEGREES,
                    )) {
                let i = choose|i: int|
                    0 <= i < rest.len() && #[trigger] rest[i] == Some(battery_temp(rest))
                        && lies_below(battery_temp(rest), HUNDRED_DEGREES) && forall|j: int|
                        0 <= j < i ==> !(#[trigger] rest[j] matches Some(t) && lies_below(
                            t,
                            HUNDRED_DEGREES,
                        ));
                assert(readings[i + 1] == Some(battery_temp(readings)));
            }
        }
    }
}

/// The battery is as warm as the first of its readings says that lies between zero and
/// one hundred degrees, and is taken to be at thirty-two where none does.
pub proof fn law_first_believable_battery_counts(
    batteries: &Vec<Option<Celsius>>,
    zones: &Vec<ThermalZone>,
    r: ThermalReport,
)
    requires
        call_ensures(read_thermal, (batteries, zones), r),
    ensures
        ({
            let readings = batteries@;
            ||| r.battery_temp_c.bits == 0x4200_0000 && forall|i: int|
                0 <= i < readings.len() ==> !(#[trigger] readings[i] matches Some(t) && lies_below(
                    t,
                    0x42c8_0000,
                ))
            ||| exists|i: int|
                0 <= i < readings.len() && #[trigger] readings[i] == Some(r.battery_temp_c)
                    && lies_below(r.battery_temp_c, 0x42c8_0000) && forall|j: int|
                    0 <= j < i ==> !(#[trigger] readings[j] matches Some(t) && lies_below(
                        t,
                        0x42c8_0000,
                    ))
        }),
{
    lemma_first_battery(batteries@);
}

/// The zone counts: it can be read, lies between zero and one hundred and twenty degrees,
/// and its type, in small letters, names a chip, or does not.
pub open spec fn tells_of_chip(zone: ThermalZone, chip: bool) -> bool {
    &&& zone.temp matches Some(t) && lies_below(t, 0x42f0_0000)
    &&& chip == text::holds_one(
        text::lowercase(zone.zone_type@),
        seq![
            "cpu"@,
            "soc"@,
            "tsens"@,
            "mtktscpu"@,
            "cluster"@,
            "ap-therm"@,
            "exynos"@,
            "tensor"@,
            "gpu"@,
        ],
    )
}

proof fn lemma_tells_of_chip(zone: ThermalZone, chip: bool)
    ensures
        tells_of_chip(zone, chip) <==> counts(zone, chip),
{
    text::lemma_holds_one(
        text::lowercase(zone.zone_type@),
        seq![
            "cpu"@,
            "soc"@,
            "tsens"@,
            "mtktscpu"@,
            "cluster"@,
            "ap-therm"@,
            "exynos"@,
            "tensor"@,
            "gpu"@,
        ],
    );
    if zone.temp is Some {
        lemma_lies_below(zone.temp->0, HUNDRED_TWENTY_DEGREES);
    }
}

proof fn lemma_highest_zone(zones: Seq<ThermalZone>, chip: bool)
    ensures
        highest(zones, chip).bits < 0x42f0_0000,
        highest(zones, chip).bits == 0 <==> forall|i: int|
            0 <= i < zones.len() ==> !#[trigger] tells_of_chip(zones[i], chip),
        highest(zones, chip).bits != 0 ==> exists|i: int|
            0 <= i < zones.len() && #[trigger] tells_of_chip(zones[i], chip) && zones[i].temp
                == Some(highest(zones, chip)),
        forall|i: int|
            0 <= i < zones.len() && #[trigger] tells_of_chip(zones[i], chip) ==> zones[i].temp->0.bits
                <= highest(zones, chip).bits,
    decreases zones.len(),
{
    if zones.len() > 0 {
        let front = zones.drop_last();
        lemma_highest_zone(front, chip);
        lemma_tells_of_chip(zones.last(), chip);
        let before = highest(front, chip);
        let all = highest(zones, chip);
        assert forall|i: int| 0 <= i < front.len() implies #[trigger] zones[i] == front[i] by {}
        assert(zones[zones.len() - 1] == zones.last());
        if all.bits != 0 {
            if counts(zones.last(), chip) && before.is_below(zones.last().temp->0) {
                assert(tells_of_chip(zones[zones.len() - 1], chip));
            } else {
                let i = choose|i: int|
                    0 <= i < front.len() && #[trigger] tells_of_chip(front[i], chip)
                        && front[i].temp == Some(before);
                assert(tells_of_chip(zones[i], chip));
            }
        }
        assert forall|i: int|
            0 <= i < zones.len() && #[trigger] tells_of_chip(
                zones[i],
                chip,
            ) implies zones[i].temp->0.bits <= all.bits by {
            if i < front.len() {
                assert(tells_of_chip(front[i], chip));
            }
        }
        if all.bits == 0 {
            assert forall|i: int| 0 <= i < zones.len() implies !#[trigger] tells_of_chip(
                zones[i],
                chip,
            ) by {
                if i < front.len() {
                    assert(!tells_of_chip(front[i], chip));
                }
            }
        }
        if forall|i: int| 0 <= i < zones.len() ==> !#[trigger] tells_of_chip(zones[i], chip) {
            assert forall|i: int| 0 <= i < front.len() implies !#[trigger] tells_of_chip(
                front[i],
                chip,
            ) by {
                assert(!tells_of_chip(zones[i], chip));
            }
            assert(!tells_of_chip(zones[zones.len() - 1], chip));
        }
    }
}

/// The chip is as warm as the warmest of the zones that tell of a chip; where none does,
/// as the warmest of the others, and thirty-five degrees are taken where no zone counts.
pub proof fn law_warmest_chip_counts(
    batteries: &Vec<Option<Celsius>>,
    zones: &Vec<ThermalZone>,
    r: ThermalReport,
)
    requires
        call_ensures(read_thermal, (batteries, zones), r),
    ensures
        ({
            let all = zones@;
            let some = |chip: bool|
                exists|i: int| 0 <= i < all.len() && #[trigger] tells_of_chip(all[i], chip);
            let warmest = |chip: bool|
                (exists|i: int|
                    0 <= i < all.len() && #[trigger] tells_of_chip(all[i], chip) && all[i].temp
                        == Some(r.max_soc_temp_c)) && (forall|i: int|
                    0 <= i < all.len() && #[trigger] tells_of_chip(all[i], chip)
                        ==> all[i].temp->0.bits <= r.max_soc_temp_c.bits);
            &&& some(true) ==> warmest(true)
            &&& !some(true) && some(false) ==> warmest(false)
            &&& !some(true) && !some(false) ==> r.max_soc_temp_c.bits == 0x420c_0000
        }),
{
    lemma_highest_zone(zones@, true);
    lemma_highest_zone(zones@, false);
}

/// A zone is known by the front of its name.
pub proof fn law_zones_are_known_by_name(name: &str, r: bool, lower: &str, chip: bool)
    requires
        call_ensures(is_thermal_zone, (name,), r),
        call_ensures(is_soc_zone, (lower,), chip),
    ensures
        r <==> text::has_prefix(name@, "thermal_zone"@),
        chip <==> text::holds_one(
            lower@,
            seq![
                "cpu"@,
                "soc"@,
                "tsens"@,
                "mtktscpu"@,
                "cluster"@,
                "ap-therm"@,
                "exynos"@,
                "tensor"@,
                "gpu"@,
            ],
        ),
{
    text::lemma_holds_one(
        lower@,
        seq![
            "cpu"@,
            "soc"@,
            "tsens"@,
            "mtktscpu"@,
            "cluster"@,
            "ap-therm"@,
            "exynos"@,
            "tensor"@,
            "gpu"@,
        ],
    );
}

} // verus!
