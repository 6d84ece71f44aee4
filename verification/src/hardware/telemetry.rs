//! The state of the device at one moment.
use vstd::prelude::*;

use crate::config::Celsius;
use crate::hardware::thermal::ThermalReport;
use crate::hardware::uevent::{ChargerState, ScreenState};

verus! {

/// The state of the device.
#[derive(Debug, Clone, Copy, PartialEq, Eq, Structural)]
pub struct DeviceEnvironmentSnapshot {
    pub screen: ScreenState,
    pub charger: ChargerState,
    pub soc_temp_c: Celsius,
    pub battery_temp_c: Celsius,
    pub is_charging: bool,
    pub is_screen_off: bool,
}

impl DeviceEnvironmentSnapshot {
    /// The state of the device by what screen, charger and sensors tell. A full
    /// battery counts as charging.
    pub fn capture(screen: ScreenState, charger: ChargerState, thermal: ThermalReport) -> (r: Self)
        ensures
            r.screen == screen,
            r.charger == charger,
            r.soc_temp_c == thermal.max_soc_temp_c,
            r.battery_temp_c == thermal.battery_temp_c,
            r.is_charging <==> charger == ChargerState::Charging || charger == ChargerState::Full,
            r.is_screen_off <==> screen == ScreenState::Off,
    {
        DeviceEnvironmentSnapshot {
            screen,
            charger,
            soc_temp_c: thermal.max_soc_temp_c,
            battery_temp_c: thermal.battery_temp_c,
            is_charging: charger == ChargerState::Charging || charger == ChargerState::Full,
            is_screen_off: screen == ScreenState::Off,
        }
    }
}

/// The state of the device is what screen, charger and sensors tell; it charges where
/// the charger says so or the battery is full, and is dark only where the screen is known
/// to be off.
pub proof fn law_snapshot_is_what_was_told(
    screen: ScreenState,
    charger: ChargerState,
    thermal: ThermalReport,
    r: DeviceEnvironmentSnapshot,
)
    requires
        call_ensures(DeviceEnvironmentSnapshot::capture, (screen, charger, thermal), r),
    ensures
        r.screen == screen && r.charger == charger,
        r.soc_temp_c == thermal.max_soc_temp_c && r.battery_temp_c == thermal.battery_temp_c,
        r.is_charging <==> charger == ChargerState::Charging || charger == ChargerState::Full,
        r.is_screen_off <==> screen == ScreenState::Off,
{
}

} // verus!
