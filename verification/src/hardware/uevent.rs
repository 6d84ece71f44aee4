//! Events of the kernel, and the state of charger, battery and screen.
use vstd::prelude::*;

use crate::assoc;
use crate::assoc::TextMap;
use crate::fs;
use crate::numerals;
use crate::text;

verus! {

/// What the charger does.
#[derive(Debug, Clone, Copy, PartialEq, Eq, Structural)]
pub enum ChargerState {
    Charging,
    Discharging,
    Full,
    Unknown,
}

/// What the screen does.
#[derive(Debug, Clone, Copy, PartialEq, Eq, Structural)]
pub enum ScreenState {
    On,
    Off,
    Unknown,
}

/// An event of the kernel.
#[derive(Debug, Clone)]
pub struct UeventMessage {
    pub action: String,
    pub devpath: String,
    pub subsystem: String,
    pub properties: TextMap<String>,
}

/// An event, in terms of characters.
pub struct EventModel {
    pub action: Seq<char>,
    pub devpath: Seq<char>,
    pub subsystem: Seq<char>,
    pub properties: Map<Seq<char>, Seq<char>>,
}

impl View for UeventMessage {
    type V = EventModel;

    open spec fn view(&self) -> EventModel {
        EventModel {
            action: self.action@,
            devpath: self.devpath@,
            subsystem: self.subsystem@,
            properties: assoc::as_texts(self.properties@),
        }
    }
}

impl PartialEq for UeventMessage {
    fn eq(&self, other: &UeventMessage) -> (r: bool) {
        text::same_text(self.action.as_str(), other.action.as_str()) && text::same_text(
            self.devpath.as_str(),
            other.devpath.as_str(),
        ) && text::same_text(self.subsystem.as_str(), other.subsystem.as_str())
            && self.properties.same(&other.properties)
    }
}

impl Eq for UeventMessage {

}

impl vstd::std_specs::cmp::PartialEqSpecImpl for UeventMessage {
    open spec fn obeys_eq_spec() -> bool {
        true
    }

    open spec fn eq_spec(&self, other: &UeventMessage) -> bool {
        self@ == other@
    }
}

impl EventModel {
    /// An event with what its first line, `action@devpath`, tells.
    pub open spec fn headed(line: Seq<char>) -> EventModel {
        let (action, devpath) = match text::cut(line, '@') {
            Some((action, devpath)) => (action, devpath),
            None => (Seq::empty(), Seq::empty()),
        };
        EventModel { action, devpath, subsystem: Seq::empty(), properties: Map::empty() }
    }

    /// The event with one more line, `key=value`. A line of another form tells
    /// nothing.
    pub open spec fn with_line(self, line: Seq<char>) -> EventModel {
        match text::cut(line, '=') {
            None => self,
            Some((key, value)) => if key == "ACTION"@ {
                EventModel { action: value, ..self }
            } else if key == "DEVPATH"@ {
                EventModel { devpath: value, ..self }
            } else if key == "SUBSYSTEM"@ {
                EventModel { subsystem: value, ..self }
            } else {
                EventModel { properties: self.properties.insert(key, value), ..self }
            },
        }
    }

    /// The event with more lines.
    pub open spec fn with_lines(self, lines: Seq<Seq<char>>) -> EventModel
        decreases lines.len(),
    {
        if lines.len() == 0 {
            self
        } else {
            self.with_lines(lines.drop_last()).with_line(lines.last())
        }
    }

    /// The event says what happened, or where, or in which subsystem.
    pub open spec fn tells_something(self) -> bool {
        self.action.len() > 0 || self.devpath.len() > 0 || self.subsystem.len() > 0
    }

    /// The event that bytes write: lines of UTF-8, each ended by a zero byte.
    pub open spec fn read(bytes: Seq<u8>) -> Option<EventModel> {
        if !vstd::utf8::valid_utf8(bytes) {
            None
        } else {
            let lines = text::not_empty(text::split_on(vstd::utf8::decode_utf8(bytes), '\0'));
            if lines.len() == 0 {
                None
            } else {
                let event = EventModel::headed(lines[0]).with_lines(lines.drop_first());
                if event.tells_something() {
                    Some(event)
                } else {
                    None
                }
            }
        }
    }
}

impl UeventMessage {
    /// Adds a line to the event.
    fn take_line(&mut self, line: &str)
        ensures
            final(self)@ == old(self)@.with_line(line@),
    {
        match text::cut_text(line, '=') {
            Some((key, value)) => {
                if text::same_text(key, "ACTION") {
                    self.action = value.to_owned();
                } else if text::same_text(key, "DEVPATH") {
                    self.devpath = value.to_owned();
                } else if text::same_text(key, "SUBSYSTEM") {
                    self.subsystem = value.to_owned();
                } else {
                    let ghost before = self.properties@;
                    let owned = value.to_owned();
                    let ghost added = owned;
                    self.properties.insert(key.to_owned(), owned);
                    assert(assoc::as_texts(before.insert(key@, added)) =~= assoc::as_texts(
                        before,
                    ).insert(key@, value@));
                }
            },
            None => {},
        }
    }

    /// Reads an event of the kernel.
    pub fn parse(buffer: &[u8]) -> (r: Option<Self>)
        ensures
            r is Some <==> EventModel::read(buffer@) is Some,
            r is Some ==> r->0@ == EventModel::read(buffer@)->0,
    {
        let whole = match fs::decode_text(buffer) {
            Some(whole) => whole,
            None => {
                return None;
            },
        };
        let lines = text::split_not_empty(whole, '\0');
        let ghost all = text::texts(lines@);
        if lines.len() == 0 {
            return None;
        }
        assert(all[0] == lines@[0]@);
        let (action, devpath) = match text::cut_text(lines[0].as_str(), '@') {
            Some((action, devpath)) => (action.to_owned(), devpath.to_owned()),
            None => {
                proof {
                    reveal_strlit("");
                    assert(""@ =~= Seq::empty());
                }
                ("".to_owned(), "".to_owned())
            },
        };
        let subsystem = "".to_owned();
        proof {
            reveal_strlit("");
            assert(""@ =~= Seq::empty());
        }
        let mut event = UeventMessage { action, devpath, subsystem, properties: TextMap::new() };
        let ghost start = EventModel::headed(all[0]);
        assert(event@.properties =~= Map::empty());
        let mut i: usize = 1;
        let ghost rest = all.drop_first();
        assert(rest.take(0) =~= Seq::empty());
        while i < lines.len()
            invariant
                1 <= i <= lines.len(),
                all == text::texts(lines@),
                rest == all.drop_first(),
                event@ == start.with_lines(rest.take(i - 1)),
            decreases lines.len() - i,
        {
            assert(rest.take(i as int).drop_last() =~= rest.take(i - 1));
            assert(rest.take(i as int).last() == lines@[i as int]@);
            event.take_line(lines[i].as_str());
            i = i + 1;
        }
        assert(rest.take(i - 1) =~= rest);
        if event.action.as_str().is_empty() && event.subsystem.as_str().is_empty()
            && event.devpath.as_str().is_empty() {
            return None;
        }
        Some(event)
    }
}

/// What a node of the power supply tells: the contents of its files `type`, `online`
/// and `status`, where they can be read.
#[derive(Debug, Clone)]
pub struct PowerSupply {
    pub supply_type: Option<String>,
    pub online: Option<String>,
    pub status: Option<String>,
}

/// What kind of node it is.
#[derive(Debug, Clone, Copy, PartialEq, Eq, Structural)]
pub enum SupplyKind {
    /// A source of power.
    Source,
    Battery,
    Other,
}

/// What kind of node has this type, in capitals.
pub open spec fn kind_of_type(upper: Seq<char>) -> SupplyKind {
    if text::has_part(upper, "USB"@) || text::has_part(upper, "AC"@) || text::has_part(
        upper,
        "MAINS"@,
    ) || text::has_part(upper, "WIRELESS"@) || text::has_part(upper, "WIPOWER"@) {
        SupplyKind::Source
    } else if text::has_part(upper, "BATTERY"@) || text::has_part(upper, "BMS"@) {
        SupplyKind::Battery
    } else {
        SupplyKind::Other
    }
}

/// What kind of node has this type, in capitals.
pub fn supply_kind(upper: &str) -> (r: SupplyKind)
    ensures
        r == kind_of_type(upper@),
{
    if text::contains_text(upper, "USB") || text::contains_text(upper, "AC")
        || text::contains_text(upper, "MAINS") || text::contains_text(upper, "WIRELESS")
        || text::contains_text(upper, "WIPOWER") {
        SupplyKind::Source
    } else if text::contains_text(upper, "BATTERY") || text::contains_text(upper, "BMS") {
        SupplyKind::Battery
    } else {
        SupplyKind::Other
    }
}

/// What the nodes seen so far tell.
#[derive(Debug, Clone, Copy, PartialEq, Eq, Structural)]
pub struct PowerState {
    pub online: bool,
    pub battery: ChargerState,
}

impl PowerState {
    /// Nothing is known yet.
    pub open spec fn unknown() -> PowerState {
        PowerState { online: false, battery: ChargerState::Unknown }
    }

    /// A battery of this status was seen. That it is discharging counts only where
    /// nothing else is known. A node with a type may say that it is not charging, one
    /// without may say `1`.
    pub open spec fn with_battery(self, status: Seq<char>, typed: bool) -> PowerState {
        let st = text::trimmed(status);
        if text::same_but_case(st, "Charging"@) || (!typed && st == "1"@) {
            PowerState { battery: ChargerState::Charging, ..self }
        } else if text::same_but_case(st, "Full"@) {
            PowerState { battery: ChargerState::Full, ..self }
        } else if (text::same_but_case(st, "Discharging"@) || (typed && text::same_but_case(
            st,
            "Not charging"@,
        ))) && self.battery == ChargerState::Unknown {
            PowerState { battery: ChargerState::Discharging, ..self }
        } else {
            self
        }
    }

    /// A source of power was seen.
    pub open spec fn with_source(self, online: Option<String>) -> PowerState {
        PowerState {
            online: self.online || (online is Some && text::trimmed(online->0@) == "1"@),
            ..self
        }
    }

    /// One more node was seen. One without a type tells by its status alone.
    pub open spec fn with_supply(self, supply: PowerSupply) -> PowerState {
        match supply.supply_type {
            Some(supply_type) => match kind_of_type(text::uppercase(text::trimmed(supply_type@))) {
                SupplyKind::Source => self.with_source(supply.online),
                SupplyKind::Battery => match supply.status {
                    Some(status) => self.with_battery(status@, true),
                    None => self,
                },
                SupplyKind::Other => self,
            },
            None => match supply.status {
                Some(status) => self.with_battery(status@, false),
                None => self,
            },
        }
    }

    /// All these nodes were seen.
    pub open spec fn seen(supplies: Seq<PowerSupply>) -> PowerState
        decreases supplies.len(),
    {
        if supplies.len() == 0 {
            PowerState::unknown()
        } else {
            PowerState::seen(supplies.drop_last()).with_supply(supplies.last())
        }
    }

    /// What the charger does by what the nodes tell, where they tell it.
    pub open spec fn conclusion(self) -> Option<ChargerState> {
        if self.online {
            if self.battery == ChargerState::Full {
                Some(ChargerState::Full)
            } else {
                Some(ChargerState::Charging)
            }
        } else if self.battery != ChargerState::Unknown {
            Some(self.battery)
        } else {
            None
        }
    }

    /// Takes note of a battery of this status.
    pub fn take_battery(&mut self, status: &str, typed: bool)
        ensures
            *final(self) == old(self).with_battery(status@, typed),
    {
        let st = text::trim_text(status);
        if text::same_text_but_case(st, "Charging") || (!typed && text::same_text(st, "1")) {
            self.battery = ChargerState::Charging;
        } else if text::same_text_but_case(st, "Full") {
            self.battery = ChargerState::Full;
        } else if (text::same_text_but_case(st, "Discharging") || (typed
            && text::same_text_but_case(st, "Not charging"))) && self.battery
            == ChargerState::Unknown {
            self.battery = ChargerState::Discharging;
        }
    }

    /// Takes note of a source of power.
    pub fn take_source(&mut self, online: &Option<String>)
        ensures
            *final(self) == old(self).with_source(*online),
    {
        match online {
            Some(online) => {
                if text::same_text(text::trim_text(online.as_str()), "1") {
                    self.online = true;
                }
            },
            None => {},
        }
    }

    /// Takes note of a node.
    pub fn take_supply(&mut self, supply: &PowerSupply)
        ensures
            *final(self) == old(self).with_supply(*supply),
    {
        match &supply.supply_type {
            Some(supply_type) => {
                let upper = text::upper_text(text::trim_text(supply_type.as_str()));
                match supply_kind(upper.as_str()) {
                    SupplyKind::Source => {
                        self.take_source(&supply.online);
                    },
                    SupplyKind::Battery => {
                        match &supply.status {
                            Some(status) => {
                                self.take_battery(status.as_str(), true);
                            },
                            None => {},
                        }
                    },
                    SupplyKind::Other => {},
                }
            },
            None => {
                match &supply.status {
                    Some(status) => {
                        self.take_battery(status.as_str(), false);
                    },
                    None => {},
                }
            },
        }
    }
}

/// What the charger does by the contents of one file.
pub open spec fn charger_by(content: Seq<char>) -> Option<ChargerState> {
    let t = text::trimmed(content);
    if text::same_but_case(t, "Charging"@) || t == "1"@ {
        Some(ChargerState::Charging)
    } else if text::same_but_case(t, "Discharging"@) || t == "0"@ {
        Some(ChargerState::Discharging)
    } else if text::same_but_case(t, "Full"@) {
        Some(ChargerState::Full)
    } else {
        None
    }
}

/// What the charger does by the first file that tells it.
pub open spec fn fallback_state(contents: Seq<Option<String>>) -> ChargerState
    decreases contents.len(),
{
    if contents.len() == 0 {
        ChargerState::Unknown
    } else {
        match contents[0] {
            Some(content) => match charger_by(content@) {
                Some(state) => state,
                None => fallback_state(contents.drop_first()),
            },
            None => fallback_state(contents.drop_first()),
        }
    }
}

/// The files that may tell what the charger does, in the order in which they are
/// asked.
pub fn charger_fallback_paths() -> (r: [&'static str; 5])
    ensures
        text::literals(r@) == seq![
            "/sys/class/power_supply/battery/status"@,
            "/sys/class/power_supply/bms/status"@,
            "/sys/class/power_supply/usb/online"@,
            "/sys/class/power_supply/ac/online"@,
            "/sys/class/power_supply/main/online"@,
        ],
{
    let r = [
        "/sys/class/power_supply/battery/status",
        "/sys/class/power_supply/bms/status",
        "/sys/class/power_supply/usb/online",
        "/sys/class/power_supply/ac/online",
        "/sys/class/power_supply/main/online",
    ];
    assert(text::literals(r@) =~= seq![
        "/sys/class/power_supply/battery/status"@,
        "/sys/class/power_supply/bms/status"@,
        "/sys/class/power_supply/usb/online"@,
        "/sys/class/power_supply/ac/online"@,
        "/sys/class/power_supply/main/online"@,
    ]);
    r
}

/// What the charger does by the contents of the fallback files.
pub fn get_charger_state_fallback(contents: &Vec<Option<String>>) -> (r: ChargerState)
    ensures
        r == fallback_state(contents@),
{
    let mut i: usize = 0;
    assert(contents@.skip(0) =~= contents@);
    while i < contents.len()
        invariant
            i <= contents.len(),
            fallback_state(contents@) == fallback_state(contents@.skip(i as int)),
        decreases contents.len() - i,
    {
        assert(contents@.skip(i as int).drop_first() =~= contents@.skip(i + 1));
        match &contents[i] {
            Some(content) => {
                let t = text::trim_text(content.as_str());
                if text::same_text_but_case(t, "Charging") || text::same_text(t, "1") {
                    return ChargerState::Charging;
                } else if text::same_text_but_case(t, "Discharging") || text::same_text(t, "0") {
                    return ChargerState::Discharging;
                } else if text::same_text_but_case(t, "Full") {
                    return ChargerState::Full;
                }
            },
            None => {},
        }
        i = i + 1;
    }
    ChargerState::Unknown
}

/// What the charger does: by the nodes of the power supply, or else by the fallback
/// files.
pub fn get_charger_state(supplies: &Vec<PowerSupply>, contents: &Vec<Option<String>>) -> (r:
    ChargerState)
    ensures
        r == match PowerState::seen(supplies@).conclusion() {
            Some(state) => state,
            None => fallback_state(contents@),
        },
{
    let mut state = PowerState { online: false, battery: ChargerState::Unknown };
    let mut i: usize = 0;
    assert(supplies@.take(0) =~= Seq::empty());
    while i < supplies.len()
        invariant
            i <= supplies.len(),
            state == PowerState::seen(supplies@.take(i as int)),
        decreases supplies.len() - i,
    {
        assert(supplies@.take(i + 1).drop_last() =~= supplies@.take(i as int));
        assert(supplies@.take(i + 1).last() == supplies@[i as int]);
        state.take_supply(&supplies[i]);
        i = i + 1;
    }
    assert(supplies@.take(i as int) =~= supplies@);
    if state.online {
        if state.battery == ChargerState::Full {
            ChargerState::Full
        } else {
            ChargerState::Charging
        }
    } else if state.battery != ChargerState::Unknown {
        state.battery
    } else {
        get_charger_state_fallback(contents)
    }
}

/// The percentage that a file holds: a number of at most one hundred.
pub open spec fn percent_in(content: Seq<char>) -> Option<int> {
    numerals::read_unsigned(text::trimmed(content), 100)
}

/// The percentage in the first file that holds one.
pub open spec fn first_percent(contents: Seq<Option<String>>) -> Option<int>
    decreases contents.len(),
{
    if contents.len() == 0 {
        None
    } else {
        match contents[0] {
            Some(content) => match percent_in(content@) {
                Some(percent) => Some(percent),
                None => first_percent(contents.drop_first()),
            },
            None => first_percent(contents.drop_first()),
        }
    }
}

/// The files that usually hold the charge of the battery, in the order in which they
/// are asked.
pub fn capacity_paths() -> (r: [&'static str; 3])
    ensures
        text::literals(r@) == seq![
            "/sys/class/power_supply/battery/capacity"@,
            "/sys/class/power_supply/bms/capacity"@,
            "/sys/class/power_supply/qcom-battery/capacity"@,
        ],
{
    let r = [
        "/sys/class/power_supply/battery/capacity",
        "/sys/class/power_supply/bms/capacity",
        "/sys/class/power_supply/qcom-battery/capacity",
    ];
    assert(text::literals(r@) =~= seq![
        "/sys/class/power_supply/battery/capacity"@,
        "/sys/class/power_supply/bms/capacity"@,
        "/sys/class/power_supply/qcom-battery/capacity"@,
    ]);
    r
}

/// The charge of the battery in percent, by the first file that holds it.
pub fn get_battery_percent(contents: &Vec<Option<String>>) -> (r: Option<u8>)
    ensures
        r is Some <==> first_percent(contents@) is Some,
        r is Some ==> r->0 == first_percent(contents@)->0,
{
    let mut i: usize = 0;
    assert(contents@.skip(0) =~= contents@);
    while i < contents.len()
        invariant
            i <= contents.len(),
            first_percent(contents@) == first_percent(contents@.skip(i as int)),
        decreases contents.len() - i,
    {
        assert(contents@.skip(i as int).drop_first() =~= contents@.skip(i + 1));
        match &contents[i] {
            Some(content) => {
                match numerals::parse_unsigned(text::trim_text(content.as_str()), 100) {
                    Some(percent) => {
                        return Some(percent as u8);
                    },
                    None => {},
                }
            },
            None => {},
        }
        i = i + 1;
    }
    None
}

/// A backlight: the contents of its files `actual_brightness` and `brightness`, where
/// they can be read.
#[derive(Debug, Clone)]
pub struct Backlight {
    pub actual_brightness: Option<String>,
    pub brightness: Option<String>,
}

/// A lamp: its name, and the contents of its file `brightness`.
#[derive(Debug, Clone)]
pub struct Led {
    pub name: String,
    pub brightness: Option<String>,
}

/// What may tell whether the screen is on: backlights, lamps, framebuffers, display
/// connectors, and what the display service says.
#[derive(Debug, Clone)]
pub struct ScreenFacts {
    pub backlights: Vec<Backlight>,
    pub leds: Vec<Led>,
    pub blanks: Vec<Option<String>>,
    pub dpms: Vec<Option<String>>,
    pub display_dump: Option<String>,
}

/// What a brightness tells.
pub open spec fn by_brightness(content: Option<String>) -> Option<ScreenState> {
    match content {
        Some(c) => match numerals::read_unsigned(text::trimmed(c@), u32::MAX as int) {
            Some(n) => if n > 0 {
                Some(ScreenState::On)
            } else {
                Some(ScreenState::Off)
            },
            None => None,
        },
        None => None,
    }
}

/// What a backlight tells: by its actual brightness, or else by the one set.
pub open spec fn by_backlight(backlight: Backlight) -> Option<ScreenState> {
    if backlight.actual_brightness is Some {
        by_brightness(backlight.actual_brightness)
    } else {
        by_brightness(backlight.brightness)
    }
}

/// What a lamp tells, where it is one of the screen.
pub open spec fn by_led(led: Led) -> Option<ScreenState> {
    if text::has_part(led.name@, "backlight"@) || text::has_part(led.name@, "lcd"@)
        || text::has_part(led.name@, "wled"@) {
        by_brightness(led.brightness)
    } else {
        None
    }
}

/// What a framebuffer tells: it is blank or not.
pub open spec fn by_blank(content: Option<String>) -> Option<ScreenState> {
    match content {
        Some(c) => match numerals::read_unsigned(text::trimmed(c@), u32::MAX as int) {
            Some(n) => if n == 0 {
                Some(ScreenState::On)
            } else {
                Some(ScreenState::Off)
            },
            None => None,
        },
        None => None,
    }
}

/// What a display connector tells.
pub open spec fn by_dpms(content: Option<String>) -> Option<ScreenState> {
    match content {
        Some(c) => {
            let t = text::trimmed(c@);
            if t == "0"@ || text::same_but_case(t, "On"@) {
                Some(ScreenState::On)
            } else if t == "3"@ || text::same_but_case(t, "Off"@) {
                Some(ScreenState::Off)
            } else {
                None
            }
        },
        None => None,
    }
}

/// What the display service tells.
pub open spec fn by_dump(dump: Option<String>) -> Option<ScreenState> {
    match dump {
        Some(d) => if text::has_part_of(
            d@,
            seq!["mScreenState=ON"@, "state=ON"@, "Display State: ON"@, "Display Power: state=ON"@],
        ) {
            Some(ScreenState::On)
        } else if text::has_part_of(
            d@,
            seq![
                "mScreenState=OFF"@,
                "state=OFF"@,
                "Display State: OFF"@,
                "Display Power: state=OFF"@,
            ],
        ) {
            Some(ScreenState::Off)
        } else {
            None
        },
        None => None,
    }
}

/// The first of several answers that tells anything.
pub open spec fn first_known(answers: Seq<Option<ScreenState>>) -> Option<ScreenState>
    decreases answers.len(),
{
    if answers.len() == 0 {
        None
    } else if answers[0] is Some {
        answers[0]
    } else {
        first_known(answers.drop_first())
    }
}

impl ScreenFacts {
    /// What the backlights tell.
    pub open spec fn backlight_answers(self) -> Seq<Option<ScreenState>> {
        self.backlights@.map_values(|b: Backlight| by_backlight(b))
    }

    /// What the lamps tell.
    pub open spec fn led_answers(self) -> Seq<Option<ScreenState>> {
        self.leds@.map_values(|l: Led| by_led(l))
    }

    /// What the framebuffers tell.
    pub open spec fn blank_answers(self) -> Seq<Option<ScreenState>> {
        self.blanks@.map_values(|c: Option<String>| by_blank(c))
    }

    /// What the display connectors tell.
    pub open spec fn dpms_answers(self) -> Seq<Option<ScreenState>> {
        self.dpms@.map_values(|c: Option<String>| by_dpms(c))
    }

    /// What the first source tells that tells anything.
    pub open spec fn state(self) -> ScreenState {
        let known = first_known(
            self.backlight_answers() + self.led_answers() + self.blank_answers()
                + self.dpms_answers() + seq![by_dump(self.display_dump)],
        );
        match known {
            Some(state) => state,
            None => ScreenState::Unknown,
        }
    }
}

fn brightness_answer(content: &Option<String>) -> (r: Option<ScreenState>)
    ensures
        r == by_brightness(*content),
{
    match content {
        Some(c) => match numerals::parse_unsigned(text::trim_text(c.as_str()), u32::MAX as u64) {
            Some(n) => if n > 0 {
                Some(ScreenState::On)
            } else {
                Some(ScreenState::Off)
            },
            None => None,
        },
        None => None,
    }
}

fn blank_answer(content: &Option<String>) -> (r: Option<ScreenState>)
    ensures
        r == by_blank(*content),
{
    match content {
        Some(c) => match numerals::parse_unsigned(text::trim_text(c.as_str()), u32::MAX as u64) {
            Some(n) => if n == 0 {
                Some(ScreenState::On)
            } else {
                Some(ScreenState::Off)
            },
            None => None,
        },
        None => None,
    }
}

fn dpms_answer(content: &Option<String>) -> (r: Option<ScreenState>)
    ensures
        r == by_dpms(*content),
{
    match content {
        Some(c) => {
            let t = text::trim_text(c.as_str());
            if text::same_text(t, "0") || text::same_text_but_case(t, "On") {
                Some(ScreenState::On)
            } else if text::same_text(t, "3") || text::same_text_but_case(t, "Off") {
                Some(ScreenState::Off)
            } else {
                None
            }
        },
        None => None,
    }
}

fn dump_answer(dump: &Option<String>) -> (r: Option<ScreenState>)
    ensures
        r == by_dump(*dump),
{
    let on = ["mScreenState=ON", "state=ON", "Display State: ON", "Display Power: state=ON"];
    let off = ["mScreenState=OFF", "state=OFF", "Display State: OFF", "Display Power: state=OFF"];
    assert(text::literals(on@) =~= seq![
        "mScreenState=ON"@,
        "state=ON"@,
        "Display State: ON"@,
        "Display Power: state=ON"@,
    ]);
    assert(text::literals(off@) =~= seq![
        "mScreenState=OFF"@,
        "state=OFF"@,
        "Display State: OFF"@,
        "Display Power: state=OFF"@,
    ]);
    match dump {
        Some(d) => {
            if text::contains_part(d.as_str(), &on) {
                Some(ScreenState::On)
            } else if text::contains_part(d.as_str(), &off) {
                Some(ScreenState::Off)
            } else {
                None
            }
        },
        None => None,
    }
}

/// The first answer of a list that tells anything.
fn first_answer(answers: &Vec<Option<ScreenState>>) -> (r: Option<ScreenState>)
    ensures
        r == first_known(answers@),
{
    let mut i: usize = 0;
    assert(answers@.skip(0) =~= answers@);
    while i < answers.len()
        invariant
            i <= answers.len(),
            first_known(answers@) == first_known(answers@.skip(i as int)),
        decreases answers.len() - i,
    {
        assert(answers@.skip(i as int).drop_first() =~= answers@.skip(i + 1));
        if answers[i].is_some() {
            return answers[i];
        }
        i = i + 1;
    }
    None
}

/// Whether the screen is on, by the first source that tells it.
pub fn get_screen_state(facts: &ScreenFacts) -> (r: ScreenState)
    ensures
        r == facts.state(),
{
    let mut answers: Vec<Option<ScreenState>> = Vec::new();
    let ghost a = facts.backlight_answers();
    let ghost b = a + facts.led_answers();
    let ghost c = b + facts.blank_answers();
    let ghost d = c + facts.dpms_answers();
    let mut i: usize = 0;
    while i < facts.backlights.len()
        invariant
            i <= facts.backlights.len(),
            a == facts.backlight_answers(),
            answers@ == a.take(i as int),
        decreases facts.backlights.len() - i,
    {
        let light = &facts.backlights[i];
        let answer = if light.actual_brightness.is_some() {
            brightness_answer(&light.actual_brightness)
        } else {
            brightness_answer(&light.brightness)
        };
        answers.push(answer);
        i = i + 1;
        assert(answers@ =~= a.take(i as int));
    }
    assert(answers@ =~= a);
    i = 0;
    while i < facts.leds.len()
        invariant
            i <= facts.leds.len(),
            b == a + facts.led_answers(),
            answers@ == a + facts.led_answers().take(i as int),
        decreases facts.leds.len() - i,
    {
        let led = &facts.leds[i];
        let name = led.name.as_str();
        let answer = if text::contains_text(name, "backlight") || text::contains_text(name, "lcd")
            || text::contains_text(name, "wled") {
            brightness_answer(&led.brightness)
        } else {
            None
        };
        answers.push(answer);
        i = i + 1;
        assert(answers@ =~= a + facts.led_answers().take(i as int));
    }
    assert(answers@ =~= b);
    i = 0;
    while i < facts.blanks.len()
        invariant
            i <= facts.blanks.len(),
            c == b + facts.blank_answers(),
            answers@ == b + facts.blank_answers().take(i as int),
        decreases facts.blanks.len() - i,
    {
        answers.push(blank_answer(&facts.blanks[i]));
        i = i + 1;
        assert(answers@ =~= b + facts.blank_answers().take(i as int));
    }
    assert(answers@ =~= c);
    i = 0;
    while i < facts.dpms.len()
        invariant
            i <= facts.dpms.len(),
            d == c + facts.dpms_answers(),
            answers@ == c + facts.dpms_answers().take(i as int),
        decreases facts.dpms.len() - i,
    {
        answers.push(dpms_answer(&facts.dpms[i]));
        i = i + 1;
        assert(answers@ =~= c + facts.dpms_answers().take(i as int));
    }
    assert(answers@ =~= d);
    answers.push(dump_answer(&facts.display_dump));
    assert(answers@ =~= d + seq![by_dump(facts.display_dump)]);
    match first_answer(&answers) {
        Some(state) => state,
        None => ScreenState::Unknown,
    }
}

/// With a source of power online the device never counts as discharging.
pub proof fn law_online_source_means_charging(supplies: Seq<PowerSupply>)
    requires
        PowerState::seen(supplies).online,
    ensures
        PowerState::seen(supplies).conclusion() == Some(ChargerState::Charging)
            || PowerState::seen(supplies).conclusion() == Some(ChargerState::Full),
{
}

/// A charge that is told is never beyond one hundred percent.
pub proof fn law_percent_is_bounded(contents: Seq<Option<String>>)
    ensures
        first_percent(contents) is Some ==> 0 <= first_percent(contents)->0 <= 100,
    decreases contents.len(),
{
    if contents.len() > 0 {
        law_percent_is_bounded(contents.drop_first());
    }
}

/// A line that names the action, the device or the subsystem wins over what was known
/// before.
pub proof fn law_named_lines_win(event: EventModel, value: Seq<char>)
    ensures
        event.with_line("ACTION="@ + value).action == value,
        event.with_line("DEVPATH="@ + value).devpath == value,
        event.with_line("SUBSYSTEM="@ + value).subsystem == value,
{
    reveal_strlit("ACTION=");
    reveal_strlit("ACTION");
    reveal_strlit("DEVPATH=");
    reveal_strlit("DEVPATH");
    reveal_strlit("SUBSYSTEM=");
    reveal_strlit("SUBSYSTEM");
    assert("ACTION="@ =~= "ACTION"@.push('='));
    assert("DEVPATH="@ =~= "DEVPATH"@.push('='));
    assert("SUBSYSTEM="@ =~= "SUBSYSTEM"@.push('='));
    text::lemma_cut_after("ACTION"@, '=', value);
    text::lemma_cut_after("DEVPATH"@, '=', value);
    text::lemma_cut_after("SUBSYSTEM"@, '=', value);
    assert("DEVPATH"@ != "ACTION"@) by {
        assert("DEVPATH"@[0] != "ACTION"@[0]);
    }
    assert("SUBSYSTEM"@ != "ACTION"@) by {
        assert("SUBSYSTEM"@[0] != "ACTION"@[0]);
    }
    assert("SUBSYSTEM"@ != "DEVPATH"@) by {
        assert("SUBSYSTEM"@[0] != "DEVPATH"@[0]);
    }
}

/// The value in the last of the lines that reads `key=value`.
pub open spec fn last_value(lines: Seq<Seq<char>>, key: Seq<char>) -> Option<Seq<char>>
    decreases lines.len(),
{
    if lines.len() == 0 {
        None
    } else {
        match text::cut(lines.last(), '=') {
            Some((k, v)) if k == key => Some(v),
            _ => last_value(lines.drop_last(), key),
        }
    }
}

proof fn lemma_lines_tell(event: EventModel, lines: Seq<Seq<char>>, key: Seq<char>)
    ensures
        event.with_lines(lines).action == match last_value(lines, "ACTION"@) {
            Some(v) => v,
            None => event.action,
        },
        event.with_lines(lines).devpath == match last_value(lines, "DEVPATH"@) {
            Some(v) => v,
            None => event.devpath,
        },
        event.with_lines(lines).subsystem == match last_value(lines, "SUBSYSTEM"@) {
            Some(v) => v,
            None => event.subsystem,
        },
        key != "ACTION"@ && key != "DEVPATH"@ && key != "SUBSYSTEM"@ ==> match last_value(
            lines,
            key,
        ) {
            Some(v) => event.with_lines(lines).properties.contains_pair(key, v),
            None => event.with_lines(lines).properties.contains_key(key)
                == event.properties.contains_key(key) && (event.properties.contains_key(key)
                ==> event.with_lines(lines).properties[key] == event.properties[key]),
        },
        key == "ACTION"@ || key == "DEVPATH"@ || key == "SUBSYSTEM"@ ==> event.with_lines(
            lines,
        ).properties.contains_key(key) == event.properties.contains_key(key),
    decreases lines.len(),
{
    if lines.len() > 0 {
        reveal_strlit("ACTION");
        reveal_strlit("DEVPATH");
        reveal_strlit("SUBSYSTEM");
        assert("ACTION"@.len() == 6 && "DEVPATH"@.len() == 7 && "SUBSYSTEM"@.len() == 9);
        lemma_lines_tell(event, lines.drop_last(), key);
    }
}

/// An event is read from lines of text that zero bytes end: what happened, where and in
/// which subsystem is told by the last line that names it, or else by the first line,
/// `action@devpath`; every other key has the value of the last line that names it, and no
/// key has one without a line. Bytes that are no text, or tell none of the three, are no
/// event.
pub proof fn law_events_are_what_their_lines_tell(
    buffer: &[u8],
    r: Option<UeventMessage>,
    key: Seq<char>,
)
    requires
        call_ensures(UeventMessage::parse, (buffer,), r),
    ensures
        r is Some ==> vstd::utf8::valid_utf8(buffer@),
        vstd::utf8::valid_utf8(buffer@) ==> {
            let lines = text::not_empty(
                text::split_on(vstd::utf8::decode_utf8(buffer@), '\0'),
            );
            let rest = lines.drop_first();
            let head = text::cut(lines[0], '@');
            let action = match last_value(rest, "ACTION"@) {
                Some(v) => v,
                None => match head {
                    Some((a, _)) => a,
                    None => Seq::empty(),
                },
            };
            let devpath = match last_value(rest, "DEVPATH"@) {
                Some(v) => v,
                None => match head {
                    Some((_, d)) => d,
                    None => Seq::empty(),
                },
            };
            let subsystem = match last_value(rest, "SUBSYSTEM"@) {
                Some(v) => v,
                None => Seq::empty(),
            };
            &&& r is Some <==> lines.len() > 0 && (action.len() > 0 || devpath.len() > 0
                || subsystem.len() > 0)
            &&& r matches Some(event) ==> {
                &&& event@.action == action
                &&& event@.devpath == devpath
                &&& event@.subsystem == subsystem
                &&& key != "ACTION"@ && key != "DEVPATH"@ && key != "SUBSYSTEM"@ ==> match last_value(
                    rest,
                    key,
                ) {
                    Some(v) => event@.properties.contains_pair(key, v),
                    None => !event@.properties.contains_key(key),
                }
                &&& key == "ACTION"@ || key == "DEVPATH"@ || key == "SUBSYSTEM"@
                    ==> !event@.properties.contains_key(key)
            }
        },
{
    if vstd::utf8::valid_utf8(buffer@) {
        let lines = text::not_empty(text::split_on(vstd::utf8::decode_utf8(buffer@), '\0'));
        lemma_lines_tell(EventModel::headed(lines[0]), lines.drop_first(), key);
    }
}

/// What a battery says counts: that it charges or is full always, that it discharges
/// only where nothing else is known. A node without a type may say `1` for charging, and
/// one with a type that it is not charging.
pub proof fn law_batteries_tell_their_state(
    power: &mut PowerState,
    status: &str,
    typed: bool,
)
    requires
        call_ensures(PowerState::take_battery, (power, status, typed), ()),
    ensures
        ({
            let st = text::trimmed(status@);
            let charging = text::same_but_case(st, "Charging"@) || (!typed && st == "1"@);
            let full = text::same_but_case(st, "Full"@);
            let drains = text::same_but_case(st, "Discharging"@) || (typed && text::same_but_case(
                st,
                "Not charging"@,
            ));
            &&& charging ==> final(power).battery == ChargerState::Charging
            &&& full && !charging ==> final(power).battery == ChargerState::Full
            &&& drains && !charging && !full ==> final(power).battery == if old(power).battery
                == ChargerState::Unknown {
                ChargerState::Discharging
            } else {
                old(power).battery
            }
            &&& !charging && !full && !drains ==> final(power).battery == old(power).battery
        }),
        final(power).online == old(power).online,
{
}

/// A source of power counts as soon as one of them says `1`, space aside.
pub proof fn law_sources_tell_whether_they_are_online(
    power: &mut PowerState,
    online: &Option<String>,
)
    requires
        call_ensures(PowerState::take_source, (power, online), ()),
    ensures
        final(power).online <==> old(power).online || (*online is Some && text::trimmed(
            (*online)->0@,
        ) == "1"@),
        final(power).battery == old(power).battery,
{
}

/// A node tells by its kind: a source whether it is online, a battery its status, and
/// one of another kind nothing. A node without a type tells its status alone.
pub proof fn law_nodes_tell_by_their_kind(
    power: &mut PowerState,
    supply: &PowerSupply,
    kind: SupplyKind,
    upper: &str,
)
    requires
        call_ensures(PowerState::take_supply, (power, supply), ()),
        call_ensures(supply_kind, (upper,), kind),
        supply.supply_type is Some ==> upper@ == text::uppercase(
            text::trimmed(supply.supply_type->0@),
        ),
    ensures
        kind == SupplyKind::Source <==> text::holds_one(
            upper@,
            seq!["USB"@, "AC"@, "MAINS"@, "WIRELESS"@, "WIPOWER"@],
        ),
        kind == SupplyKind::Battery <==> kind != SupplyKind::Source && text::holds_one(
            upper@,
            seq!["BATTERY"@, "BMS"@],
        ),
        supply.supply_type is Some && kind == SupplyKind::Source ==> final(power).battery == old(power).battery && (final(power).online <==> old(power).online || (supply.online is Some
            && text::trimmed(supply.online->0@) == "1"@)),
        !(supply.supply_type is Some && kind == SupplyKind::Source) ==> final(power).online == old(power).online,
        supply.status is None && !(supply.supply_type is Some && kind == SupplyKind::Source)
            ==> *final(power) == *old(power),
        supply.supply_type is Some && kind == SupplyKind::Other ==> *final(power) == *old(power),
        supply.status is Some && (supply.supply_type is None || kind == SupplyKind::Battery)
            && text::same_but_case(text::trimmed(supply.status->0@), "Charging"@) ==> final(power).battery == ChargerState::Charging,
{
    let sources = seq!["USB"@, "AC"@, "MAINS"@, "WIRELESS"@, "WIPOWER"@];
    let batteries = seq!["BATTERY"@, "BMS"@];
    text::lemma_holds_one(upper@, sources);
    text::lemma_holds_one(upper@, batteries);
    assert(sources[0] == "USB"@ && sources[1] == "AC"@ && sources[2] == "MAINS"@ && sources[3]
        == "WIRELESS"@ && sources[4] == "WIPOWER"@);
    assert(batteries[0] == "BATTERY"@ && batteries[1] == "BMS"@);
}

/// What one file tells of the charger.
pub open spec fn charger_told(content: Option<String>) -> Option<ChargerState> {
    match content {
        None => None,
        Some(c) => {
            let t = text::trimmed(c@);
            if t == "1"@ || text::same_but_case(t, "Charging"@) {
                Some(ChargerState::Charging)
            } else if t == "0"@ || text::same_but_case(t, "Discharging"@) {
                Some(ChargerState::Discharging)
            } else if text::same_but_case(t, "Full"@) {
                Some(ChargerState::Full)
            } else {
                None
            }
        },
    }
}

proof fn lemma_fallback_first(contents: Seq<Option<String>>)
    ensures
        (fallback_state(contents) == ChargerState::Unknown && forall|i: int|
            0 <= i < contents.len() ==> charger_told(#[trigger] contents[i]) is None) || exists|
            i: int,
        |
            0 <= i < contents.len() && charger_told(#[trigger] contents[i]) == Some(
                fallback_state(contents),
            ) && forall|j: int| 0 <= j < i ==> charger_told(#[trigger] contents[j]) is None,
    decreases contents.len(),
{
    if contents.len() > 0 {
        let rest = contents.drop_first();
        if charger_told(contents[0]) is Some {
            assert(charger_told(contents[0]) == Some(fallback_state(contents)));
        } else {
            lemma_fallback_first(rest);
            assert forall|j: int| 0 < j < contents.len() implies #[trigger] contents[j] == rest[j
                - 1] by {}
            if exists|i: int|
                0 <= i < rest.len() && charger_told(#[trigger] rest[i]) == Some(
                    fallback_state(rest),
                ) && forall|j: int| 0 <= j < i ==> charger_told(#[trigger] rest[j]) is None {
                let i = choose|i: int|
                    0 <= i < rest.len() && charger_told(#[trigger] rest[i]) == Some(
                        fallback_state(rest),
                    ) && forall|j: int| 0 <= j < i ==> charger_told(#[trigger] rest[j]) is None;
                assert(charger_told(contents[i + 1]) == Some(fallback_state(contents)));
            }
        }
    }
}

/// Of the files that may tell what the charger does the first one that tells anything
/// decides; where none does, it is not known.
pub proof fn law_first_file_tells_the_charger(contents: &Vec<Option<String>>, r: ChargerState)
    requires
        call_ensures(get_charger_state_fallback, (contents,), r),
    ensures
        (r == ChargerState::Unknown && forall|i: int|
            0 <= i < contents@.len() ==> charger_told(#[trigger] contents@[i]) is None) || exists|
            i: int,
        |
            0 <= i < contents@.len() && charger_told(#[trigger] contents@[i]) == Some(r) && forall|
                j: int,
            |
                0 <= j < i ==> charger_told(#[trigger] contents@[j]) is None,
{
    lemma_fallback_first(contents@);
}

/// The charger does what the nodes tell, and what the files tell where they tell
/// nothing. A source that is online charges, unless the battery is full.
pub proof fn law_nodes_come_before_files(
    supplies: &Vec<PowerSupply>,
    contents: &Vec<Option<String>>,
    r: ChargerState,
    fallback: ChargerState,
)
    requires
        call_ensures(get_charger_state, (supplies, contents), r),
        call_ensures(get_charger_state_fallback, (contents,), fallback),
    ensures
        ({
            let seen = PowerState::seen(supplies@);
            &&& seen.online && seen.battery == ChargerState::Full ==> r == ChargerState::Full
            &&& seen.online && seen.battery != ChargerState::Full ==> r == ChargerState::Charging
            &&& !seen.online && seen.battery != ChargerState::Unknown ==> r == seen.battery
            &&& !seen.online && seen.battery == ChargerState::Unknown ==> r == fallback
        }),
        supplies@.len() == 0 ==> r == fallback,
{
}

/// What the nodes tell together is what each tells after those before it.
pub proof fn law_nodes_are_seen_in_order(
    before: PowerState,
    power: &mut PowerState,
    supplies: Seq<PowerSupply>,
    supply: &PowerSupply,
)
    requires
        call_ensures(PowerState::take_supply, (power, supply), ()),
        *old(power) == PowerState::seen(supplies),
    ensures
        *final(power) == PowerState::seen(supplies.push(*supply)),
{
    assert(supplies.push(*supply).drop_last() =~= supplies);
}

/// The percentage that one file tells, where it tells one.
pub open spec fn percent_told(content: Option<String>) -> Option<int> {
    match content {
        None => None,
        Some(c) => numerals::read_unsigned(text::trimmed(c@), 100),
    }
}

proof fn lemma_first_percent(contents: Seq<Option<String>>)
    ensures
        first_percent(contents) is None <==> forall|i: int|
            0 <= i < contents.len() ==> percent_told(#[trigger] contents[i]) is None,
        first_percent(contents) is Some ==> exists|i: int|
            0 <= i < contents.len() && percent_told(#[trigger] contents[i]) == first_percent(
                contents,
            ) && forall|j: int| 0 <= j < i ==> percent_told(#[trigger] contents[j]) is None,
    decreases contents.len(),
{
    if contents.len() > 0 {
        let rest = contents.drop_first();
        if percent_told(contents[0]) is Some {
            assert(percent_told(contents[0]) == first_percent(contents));
        } else {
            lemma_first_percent(rest);
            assert forall|j: int| 0 < j < contents.len() implies #[trigger] contents[j] == rest[j
                - 1] by {}
            if first_percent(rest) is Some {
                let i = choose|i: int|
                    0 <= i < rest.len() && percent_told(#[trigger] rest[i]) == first_percent(rest)
                        && forall|j: int| 0 <= j < i ==> percent_told(#[trigger] rest[j]) is None;
                assert(percent_told(contents[i + 1]) == first_percent(contents));
            }
        }
    }
}

/// The charge of the battery is told by the first file that holds a number of at most
/// one hundred, and by none where none does.
pub proof fn law_first_percentage_counts(contents: &Vec<Option<String>>, r: Option<u8>)
    requires
        call_ensures(get_battery_percent, (contents,), r),
    ensures
        r is None <==> forall|i: int|
            0 <= i < contents@.len() ==> percent_told(#[trigger] contents@[i]) is None,
        r matches Some(percent) ==> percent <= 100 && exists|i: int|
            0 <= i < contents@.len() && percent_told(#[trigger] contents@[i]) == Some(
                percent as int,
            ) && forall|j: int| 0 <= j < i ==> percent_told(#[trigger] contents@[j]) is None,
{
    lemma_first_percent(contents@);
    law_percent_is_bounded(contents@);
}

/// What a number that is read from a file tells of the screen: that it is on where the
/// number is zero, or where it is not.
pub open spec fn screen_told(content: Option<String>, on_is_zero: bool) -> Option<ScreenState> {
    match content {
        None => None,
        Some(c) => match numerals::read_unsigned(text::trimmed(c@), u32::MAX as int) {
            None => None,
            Some(n) => if (n == 0) == on_is_zero {
                Some(ScreenState::On)
            } else {
                Some(ScreenState::Off)
            },
        },
    }
}

proof fn lemma_first_known(answers: Seq<Option<ScreenState>>)
    ensures
        first_known(answers) is None <==> forall|i: int|
            0 <= i < answers.len() ==> #[trigger] answers[i] is None,
        first_known(answers) is Some ==> exists|i: int|
            0 <= i < answers.len() && #[trigger] answers[i] == first_known(answers) && forall|
                j: int,
            |
                0 <= j < i ==> #[trigger] answers[j] is None,
    decreases answers.len(),
{
    if answers.len() > 0 {
        let rest = answers.drop_first();
        if answers[0] is Some {
            assert(answers[0] == first_known(answers));
        } else {
            lemma_first_known(rest);
            assert forall|j: int| 0 < j < answers.len() implies #[trigger] answers[j] == rest[j
                - 1] by {}
            if first_known(rest) is Some {
                let i = choose|i: int|
                    0 <= i < rest.len() && #[trigger] rest[i] == first_known(rest) && forall|
                        j: int,
                    |
                        0 <= j < i ==> #[trigger] rest[j] is None;
                assert(answers[i + 1] == first_known(answers));
            }
        }
    }
}

/// The screen is what the first source tells that tells anything. Backlights are asked
/// first, each by its actual brightness where it has one, then the lamps of the screen;
/// either is on above zero. Of several the first that tells decides.
pub proof fn law_backlights_tell_the_screen(facts: &ScreenFacts, r: ScreenState, i: int)
    requires
        call_ensures(get_screen_state, (facts,), r),
        0 <= i < facts.backlights@.len(),
        ({
            let lit = |k: int|
                screen_told(
                    if facts.backlights@[k].actual_brightness is Some {
                        facts.backlights@[k].actual_brightness
                    } else {
                        facts.backlights@[k].brightness
                    },
                    false,
                );
            lit(i) is Some && forall|j: int| #![trigger facts.backlights@[j]] 0 <= j < i ==> lit(
                j,
            ) is None
        }),
    ensures
        Some(r) == screen_told(
            if facts.backlights@[i].actual_brightness is Some {
                facts.backlights@[i].actual_brightness
            } else {
                facts.backlights@[i].brightness
            },
            false,
        ),
{
    let answers = facts.backlight_answers() + facts.led_answers() + facts.blank_answers()
        + facts.dpms_answers() + seq![by_dump(facts.display_dump)];
    lemma_first_known(answers);
    assert forall|j: int| 0 <= j < facts.backlights@.len() implies #[trigger] answers[j]
        == by_backlight(facts.backlights@[j]) by {}
    assert(answers[i] is Some);
    let k = choose|k: int|
        0 <= k < answers.len() && #[trigger] answers[k] == first_known(answers) && forall|j: int|
            0 <= j < k ==> #[trigger] answers[j] is None;
    assert(k == i) by {
        if k < i {
            assert(facts.backlights@[k] == facts.backlights@[k]);
            assert(answers[k] == by_backlight(facts.backlights@[k]));
        }
        if i < k {
            assert(answers[i] is None);
        }
    }
}

/// Where no backlight tells anything the lamps of the screen do, by their names, and
/// after them the framebuffers, the connectors and the display service, in that order;
/// and nothing is known where none of them tells anything.
pub proof fn law_other_sources_tell_the_screen(facts: &ScreenFacts, r: ScreenState)
    requires
        call_ensures(get_screen_state, (facts,), r),
        facts.backlights@.len() == 0,
        facts.leds@.len() == 0,
    ensures
        facts.blanks@.len() > 0 && screen_told(facts.blanks@[0], true) is Some ==> Some(r)
            == screen_told(facts.blanks@[0], true),
        facts.blanks@.len() == 0 && facts.dpms@.len() > 0 ==> {
            let t = text::trimmed(facts.dpms@[0]->0@);
            let on = facts.dpms@[0] is Some && (t == "0"@ || text::same_but_case(t, "On"@));
            let off = facts.dpms@[0] is Some && (t == "3"@ || text::same_but_case(t, "Off"@));
            &&& on ==> r == ScreenState::On
            &&& off && !on ==> r == ScreenState::Off
        },
        facts.blanks@.len() == 0 && facts.dpms@.len() == 0 ==> {
            let on = facts.display_dump is Some && text::holds_one(
                facts.display_dump->0@,
                seq![
                    "mScreenState=ON"@,
                    "state=ON"@,
                    "Display State: ON"@,
                    "Display Power: state=ON"@,
                ],
            );
            let off = facts.display_dump is Some && text::holds_one(
                facts.display_dump->0@,
                seq![
                    "mScreenState=OFF"@,
                    "state=OFF"@,
                    "Display State: OFF"@,
                    "Display Power: state=OFF"@,
                ],
            );
            &&& r == ScreenState::On <==> on
            &&& r == ScreenState::Off <==> off && !on
            &&& r == ScreenState::Unknown <==> !on && !off
        },
{
    let answers = facts.backlight_answers() + facts.led_answers() + facts.blank_answers()
        + facts.dpms_answers() + seq![by_dump(facts.display_dump)];
    lemma_first_known(answers);
    if facts.blanks@.len() > 0 {
        assert(answers[0] == by_blank(facts.blanks@[0]));
    } else if facts.dpms@.len() > 0 {
        assert(answers[0] == by_dpms(facts.dpms@[0]));
    } else {
        assert(answers[0] == by_dump(facts.display_dump));
        assert(answers.len() == 1);
        if facts.display_dump is Some {
            text::lemma_holds_one(
                facts.display_dump->0@,
                seq![
                    "mScreenState=ON"@,
                    "state=ON"@,
                    "Display State: ON"@,
                    "Display Power: state=ON"@,
                ],
            );
            text::lemma_holds_one(
                facts.display_dump->0@,
                seq![
                    "mScreenState=OFF"@,
                    "state=OFF"@,
                    "Display State: OFF"@,
                    "Display Power: state=OFF"@,
                ],
            );
        }
    }
}

/// A lamp tells of the screen only where its name says so, and by its brightness.
pub proof fn law_lamps_of_the_screen_tell(facts: &ScreenFacts, r: ScreenState)
    requires
        call_ensures(get_screen_state, (facts,), r),
        facts.backlights@.len() == 0,
        facts.leds@.len() > 0,
        text::holds_one(facts.leds@[0].name@, seq!["backlight"@, "lcd"@, "wled"@]),
        screen_told(facts.leds@[0].brightness, false) is Some,
    ensures
        Some(r) == screen_told(facts.leds@[0].brightness, false),
{
    let answers = facts.backlight_answers() + facts.led_answers() + facts.blank_answers()
        + facts.dpms_answers() + seq![by_dump(facts.display_dump)];
    lemma_first_known(answers);
    assert(answers[0] == by_led(facts.leds@[0]));
    let names = seq!["backlight"@, "lcd"@, "wled"@];
    text::lemma_holds_one(facts.leds@[0].name@, names);
    assert(names[0] == "backlight"@ && names[1] == "lcd"@ && names[2] == "wled"@);
}

/// The files that may tell what the charger does and how full the battery is, in the
/// order in which they are asked.
pub proof fn law_files_asked(charger: [&'static str; 5], capacity: [&'static str; 3])
    requires
        call_ensures(charger_fallback_paths, (), charger),
        call_ensures(capacity_paths, (), capacity),
    ensures
        charger@[0]@ == "/sys/class/power_supply/battery/status"@,
        charger@[1]@ == "/sys/class/power_supply/bms/status"@,
        charger@[2]@ == "/sys/class/power_supply/usb/online"@,
        charger@[3]@ == "/sys/class/power_supply/ac/online"@,
        charger@[4]@ == "/sys/class/power_supply/main/online"@,
        capacity@[0]@ == "/sys/class/power_supply/battery/capacity"@,
        capacity@[1]@ == "/sys/class/power_supply/bms/capacity"@,
        capacity@[2]@ == "/sys/class/power_supply/qcom-battery/capacity"@,
{
    assert forall|i: int| 0 <= i < 5 implies (#[trigger] charger@[i])@ == text::literals(
        charger@,
    )[i] by {}
    assert forall|i: int| 0 <= i < 3 implies (#[trigger] capacity@[i])@ == text::literals(
        capacity@,
    )[i] by {}
}

} // verus!
