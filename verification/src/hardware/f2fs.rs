//! How urgently the F2FS file system collects garbage.
use vstd::prelude::*;

use crate::numerals;
use crate::paths;
use crate::text;

verus! {

/// Where the kernel lists its F2FS devices.
pub const F2FS_SYSFS: &'static str = "/sys/fs/f2fs";

/// An entry of that list.
#[derive(Debug, Clone)]
pub struct F2fsEntry {
    pub path: String,
    pub is_dir: bool,
    /// It has a file `gc_urgent`.
    pub has_gc_urgent: bool,
}

/// A file and what is to be written to it.
#[derive(Debug, Clone)]
pub struct ModeWrite {
    pub path: String,
    pub payload: String,
}

/// A write, in terms of characters.
pub struct WriteModel {
    pub path: Seq<char>,
    pub payload: Seq<char>,
}

impl View for ModeWrite {
    type V = WriteModel;

    open spec fn view(&self) -> WriteModel {
        WriteModel { path: self.path@, payload: self.payload@ }
    }
}

/// The writes of a list.
pub open spec fn writes(list: Seq<ModeWrite>) -> Seq<WriteModel> {
    list.map_values(|w: ModeWrite| w@)
}

/// A mode on a line of its own.
pub open spec fn mode_line(mode: int) -> Seq<char> {
    numerals::decimal(mode as nat).push('\n')
}

/// The file of a device that sets its mode.
pub open spec fn mode_file(device: Seq<char>) -> Seq<char> {
    paths::joined(device, "gc_urgent"@)
}

/// What sets a device to a mode.
pub open spec fn mode_write(device: Seq<char>, mode: u8) -> WriteModel {
    WriteModel { path: mode_file(device), payload: mode_line(mode as int) }
}

/// The mode that a file holds, the normal one where it cannot be told.
pub open spec fn mode_in(content: Option<String>) -> int {
    match content {
        Some(c) => match numerals::read_unsigned(text::trimmed(c@), u8::MAX as int) {
            Some(mode) => mode,
            None => 0,
        },
        None => 0,
    }
}

/// The devices of the entries that can be set.
pub open spec fn usable(entries: Seq<F2fsEntry>) -> Seq<Seq<char>>
    decreases entries.len(),
{
    if entries.len() == 0 {
        Seq::empty()
    } else {
        let before = usable(entries.drop_last());
        if entries.last().is_dir && entries.last().has_gc_urgent {
            before.push(entries.last().path@)
        } else {
            before
        }
    }
}

/// The F2FS devices.
#[derive(Debug)]
pub struct F2fsController {
    devices: Vec<String>,
}

impl View for F2fsController {
    type V = Seq<Seq<char>>;

    closed spec fn view(&self) -> Seq<Seq<char>> {
        text::texts(self.devices@)
    }
}

/// What puts the modes back that were there before.
#[derive(Debug)]
pub struct F2fsUrgentGuard {
    previous_modes: Vec<ModeWrite>,
}

impl View for F2fsUrgentGuard {
    type V = Seq<WriteModel>;

    closed spec fn view(&self) -> Seq<WriteModel> {
        writes(self.previous_modes@)
    }
}

impl F2fsUrgentGuard {
    /// What is to be written when the guard ends.
    pub fn restore(self) -> (r: Vec<ModeWrite>)
        ensures
            writes(r@) == self@,
    {
        self.previous_modes
    }
}

fn mode_line_text(mode: u8) -> (r: String)
    ensures
        r@ == mode_line(mode as int),
{
    let mut line = numerals::decimal_text(mode as u64);
    line.append("\n");
    proof {
        reveal_strlit("\n");
        assert("\n"@ =~= seq!['\n']);
        assert(line@ =~= mode_line(mode as int));
    }
    line
}

fn mode_of(content: &Option<String>) -> (r: u8)
    ensures
        r == mode_in(*content),
{
    match content {
        Some(c) => match numerals::parse_unsigned(text::trim_text(c.as_str()), u8::MAX as u64) {
            Some(mode) => mode as u8,
            None => 0,
        },
        None => 0,
    }
}

impl F2fsController {
    /// The devices among the entries of the kernel's list.
    pub fn discover(entries: &Vec<F2fsEntry>) -> (r: Self)
        ensures
            r@ == usable(entries@),
    {
        let mut devices: Vec<String> = Vec::new();
        let mut i: usize = 0;
        assert(entries@.take(0) =~= Seq::empty());
        while i < entries.len()
            invariant
                i <= entries.len(),
                text::texts(devices@) == usable(entries@.take(i as int)),
            decreases entries.len() - i,
        {
            let ghost before = devices@;
            assert(entries@.take(i + 1).drop_last() =~= entries@.take(i as int));
            assert(entries@.take(i + 1).last() == entries@[i as int]);
            if entries[i].is_dir && entries[i].has_gc_urgent {
                devices.push(entries[i].path.clone());
                assert(text::texts(devices@) =~= text::texts(before).push(
                    entries@[i as int].path@,
                ));
            }
            i = i + 1;
        }
        assert(entries@.take(i as int) =~= entries@);
        F2fsController { devices }
    }

    pub fn is_available(&self) -> (r: bool)
        ensures
            r == (self@.len() > 0),
    {
        !self.devices.is_empty()
    }

    /// The files that set the modes of the devices.
    pub fn mode_files(&self) -> (r: Vec<String>)
        ensures
            text::texts(r@) == self@.map_values(|d: Seq<char>| mode_file(d)),
    {
        let mut r: Vec<String> = Vec::new();
        let mut i: usize = 0;
        while i < self.devices.len()
            invariant
                i <= self.devices.len(),
                text::texts(r@) == self@.take(i as int).map_values(|d: Seq<char>| mode_file(d)),
            decreases self.devices.len() - i,
        {
            let ghost before = r@;
            r.push(paths::join_path(self.devices[i].as_str(), "gc_urgent"));
            assert(text::texts(r@) =~= text::texts(before).push(mode_file(self@[i as int])));
            i = i + 1;
            assert(text::texts(r@) =~= self@.take(i as int).map_values(
                |d: Seq<char>| mode_file(d),
            ));
        }
        assert(self@.take(i as int) =~= self@);
        r
    }

    /// What is to be written to set every device to a mode.
    pub fn set_gc_urgent(&self, mode: u8) -> (r: Vec<ModeWrite>)
        ensures
            writes(r@) == self@.map_values(|d: Seq<char>| mode_write(d, mode)),
    {
        let mut r: Vec<ModeWrite> = Vec::new();
        let mut i: usize = 0;
        while i < self.devices.len()
            invariant
                i <= self.devices.len(),
                writes(r@) == self@.take(i as int).map_values(|d: Seq<char>| mode_write(d, mode)),
            decreases self.devices.len() - i,
        {
            let path = paths::join_path(self.devices[i].as_str(), "gc_urgent");
            let ghost before = r@;
            r.push(ModeWrite { path, payload: mode_line_text(mode) });
            assert(writes(r@) =~= writes(before).push(mode_write(self@[i as int], mode)));
            i = i + 1;
            assert(writes(r@) =~= self@.take(i as int).map_values(
                |d: Seq<char>| mode_write(d, mode),
            ));
        }
        assert(self@.take(i as int) =~= self@);
        r
    }

    /// What the devices go back to: the modes that their files hold, given here in
    /// the order of the devices.
    pub open spec fn previous(devices: Seq<Seq<char>>, contents: Seq<Option<String>>) -> Seq<
        WriteModel,
    > {
        Seq::new(
            devices.len(),
            |i: int| WriteModel {
                path: mode_file(devices[i]),
                payload: mode_line(
                    if i < contents.len() {
                        mode_in(contents[i])
                    } else {
                        0
                    },
                ),
            },
        )
    }

    /// Begins to collect garbage in a mode: what is to be written now, and a guard
    /// for what was there before. Without a device there is nothing to do.
    pub fn enter_gc_urgent_scoped(&self, mode: u8, contents: &Vec<Option<String>>) -> (r: Option<
        (Vec<ModeWrite>, F2fsUrgentGuard),
    >)
        ensures
            r is Some <==> self@.len() > 0,
            r matches Some((now, guard)) ==> {
                &&& writes(now@) == self@.map_values(|d: Seq<char>| mode_write(d, mode))
                &&& guard@ == F2fsController::previous(self@, contents@)
            },
    {
        if !self.is_available() {
            return None;
        }
        let ghost all = F2fsController::previous(self@, contents@);
        let mut previous_modes: Vec<ModeWrite> = Vec::new();
        let mut i: usize = 0;
        while i < self.devices.len()
            invariant
                i <= self.devices.len(),
                all == F2fsController::previous(self@, contents@),
                writes(previous_modes@) == all.take(i as int),
            decreases self.devices.len() - i,
        {
            let path = paths::join_path(self.devices[i].as_str(), "gc_urgent");
            let prev: u8 = if i < contents.len() {
                mode_of(&contents[i])
            } else {
                0
            };
            let ghost before = previous_modes@;
            previous_modes.push(ModeWrite { path, payload: mode_line_text(prev) });
            assert(writes(previous_modes@) =~= writes(before).push(all[i as int]));
            i = i + 1;
            assert(writes(previous_modes@) =~= all.take(i as int));
        }
        assert(all.take(i as int) =~= all);
        Some((self.set_gc_urgent(mode), F2fsUrgentGuard { previous_modes }))
    }
}

/// A mode that was read from a device is the mode that the guard puts back.
pub proof fn law_guard_puts_modes_back(
    devices: Seq<Seq<char>>,
    contents: Seq<Option<String>>,
    i: int,
    mode: u8,
)
    requires
        0 <= i < devices.len(),
        i < contents.len(),
        contents[i] is Some,
        contents[i]->0@ == mode_line(mode as int),
    ensures
        F2fsController::previous(devices, contents)[i] == mode_write(devices[i], mode),
{
    let numeral = numerals::decimal(mode as nat);
    numerals::law_numeral_reads_back(mode as nat, u8::MAX as int);
    numerals::lemma_decimal(mode as nat);
    assert(numerals::is_digit(numeral[0]) && numerals::is_digit(numeral.last()));
    text::lemma_trim_line(numeral);
}

proof fn lemma_usable(entries: Seq<F2fsEntry>, device: Seq<char>)
    ensures
        usable(entries).contains(device) <==> exists|i: int|
            0 <= i < entries.len() && (#[trigger] entries[i]).is_dir && entries[i].has_gc_urgent
                && entries[i].path@ == device,
        usable(entries).len() <= entries.len(),
    decreases entries.len(),
{
    if entries.len() > 0 {
        let front = entries.drop_last();
        lemma_usable(front, device);
        let before = usable(front);
        let all = usable(entries);
        if all.contains(device) {
            let k = choose|k: int| 0 <= k < all.len() && all[k] == device;
            if k < before.len() {
                assert(before[k] == device);
                let i = choose|i: int|
                    0 <= i < front.len() && (#[trigger] front[i]).is_dir && front[i].has_gc_urgent
                        && front[i].path@ == device;
                assert(entries[i] == front[i]);
            } else {
                assert(entries[entries.len() - 1] == entries.last());
            }
        }
        if exists|i: int|
            0 <= i < entries.len() && (#[trigger] entries[i]).is_dir && entries[i].has_gc_urgent
                && entries[i].path@ == device {
            let i = choose|i: int|
                0 <= i < entries.len() && (#[trigger] entries[i]).is_dir && entries[i].has_gc_urgent
                    && entries[i].path@ == device;
            if i < front.len() {
                assert(front[i] == entries[i]);
                let k = choose|k: int| 0 <= k < before.len() && before[k] == device;
                assert(all[k] == device);
            } else {
                assert(all[all.len() - 1] == device);
            }
        }
    }
}

/// The devices are the directories of the list that have the file which sets the mode,
/// all of them and no other; there is something to do exactly where there is one.
pub proof fn law_devices_are_those_that_can_be_set(
    entries: &Vec<F2fsEntry>,
    r: F2fsController,
    available: bool,
    device: Seq<char>,
)
    requires
        call_ensures(F2fsController::discover, (entries,), r),
        call_ensures(F2fsController::is_available, (&r,), available),
    ensures
        r@.contains(device) <==> exists|i: int|
            0 <= i < entries@.len() && (#[trigger] entries@[i]).is_dir && entries@[i].has_gc_urgent
                && entries@[i].path@ == device,
        r@.len() <= entries@.len(),
        available <==> r@.len() > 0,
{
    lemma_usable(entries@, device);
}

/// Setting a mode writes it, on a line of its own, to the file of every device.
pub proof fn law_every_device_is_set(
    controller: &F2fsController,
    mode: u8,
    r: Vec<ModeWrite>,
    files: Vec<String>,
    i: int,
)
    requires
        call_ensures(F2fsController::set_gc_urgent, (controller, mode), r),
        call_ensures(F2fsController::mode_files, (controller,), files),
        0 <= i < controller@.len(),
    ensures
        r@.len() == controller@.len(),
        files@.len() == controller@.len(),
        r@[i].path@ == paths::joined(controller@[i], "gc_urgent"@),
        r@[i].payload@ == numerals::decimal(mode as nat).push('\n'),
        files@[i]@ == r@[i].path@,
{
    assert(writes(r@).len() == r@.len());
    assert(writes(r@)[i] == r@[i]@);
    assert(text::texts(files@).len() == files@.len());
    assert(text::texts(files@)[i] == files@[i]@);
}

/// What is set for a time is put back afterwards: to the same file of every device the
/// mode that it held, or the normal one where that could not be told. Without a device
/// nothing is done.
pub proof fn law_modes_are_put_back(
    controller: &F2fsController,
    mode: u8,
    contents: &Vec<Option<String>>,
    r: Option<(Vec<ModeWrite>, F2fsUrgentGuard)>,
    guard: F2fsUrgentGuard,
    back: Vec<ModeWrite>,
    i: int,
)
    requires
        call_ensures(F2fsController::enter_gc_urgent_scoped, (controller, mode, contents), r),
        call_ensures(F2fsUrgentGuard::restore, (guard,), back),
    ensures
        r is None <==> controller@.len() == 0,
        r matches Some((now, given)) ==> {
            &&& now@.len() == controller@.len()
            &&& 0 <= i < controller@.len() ==> now@[i].path@ == paths::joined(
                controller@[i],
                "gc_urgent"@,
            ) && now@[i].payload@ == numerals::decimal(mode as nat).push('\n')
            &&& guard@ == given@ ==> {
                &&& back@.len() == controller@.len()
                &&& 0 <= i < controller@.len() ==> {
                    let told = i < contents@.len() && contents@[i] is Some
                        && numerals::read_unsigned(
                        text::trimmed(contents@[i]->0@),
                        255,
                    ) is Some;
                    &&& back@[i].path@ == now@[i].path@
                    &&& told ==> back@[i].payload@ == numerals::decimal(
                        numerals::read_unsigned(text::trimmed(contents@[i]->0@), 255)->0 as nat,
                    ).push('\n')
                    &&& !told ==> back@[i].payload@ == numerals::decimal(0).push('\n')
                }
            }
        },
{
    if r is Some {
        let (now, given) = r->0;
        assert(writes(now@).len() == now@.len());
        assert(writes(back@).len() == back@.len());
        if 0 <= i < controller@.len() {
            assert(writes(now@)[i] == now@[i]@);
            if guard@ == given@ {
                assert(writes(back@)[i] == back@[i]@);
            }
        }
    }
}

} // verus!
