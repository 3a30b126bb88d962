//! The controller's view of the house: the latest meter reading, and every
//! device that has reported, in the order of their identifiers.

use vstd::prelude::*;

use crate::battery::BatteryState;
use crate::text;
use crate::text::{before, Place};
use crate::units::{saturated_i64, GridPower, SolarPower};

verus! {

/// A device's identity: its serial number, or a configured name.
#[derive(Debug, PartialEq, Eq)]
pub struct DeviceId {
    id: String,
}

impl View for DeviceId {
    type V = Seq<char>;

    closed spec fn view(&self) -> Seq<char> {
        self.id@
    }
}

impl DeviceId {
    pub fn new(id: &str) -> (out: Self)
        ensures
            out@ == id@,
    {
        DeviceId { id: id.to_owned() }
    }

    pub fn as_str(&self) -> (out: &str)
        ensures
            out@ == self@,
    {
        self.id.as_str()
    }
}

impl Clone for DeviceId {
    fn clone(&self) -> (out: Self)
        ensures
            out@ == self@,
    {
        DeviceId { id: self.id.clone() }
    }
}

/// What a device last said about itself, by class.
#[derive(Debug, Clone, Copy, PartialEq, Eq, Structural)]
pub enum Measurement {
    Battery(BatteryState),
}

/// One reading of the grid meter.
#[derive(Debug, Clone, Copy, PartialEq, Eq)]
pub struct MeterReading {
    pub total: GridPower,
    pub phases: [GridPower; 3],
}

impl MeterReading {
    pub fn new(total: GridPower, phases: [GridPower; 3]) -> (out: Self)
        ensures
            out == (MeterReading { total, phases }),
    {
        MeterReading { total, phases }
    }

    /// A reading from a meter that reports no phases.
    pub fn total_only(total: GridPower) -> (out: Self)
        ensures
            out.total == total,
            out.phases@ == seq![GridPower::zero(), GridPower::zero(), GridPower::zero()],
    {
        let zero = GridPower::zero();
        MeterReading { total, phases: [zero, zero, zero] }
    }
}

/// A device and its last measurement.
#[derive(Debug, PartialEq)]
struct Entry {
    id: DeviceId,
    measurement: Measurement,
}

/// What the controller knows about the house.
#[derive(Debug, PartialEq)]
pub struct World {
    grid: MeterReading,
    solar: SolarPower,
    devices: Vec<Entry>,
}

// --- model ---------------------------------------------------------------------

/// Roster with their measurements, in the order of their identifiers.
pub type Roster = Seq<(Seq<char>, Measurement)>;

/// A [`World`] as a mathematical value.
#[verifier::ext_equal]
pub struct House {
    pub grid: MeterReading,
    pub solar: SolarPower,
    pub devices: Roster,
}

/// No identifier occurs twice, and they stand in order.
pub open spec fn in_order(devices: Roster) -> bool {
    forall|i: int, j: int|
        0 <= i < j < devices.len() ==> #[trigger] before(devices[i].0, devices[j].0)
}

/// What `devices` says about `id`.
pub open spec fn lookup(devices: Roster, id: Seq<char>) -> Option<Measurement>
    decreases devices.len(),
{
    if devices.len() == 0 {
        None
    } else if devices[0].0 == id {
        Some(devices[0].1)
    } else {
        lookup(devices.skip(1), id)
    }
}

/// `devices` once `id` has reported `measurement`.
pub open spec fn put(devices: Roster, id: Seq<char>, measurement: Measurement) -> Roster
    decreases devices.len(),
{
    if devices.len() == 0 || before(id, devices[0].0) {
        seq![(id, measurement)] + devices
    } else if devices[0].0 == id {
        devices.update(0, (id, measurement))
    } else {
        seq![devices[0]] + put(devices.skip(1), id, measurement)
    }
}

impl House {
    /// The house once `id` has reported.
    pub open spec fn observe_device(self, id: Seq<char>, measurement: Measurement) -> House {
        House { devices: put(self.devices, id, measurement), ..self }
    }

    /// The house once the meter has reported.
    pub open spec fn observe_meter(self, grid: MeterReading, solar: SolarPower) -> House {
        House { grid, solar, ..self }
    }

    /// The battery the objective is sized against: the first in order.
    pub open spec fn battery(self) -> Option<BatteryState> {
        if self.devices.len() == 0 {
            None
        } else {
            Some(battery_of(self.devices[0].1))
        }
    }

    /// What the meter would read without that battery.
    pub open spec fn underlying_grid(self) -> int {
        match self.battery() {
            Some(battery) => saturated_i64(self.grid.total.mw + battery.current_power.w * 1000),
            None => self.grid.total.mw as int,
        }
    }
}

/// The battery that a measurement describes.
pub open spec fn battery_of(measurement: Measurement) -> BatteryState {
    match measurement {
        Measurement::Battery(state) => state,
    }
}

// --- laws ----------------------------------------------------------------------

/// A report keeps the devices in order, adds or replaces exactly the one that
/// reported, and leaves what is known of every other as it was.
pub proof fn put_is_a_map_update(
    devices: Roster,
    id: Seq<char>,
    measurement: Measurement,
    other: Seq<char>,
)
    requires
        in_order(devices),
    ensures
        in_order(put(devices, id, measurement)),
        lookup(put(devices, id, measurement), other) == if other == id {
            Some(measurement)
        } else {
            lookup(devices, other)
        },
    decreases devices.len(),
{
    let after = put(devices, id, measurement);
    if devices.len() == 0 || before(id, devices[0].0) {
        assert(after.skip(1) =~= devices);
        if devices.len() > 0 {
            assert forall|i: int, j: int| 0 <= i < j < after.len() implies #[trigger] before(
                after[i].0,
                after[j].0,
            ) by {
                if i == 0 && j > 1 {
                    assert(before(devices[0].0, devices[j - 1].0));
                    text::before_is_transitive(id, devices[0].0, devices[j - 1].0);
                } else if i > 0 {
                    assert(before(devices[i - 1].0, devices[j - 1].0));
                }
            }
            text::before_is_irreflexive(id);
            if other == id {
            } else {
                assert(lookup(after, other) == lookup(after.skip(1), other));
            }
        }
    } else if devices[0].0 == id {
        assert forall|i: int, j: int| 0 <= i < j < after.len() implies #[trigger] before(
            after[i].0,
            after[j].0,
        ) by {
            assert(before(devices[i].0, devices[j].0));
        }
        assert(after.skip(1) =~= devices.skip(1));
    } else {
        let rest = devices.skip(1);
        assert forall|i: int, j: int| 0 <= i < j < rest.len() implies #[trigger] before(
            rest[i].0,
            rest[j].0,
        ) by {
            assert(before(devices[i + 1].0, devices[j + 1].0));
        }
        put_is_a_map_update(rest, id, measurement, other);
        assert(after.skip(1) =~= put(rest, id, measurement));
        text::before_is_total(id, devices[0].0);
        assert forall|k: int| 0 <= k < put(rest, id, measurement).len() implies before(
            devices[0].0,
            #[trigger] put(rest, id, measurement)[k].0,
        ) by {
            put_holds_old_and_new(rest, id, measurement, k);
            if put(rest, id, measurement)[k].0 != id {
                let m = choose|m: int|
                    0 <= m < rest.len() && rest[m].0 == put(rest, id, measurement)[k].0;
                assert(before(devices[0].0, devices[m + 1].0));
            }
        }
        assert forall|i: int, j: int| 0 <= i < j < after.len() implies #[trigger] before(
            after[i].0,
            after[j].0,
        ) by {
            if i == 0 {
                assert(after[j] == put(rest, id, measurement)[j - 1]);
            } else {
                assert(before(
                    put(rest, id, measurement)[i - 1].0,
                    put(rest, id, measurement)[j - 1].0,
                ));
            }
        }
    }
}

/// After a report, an identifier is the one that reported or was there before.
proof fn put_holds_old_and_new(devices: Roster, id: Seq<char>, measurement: Measurement, k: int)
    requires
        0 <= k < put(devices, id, measurement).len(),
    ensures
        put(devices, id, measurement)[k].0 == id || exists|m: int|
            0 <= m < devices.len() && devices[m].0 == put(devices, id, measurement)[k].0,
    decreases devices.len(),
{
    let after = put(devices, id, measurement);
    if devices.len() == 0 || before(id, devices[0].0) {
        if k > 0 {
            assert(devices[k - 1].0 == after[k].0);
        }
    } else if devices[0].0 == id {
        assert(devices[k].0 == after[k].0);
    } else if k == 0 {
        assert(devices[0].0 == after[0].0);
    } else {
        put_holds_old_and_new(devices.skip(1), id, measurement, k - 1);
        if after[k].0 != id {
            let m = choose|m: int|
                0 <= m < devices.skip(1).len() && devices.skip(1)[m].0 == put(
                    devices.skip(1),
                    id,
                    measurement,
                )[k - 1].0;
            assert(devices[m + 1].0 == after[k].0);
        }
    }
}

/// Where a report lands, given how many identifiers come before its own.
proof fn put_at(devices: Roster, id: Seq<char>, measurement: Measurement, at: int)
    requires
        in_order(devices),
        0 <= at <= devices.len(),
        forall|i: int| 0 <= i < at ==> before(#[trigger] devices[i].0, id),
        at < devices.len() ==> !before(devices[at].0, id),
    ensures
        put(devices, id, measurement) == if at < devices.len() && devices[at].0 == id {
            devices.update(at, (id, measurement))
        } else {
            devices.insert(at, (id, measurement))
        },
    decreases devices.len(),
{
    if at == 0 {
        if devices.len() > 0 {
            text::before_is_total(id, devices[0].0);
            text::before_is_irreflexive(id);
        }
        assert(seq![(id, measurement)] + devices =~= devices.insert(0, (id, measurement)));
    } else {
        let rest = devices.skip(1);
        assert(before(devices[0].0, id));
        text::before_is_irreflexive(id);
        if before(id, devices[0].0) {
            text::before_is_transitive(id, devices[0].0, id);
        }
        assert forall|i: int, j: int| 0 <= i < j < rest.len() implies #[trigger] before(
            rest[i].0,
            rest[j].0,
        ) by {
            assert(before(devices[i + 1].0, devices[j + 1].0));
        }
        assert forall|i: int| 0 <= i < at - 1 implies before(#[trigger] rest[i].0, id) by {
            assert(before(devices[i + 1].0, id));
        }
        put_at(rest, id, measurement, at - 1);
        assert(put(devices, id, measurement) == seq![devices[0]] + put(rest, id, measurement));
        if at < devices.len() && devices[at].0 == id {
            assert(put(devices, id, measurement) =~= devices.update(at, (id, measurement)));
        } else {
            assert(put(devices, id, measurement) =~= devices.insert(at, (id, measurement)));
        }
    }
}

// --- implementation ------------------------------------------------------------

impl Entry {
    spec fn model(self) -> (Seq<char>, Measurement) {
        (self.id@, self.measurement)
    }
}

/// Nothing is known of a house: no power flows, and there is no device.
pub open spec fn is_unknown(house: House) -> bool {
    &&& house.grid.total == GridPower::zero()
    &&& house.grid.phases@ == seq![GridPower::zero(), GridPower::zero(), GridPower::zero()]
    &&& house.solar == SolarPower::zero()
    &&& house.devices.len() == 0
}

spec fn models(entries: Seq<Entry>) -> Roster {
    entries.map_values(|e: Entry| e.model())
}

impl View for World {
    type V = House;

    closed spec fn view(&self) -> House {
        House { grid: self.grid, solar: self.solar, devices: models(self.devices@) }
    }
}

impl World {
    #[verifier::type_invariant]
    spec fn devices_in_order(self) -> bool {
        in_order(models(self.devices@))
    }

    /// A house that nothing is known of.
    pub fn new() -> (out: Self)
        ensures
            is_unknown(out@),
    {
        World {
            grid: MeterReading::total_only(GridPower::zero()),
            solar: SolarPower::zero(),
            devices: Vec::new(),
        }
    }

    pub fn grid(&self) -> (out: MeterReading)
        ensures
            out == self@.grid,
    {
        self.grid
    }

    pub fn solar(&self) -> (out: SolarPower)
        ensures
            out == self@.solar,
    {
        self.solar
    }

    /// Takes in a meter reading.
    pub fn observe_meter(&mut self, grid: MeterReading, solar: SolarPower)
        ensures
            final(self)@ == old(self)@.observe_meter(grid, solar),
    {
        proof {
            use_type_invariant(&*self);
        }
        self.grid = grid;
        self.solar = solar;
    }

    /// Takes in what a device said about itself.
    pub fn observe_device(&mut self, id: DeviceId, measurement: Measurement)
        ensures
            final(self)@ == old(self)@.observe_device(id@, measurement),
    {
        proof {
            use_type_invariant(&*self);
        }
        let mut devices: Vec<Entry> = Vec::new();
        let ghost before_devices = models(self.devices@);
        std::mem::swap(&mut devices, &mut self.devices);
        let ghost entries = devices@;
        let mut at: usize = 0;
        let mut found = false;
        while at < devices.len()
            invariant_except_break
                !found,
            invariant
                at <= devices.len(),
                devices@ == entries,
                before_devices == models(entries),
                in_order(before_devices),
                forall|i: int|
                    0 <= i < at ==> before(#[trigger] before_devices[i].0, id@),
            ensures
                at < devices.len() ==> !before(before_devices[at as int].0, id@),
                found == (at < devices.len() && before_devices[at as int].0 == id@),
            decreases devices.len() - at,
        {
            match text::place(devices[at].id.as_str(), id.as_str()) {
                Place::Before => {
                    at += 1;
                },
                Place::Same => {
                    found = true;
                    proof {
                        text::before_is_irreflexive(id@);
                    }
                    break ;
                },
                Place::After => {
                    proof {
                        text::before_is_irreflexive(id@);
                        if before(before_devices[at as int].0, id@) {
                            text::before_is_transitive(id@, before_devices[at as int].0, id@);
                        }
                    }
                    break ;
                },
            }
        }
        proof {
            put_at(before_devices, id@, measurement, at as int);
            put_is_a_map_update(before_devices, id@, measurement, id@);
        }
        let ghost id_view = id@;
        let entry = Entry { id, measurement };
        if found {
            devices.set(at, entry);
            proof {
                assert(models(devices@) =~= put(before_devices, id_view, measurement));
            }
        } else {
            devices.insert(at, entry);
            proof {
                assert(models(devices@) =~= put(before_devices, id_view, measurement));
            }
        }
        self.devices = devices;
    }

    /// The battery the objective is sized against.
    pub fn battery(&self) -> (out: Option<BatteryState>)
        ensures
            out == self@.battery(),
    {
        if self.devices.len() == 0 {
            None
        } else {
            match self.devices[0].measurement {
                Measurement::Battery(state) => Some(state),
            }
        }
    }

    /// Every battery, in the order of their identifiers.
    pub fn batteries(&self) -> (out: Vec<(DeviceId, BatteryState)>)
        ensures
            in_order(self@.devices),
            out@.len() == self@.devices.len(),
            forall|i: int|
                #![trigger out@[i]]
                0 <= i < out@.len() ==> out@[i].0@ == self@.devices[i].0 && out@[i].1
                    == battery_of(self@.devices[i].1),
    {
        proof {
            use_type_invariant(self);
        }
        let mut out: Vec<(DeviceId, BatteryState)> = Vec::new();
        for i in 0..self.devices.len()
            invariant
                out@.len() == i,
                forall|k: int|
                    #![trigger out@[k]]
                    0 <= k < i ==> out@[k].0@ == self@.devices[k].0 && out@[k].1 == battery_of(
                        self@.devices[k].1,
                    ),
        {
            let Measurement::Battery(state) = self.devices[i].measurement;
            out.push((self.devices[i].id.clone(), state));
        }
        out
    }

    /// What the meter would read without the battery.
    pub fn underlying_grid(&self) -> (out: GridPower)
        ensures
            out.mw == self@.underlying_grid(),
    {
        match self.battery() {
            Some(battery) => self.grid.total.plus_battery(battery.current_power),
            None => self.grid.total,
        }
    }
}

impl Clone for World {
    fn clone(&self) -> (out: Self)
        ensures
            out@ == self@,
    {
        proof {
            use_type_invariant(self);
        }
        let mut devices: Vec<Entry> = Vec::new();
        for i in 0..self.devices.len()
            invariant
                models(devices@) == models(self.devices@).take(i as int),
        {
            let entry = Entry {
                id: self.devices[i].id.clone(),
                measurement: self.devices[i].measurement,
            };
            let ghost copied = devices@;
            devices.push(entry);
            proof {
                assert(models(devices@) =~= models(copied).push(entry.model()));
                assert(models(self.devices@).take(i + 1) =~= models(self.devices@).take(
                    i as int,
                ).push(self.devices@[i as int].model()));
            }
        }
        assert(models(devices@) =~= models(self.devices@));
        World { grid: self.grid, solar: self.solar, devices }
    }
}

// --- what is known -------------------------------------------------------------

/// A meter reading replaces the one before, with the sun that came with it, and changes
/// nothing else. A report of a device leaves the meter alone.
pub proof fn each_report_changes_its_own(
    house: House,
    grid: MeterReading,
    solar: SolarPower,
    id: Seq<char>,
    measurement: Measurement,
)
    ensures
        house.observe_meter(grid, solar).grid == grid,
        house.observe_meter(grid, solar).solar == solar,
        house.observe_meter(grid, solar).devices == house.devices,
        house.observe_device(id, measurement).grid == house.grid,
        house.observe_device(id, measurement).solar == house.solar,
{
}

/// A device that reported is known, with what it said, and no other has changed.
pub proof fn a_report_is_known(
    house: House,
    id: Seq<char>,
    measurement: Measurement,
    other: Seq<char>,
)
    requires
        in_order(house.devices),
        other != id,
    ensures
        lookup(house.observe_device(id, measurement).devices, id) == Some(measurement),
        lookup(house.observe_device(id, measurement).devices, other) == lookup(
            house.devices,
            other,
        ),
{
    put_is_a_map_update(house.devices, id, measurement, id);
    put_is_a_map_update(house.devices, id, measurement, other);
}

/// What is looked up is the entry that stands under the id.
pub proof fn an_entry_is_found_under_its_id(devices: Roster, i: int)
    requires
        in_order(devices),
        0 <= i < devices.len(),
    ensures
        lookup(devices, devices[i].0) == Some(devices[i].1),
    decreases devices.len(),
{
    if i > 0 {
        let rest = devices.skip(1);
        assert forall|a: int, b: int| 0 <= a < b < rest.len() implies #[trigger] before(
            rest[a].0,
            rest[b].0,
        ) by {
            assert(before(devices[a + 1].0, devices[b + 1].0));
        }
        assert(before(devices[0].0, devices[i].0));
        text::before_is_irreflexive(devices[0].0);
        an_entry_is_found_under_its_id(rest, i - 1);
        assert(rest[i - 1] == devices[i]);
    }
}

/// What is not there is not found.
pub proof fn a_stranger_is_not_found(devices: Roster, id: Seq<char>)
    requires
        forall|i: int| 0 <= i < devices.len() ==> (#[trigger] devices[i]).0 != id,
    ensures
        lookup(devices, id) is None,
    decreases devices.len(),
{
    if devices.len() > 0 {
        assert(devices[0].0 != id);
        let rest = devices.skip(1);
        assert forall|i: int| 0 <= i < rest.len() implies (#[trigger] rest[i]).0 != id by {
            assert(devices[i + 1].0 != id);
        }
        a_stranger_is_not_found(rest, id);
    }
}

/// Decisions are sized against the battery whose id comes first; a house without one has
/// none.
pub proof fn the_first_battery_counts(house: House, i: int)
    requires
        in_order(house.devices),
        0 <= i < house.devices.len(),
    ensures
        house.battery() matches Some(state) && house.devices[0].1 == Measurement::Battery(state),
        i > 0 ==> before(house.devices[0].0, house.devices[i].0),
{
}

/// Without its battery the house would draw what the meter reads and what the battery
/// gives besides; a house without one draws what the meter reads.
pub proof fn the_house_draws_what_the_battery_hides(house: House)
    ensures
        house.devices.len() == 0 ==> house.battery() is None && house.underlying_grid()
            == house.grid.total.mw,
        house.devices.len() > 0 && -1_000_000_000_000_000 <= house.grid.total.mw
            <= 1_000_000_000_000_000 ==> house.underlying_grid() - house.grid.total.mw == 1000
            * battery_of(house.devices[0].1).current_power.w,
{
}

/// Of a house that nothing is known of, every figure is zero and there is no battery.
pub proof fn an_unknown_house_is_at_rest(house: House)
    requires
        is_unknown(house),
    ensures
        house.grid.total.mw == 0,
        house.grid.phases@.len() == 3,
        forall|i: int| 0 <= i < 3 ==> (#[trigger] house.grid.phases@[i]).mw == 0,
        house.solar.mw == 0,
        house.battery() is None,
        house.underlying_grid() == 0,
{
}

/// A meter without phases reports its total and nothing for each of the three.
pub proof fn a_total_has_no_phases(total: GridPower, out: MeterReading)
    requires
        call_ensures(MeterReading::total_only, (total,), out),
    ensures
        out.total == total,
        out.phases@[0].mw == 0 && out.phases@[1].mw == 0 && out.phases@[2].mw == 0,
{
}

} // verus!
