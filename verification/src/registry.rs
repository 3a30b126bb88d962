//! Every battery that a process drives, and how a command reaches the right
//! one.

use vstd::prelude::*;

use crate::allocate::{orders, Directive, Order};
use crate::command::Command;
use crate::config::{Config, DeviceConfig};
use crate::device::{ac2400_plus, fates, Applied, BatteryController, Fate, Outcome};
use crate::simulation::{Build, Charge, VirtualBattery};
use crate::text;
use crate::text::{before, Place};
use crate::units::{Timestamp, WattHours};
use crate::world::{battery_of, in_order, DeviceId, House};

verus! {

// --- batteries -----------------------------------------------------------------

/// One battery, in whichever shape it actually is.
#[derive(Debug)]
pub enum Battery {
    /// A device on the network, addressed by host and serial number. Its serial
    /// number is its identity.
    Zendure { id: DeviceId, ip: String },
    Virtual(VirtualBattery),
}

impl Battery {
    pub fn zendure(ip: &str, sn: &str) -> (out: Self)
        ensures
            out matches Battery::Zendure { id, ip: host } && id@ == sn@ && host@ == ip@,
    {
        Battery::Zendure { id: DeviceId::new(sn), ip: ip.to_owned() }
    }
}

impl BatteryController for Battery {
    open spec fn spec_id(&self) -> Seq<char> {
        match *self {
            Battery::Zendure { id, .. } => id@,
            Battery::Virtual(battery) => battery.spec_id(),
        }
    }

    fn id(&self) -> (out: &DeviceId) {
        match self {
            Battery::Zendure { id, .. } => id,
            Battery::Virtual(battery) => battery.id(),
        }
    }
}

// --- the registry --------------------------------------------------------------

/// Every battery that a process drives, by the id that its directives carry.
#[derive(Debug)]
pub struct Devices<B: BatteryController> {
    batteries: Vec<B>,
}

/// The batteries of a list, by their ids. Of two that share one, the later
/// counts.
pub open spec fn collected<B: BatteryController>(batteries: Seq<B>) -> Map<Seq<char>, B>
    decreases batteries.len(),
{
    if batteries.len() == 0 {
        Map::empty()
    } else {
        collected(batteries.drop_last()).insert(batteries.last().spec_id(), batteries.last())
    }
}

/// No id twice.
pub open spec fn distinct<B: BatteryController>(batteries: Seq<B>) -> bool {
    forall|i: int, j: int|
        0 <= i < j < batteries.len() ==> (#[trigger] batteries[i]).spec_id() != (
        #[trigger] batteries[j]).spec_id()
}

proof fn collected_holds<B: BatteryController>(batteries: Seq<B>, i: int)
    requires
        distinct(batteries),
        0 <= i < batteries.len(),
    ensures
        collected(batteries).contains_key(batteries[i].spec_id()),
        collected(batteries)[batteries[i].spec_id()] == batteries[i],
    decreases batteries.len(),
{
    let front = batteries.drop_last();
    if i < front.len() {
        assert(distinct(front)) by {
            assert forall|a: int, b: int| 0 <= a < b < front.len() implies (
            #[trigger] front[a]).spec_id() != (#[trigger] front[b]).spec_id() by {
                assert(batteries[a].spec_id() != batteries[b].spec_id());
            }
        }
        collected_holds(front, i);
        assert(front[i] == batteries[i]);
        assert(batteries[i].spec_id() != batteries[batteries.len() - 1].spec_id());
    }
}

proof fn collected_only<B: BatteryController>(batteries: Seq<B>, id: Seq<char>)
    requires
        collected(batteries).contains_key(id),
    ensures
        exists|i: int| 0 <= i < batteries.len() && (#[trigger] batteries[i]).spec_id() == id,
    decreases batteries.len(),
{
    if batteries.len() > 0 {
        let front = batteries.drop_last();
        if batteries.last().spec_id() == id {
            assert(batteries[batteries.len() - 1].spec_id() == id);
        } else {
            collected_only(front, id);
            let i = choose|i: int| 0 <= i < front.len() && (#[trigger] front[i]).spec_id() == id;
            assert(batteries[i].spec_id() == id);
        }
    }
}

impl<B: BatteryController> View for Devices<B> {
    type V = Map<Seq<char>, B>;

    closed spec fn view(&self) -> Map<Seq<char>, B> {
        collected(self.batteries@)
    }
}

impl<B: BatteryController> Devices<B> {
    #[verifier::type_invariant]
    spec fn well_formed(self) -> bool {
        distinct(self.batteries@)
    }

    /// Keys each battery by its own id, so that the registry and the adapter
    /// never disagree about which slot it lives in.
    pub fn new(batteries: Vec<B>) -> (out: Self)
        ensures
            out@ == collected(batteries@),
    {
        let ghost all = batteries@;
        let mut rest = batteries;
        let mut kept: Vec<B> = Vec::new();
        assert(all.take(all.len() as int) =~= all);
        assert(collected(all).union_prefer_right(Map::empty()) =~= collected(all));
        while rest.len() > 0
            invariant
                rest@.len() <= all.len(),
                rest@ == all.take(rest@.len() as int),
                distinct(kept@),
                collected(all) == collected(rest@).union_prefer_right(collected(kept@)),
            decreases rest.len(),
        {
            let ghost n = rest@.len() as int;
            let ghost earlier = rest@;
            if let Some(battery) = rest.pop() {
                assert(rest@ =~= all.take(n - 1));
                assert(earlier.drop_last() =~= rest@);
                let known = Self::find(&kept, battery.id().as_str());
                let ghost id = battery.spec_id();
                let ghost so_far = kept@;
                match known {
                    Some(at) => {
                        proof {
                            collected_holds(so_far, at as int);
                            assert(collected(rest@).insert(id, battery).union_prefer_right(
                                collected(so_far),
                            ) =~= collected(rest@).union_prefer_right(collected(so_far)));
                        }
                    },
                    None => {
                        proof {
                            if collected(so_far).contains_key(id) {
                                collected_only(so_far, id);
                            }
                        }
                        kept.push(battery);
                        proof {
                            assert(kept@.drop_last() =~= so_far);
                            assert forall|i: int, j: int| 0 <= i < j < kept@.len() implies (
                            #[trigger] kept@[i]).spec_id() != (#[trigger] kept@[j]).spec_id() by {
                                if j < so_far.len() {
                                    assert(so_far[i].spec_id() != so_far[j].spec_id());
                                } else {
                                    assert(so_far[i].spec_id() != id);
                                }
                            }
                            assert(collected(rest@).insert(id, battery).union_prefer_right(
                                collected(so_far),
                            ) =~= collected(rest@).union_prefer_right(collected(kept@)));
                        }
                    },
                }
            }
        }
        assert(collected(rest@).union_prefer_right(collected(kept@)) =~= collected(kept@));
        Devices { batteries: kept }
    }

    /// Where the battery called `id` stands.
    fn find(batteries: &Vec<B>, id: &str) -> (out: Option<usize>)
        ensures
            match out {
                Some(at) => at < batteries@.len() && batteries@[at as int].spec_id() == id@,
                None => forall|i: int|
                    0 <= i < batteries@.len() ==> (#[trigger] batteries@[i]).spec_id() != id@,
            },
    {
        for i in 0..batteries.len()
            invariant
                forall|k: int| 0 <= k < i ==> (#[trigger] batteries@[k]).spec_id() != id@,
        {
            if text::same(batteries[i].id().as_str(), id) {
                return Some(i);
            }
        }
        None
    }

    /// The adapter of one device, if this process drives it.
    pub fn battery(&self, id: &DeviceId) -> (out: Option<&B>)
        ensures
            match out {
                Some(battery) => self@.contains_key(id@) && self@[id@] == *battery,
                None => !self@.contains_key(id@),
            },
    {
        proof {
            use_type_invariant(self);
        }
        match Self::find(&self.batteries, id.as_str()) {
            Some(at) => {
                proof {
                    collected_holds(self.batteries@, at as int);
                }
                Some(&self.batteries[at])
            },
            None => {
                proof {
                    if self@.contains_key(id@) {
                        collected_only(self.batteries@, id@);
                    }
                }
                None
            },
        }
    }

    /// The battery with the lowest id.
    pub fn primary(&self) -> (out: Option<(&DeviceId, &B)>)
        ensures
            match out {
                Some((id, battery)) => {
                    &&& is_lowest(self@.dom(), id@)
                    &&& self@[id@] == *battery
                },
                None => self@.dom() == Set::<Seq<char>>::empty(),
            },
    {
        proof {
            use_type_invariant(self);
        }
        if self.batteries.len() == 0 {
            assert(self@.dom() =~= Set::<Seq<char>>::empty());
            return None;
        }
        let mut least: usize = 0;
        for i in 1..self.batteries.len()
            invariant
                least < i <= self.batteries.len(),
                forall|k: int|
                    0 <= k < i && k != least ==> before(
                        self.batteries@[least as int].spec_id(),
                        (#[trigger] self.batteries@[k]).spec_id(),
                    ),
                distinct(self.batteries@),
        {
            let ghost old_least = self.batteries@[least as int].spec_id();
            let ghost new = self.batteries@[i as int].spec_id();
            proof {
                assert(self.batteries@[least as int].spec_id()
                    != self.batteries@[i as int].spec_id());
            }
            match text::place(
                self.batteries[i].id().as_str(),
                self.batteries[least].id().as_str(),
            ) {
                Place::Before => {
                    proof {
                        assert forall|k: int| 0 <= k < i + 1 && k != i implies before(
                            new,
                            (#[trigger] self.batteries@[k]).spec_id(),
                        ) by {
                            if k != least {
                                text::before_is_transitive(
                                    new,
                                    old_least,
                                    self.batteries@[k].spec_id(),
                                );
                            }
                        }
                    }
                    least = i;
                },
                _ => {
                    proof {
                        text::before_is_total(old_least, new);
                    }
                },
            }
        }
        proof {
            let id = self.batteries@[least as int].spec_id();
            collected_holds(self.batteries@, least as int);
            assert forall|other: Seq<char>| #[trigger]
                self@.dom().contains(other) && other != id implies before(id, other) by {
                collected_only(self.batteries@, other);
            }
        }
        let battery = &self.batteries[least];
        Some((battery.id(), battery))
    }
}

/// The first of a set of ids in dictionary order.
pub open spec fn is_lowest(ids: Set<Seq<char>>, id: Seq<char>) -> bool {
    &&& ids.contains(id)
    &&& forall|other: Seq<char>| #[trigger] ids.contains(other) && other != id ==> before(id, other)
}

/// The registry and the house agree on which battery comes first: where they
/// hold the same ids, the primary is the one that a decision is sized against.
pub proof fn the_primary_is_the_one_decided_for(house: House, ids: Set<Seq<char>>, id: Seq<char>)
    requires
        in_order(house.devices),
        house.devices.len() > 0,
        forall|x: Seq<char>|
            ids.contains(x) <==> exists|i: int|
                0 <= i < house.devices.len() && (#[trigger] house.devices[i]).0 == x,
        is_lowest(ids, id),
    ensures
        id == house.devices[0].0,
        house.battery() == Some(battery_of(house.devices[0].1)),
{
    let first = house.devices[0].0;
    assert(ids.contains(first));
    if id != first {
        let i = choose|i: int|
            0 <= i < house.devices.len() && (#[trigger] house.devices[i]).0 == id;
        assert(before(house.devices[0].0, house.devices[i].0));
        text::before_is_transitive(id, first, id);
        text::before_is_irreflexive(id);
    }
}

/// The capacity of a device that is simulated.
pub open spec fn device_capacity(device: DeviceConfig) -> int {
    match device {
        DeviceConfig::Zendure { .. } => 0,
        DeviceConfig::Virtual { packs, .. } => WattHours::spec_sum(packs@).parts as int,
    }
}

/// The one battery that a configuration names. Simulated packs cannot hold less
/// than nothing.
pub fn from_config(config: &Config, now: Timestamp) -> (out: Devices<Battery>)
    requires
        device_capacity(config.device) >= 0,
    ensures
        out@.dom() == set![config.device.spec_identity()],
        match config.device {
            DeviceConfig::Zendure { ip, sn, .. } => {
                out@[sn@] matches Battery::Zendure { id, ip: host } && id@ == sn@ && host@ == ip@
            },
            DeviceConfig::Virtual { id, packs, soc, charge_efficiency, discharge_efficiency } => {
                &&& out@[id@] matches Battery::Virtual(battery)
                &&& battery.packs() == packs@
                &&& battery.build() == (Build {
                    spec: ac2400_plus(),
                    capacity: WattHours::spec_sum(packs@).parts as int,
                    charge_efficiency: charge_efficiency@,
                    discharge_efficiency: discharge_efficiency@,
                })
                &&& battery.charge() == (Charge {
                    stored: WattHours::spec_sum(packs@).parts * soc@ / 100,
                    power: 0,
                    last: now.ms as int,
                    standby: false,
                })
            },
        },
{
    let battery = match &config.device {
        DeviceConfig::Zendure { ip, sn, .. } => Battery::zendure(ip.as_str(), sn.as_str()),
        DeviceConfig::Virtual { id, packs, soc, charge_efficiency, discharge_efficiency } => {
            let mut copies: Vec<WattHours> = Vec::new();
            for i in 0..packs.len()
                invariant
                    copies@ == packs@.take(i as int),
            {
                copies.push(packs[i]);
                assert(copies@ =~= packs@.take(i + 1));
            }
            assert(copies@ =~= packs@);
            Battery::Virtual(
                VirtualBattery::new(
                    DeviceId::new(id.as_str()),
                    ac2400_plus(),
                    copies,
                    *soc,
                    *charge_efficiency,
                    *discharge_efficiency,
                    now,
                ),
            )
        },
    };
    let ghost only = battery;
    let mut batteries: Vec<Battery> = Vec::new();
    batteries.push(battery);
    proof {
        assert(batteries@.drop_last() =~= Seq::<Battery>::empty());
        assert(collected(Seq::<Battery>::empty()) == Map::<Seq<char>, Battery>::empty());
        assert(collected(batteries@) == Map::<Seq<char>, Battery>::empty().insert(
            only.spec_id(),
            only,
        ));
        assert(collected(batteries@).dom() =~= set![config.device.spec_identity()]);
    }
    Devices::new(batteries)
}

// --- actuation -----------------------------------------------------------------

/// How a device answered to a command.
pub type Reply = Result<(), Seq<char>>;

/// What is recorded of a command and the answer to it.
pub open spec fn fate_of(order: Order, reply: Reply) -> Fate {
    Fate {
        device: order.device,
        command: order.description(),
        applied: match reply {
            Ok(()) => Applied::Done,
            Err(_) => Applied::Error,
        },
        error: match reply {
            Ok(()) => None,
            Err(e) => Some(e),
        },
    }
}

/// What is recorded of a command that names a device which is not driven.
pub open spec fn unroutable(order: Order) -> Fate {
    fate_of(order, Err("no adapter registered for device "@ + order.device))
}

/// The first order from `from` on that names a known device, or the end.
pub open spec fn next_routable(all: Seq<Order>, known: Set<Seq<char>>, from: int) -> int
    decreases all.len() - from,
{
    if from < 0 || from >= all.len() || known.contains(all[from].device) {
        from
    } else {
        next_routable(all, known, from + 1)
    }
}

/// Directives being carried out, one after the other. A failure does not stop
/// the rest, and every directive has its outcome in the end.
#[derive(Debug)]
pub struct Actuation {
    directives: Vec<Directive>,
    outcomes: Vec<Outcome>,
}

impl Actuation {
    pub closed spec fn orders(self) -> Seq<Order> {
        orders(self.directives@)
    }

    pub closed spec fn fates(self) -> Seq<Fate> {
        fates(self.outcomes@)
    }

    #[verifier::type_invariant]
    spec fn well_formed(self) -> bool {
        self.outcomes@.len() <= self.directives@.len()
    }

    pub fn new(directives: Vec<Directive>) -> (out: Self)
        ensures
            out.orders() == orders(directives@),
            out.fates() == Seq::<Fate>::empty(),
    {
        let out = Actuation { directives, outcomes: Vec::new() };
        assert(out.fates() =~= Seq::<Fate>::empty());
        out
    }

    /// Records how the current directive came out.
    fn record(&mut self, result: Result<(), String>)
        requires
            old(self).fates().len() < old(self).orders().len(),
        ensures
            final(self).orders() == old(self).orders(),
            final(self).fates() == old(self).fates().push(
                fate_of(
                    old(self).orders()[old(self).fates().len() as int],
                    match result {
                        Ok(()) => Ok(()),
                        Err(e) => Err(e@),
                    },
                ),
            ),
    {
        let at: usize = self.outcomes.len();
        let device = self.directives[at].device().clone();
        let command = self.directives[at].describe();
        let outcome = match result {
            Ok(()) => Outcome { device, command, applied: Applied::Done, error: None },
            Err(e) => Outcome { device, command, applied: Applied::Error, error: Some(e) },
        };
        let ghost so_far = self.outcomes@;
        let mut outcomes: Vec<Outcome> = Vec::new();
        std::mem::swap(&mut outcomes, &mut self.outcomes);
        outcomes.push(outcome);
        assert(fates(outcomes@) =~= fates(so_far).push(outcome@));
        assert(self.orders()[at as int] == self.directives@[at as int]@);
        self.outcomes = outcomes;
    }

    /// The next command to write, and where to. A directive that names a device
    /// which is not driven fails on the way, without a write.
    pub fn next<B: BatteryController>(&mut self, devices: &Devices<B>) -> (out: Option<
        (DeviceId, Command),
    >)
        ensures
            final(self).orders() == old(self).orders(),
            ({
                let all = old(self).orders();
                let from = old(self).fates().len() as int;
                let at = next_routable(all, devices@.dom(), from);
                &&& final(self).fates() == old(self).fates() + Seq::new(
                    (at - from) as nat,
                    |k: int| unroutable(all[from + k]),
                )
                &&& from <= at <= all.len()
                &&& match out {
                    Some((device, command)) => {
                        &&& at < all.len()
                        &&& all[at] == (Order { device: device@, command })
                        &&& devices@.contains_key(device@)
                    },
                    None => at == all.len(),
                }
            }),
    {
        proof {
            use_type_invariant(&*self);
        }
        let ghost all = self.orders();
        let ghost from = self.fates().len() as int;
        let ghost so_far = self.fates();
        assert(so_far + Seq::new(0nat, |k: int| unroutable(all[from + k])) =~= so_far);
        while self.outcomes.len() < self.directives.len()
            invariant
                all == old(self).orders(),
                so_far == old(self).fates(),
                self.orders() == all,
                self.fates().len() == self.outcomes@.len(),
                all.len() == self.directives@.len(),
                from <= self.fates().len() <= all.len(),
                so_far.len() == from,
                self.fates() == so_far + Seq::new(
                    (self.fates().len() - from) as nat,
                    |k: int| unroutable(all[from + k]),
                ),
                next_routable(all, devices@.dom(), from) == next_routable(
                    all,
                    devices@.dom(),
                    self.fates().len() as int,
                ),
            decreases self.directives.len() - self.outcomes.len(),
        {
            let at: usize = self.outcomes.len();
            assert(all[at as int] == self.directives@[at as int]@);
            match &self.directives[at] {
                Directive::Battery { device, command } => {
                    if devices.battery(device).is_some() {
                        return Some((device.clone(), *command));
                    }
                    let mut error = "no adapter registered for device ".to_owned();
                    error.append(device.as_str());
                    let ghost earlier = self.fates();
                    self.record(Err(error));
                    proof {
                        use_type_invariant(&*self);
                        assert(self.fates() =~= so_far + Seq::new(
                            (self.fates().len() - from) as nat,
                            |k: int| unroutable(all[from + k]),
                        ));
                    }
                },
            }
        }
        None
    }

    /// Records how a device answered to the command that [`Actuation::next`]
    /// gave last.
    pub fn settle(&mut self, result: Result<(), String>)
        requires
            old(self).fates().len() < old(self).orders().len(),
        ensures
            final(self).orders() == old(self).orders(),
            final(self).fates() == old(self).fates().push(
                fate_of(
                    old(self).orders()[old(self).fates().len() as int],
                    match result {
                        Ok(()) => Ok(()),
                        Err(e) => Err(e@),
                    },
                ),
            ),
    {
        self.record(result);
    }

    /// Every outcome, in the order of the directives.
    pub fn finish(self) -> (out: Vec<Outcome>)
        ensures
            fates(out@) == self.fates(),
    {
        self.outcomes
    }
}

/// The fates of a list of orders, given how each device that is driven answers
/// to its own.
pub open spec fn actuated(
    all: Seq<Order>,
    known: Set<Seq<char>>,
    replies: spec_fn(int) -> Reply,
) -> Seq<Fate> {
    Seq::new(
        all.len(),
        |i: int|
            if known.contains(all[i].device) {
                fate_of(all[i], replies(i))
            } else {
                unroutable(all[i])
            },
    )
}

/// One round of an actuation, a write and its answer, keeps to the fates of the
/// whole: it adds the failures of the directives that go nowhere, and then the
/// answer to the one that does. So the fates come out in the order of the
/// directives, one each, however any of them fails.
pub proof fn a_round_keeps_to_the_fates(
    all: Seq<Order>,
    known: Set<Seq<char>>,
    replies: spec_fn(int) -> Reply,
    from: int,
)
    requires
        0 <= from <= all.len(),
    ensures
        ({
            let at = next_routable(all, known, from);
            let so_far = actuated(all, known, replies).take(from);
            let passed = so_far + Seq::new((at - from) as nat, |k: int| unroutable(all[from + k]));
            &&& from <= at <= all.len()
            &&& passed == actuated(all, known, replies).take(at)
            &&& at < all.len() ==> passed.push(fate_of(all[at], replies(at))) == actuated(
                all,
                known,
                replies,
            ).take(at + 1)
        }),
    decreases all.len() - from,
{
    let at = next_routable(all, known, from);
    skipped_are_unknown(all, known, from);
    let whole = actuated(all, known, replies);
    let passed = whole.take(from) + Seq::new((at - from) as nat, |k: int| unroutable(all[from + k]));
    assert(passed =~= whole.take(at));
    if at < all.len() {
        assert(passed.push(fate_of(all[at], replies(at))) =~= whole.take(at + 1));
    }
}

/// The next write goes to the first order that names a known device; what is passed over
/// names none.
pub proof fn skipped_are_unknown(all: Seq<Order>, known: Set<Seq<char>>, from: int)
    requires
        0 <= from <= all.len(),
    ensures
        from <= next_routable(all, known, from) <= all.len(),
        forall|i: int|
            from <= i < next_routable(all, known, from) ==> !known.contains(
                (#[trigger] all[i]).device,
            ),
        next_routable(all, known, from) < all.len() ==> known.contains(
            all[next_routable(all, known, from)].device,
        ),
    decreases all.len() - from,
{
    if from < all.len() && !known.contains(all[from].device) {
        skipped_are_unknown(all, known, from + 1);
    }
}

/// Whether every command landed.
pub fn all_applied(outcomes: &[Outcome]) -> (out: bool)
    ensures
        out == forall|i: int|
            0 <= i < outcomes@.len() ==> (#[trigger] outcomes@[i]).applied == Applied::Done,
{
    for i in 0..outcomes.len()
        invariant
            forall|k: int| 0 <= k < i ==> (#[trigger] outcomes@[k]).applied == Applied::Done,
    {
        if outcomes[i].applied == Applied::Error {
            return false;
        }
    }
    true
}

// --- laws ----------------------------------------------------------------------

/// A registry holds each battery under the id that it goes by, and of two that share one
/// the later; it holds nothing else.
pub proof fn the_later_of_two_counts<B: BatteryController>(batteries: Seq<B>, i: int)
    requires
        0 <= i < batteries.len(),
        forall|k: int|
            i < k < batteries.len() ==> (#[trigger] batteries[k]).spec_id()
                != batteries[i].spec_id(),
    ensures
        collected(batteries).contains_key(batteries[i].spec_id()),
        collected(batteries)[batteries[i].spec_id()] == batteries[i],
    decreases batteries.len(),
{
    let front = batteries.drop_last();
    if i < front.len() {
        assert forall|k: int| i < k < front.len() implies (#[trigger] front[k]).spec_id()
            != front[i].spec_id() by {
            assert(batteries[k].spec_id() != batteries[i].spec_id());
        }
        the_later_of_two_counts(front, i);
        assert(batteries[batteries.len() - 1].spec_id() != batteries[i].spec_id());
    }
}

/// What a registry holds under an id is one of its batteries, which goes by that id.
pub proof fn a_registry_holds_its_own<B: BatteryController>(batteries: Seq<B>, id: Seq<char>)
    requires
        collected(batteries).contains_key(id),
    ensures
        collected(batteries)[id].spec_id() == id,
        batteries.contains(collected(batteries)[id]),
    decreases batteries.len(),
{
    if batteries.len() > 0 {
        let front = batteries.drop_last();
        if batteries.last().spec_id() != id {
            a_registry_holds_its_own(front, id);
            let i = choose|i: int| 0 <= i < front.len() && front[i] == collected(front)[id];
            assert(batteries[i] == collected(batteries)[id]);
        } else {
            assert(batteries[batteries.len() - 1] == collected(batteries)[id]);
        }
    }
}

/// A battery goes by its serial number on the network, and by its given id where it is
/// simulated.
pub proof fn a_battery_goes_by_its_own_id(id: DeviceId, ip: String, battery: VirtualBattery)
    ensures
        (Battery::Zendure { id, ip }).spec_id() == id@,
        Battery::Virtual(battery).spec_id() == battery.spec_id(),
{
}

/// Nothing comes before the lowest, and there is no other.
pub proof fn nothing_comes_before_the_lowest(
    ids: Set<Seq<char>>,
    id: Seq<char>,
    other: Seq<char>,
)
    requires
        is_lowest(ids, id),
        ids.contains(other),
    ensures
        ids.contains(id),
        !before(other, id),
        is_lowest(ids, other) ==> other == id,
{
    text::before_is_irreflexive(id);
    if other != id && before(other, id) {
        text::before_is_transitive(id, other, id);
    }
}

/// A command that a device took is recorded as done; one that it did not, with what was
/// said. Either way the record names the device and the command.
pub proof fn an_answer_is_recorded(order: Order, error: Seq<char>)
    ensures
        fate_of(order, Ok(())).applied == Applied::Done,
        fate_of(order, Ok(())).error == None::<Seq<char>>,
        fate_of(order, Ok(())).device == order.device,
        fate_of(order, Ok(())).command == order.description(),
        fate_of(order, Err(error)).applied == Applied::Error,
        fate_of(order, Err(error)).error == Some(error),
        fate_of(order, Err(error)).device == order.device,
        fate_of(order, Err(error)).command == order.description(),
{
}

/// A command for a device that is not driven fails, and its record says so by name.
pub proof fn a_command_that_goes_nowhere_fails(order: Order)
    ensures
        unroutable(order).applied == Applied::Error,
        unroutable(order).error == Some("no adapter registered for device "@ + order.device),
        unroutable(order).device == order.device,
        unroutable(order).command == order.description(),
{
}

/// Every order has its fate, in its place: the answer of its device, or that there is
/// none.
pub proof fn every_order_has_its_fate(
    all: Seq<Order>,
    known: Set<Seq<char>>,
    replies: spec_fn(int) -> Reply,
    i: int,
)
    requires
        0 <= i < all.len(),
    ensures
        actuated(all, known, replies).len() == all.len(),
        actuated(all, known, replies)[i].device == all[i].device,
        actuated(all, known, replies)[i].applied == Applied::Done <==> known.contains(
            all[i].device,
        ) && replies(i) is Ok,
{
}

/// The battery of a configuration begins at rest with the part of its capacity that the
/// configuration says, and with each efficiency in its own direction. One on the network
/// has its address.
pub proof fn a_battery_begins_as_it_is_configured(
    config: Config,
    now: Timestamp,
    out: Devices<Battery>,
)
    requires
        call_ensures(from_config, (&config, now), out),
        device_capacity(config.device) >= 0,
    ensures
        config.device matches DeviceConfig::Zendure { ip, sn, .. } ==> out@.contains_key(sn@),
        config.device matches DeviceConfig::Zendure { ip, sn, .. } ==> (
        out@[sn@] matches Battery::Zendure { id, ip: host } && id@ == sn@ && host@ == ip@),
        config.device matches DeviceConfig::Virtual {
            id,
            packs,
            soc,
            charge_efficiency,
            discharge_efficiency,
        } ==> {
            &&& out@.contains_key(id@)
            &&& out@[id@] matches Battery::Virtual(battery)
            &&& battery.packs() == packs@
            &&& battery.build().capacity == WattHours::spec_sum(packs@).parts
            &&& battery.build().charge_efficiency == charge_efficiency@
            &&& battery.build().discharge_efficiency == discharge_efficiency@
            &&& battery.charge().stored * 100 <= battery.build().capacity * soc@
            &&& battery.build().capacity * soc@ < (battery.charge().stored + 1) * 100
            &&& battery.charge().power == 0
            &&& battery.charge().last == now.ms
            &&& !battery.charge().standby
        },
{
}

/// One command that failed is enough for a round to have failed; none, for it to have
/// succeeded.
pub proof fn one_failure_is_a_failed_round(outcomes: &[Outcome], out: bool, i: int)
    requires
        call_ensures(all_applied, (outcomes,), out),
        0 <= i < outcomes@.len(),
    ensures
        outcomes@[i].applied == Applied::Error ==> !out,
        !out ==> exists|k: int|
            0 <= k < outcomes@.len() && (#[trigger] outcomes@[k]).applied == Applied::Error,
{
}

} // verus!
