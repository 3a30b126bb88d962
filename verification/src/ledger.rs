//! What a run leaves in the journal, and that reading it back and replaying it
//! gives the run again.
//!
//! A run writes each event, and after it what became of its decision. Another
//! task writes captures in between, whenever they come. The writer numbers rows
//! in the order of arrival.

use vstd::prelude::*;

use crate::allocate::Order;
use crate::device::{fates, ControlPath, Outcome};
use crate::engine::{folded, reactions, EngineState, Reaction, Settings, Snapshot};
use crate::event::{happenings, Happening};
use crate::journal::{
    commands_between, decision_entries, paired, pairs_of, until, Commanded, Numbered, Paired,
    Recording, Row,
};
use crate::replay::{
    commanded_text, complaint, holds_recording, names_are_clean, order_text, paired_line,
    paired_lines, replayed, rendered_is_read_back, take_line, take_lines, Fixture,
};
use crate::text::{joined, lines, views};
use crate::units::Timestamp;

verus! {

// --- what is written -----------------------------------------------------------

/// A row as it is handed to the writer.
pub enum Written {
    Event(Happening),
    /// What became of one command, or that a decision commanded nothing.
    Decision { device: Option<Seq<char>>, command: Option<Seq<char>> },
    /// Bytes as they came.
    Capture,
}

/// What is written of a decision.
pub open spec fn decision_writes(orders: Seq<Order>) -> Seq<Written> {
    if orders.len() == 0 {
        seq![Written::Decision { device: None, command: None }]
    } else {
        orders.map_values(
            |o: Order|
                Written::Decision { device: Some(o.device), command: Some(o.description()) },
        )
    }
}

/// What is written of an event and of what it led to.
pub open spec fn writes(event: Happening, reaction: Reaction) -> Seq<Written> {
    seq![Written::Event(event)] + if reaction.decision is Some {
        decision_writes(reaction.orders)
    } else {
        Seq::empty()
    }
}

/// What is written of the first `n` events of a run.
pub open spec fn run_writes(
    settings: Settings,
    state: Snapshot,
    events: Seq<Happening>,
    n: int,
) -> Seq<Written>
    decreases n,
{
    if n <= 0 {
        Seq::empty()
    } else {
        run_writes(settings, state, events, n - 1) + writes(
            events[n - 1],
            reactions(settings, state, events)[n - 1],
        )
    }
}

/// The first `n` rows without the captures among them.
pub open spec fn heeded(log: Seq<Written>, n: int) -> Seq<Written>
    decreases n,
{
    if n <= 0 {
        Seq::empty()
    } else if log[n - 1] is Capture {
        heeded(log, n - 1)
    } else {
        heeded(log, n - 1).push(log[n - 1])
    }
}

/// The events among the first `n` rows, with their numbers.
pub open spec fn event_rows(log: Seq<Written>, first: int, n: int) -> Seq<Numbered>
    decreases n,
{
    if n <= 0 {
        Seq::empty()
    } else {
        match log[n - 1] {
            Written::Event(event) => event_rows(log, first, n - 1).push((first + n - 1, event)),
            _ => event_rows(log, first, n - 1),
        }
    }
}

/// The decisions among the first `n` rows, with their numbers.
pub open spec fn decision_rows(log: Seq<Written>, first: int, n: int) -> Seq<Row>
    decreases n,
{
    if n <= 0 {
        Seq::empty()
    } else {
        match log[n - 1] {
            Written::Decision { device, command } => decision_rows(log, first, n - 1).push(
                Row { seq: first + n - 1, device, command },
            ),
            _ => decision_rows(log, first, n - 1),
        }
    }
}

// --- what is read --------------------------------------------------------------

/// A run as it reads: each event, with what it commanded.
pub open spec fn run_pairs(
    settings: Settings,
    state: Snapshot,
    events: Seq<Happening>,
) -> Seq<Paired> {
    Seq::new(
        events.len(),
        |i: int|
            Paired {
                event: events[i],
                commands: commanded(reactions(settings, state, events)[i].orders),
            },
    )
}

pub open spec fn commanded(orders: Seq<Order>) -> Seq<Commanded> {
    orders.map_values(|o: Order| Commanded { device: o.device, command: o.description() })
}

/// Each event among the first `n` rows, with the commands written after it and
/// before the next.
spec fn grouped(log: Seq<Written>, n: int) -> Seq<Paired>
    decreases n,
{
    if n <= 0 {
        Seq::empty()
    } else {
        taken_up(grouped(log, n - 1), log[n - 1])
    }
}

spec fn taken_up(groups: Seq<Paired>, row: Written) -> Seq<Paired> {
    match row {
        Written::Event(event) => groups.push(Paired { event, commands: Seq::empty() }),
        Written::Decision { device: Some(device), command: Some(command) } => if groups.len()
            > 0 {
            let last = groups.last();
            groups.update(
                groups.len() - 1,
                Paired { commands: last.commands.push(Commanded { device, command }), ..last },
            )
        } else {
            groups
        },
        _ => groups,
    }
}

// --- proofs --------------------------------------------------------------------

proof fn same_front(a: Seq<Row>, b: Seq<Row>, after: int, until: int, n: int)
    requires
        0 <= n <= a.len(),
        n <= b.len(),
        forall|k: int| 0 <= k < n ==> (#[trigger] a[k]) == b[k],
    ensures
        commands_between(a, after, until, n) == commands_between(b, after, until, n),
    decreases n,
{
    if n > 0 {
        same_front(a, b, after, until, n - 1);
        assert(a[n - 1] == b[n - 1]);
    }
}

proof fn same_bound(rows: Seq<Row>, after: int, one: int, other: int, n: int)
    requires
        0 <= n <= rows.len(),
        forall|k: int| 0 <= k < n ==> (#[trigger] rows[k]).seq < one && rows[k].seq < other,
    ensures
        commands_between(rows, after, one, n) == commands_between(rows, after, other, n),
    decreases n,
{
    if n > 0 {
        same_bound(rows, after, one, other, n - 1);
        assert(rows[n - 1].seq < one);
    }
}

proof fn nothing_after(rows: Seq<Row>, after: int, until: int, n: int)
    requires
        0 <= n <= rows.len(),
        forall|k: int| 0 <= k < n ==> (#[trigger] rows[k]).seq <= after,
    ensures
        commands_between(rows, after, until, n) == Seq::<Commanded>::empty(),
    decreases n,
{
    if n > 0 {
        nothing_after(rows, after, until, n - 1);
        assert(rows[n - 1].seq <= after);
    }
}

proof fn rows_are_numbered(log: Seq<Written>, first: int, n: int)
    requires
        0 <= n <= log.len(),
    ensures
        forall|k: int|
            0 <= k < decision_rows(log, first, n).len() ==> first <= (#[trigger] decision_rows(
                log,
                first,
                n,
            )[k]).seq < first + n,
        forall|k: int|
            0 <= k < event_rows(log, first, n).len() ==> first <= (#[trigger] event_rows(
                log,
                first,
                n,
            )[k]).0 < first + n,
    decreases n,
{
    if n > 0 {
        rows_are_numbered(log, first, n - 1);
        let events = event_rows(log, first, n);
        let before = event_rows(log, first, n - 1);
        assert forall|k: int| 0 <= k < events.len() implies first <= (#[trigger] events[k]).0
            < first + n by {
            if k < before.len() {
                assert(events[k] == before[k]);
            }
        }
    }
}

/// Pairing by numbers is grouping by position.
proof fn pairing_is_grouping(log: Seq<Written>, first: int, n: int)
    requires
        0 <= n <= log.len(),
        first + log.len() < i64::MAX,
    ensures
        paired(event_rows(log, first, n), decision_rows(log, first, n)) == grouped(log, n),
    decreases n,
{
    let events = event_rows(log, first, n);
    let rows = decision_rows(log, first, n);
    if n <= 0 {
        assert(paired(events, rows) =~= grouped(log, n));
    } else {
        pairing_is_grouping(log, first, n - 1);
        rows_are_numbered(log, first, n - 1);
        let before = event_rows(log, first, n - 1);
        let rows_before = decision_rows(log, first, n - 1);
        let groups = grouped(log, n - 1);
        let all = paired(events, rows);
        assert(groups == paired(before, rows_before));
        match log[n - 1] {
            Written::Event(event) => {
                assert forall|i: int| 0 <= i < before.len() implies #[trigger] all[i]
                    == groups[i] by {
                    if i == before.len() - 1 {
                        same_bound(
                            rows,
                            events[i].0,
                            until(events, i),
                            until(before, i),
                            rows.len() as int,
                        );
                    } else {
                        assert(until(events, i) == until(before, i));
                    }
                }
                nothing_after(
                    rows,
                    first + n - 1,
                    until(events, before.len() as int),
                    rows.len() as int,
                );
                assert(all =~= groups.push(Paired { event, commands: Seq::empty() }));
            },
            Written::Decision { device, command } => {
                let last = before.len() - 1;
                assert forall|i: int| 0 <= i < before.len() implies (#[trigger] all[i]).event
                    == groups[i].event && all[i].commands == (match (device, command) {
                    (Some(device), Some(command)) if i == last => groups[i].commands.push(
                        Commanded { device, command },
                    ),
                    _ => groups[i].commands,
                }) by {
                    same_front(
                        rows,
                        rows_before,
                        events[i].0,
                        until(events, i),
                        rows_before.len() as int,
                    );
                    assert(rows[rows.len() - 1].seq == first + n - 1);
                    if i < last {
                        assert(until(events, i) == before[i + 1].0);
                    }
                }
                assert(all =~= taken_up(groups, log[n - 1]));
            },
            Written::Capture => {
                assert(all =~= groups);
            },
        }
    }
}

/// Captures do not matter to the grouping.
proof fn captures_are_passed_over(log: Seq<Written>, n: int)
    requires
        0 <= n <= log.len(),
    ensures
        grouped(log, n) == grouped(heeded(log, n), heeded(log, n).len() as int),
    decreases n,
{
    if n > 0 {
        captures_are_passed_over(log, n - 1);
        let kept = heeded(log, n - 1);
        if !(log[n - 1] is Capture) {
            same_groups(kept, kept.push(log[n - 1]), kept.len() as int);
        }
    }
}

proof fn same_groups(a: Seq<Written>, b: Seq<Written>, n: int)
    requires
        0 <= n <= a.len(),
        n <= b.len(),
        forall|k: int| 0 <= k < n ==> (#[trigger] a[k]) == b[k],
    ensures
        grouped(a, n) == grouped(b, n),
    decreases n,
{
    if n > 0 {
        same_groups(a, b, n - 1);
        assert(a[n - 1] == b[n - 1]);
    }
}

/// After an event, the first `n` of its commands are with it.
proof fn commands_join_their_event(
    front: Seq<Written>,
    event: Happening,
    orders: Seq<Order>,
    n: int,
)
    requires
        0 <= n <= orders.len(),
        orders.len() > 0,
    ensures
        grouped(
            front + (seq![Written::Event(event)] + decision_writes(orders)),
            front.len() + 1 + n,
        ) == grouped(front, front.len() as int).push(
            Paired { event, commands: commanded(orders).take(n) },
        ),
    decreases n,
{
    let log = front + (seq![Written::Event(event)] + decision_writes(orders));
    let groups = grouped(front, front.len() as int);
    if n == 0 {
        same_groups(front, log, front.len() as int);
        assert(log[front.len() as int] == Written::Event(event));
        assert(commanded(orders).take(0) =~= Seq::<Commanded>::empty());
    } else {
        commands_join_their_event(front, event, orders, n - 1);
        let order = orders[n - 1];
        assert(log[front.len() + n] == decision_writes(orders)[n - 1]);
        assert(log[front.len() + n] == Written::Decision {
            device: Some(order.device),
            command: Some(order.description()),
        });
        let so_far = groups.push(Paired { event, commands: commanded(orders).take(n - 1) });
        assert(commanded(orders).take(n) =~= commanded(orders).take(n - 1).push(
            Commanded { device: order.device, command: order.description() },
        ));
        assert(taken_up(so_far, log[front.len() + n]) =~= groups.push(
            Paired { event, commands: commanded(orders).take(n) },
        ));
    }
}

/// One more event of a run is one more group.
proof fn an_event_is_a_group(front: Seq<Written>, event: Happening, reaction: Reaction)
    requires
        reaction.decision is None ==> reaction.orders.len() == 0,
    ensures
        grouped(
            front + writes(event, reaction),
            (front + writes(event, reaction)).len() as int,
        ) == grouped(front, front.len() as int).push(
            Paired { event, commands: commanded(reaction.orders) },
        ),
{
    let log = front + writes(event, reaction);
    let groups = grouped(front, front.len() as int);
    let orders = reaction.orders;
    if reaction.decision is Some && orders.len() > 0 {
        commands_join_their_event(front, event, orders, orders.len() as int);
        assert(commanded(orders).take(orders.len() as int) =~= commanded(orders));
    } else {
        same_groups(front, log, front.len() as int);
        assert(log[front.len() as int] == Written::Event(event));
        assert(commanded(orders) =~= Seq::<Commanded>::empty());
        let alone = groups.push(Paired { event, commands: Seq::empty() });
        assert(grouped(log, front.len() + 1int) == alone);
        if reaction.decision is Some {
            assert(log[front.len() + 1int] == Written::Decision { device: None, command: None });
            assert(grouped(log, front.len() + 2int) == alone);
        }
    }
}

proof fn a_run_is_its_groups(
    settings: Settings,
    state: Snapshot,
    events: Seq<Happening>,
    n: int,
)
    requires
        0 <= n <= events.len(),
    ensures
        ({
            let log = run_writes(settings, state, events, n);
            grouped(log, log.len() as int) == run_pairs(settings, state, events).take(n)
        }),
    decreases n,
{
    let whole = run_pairs(settings, state, events);
    if n == 0 {
        assert(whole.take(0) =~= Seq::<Paired>::empty());
    } else {
        a_run_is_its_groups(settings, state, events, n - 1);
        let reaction = reactions(settings, state, events)[n - 1];
        crate::engine::no_decision_no_orders(
            settings,
            folded(settings, state, events.take(n - 1)),
            events[n - 1],
        );
        an_event_is_a_group(
            run_writes(settings, state, events, n - 1),
            events[n - 1],
            reaction,
        );
        assert(whole.take(n) =~= whole.take(n - 1).push(whole[n - 1]));
    }
}

// --- laws ----------------------------------------------------------------------

/// What is read back of a run is the run: however captures fall between its
/// rows, each event is paired with the commands that it led to, and with no
/// others.
pub proof fn what_is_read_is_what_was_written(
    log: Seq<Written>,
    first: int,
    settings: Settings,
    state: Snapshot,
    events: Seq<Happening>,
)
    requires
        heeded(log, log.len() as int) == run_writes(
            settings,
            state,
            events,
            events.len() as int,
        ),
        first + log.len() < i64::MAX,
    ensures
        paired(
            event_rows(log, first, log.len() as int),
            decision_rows(log, first, log.len() as int),
        ) == run_pairs(settings, state, events),
{
    pairing_is_grouping(log, first, log.len() as int);
    captures_are_passed_over(log, log.len() as int);
    a_run_is_its_groups(settings, state, events, events.len() as int);
    let whole = run_pairs(settings, state, events);
    assert(whole.take(events.len() as int) =~= whole);
}

/// The rows of a decision are those of its orders, where each order was carried
/// out and has its outcome.
pub proof fn a_decision_is_written_as_its_orders(
    at: Timestamp,
    path: ControlPath,
    state: EngineState,
    payload: Seq<char>,
    state_json: Seq<char>,
    outcomes: Seq<Outcome>,
    orders: Seq<Order>,
    i: int,
)
    requires
        outcomes.len() == orders.len(),
        forall|k: int|
            0 <= k < orders.len() ==> (#[trigger] fates(outcomes)[k]).device == orders[k].device
                && fates(outcomes)[k].command == orders[k].description(),
        0 <= i < decision_writes(orders).len(),
    ensures
        decision_entries(at, path, state, payload, state_json, outcomes).len() == decision_writes(
            orders,
        ).len(),
        decision_writes(orders)[i] == (Written::Decision {
            device: decision_entries(at, path, state, payload, state_json, outcomes)[i].device,
            command: decision_entries(at, path, state, payload, state_json, outcomes)[i].command,
        }),
{
    if orders.len() > 0 {
        assert(fates(outcomes)[i].device == orders[i].device);
    }
}

/// A run that was written down replays to itself: read back, made into a
/// fixture, and folded again from the state that the run began in and under its
/// tuning, it is accepted.
pub proof fn a_run_written_down_replays_to_itself(
    log: Seq<Written>,
    first: int,
    settings: Settings,
    state: Snapshot,
    events: Seq<Happening>,
    recording: Recording,
    fixture: Fixture,
)
    requires
        heeded(log, log.len() as int) == run_writes(
            settings,
            state,
            events,
            events.len() as int,
        ),
        first + log.len() < i64::MAX,
        events.len() > 0,
        pairs_of(recording.frames@) == paired(
            event_rows(log, first, log.len() as int),
            decision_rows(log, first, log.len() as int),
        ),
        holds_recording(fixture, recording),
        names_are_clean(replayed(settings, state, events)),
    ensures
        happenings(fixture.events@) == events,
        complaint(
            views(fixture.expected@),
            lines(joined(take_lines(replayed(settings, state, events)), "\n"@)),
        ) is None,
{
    what_is_read_is_what_was_written(log, first, settings, state, events);
    let pairs = run_pairs(settings, state, events);
    let takes = replayed(settings, state, events);
    assert(happenings(fixture.events@) =~= events);
    assert forall|i: int| 0 <= i < events.len() implies #[trigger] paired_lines(pairs)[i]
        == take_lines(takes)[i] by {
        let orders = takes[i].orders;
        assert(pairs[i].commands.map_values(|c: Commanded| commanded_text(c))
            =~= orders.map_values(|o: Order| order_text(o)));
        assert(paired_line(pairs[i]) == take_line(takes[i]));
    }
    assert(paired_lines(pairs) =~= take_lines(takes));
    rendered_is_read_back(takes);
}

} // verus!
