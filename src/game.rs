//! The turn state machine: events are queued while the game waits for a god
//! action, then tallied against the committed values, applied, and logged.
use vstd::prelude::*;

use crate::kingdom::{
    CHANGE_LIMIT, Kingdom, ResourceError, ResourceStore, committed, lemma_slot_round_trip,
};
use crate::log::{LOG_BOUND, Log, LogEntryView, separator_entry, trimmed};
use crate::resource::KingdomID;
use crate::resource::{MAX_VALUE, RESOURCE_TYPE_COUNT, Resource, ResourceReference, Transform, ResourceTypes};
use crate::text::{int_text, int_to_text, join};

verus! {

/// A request from the player to change resources: a message for the log and
/// the changes, in order, each a resource and the transform to apply to it.
pub struct ResourceAlterationEvent {
    pub message: String,
    pub changes: Vec<(ResourceReference, Transform)>,
}

/// An event as values: its message and its changes.
pub type EventView = (Seq<char>, Seq<(ResourceReference, Transform)>);

impl View for ResourceAlterationEvent {
    type V = EventView;

    open spec fn view(&self) -> EventView {
        (self.message@, self.changes@)
    }
}

/// The player's signal that the turn is over.
pub struct GodActionEvent;

/// The phase of the turn.
#[derive(Debug, Clone, Copy, PartialEq, Eq, Structural, Hash)]
pub enum TurnState {
    WaitingForGod,
    CountingChanges,
    ApplyingChanges,
}

/// Why an event was not queued.
#[derive(Debug, Clone, Copy, PartialEq, Eq, Structural)]
pub enum EventError {
    /// A change names a kingdom that does not exist.
    UnknownResource,
    /// The queue already holds as many changes as can be counted.
    TooManyChanges,
}

/// Every change of the events, event after event, each event's changes in their order.
pub open spec fn queued_changes(events: Seq<EventView>) -> Seq<(ResourceReference, Transform)>
    decreases events.len(),
{
    if events.len() == 0 {
        Seq::empty()
    } else {
        queued_changes(events.drop_last()) + events.last().1
    }
}

/// The sum of the deltas that `changes` ask of resource `r`, each measured
/// against the same committed amount `v`.
pub open spec fn delta_sum(changes: Seq<(ResourceReference, Transform)>, r: ResourceReference, v: int) -> int
    decreases changes.len(),
{
    if changes.len() == 0 {
        0
    } else {
        delta_sum(changes.drop_last(), r, v) + if changes.last().0 == r {
            changes.last().1.delta_spec(v)
        } else {
            0
        }
    }
}

/// The change that the events of one turn make to resource `r` whose committed amount is `v`.
pub open spec fn turn_delta(events: Seq<EventView>, r: ResourceReference, v: int) -> int {
    delta_sum(queued_changes(events), r, v)
}

/// The log text of one change: "<delta> to <resource name>".
pub open spec fn outcome_text(delta: int, kind: ResourceTypes) -> Seq<char> {
    int_text(delta) + seq![' ', 't', 'o', ' '] + kind.name_spec()
}

/// The outcome texts of an event's changes, measured against the committed amounts in `resources`.
pub open spec fn outcomes(
    changes: Seq<(ResourceReference, Transform)>,
    resources: Seq<Resource>,
) -> Seq<Seq<char>> {
    changes.map_values(
        |c: (ResourceReference, Transform)|
            outcome_text(
                c.1.delta_spec(resources[ResourceStore::slot(c.0)].value as int),
                c.0.resource,
            ),
    )
}

/// The detail line of an event: its outcomes separated by ", ".
pub open spec fn event_detail(
    changes: Seq<(ResourceReference, Transform)>,
    resources: Seq<Resource>,
) -> Seq<char> {
    join(outcomes(changes, resources), seq![',', ' '])
}

/// The log entries of a turn's events: for each event its message and its detail line.
pub open spec fn event_entries(events: Seq<EventView>, resources: Seq<Resource>) -> Seq<LogEntryView> {
    events.map_values(|e: EventView| (e.0, event_detail(e.1, resources)))
}

/// The game as values.
pub struct GameView {
    pub state: TurnState,
    pub kingdom_count: nat,
    /// Every resource, kingdom after kingdom, each kingdom's in the fixed order of kinds.
    pub resources: Seq<Resource>,
    pub log: Seq<LogEntryView>,
    /// The resource alteration events not tallied yet, oldest first.
    pub pending: Seq<EventView>,
    pub god_action_pending: bool,
}

impl GameView {
    pub open spec fn valid_ref(self, r: ResourceReference) -> bool {
        1 <= r.kingdom.0 <= self.kingdom_count
    }

    /// The committed amount of resource `r`.
    pub open spec fn value_of(self, r: ResourceReference) -> int {
        self.resources[ResourceStore::slot(r)].value as int
    }

    /// No resource has a pending change.
    pub open spec fn all_changes_cleared(self) -> bool {
        forall|i: int| 0 <= i < self.resources.len() ==> #[trigger] self.resources[i].change == 0
    }

    /// Every kingdom has one resource of each kind, pending changes stay
    /// within `CHANGE_LIMIT`, every queued change names a kingdom of the game,
    /// and the queued changes can be counted.
    pub open spec fn wf(self) -> bool {
        &&& self.resources.len() == self.kingdom_count * RESOURCE_TYPE_COUNT
        &&& self.resources.len() <= usize::MAX
        &&& forall|i: int|
            0 <= i < self.resources.len() ==> -CHANGE_LIMIT <= #[trigger] self.resources[i].change
                <= CHANGE_LIMIT
        &&& forall|i: int, j: int|
            0 <= i < self.pending.len() && 0 <= j < self.pending[i].1.len() ==> self.valid_ref(
                #[trigger] self.pending[i].1[j].0,
            )
        &&& queued_changes(self.pending).len() <= usize::MAX
    }

    /// A resource alteration event joins the queue.
    pub open spec fn after_send_event(self, e: EventView) -> GameView {
        GameView { pending: self.pending.push(e), ..self }
    }

    /// A god action is received. Only while the game waits for god is it
    /// kept for the next check; in every other phase it is dropped.
    pub open spec fn after_send_god_action(self) -> GameView {
        if self.state == TurnState::WaitingForGod {
            GameView { god_action_pending: true, ..self }
        } else {
            self
        }
    }

    /// The received god actions are read: while waiting for god, any of them starts the count.
    pub open spec fn after_check(self) -> GameView {
        GameView {
            state: if self.god_action_pending && self.state == TurnState::WaitingForGod {
                TurnState::CountingChanges
            } else {
                self.state
            },
            god_action_pending: false,
            ..self
        }
    }

    /// Every pending change is reset to zero.
    pub open spec fn after_clear(self) -> GameView {
        GameView {
            resources: Seq::new(
                self.resources.len(),
                |i: int| Resource { value: self.resources[i].value, change: 0 },
            ),
            ..self
        }
    }

    /// The queued events are tallied: every change adds its delta, measured
    /// against the committed amount, to its resource's pending change; each
    /// event leaves one log entry; the queue empties and the changes are to be applied.
    pub open spec fn after_tally(self) -> GameView {
        GameView {
            state: TurnState::ApplyingChanges,
            resources: Seq::new(
                self.resources.len(),
                |i: int|
                    Resource {
                        value: self.resources[i].value,
                        change: (self.resources[i].change + turn_delta(
                            self.pending,
                            ResourceStore::reference_at(i),
                            self.resources[i].value as int,
                        )) as i128,
                    },
            ),
            log: self.log + event_entries(self.pending, self.resources),
            pending: Seq::empty(),
            ..self
        }
    }

    /// Every pending change is moved into its committed amount; the game waits for god again.
    pub open spec fn after_apply(self) -> GameView {
        GameView {
            state: TurnState::WaitingForGod,
            resources: Seq::new(
                self.resources.len(),
                |i: int|
                    Resource {
                        value: committed(
                            self.resources[i].value as int,
                            self.resources[i].change as int,
                        ) as u32,
                        change: self.resources[i].change,
                    },
            ),
            ..self
        }
    }

    /// The log is cut to its newest entries and the separator closes the turn.
    pub open spec fn after_log_edits(self) -> GameView {
        GameView { log: trimmed(self.log).push(separator_entry()), ..self }
    }

    /// One pass of the game loop: the god actions are read, and a turn that
    /// has started runs to its end.
    pub open spec fn after_update(self) -> GameView {
        let c = self.after_check();
        if c.state == TurnState::CountingChanges {
            c.after_clear().after_tally().after_apply().after_log_edits()
        } else if c.state == TurnState::ApplyingChanges {
            c.after_apply().after_log_edits()
        } else {
            c
        }
    }
}

/// The changes of two runs of events are those of the first, then those of the second.
pub proof fn lemma_queued_changes_concat(a: Seq<EventView>, b: Seq<EventView>)
    ensures
        queued_changes(a + b) == queued_changes(a) + queued_changes(b),
    decreases b.len(),
{
    if b.len() == 0 {
        assert(a + b =~= a);
        assert(queued_changes(a) + queued_changes(b) =~= queued_changes(a));
    } else {
        assert((a + b).drop_last() =~= a + b.drop_last());
        lemma_queued_changes_concat(a, b.drop_last());
        assert(queued_changes(a + b) =~= queued_changes(a) + queued_changes(b));
    }
}

/// The deltas of two runs of changes add up.
pub proof fn lemma_delta_sum_concat(
    a: Seq<(ResourceReference, Transform)>,
    b: Seq<(ResourceReference, Transform)>,
    r: ResourceReference,
    v: int,
)
    ensures
        delta_sum(a + b, r, v) == delta_sum(a, r, v) + delta_sum(b, r, v),
    decreases b.len(),
{
    if b.len() == 0 {
        assert(a + b =~= a);
    } else {
        assert((a + b).drop_last() =~= a + b.drop_last());
        lemma_delta_sum_concat(a, b.drop_last(), r, v);
    }
}

/// No change moves a committed amount by more than `MAX_VALUE`.
pub proof fn lemma_delta_sum_bound(changes: Seq<(ResourceReference, Transform)>, r: ResourceReference, v: int)
    requires
        0 <= v <= MAX_VALUE,
    ensures
        -(changes.len() * MAX_VALUE) <= delta_sum(changes, r, v) <= changes.len() * MAX_VALUE,
    decreases changes.len(),
{
    if changes.len() > 0 {
        lemma_delta_sum_bound(changes.drop_last(), r, v);
    }
}

proof fn lemma_change_limit(n: int)
    requires
        0 <= n <= usize::MAX,
    ensures
        n * MAX_VALUE <= CHANGE_LIMIT,
{
    assert(n * 0xffff_ffff <= 0xffff_ffff_ffff_ffff * 0xffff_ffff) by (nonlinear_arith)
        requires
            0 <= n <= 0xffff_ffff_ffff_ffff,
    ;
}

/// Tallies one event's changes into the store and returns its detail line.
/// `snapshot` holds the committed amounts, which the store keeps throughout.
fn tally_event(
    store: &mut ResourceStore,
    changes: &Vec<(ResourceReference, Transform)>,
    Ghost(snapshot): Ghost<Seq<Resource>>,
) -> (detail: String)
    requires
        old(store).wf(),
        old(store)@.len() == snapshot.len(),
        forall|k: int| 0 <= k < snapshot.len() ==> #[trigger] old(store)@[k].value == snapshot[k].value,
        forall|j: int| 0 <= j < changes@.len() ==> old(store).valid(#[trigger] changes@[j].0),
        forall|k: int|
            0 <= k < snapshot.len() ==> -CHANGE_LIMIT <= #[trigger] old(store)@[k].change - changes@.len()
                * MAX_VALUE && old(store)@[k].change + changes@.len() * MAX_VALUE <= CHANGE_LIMIT,
    ensures
        final(store).wf(),
        final(store).kingdom_count() == old(store).kingdom_count(),
        final(store).names() == old(store).names(),
        final(store)@.len() == old(store)@.len(),
        forall|k: int|
            0 <= k < snapshot.len() ==> #[trigger] final(store)@[k] == (Resource {
                value: old(store)@[k].value,
                change: (old(store)@[k].change + delta_sum(
                    changes@,
                    ResourceStore::reference_at(k),
                    old(store)@[k].value as int,
                )) as i128,
            }),
        detail@ == event_detail(changes@, snapshot),
{
    let ghost start = store@;
    let ghost sep = seq![',', ' '];
    let mut detail = String::new();
    let mut j: usize = 0;
    while j < changes.len()
        invariant
            j <= changes@.len(),
            sep == seq![',', ' '],
            store.wf(),
            store.kingdom_count() == old(store).kingdom_count(),
            store.names() == old(store).names(),
            store@.len() == start.len(),
            start == old(store)@,
            start.len() == snapshot.len(),
            forall|k: int| 0 <= k < snapshot.len() ==> #[trigger] start[k].value == snapshot[k].value,
            forall|j: int| 0 <= j < changes@.len() ==> old(store).valid(#[trigger] changes@[j].0),
            forall|k: int|
                0 <= k < snapshot.len() ==> -CHANGE_LIMIT <= #[trigger] start[k].change - changes@.len()
                    * MAX_VALUE && start[k].change + changes@.len() * MAX_VALUE <= CHANGE_LIMIT,
            forall|k: int|
                0 <= k < start.len() ==> #[trigger] store@[k] == (Resource {
                    value: start[k].value,
                    change: (start[k].change + delta_sum(
                        changes@.subrange(0, j as int),
                        ResourceStore::reference_at(k),
                        start[k].value as int,
                    )) as i128,
                }),
            detail@ == join(outcomes(changes@.subrange(0, j as int), snapshot), sep),
        decreases changes@.len() - j,
    {
        let (r, t) = changes[j];
        let res = store.resource(&r);
        let delta = t.delta(res.value);
        let ghost before = store@;
        let ghost done = changes@.subrange(0, j as int);
        let ghost done1 = changes@.subrange(0, j + 1);
        proof {
            store.lemma_slot(r);
            assert(done1.drop_last() =~= done);
            assert(done1.last() == (r, t));
            let k = ResourceStore::slot(r);
            lemma_delta_sum_bound(done1, r, start[k].value as int);
            assert((j + 1) * MAX_VALUE <= changes@.len() * MAX_VALUE) by (nonlinear_arith)
                requires
                    j + 1 <= changes@.len(),
            ;
        }
        store.add_change(&r, delta as i128);
        proof {
            assert forall|k: int| 0 <= k < start.len() implies #[trigger] store@[k] == (Resource {
                value: start[k].value,
                change: (start[k].change + delta_sum(
                    done1,
                    ResourceStore::reference_at(k),
                    start[k].value as int,
                )) as i128,
            }) by {
                store.lemma_reference_at(k);
                if k != ResourceStore::slot(r) {
                    assert(ResourceStore::reference_at(k) != r);
                }
            }
        }
        let ghost prefix = detail@;
        if j > 0 {
            let comma = ", ";
            proof {
                reveal_strlit(", ");
                assert(comma@ =~= sep);
            }
            detail.append(comma);
            assert(detail@ =~= prefix + sep);
        }
        let ghost lead = detail@;
        let number = int_to_text(delta);
        detail.append(number.as_str());
        proof {
            reveal_strlit(" to ");
        }
        detail.append(" to ");
        detail.append(r.resource.name());
        proof {
            assert(detail@ =~= lead + (int_text(delta as int) + seq![' ', 't', 'o', ' '] + r.resource.name_spec()));
            let o = outcomes(done, snapshot);
            let o1 = outcomes(done1, snapshot);
            assert(o1.drop_last() =~= o);
            assert(o1.last() == outcome_text(delta as int, r.resource));
            assert(int_text(delta as int) + seq![' ', 't', 'o', ' '] + r.resource.name_spec()
                =~= outcome_text(delta as int, r.resource));
            if j > 0 {
                assert(lead =~= join(o, sep) + sep);
                assert(detail@ =~= join(o, sep) + sep + o1.last());
            } else {
                assert(o =~= Seq::<Seq<char>>::empty());
                assert(detail@ =~= o1.last());
            }
        }
        j = j + 1;
    }
    assert(changes@.subrange(0, changes@.len() as int) =~= changes@);
    detail
}

/// The whole game: the resource store, the log, the phase of the turn and the queued events.
pub struct Game {
    state: TurnState,
    store: ResourceStore,
    log: Log,
    events: Vec<ResourceAlterationEvent>,
    queued: usize,
    god_action_pending: bool,
}

impl View for Game {
    type V = GameView;

    closed spec fn view(&self) -> GameView {
        GameView {
            state: self.state,
            kingdom_count: self.store.kingdom_count(),
            resources: self.store@,
            log: self.log@,
            pending: self.events@.map_values(|e: ResourceAlterationEvent| e@),
            god_action_pending: self.god_action_pending,
        }
    }
}

impl Game {
    /// The store and the view are well formed, and the count of queued changes is kept.
    pub closed spec fn wf(&self) -> bool {
        &&& self.store.wf()
        &&& self@.wf()
        &&& self.queued == queued_changes(self@.pending).len()
    }

    /// A well-formed game has a well-formed view.
    pub proof fn lemma_view_wf(&self)
        requires
            self.wf(),
        ensures
            self@.wf(),
    {
    }

    /// The kingdoms' store, whose names and numbers never change during a game.
    pub closed spec fn store_spec(&self) -> ResourceStore {
        self.store
    }

    /// A new game: two kingdoms with every resource at the starting amount,
    /// an empty log, nothing queued, waiting for god.
    pub fn new() -> (g: Game)
        ensures
            g.wf(),
            g@.wf(),
            g@.state == TurnState::WaitingForGod,
            g@.kingdom_count == crate::kingdom::KINGDOM_COUNT,
            forall|i: int|
                0 <= i < g@.resources.len() ==> #[trigger] g@.resources[i] == (Resource {
                    value: crate::kingdom::STARTING_VALUE,
                    change: 0,
                }),
            g@.log == Seq::<LogEntryView>::empty(),
            g@.pending == Seq::<EventView>::empty(),
            !g@.god_action_pending,
            forall|i: int|
                0 <= i < crate::kingdom::KINGDOM_COUNT ==> g.store_spec().names()[i]
                    == crate::kingdom::kingdom_name((i + 1) as nat),
    {
        let g = Game {
            state: TurnState::WaitingForGod,
            store: ResourceStore::setup_kingdoms(),
            log: Log::new(),
            events: Vec::new(),
            queued: 0,
            god_action_pending: false,
        };
        assert(g@.pending =~= Seq::<EventView>::empty());
        g
    }
    /// Tallies the queued events against the committed amounts. For every
    /// change of every event, in order, the transform is applied to the
    /// resource's committed amount and the difference is added to its pending
    /// change; each event appends its message and its outcomes to the log. The
    /// queue empties and the game moves on to applying the changes.
    /// The pending changes must have been cleared first.
    pub fn tally_changes(&mut self)
        requires
            old(self).wf(),
            old(self)@.all_changes_cleared(),
        ensures
            final(self).wf(),
            final(self)@.wf(),
            final(self)@ == old(self)@.after_tally(),
            final(self).store_spec().names() == old(self).store_spec().names(),
    {
        let ghost res0 = self.store@;
        let ghost pending = self@.pending;
        let n = self.events.len();
        let mut i: usize = 0;
        proof {
            assert(pending.subrange(0, 0) =~= Seq::<EventView>::empty());
            assert(queued_changes(Seq::<EventView>::empty()) =~= Seq::empty());
            assert(event_entries(pending.subrange(0, 0), res0) =~= Seq::empty());
            assert(old(self).log@ + Seq::<LogEntryView>::empty() =~= old(self).log@);
            assert forall|k: int| 0 <= k < res0.len() implies #[trigger] self.store@[k] == (Resource {
                value: res0[k].value,
                change: turn_delta(pending.subrange(0, 0), ResourceStore::reference_at(k), res0[k].value as int) as i128,
            }) by {
                assert(old(self)@.resources[k] == res0[k]);
                assert(res0[k].change == 0);
                assert(delta_sum(Seq::empty(), ResourceStore::reference_at(k), res0[k].value as int) == 0);
            }
        }
        while i < n
            invariant
                n == pending.len(),
                i <= n,
                old(self).wf(),
                old(self)@.all_changes_cleared(),
                res0 == old(self).store@,
                pending == old(self)@.pending,
                self.store.wf(),
                self.store.kingdom_count() == old(self).store.kingdom_count(),
                self.store.names() == old(self).store.names(),
                self.events == old(self).events,
                self.queued == old(self).queued,
                self.state == old(self).state,
                self.god_action_pending == old(self).god_action_pending,
                self.store@.len() == res0.len(),
                forall|k: int|
                    0 <= k < res0.len() ==> #[trigger] self.store@[k] == (Resource {
                        value: res0[k].value,
                        change: turn_delta(
                            pending.subrange(0, i as int),
                            ResourceStore::reference_at(k),
                            res0[k].value as int,
                        ) as i128,
                    }),
                self.log@ == old(self).log@ + event_entries(pending.subrange(0, i as int), res0),
            decreases n - i,
        {
            let ghost upto = pending.subrange(0, i as int);
            let ghost through = pending.subrange(0, i + 1);
            let ghost e = pending[i as int];
            proof {
                assert(self.events@[i as int]@ == e);
                assert(through.drop_last() =~= upto);
                assert(queued_changes(through) == queued_changes(upto) + e.1);
                lemma_queued_changes_concat(through, pending.subrange(i + 1, n as int));
                assert(through + pending.subrange(i + 1, n as int) =~= pending);
                lemma_change_limit(queued_changes(pending).len() as int);
                let a = queued_changes(upto).len() as int;
                let b = e.1.len() as int;
                assert(a * MAX_VALUE + b * MAX_VALUE == (a + b) * MAX_VALUE) by (nonlinear_arith);
                assert((a + b) * MAX_VALUE <= queued_changes(pending).len() * MAX_VALUE) by (nonlinear_arith)
                    requires
                        a + b <= queued_changes(pending).len(),
                ;
                assert forall|k: int| 0 <= k < res0.len() implies -CHANGE_LIMIT <= #[trigger] self.store@[k].change
                    - b * MAX_VALUE && self.store@[k].change + b * MAX_VALUE <= CHANGE_LIMIT by {
                    lemma_delta_sum_bound(queued_changes(upto), ResourceStore::reference_at(k), res0[k].value as int);
                }
                assert forall|j: int| 0 <= j < e.1.len() implies self.store.valid(#[trigger] e.1[j].0) by {
                    assert(self@.pending[i as int].1[j] == e.1[j]);
                }
            }
            let ghost before = self.store@;
            let detail = tally_event(&mut self.store, &self.events[i].changes, Ghost(res0));
            let message = self.events[i].message.clone();
            self.log.push(message, detail);
            proof {
                assert forall|k: int| 0 <= k < res0.len() implies #[trigger] self.store@[k] == (Resource {
                    value: res0[k].value,
                    change: turn_delta(through, ResourceStore::reference_at(k), res0[k].value as int) as i128,
                }) by {
                    let rk = ResourceStore::reference_at(k);
                    let v = res0[k].value as int;
                    lemma_delta_sum_concat(queued_changes(upto), e.1, rk, v);
                    lemma_delta_sum_bound(queued_changes(upto), rk, v);
                    lemma_delta_sum_bound(queued_changes(through), rk, v);
                    lemma_change_limit(queued_changes(through).len() as int);
                    assert(before[k].change == turn_delta(upto, rk, v));
                }
                assert(event_entries(through, res0) =~= event_entries(upto, res0).push((e.0, event_detail(e.1, res0))));
                assert(self.log@ =~= old(self).log@ + event_entries(through, res0));
            }
            i = i + 1;
        }
        self.events = Vec::new();
        self.queued = 0;
        self.state = TurnState::ApplyingChanges;
        proof {
            assert(pending.subrange(0, n as int) =~= pending);
            assert(self@.pending =~= Seq::<EventView>::empty());
            assert(self@.resources =~= old(self)@.after_tally().resources);
        }
    }
    /// Queues a resource alteration event for the next tally. An event with a
    /// change naming a kingdom that does not exist is refused with
    /// `UnknownResource`; one whose changes could no longer be counted, with
    /// `TooManyChanges`. A refused event leaves the game as it was.
    pub fn send_resource_event(&mut self, ev: ResourceAlterationEvent) -> (r: Result<(), EventError>)
        requires
            old(self).wf(),
        ensures
            final(self).wf(),
            final(self)@.wf(),
            final(self).store_spec().names() == old(self).store_spec().names(),
            !(forall|j: int| 0 <= j < ev@.1.len() ==> old(self)@.valid_ref(#[trigger] ev@.1[j].0)) ==> r
                == Err::<(), EventError>(EventError::UnknownResource) && final(self)@ == old(self)@,
            (forall|j: int| 0 <= j < ev@.1.len() ==> old(self)@.valid_ref(#[trigger] ev@.1[j].0))
                && queued_changes(old(self)@.pending).len() + ev@.1.len() > usize::MAX ==> r == Err::<
                (),
                EventError,
            >(EventError::TooManyChanges) && final(self)@ == old(self)@,
            (forall|j: int| 0 <= j < ev@.1.len() ==> old(self)@.valid_ref(#[trigger] ev@.1[j].0))
                && queued_changes(old(self)@.pending).len() + ev@.1.len() <= usize::MAX ==> r == Ok::<
                (),
                EventError,
            >(()) && final(self)@ == old(self)@.after_send_event(ev@),
    {
        let mut j: usize = 0;
        while j < ev.changes.len()
            invariant
                j <= ev.changes@.len(),
                self.wf(),
                forall|i: int| 0 <= i < j ==> self@.valid_ref(#[trigger] ev.changes@[i].0),
            decreases ev.changes@.len() - j,
        {
            if !self.store.contains(&ev.changes[j].0) {
                return Err(EventError::UnknownResource);
            }
            j = j + 1;
        }
        if self.queued > usize::MAX - ev.changes.len() {
            return Err(EventError::TooManyChanges);
        }
        let ghost old_pending = self@.pending;
        let ghost e = ev@;
        self.queued = self.queued + ev.changes.len();
        self.events.push(ev);
        proof {
            assert(self@.pending =~= old_pending.push(e));
            assert(self@.pending.drop_last() =~= old_pending);
            assert forall|i: int, j: int|
                0 <= i < self@.pending.len() && 0 <= j < self@.pending[i].1.len() implies self@.valid_ref(
                #[trigger] self@.pending[i].1[j].0,
            ) by {
                if i < old_pending.len() {
                    assert(self@.pending[i] == old_pending[i]);
                }
            }
        }
        Ok(())
    }

    /// Receives a god action. While the game waits for god it is kept for the
    /// next `check_for_god_action`; while a turn is being resolved it is
    /// dropped, so it never starts a later turn.
    pub fn send_god_action(&mut self, ev: GodActionEvent)
        requires
            old(self).wf(),
        ensures
            final(self).wf(),
            final(self)@.wf(),
            final(self).store_spec().names() == old(self).store_spec().names(),
            final(self)@ == old(self)@.after_send_god_action(),
    {
        let _ = ev;
        if self.state == TurnState::WaitingForGod {
            self.god_action_pending = true;
        }
    }

    /// Reads the received god actions. While the game waits for god, any
    /// number of them starts the count of changes; in every other phase they
    /// are dropped without effect.
    pub fn check_for_god_action(&mut self)
        requires
            old(self).wf(),
        ensures
            final(self).wf(),
            final(self)@.wf(),
            final(self).store_spec().names() == old(self).store_spec().names(),
            final(self)@ == old(self)@.after_check(),
            old(self)@.state != TurnState::WaitingForGod ==> final(self)@.state == old(self)@.state,
    {
        if self.god_action_pending && self.state == TurnState::WaitingForGod {
            self.state = TurnState::CountingChanges;
        }
        self.god_action_pending = false;
    }

    /// Resets the pending change of every resource to zero.
    pub fn clear_change(&mut self)
        requires
            old(self).wf(),
        ensures
            final(self).wf(),
            final(self)@.wf(),
            final(self).store_spec().names() == old(self).store_spec().names(),
            final(self)@ == old(self)@.after_clear(),
            final(self)@.all_changes_cleared(),
    {
        self.store.clear_changes();
        assert(self@.resources =~= old(self)@.after_clear().resources);
    }

    /// Adds every pending change to its resource's committed amount, which
    /// stays within `0..=MAX_VALUE`, and returns to waiting for god.
    pub fn apply_changes(&mut self)
        requires
            old(self).wf(),
        ensures
            final(self).wf(),
            final(self)@.wf(),
            final(self).store_spec().names() == old(self).store_spec().names(),
            final(self)@ == old(self)@.after_apply(),
    {
        self.store.commit_changes();
        self.state = TurnState::WaitingForGod;
        assert(self@.resources =~= old(self)@.after_apply().resources);
    }

    /// Cuts the log to its newest `LOG_BOUND` entries and appends the separator.
    pub fn start_of_turn_log_edits(&mut self)
        requires
            old(self).wf(),
        ensures
            final(self).wf(),
            final(self)@.wf(),
            final(self).store_spec().names() == old(self).store_spec().names(),
            final(self)@ == old(self)@.after_log_edits(),
            final(self)@.log.len() <= LOG_BOUND + 1,
    {
        self.log.start_of_turn_log_edits();
    }

    /// One pass of the game loop. The god actions are read; when they start a
    /// turn, the changes are cleared, the queued events tallied, the changes
    /// applied and the log edited, so that the game waits for god again.
    pub fn update(&mut self)
        requires
            old(self).wf(),
        ensures
            final(self).wf(),
            final(self)@.wf(),
            final(self).store_spec().names() == old(self).store_spec().names(),
            final(self)@ == old(self)@.after_update(),
            final(self)@.state == TurnState::WaitingForGod,
            old(self)@.after_check().state != TurnState::WaitingForGod ==> final(self)@.log.len()
                <= LOG_BOUND + 1,
    {
        self.check_for_god_action();
        if self.state == TurnState::CountingChanges {
            self.clear_change();
            self.tally_changes();
        }
        if self.state == TurnState::ApplyingChanges {
            self.apply_changes();
            self.start_of_turn_log_edits();
        }
    }

    /// The phase of the turn.
    pub fn state(&self) -> (s: TurnState)
        ensures
            s == self@.state,
    {
        self.state
    }

    /// The resource named by `r`, or `NotFound` when `r` names no kingdom of the game.
    pub fn resource(&self, r: &ResourceReference) -> (res: Result<Resource, ResourceError>)
        requires
            self.wf(),
        ensures
            self@.valid_ref(*r) ==> res == Ok::<Resource, ResourceError>(
                self@.resources[ResourceStore::slot(*r)],
            ),
            !self@.valid_ref(*r) ==> res == Err::<Resource, ResourceError>(ResourceError::NotFound),
    {
        self.store.lookup(r)
    }

    /// The committed amount of the resource named by `r`, or `NotFound`.
    pub fn value(&self, r: &ResourceReference) -> (res: Result<u32, ResourceError>)
        requires
            self.wf(),
        ensures
            self@.valid_ref(*r) ==> res == Ok::<u32, ResourceError>(self@.value_of(*r) as u32),
            !self@.valid_ref(*r) ==> res == Err::<u32, ResourceError>(ResourceError::NotFound),
    {
        match self.store.lookup(r) {
            Ok(res) => Ok(res.value),
            Err(e) => Err(e),
        }
    }

    /// The log, oldest entry first.
    pub fn log(&self) -> (l: &Log)
        ensures
            l@ == self@.log,
    {
        &self.log
    }

    /// The kingdom with the given number, if there is one.
    pub fn kingdom(&self, id: KingdomID) -> (k: Option<&Kingdom>)
        requires
            self.wf(),
        ensures
            k.is_some() <==> 1 <= id.0 <= self@.kingdom_count,
            k.is_some() ==> k.unwrap().id == id && k.unwrap().name@ == self.store_spec().names()[id.0
                - 1],
    {
        self.store.kingdom(id)
    }

    /// How many kingdoms the game has.
    pub fn kingdom_count(&self) -> (n: usize)
        ensures
            n == self@.kingdom_count,
    {
        self.store.kingdom_count_exec()
    }

    /// How many resource alteration events wait for the next tally.
    pub fn pending_event_count(&self) -> (n: usize)
        ensures
            n == self@.pending.len(),
    {
        self.events.len()
    }
}

/// Within one turn every change is measured against the amount committed
/// before the turn, never against what an earlier change of the same turn
/// asked for: after the turn a resource holds its earlier amount plus the sum
/// of the deltas of the queued changes that name it, each measured against
/// that earlier amount (kept within `0..=MAX_VALUE`).
pub proof fn lemma_turn_measures_against_snapshot(g: GameView, r: ResourceReference)
    requires
        g.wf(),
        g.valid_ref(r),
        g.state == TurnState::WaitingForGod,
        g.god_action_pending,
    ensures
        g.after_update().value_of(r) == committed(
            g.value_of(r),
            turn_delta(g.pending, r, g.value_of(r)),
        ),
        0 <= g.value_of(r) + turn_delta(g.pending, r, g.value_of(r)) <= MAX_VALUE ==> g.after_update().value_of(r)
            == g.value_of(r) + turn_delta(g.pending, r, g.value_of(r)),
{
    lemma_slot_round_trip(r, g.kingdom_count);
    let k = ResourceStore::slot(r);
    let c = g.after_check().after_clear();
    assert(c.resources[k].change == 0);
    let t = c.after_tally();
    let d = turn_delta(g.pending, r, g.value_of(r));
    lemma_delta_sum_bound(queued_changes(g.pending), r, g.value_of(r));
    lemma_change_limit(queued_changes(g.pending).len() as int);
    assert(t.resources[k].change == d);
}

/// The deltas of a turn split over its events: the events `a` then `b` ask
/// of a resource what `a` asks plus what `b` asks, so the order in which the
/// events of one turn were queued does not change the outcome.
pub proof fn lemma_turn_delta_split(a: Seq<EventView>, b: Seq<EventView>, r: ResourceReference, v: int)
    ensures
        turn_delta(a + b, r, v) == turn_delta(a, r, v) + turn_delta(b, r, v),
        turn_delta(a + b, r, v) == turn_delta(b + a, r, v),
{
    lemma_queued_changes_concat(a, b);
    lemma_queued_changes_concat(b, a);
    lemma_delta_sum_concat(queued_changes(a), queued_changes(b), r, v);
    lemma_delta_sum_concat(queued_changes(b), queued_changes(a), r, v);
}

/// A turn whose only queued event has no changes leaves every committed
/// amount as it was; the log gains the event's message with an empty detail,
/// then the separator on the return to waiting for god.
pub proof fn lemma_empty_event_round_trip(g: GameView, message: Seq<char>)
    requires
        g.wf(),
        g.pending == seq![(message, Seq::<(ResourceReference, Transform)>::empty())],
    ensures
        ({
            let h = g.after_clear().after_tally().after_apply().after_log_edits();
            &&& h.state == TurnState::WaitingForGod
            &&& h.resources.len() == g.resources.len()
            &&& forall|i: int| 0 <= i < g.resources.len() ==> #[trigger] h.resources[i].value == g.resources[i].value
            &&& h.log == trimmed(g.log.push((message, Seq::empty()))).push(separator_entry())
            &&& g.log.len() < LOG_BOUND ==> h.log == g.log + seq![(message, Seq::<char>::empty()), separator_entry()]
        }),
{
    let c = g.after_clear();
    let e = (message, Seq::<(ResourceReference, Transform)>::empty());
    assert(c.pending.drop_last() =~= Seq::<EventView>::empty());
    assert(queued_changes(Seq::<EventView>::empty()) =~= Seq::empty());
    assert(c.pending.last() == e);
    assert(queued_changes(c.pending) =~= Seq::empty());
    assert(outcomes(e.1, c.resources) =~= Seq::empty());
    assert(event_entries(c.pending, c.resources) =~= seq![(message, Seq::<char>::empty())]);
    let h = c.after_tally().after_apply().after_log_edits();
    assert forall|i: int| 0 <= i < g.resources.len() implies #[trigger] h.resources[i].value
        == g.resources[i].value by {
        assert(c.after_tally().resources[i].change == 0);
    }
    assert(c.after_tally().log =~= g.log.push((message, Seq::empty())));
    if g.log.len() < LOG_BOUND {
        assert(h.log =~= g.log + seq![(message, Seq::<char>::empty()), separator_entry()]);
    }
}

/// A god action received while the changes are counted or applied has no
/// effect: the game is left exactly as it was, so the action neither changes
/// the turn being resolved nor starts a later one.
pub proof fn lemma_god_action_ignored_while_resolving(g: GameView)
    requires
        g.state != TurnState::WaitingForGod,
    ensures
        g.after_send_god_action() == g,
{
}

} // verus!
