//! The snapshot poller, as a state machine.
//!
//! The poller asks the remote query service for the objects around a fixed
//! centre, hands the answer over as a snapshot, rests, and asks again. It
//! does none of this itself: each step says what is to be done next, and is
//! told how that went. A query that fails stops the poller for good.

use crate::api::{asset_views, AssetDto, AssetPositionDto, AssetView};
use crate::error::{QueryError, QueryErrorView};
use vstd::prelude::*;

verus! {

/// What the poller is waiting for.
#[derive(Clone, Copy, Debug, PartialEq, Eq, Structural)]
pub enum PollerState {
    /// Not started yet.
    Idle,
    /// A query is under way.
    Querying,
    /// A snapshot is being handed over, and is not yet taken in.
    Delivering,
    /// The rest after a delivery.
    Sleeping,
    /// A query failed: the poller does nothing any more.
    Stopped,
}

/// What the poller is told.
#[derive(Clone, Debug, PartialEq, Eq)]
pub enum PollerEvent {
    /// The poller is set going.
    Started,
    /// The query was answered with these objects.
    QuerySucceeded(Vec<AssetDto>),
    /// The query failed; the text says how.
    QueryFailed(String),
    /// The snapshot was taken in.
    Delivered,
    /// The rest is over.
    DelayElapsed,
}

/// What the poller asks for.
#[derive(Clone, Debug, PartialEq, Eq)]
pub enum PollerAction {
    /// Ask for the objects within `radius` steps of `center`.
    Query { center: AssetPositionDto, radius: i32 },
    /// Hand this snapshot over, and wait until it is taken in.
    Deliver(Vec<AssetDto>),
    /// Rest for so many seconds.
    Sleep { secs: u64 },
    /// Report the error and end the task.
    Stop(QueryError),
    /// Nothing: the event was not one that the poller was waiting for.
    Nothing,
}

pub enum EventView {
    Started,
    QuerySucceeded(Seq<AssetView>),
    QueryFailed(Seq<char>),
    Delivered,
    DelayElapsed,
}

pub enum ActionView {
    Query { x: i32, y: i32, radius: i32 },
    Deliver(Seq<AssetView>),
    Sleep { secs: u64 },
    Stop(QueryErrorView),
    Nothing,
}

impl View for PollerEvent {
    type V = EventView;

    open spec fn view(&self) -> EventView {
        match self {
            PollerEvent::Started => EventView::Started,
            PollerEvent::QuerySucceeded(s) => EventView::QuerySucceeded(asset_views(s@)),
            PollerEvent::QueryFailed(m) => EventView::QueryFailed(m@),
            PollerEvent::Delivered => EventView::Delivered,
            PollerEvent::DelayElapsed => EventView::DelayElapsed,
        }
    }
}

impl View for PollerAction {
    type V = ActionView;

    open spec fn view(&self) -> ActionView {
        match self {
            PollerAction::Query { center, radius } => ActionView::Query {
                x: center.x,
                y: center.y,
                radius: *radius,
            },
            PollerAction::Deliver(s) => ActionView::Deliver(asset_views(s@)),
            PollerAction::Sleep { secs } => ActionView::Sleep { secs: *secs },
            PollerAction::Stop(e) => ActionView::Stop(e@),
            PollerAction::Nothing => ActionView::Nothing,
        }
    }
}

/// Whether `event` is the one that the poller waits for in `state`.
pub open spec fn awaited(state: PollerState, event: EventView) -> bool {
    match (state, event) {
        (PollerState::Idle, EventView::Started) => true,
        (PollerState::Querying, EventView::QuerySucceeded(_)) => true,
        (PollerState::Querying, EventView::QueryFailed(_)) => true,
        (PollerState::Delivering, EventView::Delivered) => true,
        (PollerState::Sleeping, EventView::DelayElapsed) => true,
        _ => false,
    }
}

/// The state that `event` leads to from `state`. An event that is not
/// awaited changes nothing.
pub open spec fn next_state(state: PollerState, event: EventView) -> PollerState {
    match (state, event) {
        (PollerState::Idle, EventView::Started) => PollerState::Querying,
        (PollerState::Querying, EventView::QuerySucceeded(_)) => PollerState::Delivering,
        (PollerState::Querying, EventView::QueryFailed(_)) => PollerState::Stopped,
        (PollerState::Delivering, EventView::Delivered) => PollerState::Sleeping,
        (PollerState::Sleeping, EventView::DelayElapsed) => PollerState::Querying,
        _ => state,
    }
}

/// What the poller asks for when `event` comes in `state`.
pub open spec fn action_for(
    x: i32,
    y: i32,
    radius: i32,
    delay_secs: u64,
    state: PollerState,
    event: EventView,
) -> ActionView {
    match (state, event) {
        (PollerState::Idle, EventView::Started) => ActionView::Query { x, y, radius },
        (PollerState::Querying, EventView::QuerySucceeded(s)) => ActionView::Deliver(s),
        (PollerState::Querying, EventView::QueryFailed(m)) => ActionView::Stop(
            QueryErrorView::Network(m),
        ),
        (PollerState::Delivering, EventView::Delivered) => ActionView::Sleep { secs: delay_secs },
        (PollerState::Sleeping, EventView::DelayElapsed) => ActionView::Query { x, y, radius },
        _ => ActionView::Nothing,
    }
}

/// The state after a run of events.
pub open spec fn state_after(state: PollerState, events: Seq<EventView>) -> PollerState
    decreases events.len(),
{
    if events.len() == 0 {
        state
    } else {
        next_state(state_after(state, events.drop_last()), events.last())
    }
}

/// How many snapshots the poller has handed out for delivery in a run of
/// events.
pub open spec fn handed_out(state: PollerState, events: Seq<EventView>) -> nat
    decreases events.len(),
{
    if events.len() == 0 {
        0
    } else {
        let before = state_after(state, events.drop_last());
        handed_out(state, events.drop_last()) + if before == PollerState::Querying
            && events.last() is QuerySucceeded {
            1nat
        } else {
            0nat
        }
    }
}

/// How many deliveries were completed in a run of events.
pub open spec fn taken_in(state: PollerState, events: Seq<EventView>) -> nat
    decreases events.len(),
{
    if events.len() == 0 {
        0
    } else {
        let before = state_after(state, events.drop_last());
        taken_in(state, events.drop_last()) + if before == PollerState::Delivering
            && events.last() is Delivered {
            1nat
        } else {
            0nat
        }
    }
}

/// How many snapshots are under way in a state: one while the poller is
/// delivering, none otherwise.
pub open spec fn in_flight(state: PollerState) -> nat {
    if state == PollerState::Delivering {
        1
    } else {
        0
    }
}

/// A stopped poller stays stopped, whatever it is told: there is no retry
/// and no restart.
pub proof fn lemma_stopped_for_good(events: Seq<EventView>)
    ensures
        state_after(PollerState::Stopped, events) == PollerState::Stopped,
    decreases events.len(),
{
    if events.len() > 0 {
        lemma_stopped_for_good(events.drop_last());
    }
}

/// At most one snapshot is ever under way: from the start, whatever the
/// poller is told and however long, the snapshots handed out are those
/// taken in and, while the poller is delivering, one more. Until that one is
/// taken in the poller asks for no other.
pub proof fn lemma_one_in_flight(events: Seq<EventView>)
    ensures
        handed_out(PollerState::Idle, events) == taken_in(PollerState::Idle, events)
            + in_flight(state_after(PollerState::Idle, events)),
    decreases events.len(),
{
    if events.len() > 0 {
        lemma_one_in_flight(events.drop_last());
    }
}

/// An event that the poller does not wait for is ignored: the state stays
/// and nothing is asked for.
pub proof fn lemma_unawaited_event_is_ignored(
    x: i32,
    y: i32,
    radius: i32,
    delay_secs: u64,
    state: PollerState,
    event: EventView,
)
    requires
        !awaited(state, event),
    ensures
        next_state(state, event) == state,
        action_for(x, y, radius, delay_secs, state, event) == ActionView::Nothing,
{
}

/// While a delivery waits, nothing but its completion moves the poller: the
/// state stays, no query is asked for and no snapshot is handed out.
pub proof fn lemma_blocked_while_delivering(
    x: i32,
    y: i32,
    radius: i32,
    delay_secs: u64,
    event: EventView,
)
    requires
        !(event is Delivered),
    ensures
        next_state(PollerState::Delivering, event) == PollerState::Delivering,
        action_for(x, y, radius, delay_secs, PollerState::Delivering, event)
            == ActionView::Nothing,
{
}

/// The poller: its fixed centre, radius and rest, and what it waits for.
#[derive(Debug)]
pub struct Poller {
    center: AssetPositionDto,
    radius: i32,
    delay_secs: u64,
    state: PollerState,
}

impl Poller {
    pub closed spec fn spec_state(&self) -> PollerState {
        self.state
    }

    pub closed spec fn spec_center(&self) -> AssetPositionDto {
        self.center
    }

    pub closed spec fn spec_radius(&self) -> i32 {
        self.radius
    }

    pub closed spec fn spec_delay_secs(&self) -> u64 {
        self.delay_secs
    }

    /// A poller that will ask for the objects within `radius` steps of
    /// `center`, and rest `delay_secs` seconds after each delivery. It is
    /// idle until it is told `Started`.
    pub fn new(center: AssetPositionDto, radius: i32, delay_secs: u64) -> (p: Poller)
        ensures
            p.spec_state() == PollerState::Idle,
            p.spec_center() == center,
            p.spec_radius() == radius,
            p.spec_delay_secs() == delay_secs,
    {
        Poller { center, radius, delay_secs, state: PollerState::Idle }
    }

    #[verifier::when_used_as_spec(spec_state)]
    pub fn state(&self) -> (s: PollerState)
        ensures
            s == self.spec_state(),
    {
        self.state
    }

    /// Whether a query has failed and the poller has stopped for good.
    pub fn is_stopped(&self) -> (b: bool)
        ensures
            b == (self.spec_state() == PollerState::Stopped),
    {
        match self.state {
            PollerState::Stopped => true,
            _ => false,
        }
    }

    /// Takes one event and says what is to be done next. The centre, the
    /// radius and the rest never change.
    pub fn step(&mut self, event: PollerEvent) -> (action: PollerAction)
        ensures
            final(self).spec_state() == next_state(old(self).spec_state(), event@),
            action@ == action_for(
                old(self).spec_center().x,
                old(self).spec_center().y,
                old(self).spec_radius(),
                old(self).spec_delay_secs(),
                old(self).spec_state(),
                event@,
            ),
            final(self).spec_center() == old(self).spec_center(),
            final(self).spec_radius() == old(self).spec_radius(),
            final(self).spec_delay_secs() == old(self).spec_delay_secs(),
    {
        match self.state {
            PollerState::Idle => match event {
                PollerEvent::Started => {
                    self.state = PollerState::Querying;
                    PollerAction::Query { center: self.center, radius: self.radius }
                },
                _ => PollerAction::Nothing,
            },
            PollerState::Querying => match event {
                PollerEvent::QuerySucceeded(snapshot) => {
                    self.state = PollerState::Delivering;
                    PollerAction::Deliver(snapshot)
                },
                PollerEvent::QueryFailed(message) => {
                    self.state = PollerState::Stopped;
                    PollerAction::Stop(QueryError::Network(message))
                },
                _ => PollerAction::Nothing,
            },
            PollerState::Delivering => match event {
                PollerEvent::Delivered => {
                    self.state = PollerState::Sleeping;
                    PollerAction::Sleep { secs: self.delay_secs }
                },
                _ => PollerAction::Nothing,
            },
            PollerState::Sleeping => match event {
                PollerEvent::DelayElapsed => {
                    self.state = PollerState::Querying;
                    PollerAction::Query { center: self.center, radius: self.radius }
                },
                _ => PollerAction::Nothing,
            },
            PollerState::Stopped => PollerAction::Nothing,
        }
    }
}

} // verus!
