//! The live watch on the log directory, as a state machine: what to do next
//! and which events to hand on, given what the file system reported.

use crate::extract::{get_latest_data, latest_id, latest_level};
use crate::text::line_views;
use crate::file_name::{file_contains_log_ids, is_log_name};
use crate::game_data::StoryLog;
use crate::read_set::ReadIdSet;
use vstd::prelude::*;
use vstd::string::*;

verus! {

/// What the watch hands on to its consumer.
#[derive(Debug)]
pub enum GameEvent {
    /// The log of this id was read.
    LogRead(u32),
    /// The level of this code was selected.
    LevelSelected(String),
}

/// A `GameEvent` as a plain value.
pub enum GameEventView {
    LogRead(u32),
    LevelSelected(Seq<char>),
}

impl View for GameEvent {
    type V = GameEventView;

    open spec fn view(&self) -> GameEventView {
        match self {
            GameEvent::LogRead(id) => GameEventView::LogRead(*id),
            GameEvent::LevelSelected(code) => GameEventView::LevelSelected(code@),
        }
    }
}

/// The views of a list of events.
pub open spec fn event_views(events: Seq<GameEvent>) -> Seq<GameEventView> {
    events.map_values(|e: GameEvent| e@)
}

/// Where a watch stands. `Failed` is final and holds the cause.
#[derive(Debug, PartialEq, Eq)]
pub enum WatchState {
    NotWatching,
    Watching,
    Failed(String),
}

/// A `WatchState` as a plain value.
pub enum WatchStateView {
    NotWatching,
    Watching,
    Failed(Seq<char>),
}

impl View for WatchState {
    type V = WatchStateView;

    open spec fn view(&self) -> WatchStateView {
        match self {
            WatchState::NotWatching => WatchStateView::NotWatching,
            WatchState::Watching => WatchStateView::Watching,
            WatchState::Failed(cause) => WatchStateView::Failed(cause@),
        }
    }
}

/// The kind of a change that the file system reports.
#[derive(Clone, Copy, Debug, PartialEq, Eq, Structural)]
pub enum ChangeKind {
    Created,
    Modified,
    Other,
}

/// What happened outside since the last step.
pub enum WatchInput {
    /// The watch on the directory stands.
    Established,
    /// The watch on the directory could not be set up, or broke: the cause.
    Broken(String),
    /// A change of this kind was reported for a path with this file name,
    /// if the path has one. A report that names several paths gives one
    /// such input for each of them, in their order.
    Changed(ChangeKind, Option<String>),
    /// An error was reported in place of a change.
    Other,
    /// The file asked for was read: these are its lines.
    Lines(Vec<String>),
    /// The file asked for could not be read.
    Unreadable,
}

/// What to do outside before the next step.
#[derive(Debug)]
pub enum WatchCommand {
    /// Set up the watch on the directory, not on what lies below it.
    Establish,
    /// Wait for the next report of the file system.
    Await,
    /// Read the file of this name from its start.
    Read(String),
    /// Log that the directory cannot be watched, with this cause, and stop.
    GiveUp(String),
    /// Stop: the failure has been told.
    Halt,
}

/// A `WatchCommand` as a plain value.
pub enum WatchCommandView {
    Establish,
    Await,
    Read(Seq<char>),
    GiveUp(Seq<char>),
    Halt,
}

impl View for WatchCommand {
    type V = WatchCommandView;

    open spec fn view(&self) -> WatchCommandView {
        match self {
            WatchCommand::Establish => WatchCommandView::Establish,
            WatchCommand::Await => WatchCommandView::Await,
            WatchCommand::Read(name) => WatchCommandView::Read(name@),
            WatchCommand::GiveUp(cause) => WatchCommandView::GiveUp(cause@),
            WatchCommand::Halt => WatchCommandView::Halt,
        }
    }
}

/// The state after a step. A watch that fails takes the cause of its
/// failure along; one that has failed stays as it is.
pub open spec fn next_state(state: WatchState, input: WatchInput) -> WatchStateView {
    match (state, input) {
        (WatchState::Failed(cause), _) => WatchStateView::Failed(cause@),
        (_, WatchInput::Broken(cause)) => WatchStateView::Failed(cause@),
        (WatchState::NotWatching, WatchInput::Established) => WatchStateView::Watching,
        (s, _) => s@,
    }
}

/// The command that a step gives. A file is read where it was created or
/// modified and its name is that of a session log. The failure is told
/// once, at the step at which the watch fails.
pub open spec fn next_command(state: WatchState, input: WatchInput) -> WatchCommandView {
    match (state, input) {
        (WatchState::Failed(_), _) => WatchCommandView::Halt,
        (_, WatchInput::Broken(cause)) => WatchCommandView::GiveUp(cause@),
        (WatchState::NotWatching, WatchInput::Established) => WatchCommandView::Await,
        (WatchState::NotWatching, _) => WatchCommandView::Establish,
        (WatchState::Watching, WatchInput::Changed(kind, Some(name))) => if kind
            != ChangeKind::Other && is_log_name(name@) {
            WatchCommandView::Read(name@)
        } else {
            WatchCommandView::Await
        },
        (WatchState::Watching, _) => WatchCommandView::Await,
    }
}

/// The events that the lines of a file give: the log read last, then the
/// level selected last, as far as there is one.
pub open spec fn events_of(lines: Seq<Seq<char>>, logs: Seq<StoryLog>) -> Seq<GameEventView> {
    (match latest_id(lines, logs) {
        Some(id) => seq![GameEventView::LogRead(id)],
        None => Seq::empty(),
    }) + (match latest_level(lines) {
        Some(code) => seq![GameEventView::LevelSelected(code)],
        None => Seq::empty(),
    })
}

/// The events that a step hands on: those of the lines read while
/// watching, and no others.
pub open spec fn next_events(state: WatchState, input: WatchInput, logs: Seq<StoryLog>) -> Seq<
    GameEventView,
> {
    match (state, input) {
        (WatchState::Watching, WatchInput::Lines(lines)) => events_of(line_views(lines@), logs),
        _ => Seq::empty(),
    }
}

/// The command with which a watch begins.
pub fn start() -> (r: (WatchState, WatchCommand))
    ensures
        r.0@ == WatchStateView::NotWatching,
        r.1@ == WatchCommandView::Establish,
{
    (WatchState::NotWatching, WatchCommand::Establish)
}

/// The events that the lines of a changed file give.
pub fn events_from_lines(lines: &Vec<String>, logs: &[StoryLog]) -> (r: Vec<GameEvent>)
    ensures
        event_views(r@) == events_of(line_views(lines@), logs@),
{
    let (id, level) = get_latest_data(lines, logs);
    let mut events: Vec<GameEvent> = Vec::new();
    match id {
        Some(id) => {
            events.push(GameEvent::LogRead(id));
        },
        None => {},
    }
    match level {
        Some(code) => {
            events.push(GameEvent::LevelSelected(code));
        },
        None => {},
    }
    assert(event_views(events@) =~= events_of(line_views(lines@), logs@));
    events
}

/// One step of the watch: from the state and what happened outside to the
/// next state, the events to hand on in this order, and what to do next.
pub fn step(state: WatchState, input: WatchInput, logs: &[StoryLog]) -> (r: (
    WatchState,
    Vec<GameEvent>,
    WatchCommand,
))
    ensures
        r.0@ == next_state(state, input),
        event_views(r.1@) == next_events(state, input, logs@),
        r.2@ == next_command(state, input),
{
    let none: Vec<GameEvent> = Vec::new();
    assert(event_views(none@) =~= Seq::<GameEventView>::empty());
    match state {
        WatchState::Failed(cause) => (WatchState::Failed(cause), none, WatchCommand::Halt),
        WatchState::NotWatching => match input {
            WatchInput::Broken(cause) => (
                WatchState::Failed(cause.clone()),
                none,
                WatchCommand::GiveUp(cause),
            ),
            WatchInput::Established => (WatchState::Watching, none, WatchCommand::Await),
            _ => (WatchState::NotWatching, none, WatchCommand::Establish),
        },
        WatchState::Watching => match input {
            WatchInput::Broken(cause) => (
                WatchState::Failed(cause.clone()),
                none,
                WatchCommand::GiveUp(cause),
            ),
            WatchInput::Changed(kind, Some(name)) => {
                let wanted = match kind {
                    ChangeKind::Created => true,
                    ChangeKind::Modified => true,
                    ChangeKind::Other => false,
                };
                if wanted && file_contains_log_ids(name.as_str()) {
                    (WatchState::Watching, none, WatchCommand::Read(name))
                } else {
                    (WatchState::Watching, none, WatchCommand::Await)
                }
            },
            WatchInput::Lines(lines) => {
                let events = events_from_lines(&lines, logs);
                (WatchState::Watching, events, WatchCommand::Await)
            },
            _ => (WatchState::Watching, none, WatchCommand::Await),
        },
    }
}

/// What an event adds to the set of read ids: the id of a log that was
/// read, and nothing else.
pub open spec fn folded(ids: Set<u32>, event: GameEventView) -> Set<u32> {
    match event {
        GameEventView::LogRead(id) => ids.insert(id),
        GameEventView::LevelSelected(_) => ids,
    }
}

/// Takes an event into the set of read ids.
pub fn fold_event(ids: &mut ReadIdSet, event: &GameEvent)
    requires
        old(ids).wf(),
    ensures
        final(ids).wf(),
        final(ids)@ == folded(old(ids)@, event@),
{
    match event {
        GameEvent::LogRead(id) => {
            ids.insert(*id);
        },
        GameEvent::LevelSelected(_) => {},
    }
}

/// A watch that has failed stays failed with its cause, hands on nothing
/// and asks for nothing but to stop; and the failure is told only at the
/// step that leads into it.
pub proof fn lemma_failed_is_final(state: WatchState, input: WatchInput, logs: Seq<StoryLog>)
    ensures
        state is Failed ==> next_state(state, input) == state@ && next_events(state, input, logs)
            == Seq::<GameEventView>::empty() && next_command(state, input)
            == WatchCommandView::Halt,
        next_command(state, input) is GiveUp <==> next_state(state, input) is Failed && !(
        state is Failed),
{
}

/// An event never takes an id out of the set, and the same event taken in
/// twice leaves the set as it was after the first time.
pub proof fn lemma_fold_only_adds(ids: Set<u32>, event: GameEventView)
    ensures
        ids.subset_of(folded(ids, event)),
        folded(folded(ids, event), event) == folded(ids, event),
{
    assert(folded(folded(ids, event), event) =~= folded(ids, event));
}

} // verus!
