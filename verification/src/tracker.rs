//! What the tracker shows, as a state that messages change: the catalog,
//! the read ids and the choices of the user.

use crate::game_data::StoryLog;
use crate::read_set::ReadIdSet;
use crate::watcher::{GameEvent, GameEventView};
use vstd::prelude::*;
use vstd::string::*;

verus! {

/// The tracker once its data is loaded.
pub struct MainView {
    pub all_logs: Vec<StoryLog>,
    pub read_log_ids: ReadIdSet,
    pub hide_read: bool,
    pub auto_filter: bool,
    pub filter: String,
    pub gtfo_path: String,
}

impl MainView {
    /// The view on freshly loaded data: read logs are shown, the filter
    /// follows the level and is empty.
    pub fn new(all_logs: Vec<StoryLog>, read_log_ids: ReadIdSet, gtfo_path: String) -> (r: MainView)
        ensures
            r.all_logs == all_logs,
            r.read_log_ids == read_log_ids,
            r.gtfo_path == gtfo_path,
            !r.hide_read,
            r.auto_filter,
            r.filter@ == Seq::<char>::empty(),
    {
        MainView {
            all_logs,
            read_log_ids,
            gtfo_path,
            hide_read: false,
            auto_filter: true,
            filter: String::new(),
        }
    }
}

/// The tracker: waiting for its data, showing it, or showing an error.
pub enum GtfoLogTracker {
    Loading,
    Loaded(MainView),
    Error(String),
}

/// What can happen to the tracker.
pub enum Message {
    /// The catalog, the read ids and the log directory are known.
    DataLoaded(Vec<StoryLog>, ReadIdSet, String),
    ToggleHideRead(bool),
    ToggleAutoFilter(bool),
    FilterChanged(String),
    Error(String),
    NewLogRead(u32),
    LevelChanged(String),
}

impl Message {
    /// The read ids that a message brings are a set.
    pub open spec fn wf(self) -> bool {
        match self {
            Message::DataLoaded(_, ids, _) => ids.wf(),
            _ => true,
        }
    }

    /// Whether this is the message that tells of the event.
    pub open spec fn tells(self, event: GameEventView) -> bool {
        match event {
            GameEventView::LogRead(id) => self matches Message::NewLogRead(i) && i == id,
            GameEventView::LevelSelected(code) => self matches Message::LevelChanged(c) && c@
                == code,
        }
    }

    /// The message that tells the tracker of an event of the watch.
    pub fn from_event(event: GameEvent) -> (r: Message)
        ensures
            r.tells(event@),
            r.wf(),
    {
        match event {
            GameEvent::LogRead(id) => Message::NewLogRead(id),
            GameEvent::LevelSelected(name) => Message::LevelChanged(name),
        }
    }
}

/// Whether two views differ at most in the read ids and the choices of the
/// user.
pub open spec fn same_data(a: MainView, b: MainView) -> bool {
    a.all_logs == b.all_logs && a.gtfo_path == b.gtfo_path
}

/// Whether `after` is the view that a message makes of `before`. A newly
/// read log joins the read ids; a new level becomes the filter where the
/// filter follows the level; the user's choices are taken as given.
pub open spec fn is_view_update(before: MainView, message: Message, after: MainView) -> bool {
    &&& same_data(before, after)
    &&& after.read_log_ids@ == (match message {
        Message::NewLogRead(id) => before.read_log_ids@.insert(id),
        _ => before.read_log_ids@,
    })
    &&& after.hide_read == (match message {
        Message::ToggleHideRead(on) => on,
        _ => before.hide_read,
    })
    &&& after.auto_filter == (match message {
        Message::ToggleAutoFilter(follow) => follow,
        _ => before.auto_filter,
    })
    &&& after.filter@ == (match message {
        Message::FilterChanged(text) => text@,
        Message::LevelChanged(level) => if before.auto_filter {
            level@
        } else {
            before.filter@
        },
        _ => before.filter@,
    })
}

/// Whether `after` is the tracker that a message makes of `before`. Loaded
/// data and an error replace what was there; every other message changes
/// the loaded view and nothing else.
pub open spec fn is_update(
    before: GtfoLogTracker,
    message: Message,
    after: GtfoLogTracker,
) -> bool {
    match message {
        Message::DataLoaded(logs, ids, path) => {
            &&& after matches GtfoLogTracker::Loaded(v)
            &&& v.all_logs == logs
            &&& v.read_log_ids == ids
            &&& v.gtfo_path == path
            &&& !v.hide_read
            &&& v.auto_filter
            &&& v.filter@ == Seq::<char>::empty()
        },
        Message::Error(text) => after matches GtfoLogTracker::Error(t) && t == text,
        _ => match before {
            GtfoLogTracker::Loaded(b) => after matches GtfoLogTracker::Loaded(a) && is_view_update(
                b,
                message,
                a,
            ),
            GtfoLogTracker::Loading => after is Loading,
            GtfoLogTracker::Error(e) => after matches GtfoLogTracker::Error(t) && t == e,
        },
    }
}

impl GtfoLogTracker {
    /// The read ids of a loaded tracker are a set.
    pub open spec fn wf(self) -> bool {
        match self {
            GtfoLogTracker::Loaded(v) => v.read_log_ids.wf(),
            _ => true,
        }
    }

    /// The tracker before anything is known.
    pub fn new() -> (r: GtfoLogTracker)
        ensures
            r is Loading,
            r.wf(),
    {
        GtfoLogTracker::Loading
    }

    /// The title of the tracker's window.
    pub fn title(&self) -> (r: String)
        ensures
            r@ == "GTFO Log Tracker"@,
    {
        String::from_str("GTFO Log Tracker")
    }

    /// Takes a message into the tracker.
    pub fn update(&mut self, message: Message)
        requires
            old(self).wf(),
            message.wf(),
        ensures
            final(self).wf(),
            is_update(*old(self), message, *final(self)),
    {
        let mut before = GtfoLogTracker::Loading;
        core::mem::swap(self, &mut before);
        *self = before.updated(message);
    }

    /// The tracker that a message makes of this one.
    pub fn updated(self, message: Message) -> (r: GtfoLogTracker)
        requires
            self.wf(),
            message.wf(),
        ensures
            r.wf(),
            is_update(self, message, r),
    {
        match message {
            Message::DataLoaded(all_logs, read_log_ids, gtfo_path) => GtfoLogTracker::Loaded(
                MainView::new(all_logs, read_log_ids, gtfo_path),
            ),
            Message::Error(e) => GtfoLogTracker::Error(e),
            other => match self {
                GtfoLogTracker::Loaded(mut view) => {
                    match other {
                        Message::NewLogRead(log_id) => {
                            let mut ids = view.read_log_ids;
                            ids.insert(log_id);
                            view.read_log_ids = ids;
                        },
                        Message::ToggleHideRead(on) => {
                            view.hide_read = on;
                        },
                        Message::ToggleAutoFilter(follow) => {
                            view.auto_filter = follow;
                        },
                        Message::FilterChanged(text) => {
                            view.filter = text;
                        },
                        Message::LevelChanged(level_name) => {
                            if view.auto_filter {
                                view.filter = level_name;
                            }
                        },
                        _ => {},
                    }
                    GtfoLogTracker::Loaded(view)
                },
                GtfoLogTracker::Loading => GtfoLogTracker::Loading,
                GtfoLogTracker::Error(e) => GtfoLogTracker::Error(e),
            },
        }
    }
}

} // verus!
