use vstd::prelude::*;

use crate::errors::Error;
use crate::scanner::Direction;
use crate::scanner::clone_bytes;

verus! {

broadcast use crate::scanner::lemma_bytes_deep_view;

// The session state machine: it owns the current file identity, the
// dirty flag and the loading flag, consumes user/timer/window events,
// and decides which asynchronous persistence operations to launch. The
// operations themselves (and the opaque text buffer) live outside; the
// machine only issues requests for them and later reconciles their
// results, fed back as events.

/// The singleton session state.
///
/// `current_file` is absent for an unsaved, unnamed in-memory document;
/// `dirty` is true iff the buffer has edits not yet reflected on disk;
/// `loading` is true from session start until the first create/load
/// operation resolves, and gates autosave and navigation.
pub struct Session {
    pub current_file: Option<Vec<u8>>,
    pub dirty: bool,
    pub loading: bool,
}

/// The mathematical value of a `Session`.
pub ghost struct SessionView {
    pub current_file: Option<Seq<u8>>,
    pub dirty: bool,
    pub loading: bool,
}

impl View for Session {
    type V = SessionView;

    open spec fn view(&self) -> SessionView {
        SessionView {
            current_file: self.current_file.deep_view(),
            dirty: self.dirty,
            loading: self.loading,
        }
    }
}

/// An event consumed by the session state machine: a user/timer/window
/// notification, or the reconciled result of an asynchronous
/// persistence operation. Events that launch a save carry the buffer's
/// text, since the buffer itself lives outside the machine.
pub enum Event {
    BufferEdited { content_changing: bool },
    Bootstrap,
    CreateCompleted { result: Result<Vec<u8>, Error> },
    AutosaveTick { buffer_text: String },
    SaveCompleted { result: Result<Vec<u8>, Error> },
    NavigatePrevious { buffer_text: String },
    NavigateNext { buffer_text: String },
    NewFile { buffer_text: String },
    FileLoaded { result: Result<(Vec<u8>, String), Error> },
    SessionClosing { buffer_text: String },
}

/// The mathematical value of an `Event`.
pub ghost enum EventView {
    BufferEdited { content_changing: bool },
    Bootstrap,
    CreateCompleted { result: Result<Seq<u8>, Error> },
    AutosaveTick { buffer_text: Seq<char> },
    SaveCompleted { result: Result<Seq<u8>, Error> },
    NavigatePrevious { buffer_text: Seq<char> },
    NavigateNext { buffer_text: Seq<char> },
    NewFile { buffer_text: Seq<char> },
    FileLoaded { result: Result<(Seq<u8>, Seq<char>), Error> },
    SessionClosing { buffer_text: Seq<char> },
}

/// The value of a persistence-operation result carrying a path.
pub open spec fn path_result_view(r: Result<Vec<u8>, Error>) -> Result<Seq<u8>, Error> {
    match r {
        Ok(p) => Ok(p@),
        Err(e) => Err(e),
    }
}

/// The value of a load result carrying a path and the loaded text.
pub open spec fn load_result_view(r: Result<(Vec<u8>, String), Error>) -> Result<
    (Seq<u8>, Seq<char>),
    Error,
> {
    match r {
        Ok(pt) => Ok((pt.0@, pt.1@)),
        Err(e) => Err(e),
    }
}

impl View for Event {
    type V = EventView;

    open spec fn view(&self) -> EventView {
        match self {
            Event::BufferEdited { content_changing } => EventView::BufferEdited {
                content_changing: *content_changing,
            },
            Event::Bootstrap => EventView::Bootstrap,
            Event::CreateCompleted { result } => EventView::CreateCompleted {
                result: path_result_view(*result),
            },
            Event::AutosaveTick { buffer_text } => EventView::AutosaveTick {
                buffer_text: buffer_text@,
            },
            Event::SaveCompleted { result } => EventView::SaveCompleted {
                result: path_result_view(*result),
            },
            Event::NavigatePrevious { buffer_text } => EventView::NavigatePrevious {
                buffer_text: buffer_text@,
            },
            Event::NavigateNext { buffer_text } => EventView::NavigateNext {
                buffer_text: buffer_text@,
            },
            Event::NewFile { buffer_text } => EventView::NewFile { buffer_text: buffer_text@ },
            Event::FileLoaded { result } => EventView::FileLoaded {
                result: load_result_view(*result),
            },
            Event::SessionClosing { buffer_text } => EventView::SessionClosing {
                buffer_text: buffer_text@,
            },
        }
    }
}

/// An asynchronous request issued by the state machine: a persistence
/// operation to launch, or an instruction to the opaque text buffer.
pub enum Action {
    /// Write zero-length content to `path`, creating or truncating it.
    CreateEmpty { path: Vec<u8> },
    /// Write `text` to `path` verbatim, synthesizing a fresh name first
    /// when `path` is absent.
    Save { path: Option<Vec<u8>>, text: String },
    /// Scan the working directory and load the file adjacent to
    /// `current` in `direction`.
    LoadAdjacent { current: Option<Vec<u8>>, direction: Direction },
    /// Replace the buffer's entire content with `text`.
    ReplaceBuffer { text: String },
}

/// The mathematical value of an `Action`.
pub ghost enum ActionView {
    CreateEmpty { path: Seq<u8> },
    Save { path: Option<Seq<u8>>, text: Seq<char> },
    LoadAdjacent { current: Option<Seq<u8>>, direction: Direction },
    ReplaceBuffer { text: Seq<char> },
}

impl DeepView for Action {
    type V = ActionView;

    open spec fn deep_view(&self) -> ActionView {
        match self {
            Action::CreateEmpty { path } => ActionView::CreateEmpty { path: path@ },
            Action::Save { path, text } => ActionView::Save {
                path: path.deep_view(),
                text: text@,
            },
            Action::LoadAdjacent { current, direction } => ActionView::LoadAdjacent {
                current: current.deep_view(),
                direction: *direction,
            },
            Action::ReplaceBuffer { text } => ActionView::ReplaceBuffer { text: text@ },
        }
    }
}

impl View for Action {
    type V = ActionView;

    open spec fn view(&self) -> ActionView {
        self.deep_view()
    }
}

/// The state a session is created with: no file, clean, loading.
pub open spec fn initial_session() -> SessionView {
    SessionView { current_file: None, dirty: false, loading: true }
}

/// The session state after consuming an event, per the event-handling
/// rules: completions clear `loading` and adopt the path they themselves
/// produced; failures leave prior state unchanged except for clearing
/// `loading`; edits mark the session dirty; events that require a
/// settled file identity are no-ops while `loading`.
pub open spec fn step_state(s: SessionView, e: EventView) -> SessionView {
    match e {
        EventView::BufferEdited { content_changing } => SessionView {
            current_file: s.current_file,
            dirty: s.dirty || content_changing,
            loading: s.loading,
        },
        EventView::Bootstrap => SessionView {
            current_file: s.current_file,
            dirty: s.dirty,
            loading: true,
        },
        EventView::CreateCompleted { result } => match result {
            Ok(p) => SessionView { current_file: Some(p), dirty: s.dirty, loading: false },
            Err(_) => SessionView {
                current_file: s.current_file,
                dirty: s.dirty,
                loading: false,
            },
        },
        EventView::AutosaveTick { .. } => s,
        EventView::SaveCompleted { result } => match result {
            Ok(p) => SessionView { current_file: Some(p), dirty: false, loading: false },
            Err(_) => SessionView {
                current_file: s.current_file,
                dirty: s.dirty,
                loading: false,
            },
        },
        EventView::NavigatePrevious { .. } => s,
        EventView::NavigateNext { .. } => s,
        EventView::NewFile { .. } => if s.loading {
            s
        } else {
            SessionView { current_file: s.current_file, dirty: false, loading: s.loading }
        },
        EventView::FileLoaded { result } => match result {
            Ok(pt) => SessionView { current_file: Some(pt.0), dirty: false, loading: false },
            Err(_) => SessionView {
                current_file: s.current_file,
                dirty: s.dirty,
                loading: false,
            },
        },
        EventView::SessionClosing { .. } => s,
    }
}

/// The save request launched before navigation or a new file when the
/// buffer is dirty: a fire-and-forget save of the current buffer.
pub open spec fn save_if_dirty(s: SessionView, text: Seq<char>) -> Seq<ActionView> {
    if s.dirty {
        seq![ActionView::Save { path: s.current_file, text: text }]
    } else {
        Seq::empty()
    }
}

/// The asynchronous requests launched in response to an event, per the
/// event-handling rules. `fresh` is the generated filename used when the
/// event calls for a brand-new file.
pub open spec fn step_actions(s: SessionView, e: EventView, fresh: Seq<u8>) -> Seq<ActionView> {
    match e {
        EventView::BufferEdited { .. } => Seq::empty(),
        EventView::Bootstrap => seq![ActionView::CreateEmpty { path: fresh }],
        EventView::CreateCompleted { .. } => Seq::empty(),
        EventView::AutosaveTick { buffer_text } => if s.loading {
            Seq::empty()
        } else {
            seq![ActionView::Save { path: s.current_file, text: buffer_text }]
        },
        EventView::SaveCompleted { .. } => Seq::empty(),
        EventView::NavigatePrevious { buffer_text } => if s.loading {
            Seq::empty()
        } else {
            save_if_dirty(s, buffer_text) + seq![
                ActionView::LoadAdjacent {
                    current: s.current_file,
                    direction: Direction::Previous,
                },
            ]
        },
        EventView::NavigateNext { buffer_text } => if s.loading {
            Seq::empty()
        } else {
            save_if_dirty(s, buffer_text) + seq![
                ActionView::LoadAdjacent { current: s.current_file, direction: Direction::Next },
            ]
        },
        EventView::NewFile { buffer_text } => if s.loading {
            Seq::empty()
        } else {
            save_if_dirty(s, buffer_text) + seq![
                ActionView::ReplaceBuffer { text: Seq::empty() },
                ActionView::CreateEmpty { path: fresh },
            ]
        },
        EventView::FileLoaded { result } => match result {
            Ok(pt) => seq![ActionView::ReplaceBuffer { text: pt.1 }],
            Err(_) => Seq::empty(),
        },
        EventView::SessionClosing { buffer_text } => if s.dirty && !s.loading {
            seq![ActionView::Save { path: s.current_file, text: buffer_text }]
        } else {
            Seq::empty()
        },
    }
}

/// Copies an optional path.
fn clone_opt_bytes(o: &Option<Vec<u8>>) -> (r: Option<Vec<u8>>)
    ensures
        r.deep_view() == o.deep_view(),
{
    match o {
        Some(v) => {
            let c = clone_bytes(v);
            proof {
                assert(c.deep_view() =~= v.deep_view());
            }
            Some(c)
        },
        None => None,
    }
}

impl Session {
    /// Creates the session a process starts with: no current file, a
    /// clean buffer, and the bootstrap load pending.
    pub fn initial() -> (s: Session)
        ensures
            s@ == initial_session(),
    {
        Session { current_file: None, dirty: false, loading: true }
    }

    /// Consumes one event: moves to the exact state `step_state`
    /// describes and returns the exact requests `step_actions`
    /// describes, to be launched concurrently by the surrounding event
    /// loop. `fresh_name` is the generated filename to use should the
    /// event call for a brand-new file.
    pub fn step(&mut self, event: Event, fresh_name: Vec<u8>) -> (actions: Vec<Action>)
        ensures
            final(self)@ == step_state(old(self)@, event@),
            actions.deep_view() == step_actions(old(self)@, event@, fresh_name@),
    {
        let ghost pre = self@;
        let ghost ev = event@;
        let ghost fresh = fresh_name@;
        let actions: Vec<Action> = match event {
            Event::BufferEdited { content_changing } => {
                self.dirty = self.dirty || content_changing;
                Vec::new()
            },
            Event::Bootstrap => {
                self.loading = true;
                let mut a: Vec<Action> = Vec::new();
                a.push(Action::CreateEmpty { path: fresh_name });
                a
            },
            Event::CreateCompleted { result } => {
                self.loading = false;
                if let Ok(path) = result {
                    self.current_file = Some(path);
                }
                Vec::new()
            },
            Event::AutosaveTick { buffer_text } => {
                if self.loading {
                    Vec::new()
                } else {
                    let mut a: Vec<Action> = Vec::new();
                    a.push(
                        Action::Save {
                            path: clone_opt_bytes(&self.current_file),
                            text: buffer_text,
                        },
                    );
                    a
                }
            },
            Event::SaveCompleted { result } => {
                self.loading = false;
                if let Ok(path) = result {
                    self.current_file = Some(path);
                    self.dirty = false;
                }
                Vec::new()
            },
            Event::NavigatePrevious { buffer_text } => {
                if self.loading {
                    Vec::new()
                } else {
                    let mut a: Vec<Action> = Vec::new();
                    if self.dirty {
                        a.push(
                            Action::Save {
                                path: clone_opt_bytes(&self.current_file),
                                text: buffer_text,
                            },
                        );
                    }
                    a.push(
                        Action::LoadAdjacent {
                            current: clone_opt_bytes(&self.current_file),
                            direction: Direction::Previous,
                        },
                    );
                    a
                }
            },
            Event::NavigateNext { buffer_text } => {
                if self.loading {
                    Vec::new()
                } else {
                    let mut a: Vec<Action> = Vec::new();
                    if self.dirty {
                        a.push(
                            Action::Save {
                                path: clone_opt_bytes(&self.current_file),
                                text: buffer_text,
                            },
                        );
                    }
                    a.push(
                        Action::LoadAdjacent {
                            current: clone_opt_bytes(&self.current_file),
                            direction: Direction::Next,
                        },
                    );
                    a
                }
            },
            Event::NewFile { buffer_text } => {
                if self.loading {
                    Vec::new()
                } else {
                    let mut a: Vec<Action> = Vec::new();
                    if self.dirty {
                        a.push(
                            Action::Save {
                                path: clone_opt_bytes(&self.current_file),
                                text: buffer_text,
                            },
                        );
                    }
                    a.push(Action::ReplaceBuffer { text: String::new() });
                    a.push(Action::CreateEmpty { path: fresh_name });
                    self.dirty = false;
                    a
                }
            },
            Event::FileLoaded { result } => {
                self.loading = false;
                match result {
                    Ok((path, contents)) => {
                        self.current_file = Some(path);
                        self.dirty = false;
                        let mut a: Vec<Action> = Vec::new();
                        a.push(Action::ReplaceBuffer { text: contents });
                        a
                    },
                    Err(_) => Vec::new(),
                }
            },
            Event::SessionClosing { buffer_text } => {
                if self.dirty && !self.loading {
                    let mut a: Vec<Action> = Vec::new();
                    a.push(
                        Action::Save {
                            path: clone_opt_bytes(&self.current_file),
                            text: buffer_text,
                        },
                    );
                    a
                } else {
                    Vec::new()
                }
            },
        };
        proof {
            assert(self@ == step_state(pre, ev));
            assert(actions.deep_view() =~= step_actions(pre, ev, fresh));
        }
        actions
    }
}

impl Default for Session {
    /// The same state `initial` creates.
    fn default() -> (s: Session)
        ensures
            s@ == initial_session(),
    {
        Session::initial()
    }
}

// ---------------------------------------------------------------------
// Laws of the dirty flag.
// ---------------------------------------------------------------------

/// A content-changing edit always marks the session dirty.
pub proof fn lemma_edit_sets_dirty(s: SessionView)
    ensures
        step_state(s, EventView::BufferEdited { content_changing: true }).dirty,
{
}

/// A successful save completion whose path matches the current file at
/// completion time clears the dirty flag.
pub proof fn lemma_save_clears_dirty(s: SessionView, p: Seq<u8>)
    requires
        s.current_file == Some(p),
    ensures
        !step_state(s, EventView::SaveCompleted { result: Ok(p) }).dirty,
{
}

} // verus!
