//! The navigation state: current directory, its listing, the query, the
//! visible sequence and the cursor, and the transitions between them.
use vstd::prelude::*;
use crate::cursor::{
    clamp, clamp_spec, cursor_valid, down, down_spec, lemma_clamp_valid, lemma_moves_stay_valid,
    up, up_spec,
};
use crate::filter::{
    entries_view, filter, filter_spec, lemma_empty_query_keeps_all, lemma_filter_subsequence, visible_view, Entry,
    EntryView, VisibleEntry, VisibleView,
};

verus! {

/// What the user asks of the navigator.
#[derive(Clone, Copy, Debug, PartialEq, Eq, Structural)]
pub enum Event {
    Left,
    Right,
    Up,
    Down,
    Search,
}

/// A key press, as the event loop sees it.
#[derive(Clone, Copy, Debug, PartialEq, Eq, Structural)]
pub enum Key {
    Esc,
    Left,
    Right,
    Up,
    Down,
    Enter,
    Char(char),
    Backspace,
    Other,
}

/// Whether the event loop goes on, is cancelled, or ends on the current directory.
#[derive(Clone, Copy, Debug, PartialEq, Eq, Structural)]
pub enum Control {
    Continue,
    Quit,
    Commit,
}

/// What the caller owes after a transition: `Reload` means the current
/// directory changed and its listing must be read and handed to `load`.
#[derive(Clone, Copy, Debug, PartialEq, Eq, Structural)]
pub enum Action {
    Stay,
    Reload,
}

/// The navigator as a mathematical value; `applied` is the query that the
/// visible sequence reflects.
pub struct AppView {
    pub path: Seq<Seq<char>>,
    pub listing: Seq<EntryView>,
    pub files: Seq<VisibleView>,
    pub applied: Seq<char>,
    pub cursor: Option<usize>,
    pub search: Seq<char>,
    pub search_mode: bool,
}

/// The navigator. `search` is edited by the caller, which then sends
/// `Event::Search`; the visible sequence reflects the query as of that event.
pub struct App {
    path: Vec<String>,
    listing: Vec<Entry>,
    files: Vec<VisibleEntry>,
    applied: String,
    cursor: Option<usize>,
    pub search: String,
    pub search_mode: bool,
}

/// Path components as texts.
pub open spec fn names_view(v: Seq<String>) -> Seq<Seq<char>> {
    v.map_values(|s: String| s@)
}

impl View for App {
    type V = AppView;

    closed spec fn view(&self) -> AppView {
        AppView {
            path: names_view(self.path@),
            listing: entries_view(self.listing@),
            files: visible_view(self.files@),
            applied: self.applied@,
            cursor: self.cursor,
            search: self.search@,
            search_mode: self.search_mode,
        }
    }
}

/// The visible sequence is the filter of the listing by the applied query, and
/// the cursor is valid for it.
pub open spec fn state_inv(s: AppView) -> bool {
    &&& s.files == filter_spec(s.listing, s.applied)
    &&& cursor_valid(s.cursor, s.files.len())
}

/// The state right after moving to directory `p`, before its listing arrives:
/// nothing listed, the query empty, no selection.
pub open spec fn moved_to(s: AppView, p: Seq<Seq<char>>) -> AppView {
    AppView {
        path: p,
        listing: Seq::empty(),
        files: Seq::empty(),
        applied: Seq::empty(),
        cursor: None,
        search: Seq::empty(),
        search_mode: s.search_mode,
    }
}

/// A navigator at directory `p` that has listed nothing yet, outside search mode.
pub open spec fn fresh_at(p: Seq<Seq<char>>) -> AppView {
    AppView {
        path: p,
        listing: Seq::empty(),
        files: Seq::empty(),
        applied: Seq::empty(),
        cursor: None,
        search: Seq::empty(),
        search_mode: false,
    }
}

/// The directory entry that the cursor selects, if there is one and it is a directory.
pub open spec fn selected_dir(s: AppView) -> Option<Seq<char>> {
    match s.cursor {
        Some(i) => if s.listing[s.files[i as int].source_index].is_dir {
            Some(s.files[i as int].name)
        } else {
            None
        },
        None => None,
    }
}

/// The transition that `e` makes from `s`, and what the caller owes after it.
pub open spec fn step_spec(s: AppView, e: Event) -> (AppView, Action) {
    match e {
        Event::Down => (AppView { cursor: down_spec(s.cursor, s.files.len()), ..s }, Action::Stay),
        Event::Up => (AppView { cursor: up_spec(s.cursor), ..s }, Action::Stay),
        Event::Search => {
            let f = filter_spec(s.listing, s.search);
            (AppView { applied: s.search, files: f, cursor: clamp_spec(s.cursor, f.len()), ..s }, Action::Stay)
        },
        Event::Right => match selected_dir(s) {
            Some(name) => (moved_to(s, s.path.push(name)), Action::Reload),
            None => (s, Action::Stay),
        },
        Event::Left => if s.path.len() > 0 {
            (moved_to(s, s.path.drop_last()), Action::Reload)
        } else {
            (s, Action::Stay)
        },
    }
}

/// The state once listing `l` of the current directory has arrived: the visible
/// sequence is recomputed and the cursor is on its first entry, if any.
pub open spec fn load_spec(s: AppView, l: Seq<EntryView>) -> AppView {
    let f = filter_spec(l, s.applied);
    AppView { listing: l, files: f, cursor: clamp_spec(None, f.len()), ..s }
}

/// What a key press does to `s`: the new state, what the caller owes, and
/// whether the event loop goes on.
pub open spec fn key_spec(s: AppView, k: Key) -> (AppView, Action, Control) {
    match k {
        Key::Esc => (s, Action::Stay, Control::Quit),
        Key::Left => (step_spec(s, Event::Left).0, step_spec(s, Event::Left).1, Control::Continue),
        Key::Right => (step_spec(s, Event::Right).0, step_spec(s, Event::Right).1, Control::Continue),
        Key::Up => (step_spec(s, Event::Up).0, step_spec(s, Event::Up).1, Control::Continue),
        Key::Down => (step_spec(s, Event::Down).0, step_spec(s, Event::Down).1, Control::Continue),
        Key::Enter => (step_spec(s, Event::Right).0, step_spec(s, Event::Right).1, Control::Commit),
        Key::Char(c) => {
            let t = AppView { search: s.search.push(c), ..s };
            (step_spec(t, Event::Search).0, Action::Stay, Control::Continue)
        },
        Key::Backspace => {
            let t = AppView { search: if s.search.len() > 0 { s.search.drop_last() } else { s.search }, ..s };
            (step_spec(t, Event::Search).0, Action::Stay, Control::Continue)
        },
        Key::Other => (s, Action::Stay, Control::Continue),
    }
}

/// Entering the selected directory asks for a reload, moves into it, and
/// clears the query; once its listing `l` arrives, the cursor is on the first
/// entry, or there is no selection when the directory is empty.
pub proof fn lemma_enter_resets(s: AppView, l: Seq<EntryView>)
    requires
        state_inv(s),
        selected_dir(s) is Some,
    ensures
        step_spec(s, Event::Right).1 == Action::Reload,
        step_spec(s, Event::Right).0.path == s.path.push(selected_dir(s)->0),
        step_spec(s, Event::Right).0.search == Seq::<char>::empty(),
        load_spec(step_spec(s, Event::Right).0, l).search == Seq::<char>::empty(),
        load_spec(step_spec(s, Event::Right).0, l).files.len() == l.len(),
        load_spec(step_spec(s, Event::Right).0, l).cursor == (if l.len() > 0 { Some(0usize) } else { None }),
{
    lemma_empty_query_keeps_all(l);
}

/// Leaving for the parent directory asks for a reload, drops the last path
/// component, and clears the query; once the parent's listing `l` arrives, the
/// cursor is on the first entry, or there is no selection when it is empty.
pub proof fn lemma_leave_resets(s: AppView, l: Seq<EntryView>)
    requires
        state_inv(s),
        s.path.len() > 0,
    ensures
        step_spec(s, Event::Left).1 == Action::Reload,
        step_spec(s, Event::Left).0.path == s.path.drop_last(),
        step_spec(s, Event::Left).0.search == Seq::<char>::empty(),
        load_spec(step_spec(s, Event::Left).0, l).search == Seq::<char>::empty(),
        load_spec(step_spec(s, Event::Left).0, l).files.len() == l.len(),
        load_spec(step_spec(s, Event::Left).0, l).cursor == (if l.len() > 0 { Some(0usize) } else { None }),
{
    lemma_empty_query_keeps_all(l);
}

/// Every transition, and every arrival of a listing, keeps the state's invariant.
pub proof fn lemma_transitions_keep_inv(s: AppView, e: Event, l: Seq<EntryView>)
    requires
        state_inv(s),
    ensures
        state_inv(step_spec(s, e).0),
        state_inv(load_spec(s, l)),
{
    lemma_moves_stay_valid(s.cursor, s.files.len());
    lemma_clamp_valid(s.cursor, filter_spec(s.listing, s.search).len());
    lemma_clamp_valid(None, filter_spec(l, s.applied).len());
    assert(filter_spec(Seq::<EntryView>::empty(), Seq::<char>::empty()) =~= Seq::<VisibleView>::empty());
}

/// Relies on `String::push`: appends `c` to `s`.
#[verifier::external_body]
fn push_char(s: &mut String, c: char)
    ensures
        final(s)@ == old(s)@.push(c),
{
    s.push(c)
}

impl App {
    /// The navigator's invariant.
    pub open spec fn wf(&self) -> bool {
        state_inv(self@)
    }

    /// A navigator at directory `path` (its components from the root) whose
    /// listing is `listing`, with an empty query.
    pub fn new(path: Vec<String>, listing: Vec<Entry>) -> (r: App)
        ensures
            r.wf(),
            r@ == load_spec(fresh_at(names_view(path@)), entries_view(listing@)),
    {
        let mut app = App {
            path,
            listing: Vec::new(),
            files: Vec::new(),
            applied: String::new(),
            cursor: None,
            search: String::new(),
            search_mode: false,
        };
        assert(visible_view(app.files@) =~= filter_spec(entries_view(app.listing@), app.applied@));
        app.load(listing);
        app
    }

    /// Hands in the listing of the current directory (empty where it could not be
    /// read): the visible sequence is recomputed and the cursor goes to its first entry.
    pub fn load(&mut self, listing: Vec<Entry>)
        requires
            old(self).wf(),
        ensures
            final(self).wf(),
            final(self)@ == load_spec(old(self)@, entries_view(listing@)),
    {
        let files = filter(&listing, self.applied.as_str());
        self.listing = listing;
        self.files = files;
        self.cursor = clamp(None, self.files.len());
    }

    fn move_to(&mut self, path: Vec<String>)
        ensures
            final(self)@ == moved_to(old(self)@, names_view(path@)),
            final(self).wf(),
    {
        self.path = path;
        self.listing = Vec::new();
        self.files = Vec::new();
        self.applied = String::new();
        self.search = String::new();
        self.cursor = None;
        assert(entries_view(self.listing@) =~= Seq::empty());
        assert(visible_view(self.files@) =~= Seq::empty());
    }

    /// Applies `e` as the navigation table says; `Action::Reload` tells the
    /// caller to read the new current directory and call `load`.
    pub fn update(&mut self, e: Event) -> (r: Action)
        requires
            old(self).wf(),
        ensures
            final(self).wf(),
            (final(self)@, r) == step_spec(old(self)@, e),
    {
        match e {
            Event::Down => {
                self.cursor = down(self.cursor, self.files.len());
                Action::Stay
            },
            Event::Up => {
                self.cursor = up(self.cursor);
                Action::Stay
            },
            Event::Search => {
                self.applied = self.search.clone();
                self.files = filter(&self.listing, self.search.as_str());
                self.cursor = clamp(self.cursor, self.files.len());
                Action::Stay
            },
            Event::Right => {
                match self.cursor {
                    Some(i) => {
                        proof {
                            lemma_filter_subsequence(self@.listing, self@.applied);
                            assert(self@.files[i as int] == self.files@[i as int]@);
                            assert(self@.files[i as int].source_index < self@.listing.len());
                        }
                        let src = self.files[i].source_index;
                        if self.listing[src].is_dir {
                            let mut p = self.path.clone();
                            assert(names_view(p@) == names_view(self.path@)) by {
                                assert(p@ =~= self.path@);
                            }
                            p.push(self.files[i].name.clone());
                            assert(names_view(p@) =~= old(self)@.path.push(self.files@[i as int].name@));
                            self.move_to(p);
                            Action::Reload
                        } else {
                            Action::Stay
                        }
                    },
                    None => Action::Stay,
                }
            },
            Event::Left => {
                if self.path.len() > 0 {
                    let mut p = self.path.clone();
                    assert(p@ =~= self.path@);
                    p.pop();
                    assert(names_view(p@) =~= old(self)@.path.drop_last());
                    self.move_to(p);
                    Action::Reload
                } else {
                    Action::Stay
                }
            },
        }
    }

    /// Handles one key press: arrows navigate, a character extends the query and
    /// a backspace shortens it (then the visible sequence is recomputed), `Esc`
    /// cancels, and `Enter` enters the selection and ends the loop on the
    /// resulting current directory.
    pub fn handle_key(&mut self, key: Key) -> (r: (Action, Control))
        requires
            old(self).wf(),
        ensures
            final(self).wf(),
            (final(self)@, r.0, r.1) == key_spec(old(self)@, key),
    {
        match key {
            Key::Esc => (Action::Stay, Control::Quit),
            Key::Left => (self.update(Event::Left), Control::Continue),
            Key::Right => (self.update(Event::Right), Control::Continue),
            Key::Up => (self.update(Event::Up), Control::Continue),
            Key::Down => (self.update(Event::Down), Control::Continue),
            Key::Enter => (self.update(Event::Right), Control::Commit),
            Key::Char(c) => {
                push_char(&mut self.search, c);
                (self.update(Event::Search), Control::Continue)
            },
            Key::Backspace => {
                let n = self.search.as_str().unicode_len();
                if n > 0 {
                    let t = self.search.as_str().substring_char(0, n - 1).to_owned();
                    self.search = t;
                }
                (self.update(Event::Search), Control::Continue)
            },
            Key::Other => (Action::Stay, Control::Continue),
        }
    }

    /// The visible sequence, for rendering.
    pub fn get_files(&self) -> (r: &Vec<VisibleEntry>)
        ensures
            visible_view(r@) == self@.files,
    {
        &self.files
    }

    /// The current directory, as its components from the root.
    pub fn get_current_dir(&self) -> (r: &Vec<String>)
        ensures
            names_view(r@) == self@.path,
    {
        &self.path
    }

    /// The index of the selected entry in the visible sequence, if any.
    pub fn selected(&self) -> (r: Option<usize>)
        ensures
            r == self@.cursor,
    {
        self.cursor
    }
}

} // verus!
