//! What the launcher searches, shows and runs for desktop entries and files.

use vstd::prelude::*;
use crate::channel::{searches_queued, try_send_search};
use crate::text::{chars_of, push_char, push_str};

verus! {

/// `parts` joined by single spaces.
pub open spec fn spaced(parts: Seq<Seq<char>>) -> Seq<char>
    decreases parts.len(),
{
    if parts.len() == 0 {
        Seq::empty()
    } else if parts.len() == 1 {
        parts[0]
    } else {
        spaced(parts.drop_last()) + seq![' '] + parts.last()
    }
}

/// The strings `parts` joined by single spaces.
pub fn join_spaced(parts: &Vec<&str>) -> (s: String)
    ensures
        s@ == spaced(parts@.map_values(|p: &str| p@)),
{
    let ghost views = parts@.map_values(|p: &str| p@);
    let mut s = String::new();
    let mut i: usize = 0;
    while i < parts.len()
        invariant
            i <= parts.len(),
            views == parts@.map_values(|p: &str| p@),
            s@ == spaced(views.take(i as int)),
        decreases parts.len() - i,
    {
        assert(views.take(i + 1).drop_last() =~= views.take(i as int));
        if i > 0 {
            push_char(&mut s, ' ');
        }
        push_str(&mut s, parts[i]);
        i = i + 1;
        proof {
            if i == 1 {
                assert(s@ =~= spaced(views.take(i as int)));
            } else {
                assert(s@ =~= spaced(views.take(i as int)));
            }
        }
    }
    assert(views.take(parts.len() as int) =~= views);
    s
}

/// The text a desktop entry is found by in the search: its name, comment
/// and generic name, with a space between each (missing ones are empty).
pub fn desktop_entry_search_text(name: &str, comment: &str, generic_name: &str) -> (s: String)
    ensures
        s@ == name@ + seq![' '] + comment@ + seq![' '] + generic_name@,
{
    let parts = vec![name, comment, generic_name];
    let s = join_spaced(&parts);
    proof {
        let v = parts@.map_values(|p: &str| p@);
        assert(v =~= seq![name@, comment@, generic_name@]);
        assert(v.drop_last().drop_last() =~= seq![name@]);
        assert(v.drop_last() =~= seq![name@, comment@]);
        assert(spaced(seq![name@]) == name@);
        assert(spaced(v.drop_last()) == name@ + seq![' '] + comment@);
        assert(spaced(v) == spaced(v.drop_last()) + seq![' '] + generic_name@);
        assert(s@ =~= name@ + seq![' '] + comment@ + seq![' '] + generic_name@);
    }
    s
}

/// The text a desktop entry is matched on in the launcher: its name,
/// comment, generic name and command line, with a space between each.
pub fn desktop_entry_matcher_column(name: &str, comment: &str, generic_name: &str, exec: &str) -> (s:
    String)
    ensures
        s@ == name@ + seq![' '] + comment@ + seq![' '] + generic_name@ + seq![' '] + exec@,
{
    let parts = vec![name, comment, generic_name, exec];
    let s = join_spaced(&parts);
    proof {
        let v = parts@.map_values(|p: &str| p@);
        assert(v =~= seq![name@, comment@, generic_name@, exec@]);
        assert(v.drop_last().drop_last().drop_last() =~= seq![name@]);
        assert(v.drop_last().drop_last() =~= seq![name@, comment@]);
        assert(v.drop_last() =~= seq![name@, comment@, generic_name@]);
        assert(spaced(seq![name@]) == name@);
        assert(spaced(v.drop_last().drop_last()) == name@ + seq![' '] + comment@);
        assert(spaced(v.drop_last()) == spaced(v.drop_last().drop_last()) + seq![' ']
            + generic_name@);
        assert(spaced(v) == spaced(v.drop_last()) + seq![' '] + exec@);
        assert(s@ =~= name@ + seq![' '] + comment@ + seq![' '] + generic_name@ + seq![' '] + exec@);
    }
    s
}

/// The MIME type (`type/subtype`) guessed from a path's extension.
pub uninterp spec fn guessed_mime(path: Seq<char>) -> Option<Seq<char>>;

/// The first MIME type guessed for `path` from its extension, as
/// `type/subtype`.
///
/// Trusted: `mime_guess::from_path` and `MimeGuess::first` of the
/// `mime_guess` crate, with `Mime::essence_str` of the `mime` crate. The guess
/// is looked up in a fixed table from the path's extension, without reading
/// the file, so it depends on the path alone; it is named [`guessed_mime`].
#[verifier::external_body]
fn mime_of_path(path: &str) -> (mime: Option<String>)
    ensures
        match mime {
            Some(m) => guessed_mime(path@) == Some(m@),
            None => guessed_mime(path@) is None,
        },
{
    mime_guess::from_path(path).first().map(|m| m.essence_str().to_string())
}

/// `s` with every `/` turned into `-`.
pub open spec fn dashed(s: Seq<char>) -> Seq<char> {
    s.map_values(|c: char| if c == '/' { '-' } else { c })
}

/// The icon name for a MIME type: `type-subtype`.
pub fn mime_icon_name(mime: &str) -> (name: String)
    ensures
        name@ == dashed(mime@),
{
    let cs = chars_of(mime);
    let mut name = String::new();
    let mut i: usize = 0;
    while i < cs.len()
        invariant
            i <= cs.len(),
            cs@ == mime@,
            name@ == dashed(cs@.take(i as int)),
        decreases cs.len() - i,
    {
        let c = if cs[i] == '/' { '-' } else { cs[i] };
        push_char(&mut name, c);
        i = i + 1;
        assert(name@ =~= dashed(cs@.take(i as int)));
    }
    assert(cs@.take(cs.len() as int) =~= cs@);
    name
}

/// The icon a file is shown with: the icon of its guessed MIME type, or a
/// blank document.
pub open spec fn spec_file_icon_name(path: Seq<char>) -> Seq<char> {
    match guessed_mime(path) {
        Some(m) => dashed(m),
        None => "application-blank"@,
    }
}

/// The icon for a guessed MIME type, or a blank document if there is none.
pub fn icon_name_for_mime(mime: Option<&str>) -> (name: String)
    ensures
        name@ == match mime {
            Some(m) => dashed(m@),
            None => "application-blank"@,
        },
{
    match mime {
        Some(m) => mime_icon_name(m),
        None => String::from_str("application-blank"),
    }
}

/// The icon a file is shown with.
pub fn file_icon_name(path: &str) -> (name: String)
    ensures
        name@ == spec_file_icon_name(path@),
{
    match mime_of_path(path) {
        Some(m) => icon_name_for_mime(Some(m.as_str())),
        None => icon_name_for_mime(None),
    }
}

/// Whether a file name is hidden: it starts with a dot. A name that is not
/// valid Unicode is not.
pub fn is_hidden(file_name: Option<&str>) -> (hidden: bool)
    ensures
        hidden == (file_name matches Some(n) && n@.len() > 0 && n@[0] == '.'),
{
    match file_name {
        Some(n) => {
            let cs = chars_of(n);
            cs.len() > 0 && cs[0] == '.'
        },
        None => false,
    }
}

/// The program and the first arguments a desktop entry is started with: its
/// command line runs in a terminal for terminal applications, in a shell
/// otherwise.
pub fn launch_command(terminal: bool) -> (command: (&'static str, &'static str))
    ensures
        command.0@ == (if terminal { "wezterm"@ } else { "sh"@ }),
        command.1@ == (if terminal { "-e"@ } else { "-c"@ }),
{
    if terminal {
        ("wezterm", "-e")
    } else {
        ("sh", "-c")
    }
}

/// The name a search result is shown with: its name, else its generic name,
/// else nothing.
pub fn display_name(name: Option<String>, generic_name: Option<String>) -> (shown: String)
    ensures
        shown@ == match (name, generic_name) {
            (Some(n), _) => n@,
            (None, Some(g)) => g@,
            (None, None) => Seq::<char>::empty(),
        },
{
    match name {
        Some(n) => n,
        None => match generic_name {
            Some(g) => g,
            None => String::new(),
        },
    }
}

/// The selection after moving up: one row up, but not above the first.
pub fn select_up(selected: usize) -> (r: usize)
    ensures
        r == if selected == 0 { 0 } else { selected - 1 },
{
    if selected == 0 { 0 } else { selected - 1 }
}

/// The selection after moving down: one row down, but not past one after the
/// last result.
pub fn select_down(selected: usize, results: usize) -> (r: usize)
    requires
        selected < usize::MAX,
    ensures
        r == if selected + 1 <= results { selected + 1 } else { results as int },
{
    if selected + 1 <= results { selected + 1 } else { results }
}

/// The most results the search sends at a time.
pub const MAX_RESULTS: u32 = 20;

/// How many of the matched items the search sends.
pub fn results_to_send(matched: u32) -> (n: u32)
    ensures
        n == if matched < MAX_RESULTS { matched } else { MAX_RESULTS },
{
    if matched < MAX_RESULTS { matched } else { MAX_RESULTS }
}

/// The search worker: it searches only once a pattern has been given.
#[derive(Debug, Clone, Copy, PartialEq, Eq)]
pub struct SearchWorker {
    pub initialized: bool,
}

impl SearchWorker {
    pub fn new() -> (w: SearchWorker)
        ensures
            !w.initialized,
    {
        SearchWorker { initialized: false }
    }

    /// A new pattern arrived.
    pub fn on_pattern(&mut self)
        ensures
            final(self).initialized,
    {
        self.initialized = true;
    }

    /// The matcher says it has news; whether to search now.
    pub fn on_notified(&self) -> (search: bool)
        ensures
            search == self.initialized,
    {
        self.initialized
    }
}

/// A message to the search worker.
#[derive(Debug, Clone)]
pub enum SearchMessage {
    /// Search for this pattern from now on.
    UpdatePattern(String),
}

/// The handle through which the launcher talks to the search worker.
#[derive(Debug)]
pub struct Searcher(pub futures::channel::mpsc::Sender<SearchMessage>);

impl Searcher {
    /// Queues `message` for the search worker, without waiting; whether it
    /// could be queued. A message that is not queued leaves the channel as
    /// it was.
    pub fn send(&mut self, message: SearchMessage) -> (queued: bool)
        ensures
            queued ==> searches_queued(final(self).0) == searches_queued(old(self).0).push(message),
            !queued ==> searches_queued(final(self).0) == searches_queued(old(self).0),
    {
        try_send_search(&mut self.0, message)
    }
}

/// A message to the launcher, whose entries are of type `E`.
pub enum LauncherMessage<E> {
    /// The search text changed.
    ContentChanged(String),
    /// The search worker started.
    SearcherStarted(Searcher),
    /// The search worker found these entries, best first.
    FoundResults(Vec<E>),
    /// Escape was released.
    RequestClose,
    /// This row of the results was selected.
    Select(usize),
    /// The search was submitted.
    OpenSelected,
}

/// What the launcher asks of the outside after a message, besides keeping
/// the focus on the search text.
#[derive(Debug, Clone, Copy, PartialEq, Eq, Structural)]
pub enum LauncherAction {
    Nothing,
    /// The new pattern went to the search worker, or could not be queued.
    PatternSent(bool),
    /// Hand the desktop entries and the files to the search worker.
    InjectProviders,
    /// Quit.
    Exit,
    /// Run this entry in place of the launcher.
    Open(usize),
}

/// The launcher's state: the search text, the search worker once it runs,
/// the entries found and the selected one.
pub struct LauncherState<E> {
    pub input: String,
    pub searcher: Option<Searcher>,
    pub entries: Vec<E>,
    pub selected: usize,
}

impl<E> LauncherState<E> {
    /// No search text, no worker yet, nothing found.
    pub fn new() -> (s: LauncherState<E>)
        ensures
            s.input@ == Seq::<char>::empty(),
            s.searcher is None,
            s.entries@ == Seq::<E>::empty(),
            s.selected == 0,
    {
        LauncherState { input: String::new(), searcher: None, entries: Vec::new(), selected: 0 }
    }

    /// Answers a message. Opening the selected entry needs one to be
    /// selected.
    pub fn update(&mut self, message: LauncherMessage<E>) -> (action: LauncherAction)
        requires
            message is OpenSelected ==> old(self).selected < old(self).entries@.len(),
        ensures
            match message {
                LauncherMessage::ContentChanged(c) => {
                    &&& final(self).input@ == c@
                    &&& (final(self).searcher is Some) == (old(self).searcher is Some)
                    &&& old(self).searcher is None ==> action == LauncherAction::Nothing
                    &&& old(self).searcher is Some ==> action is PatternSent
                    &&& old(self).searcher matches Some(s) ==> (final(self).searcher matches Some(f)
                        && (action == LauncherAction::PatternSent(true) ==> searches_queued(f.0)
                        == searches_queued(s.0).push(SearchMessage::UpdatePattern(c)))
                        && (action == LauncherAction::PatternSent(false) ==> searches_queued(f.0)
                        == searches_queued(s.0)))
                    &&& final(self).entries == old(self).entries
                    &&& final(self).selected == old(self).selected
                },
                LauncherMessage::SearcherStarted(w) => {
                    &&& final(self).searcher == Some(w)
                    &&& action == LauncherAction::InjectProviders
                    &&& final(self).input == old(self).input
                    &&& final(self).entries == old(self).entries
                    &&& final(self).selected == old(self).selected
                },
                LauncherMessage::FoundResults(results) => {
                    &&& final(self).entries == results
                    &&& action == LauncherAction::Nothing
                    &&& final(self).input == old(self).input
                    &&& final(self).searcher == old(self).searcher
                    &&& final(self).selected == old(self).selected
                },
                LauncherMessage::RequestClose => {
                    &&& action == LauncherAction::Exit
                    &&& *final(self) == *old(self)
                },
                LauncherMessage::Select(row) => {
                    &&& final(self).selected == row
                    &&& action == LauncherAction::Nothing
                    &&& final(self).input == old(self).input
                    &&& final(self).searcher == old(self).searcher
                    &&& final(self).entries == old(self).entries
                },
                LauncherMessage::OpenSelected => {
                    &&& action == LauncherAction::Open(old(self).selected)
                    &&& *final(self) == *old(self)
                },
            },
    {
        match message {
            LauncherMessage::ContentChanged(content) => {
                let pattern = content.clone();
                self.input = content;
                match &mut self.searcher {
                    Some(searcher) => {
                        let queued = searcher.send(SearchMessage::UpdatePattern(pattern));
                        LauncherAction::PatternSent(queued)
                    },
                    None => LauncherAction::Nothing,
                }
            },
            LauncherMessage::SearcherStarted(searcher) => {
                self.searcher = Some(searcher);
                LauncherAction::InjectProviders
            },
            LauncherMessage::FoundResults(results) => {
                self.entries = results;
                LauncherAction::Nothing
            },
            LauncherMessage::RequestClose => LauncherAction::Exit,
            LauncherMessage::Select(row) => {
                self.selected = row;
                LauncherAction::Nothing
            },
            LauncherMessage::OpenSelected => LauncherAction::Open(self.selected),
        }
    }
}

} // verus!
