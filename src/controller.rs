use vstd::prelude::*;
use crate::config::Config;
use crate::fuzzy::{filter_result, lemma_filter_indices_distinct, identity, FuzzyMatcher, MAX_QUERY_CHARS};
use crate::markup::{decode_markup, decodes_to, StyledLine};
use crate::repository::ChangedFile;
use vstd::string::StrSliceExecFns;

verus! {

/// Relies on `String::push`: the character is appended.
pub assume_specification[ String::push ](s: &mut String, ch: char)
    ensures
        final(s)@ == old(s)@.push(ch),
;

/// Relies on `String::pop`: the last character, if any, is removed and returned.
pub assume_specification[ String::pop ](s: &mut String) -> (r: Option<char>)
    ensures
        old(s)@.len() == 0 ==> r is None && final(s)@ == old(s)@,
        old(s)@.len() > 0 ==> r == Some(old(s)@.last()) && final(s)@ == old(s)@.drop_last(),
;

/// The screen on show.
#[derive(Debug, Clone, Copy, PartialEq, Eq, Structural)]
pub enum Screen {
    FileList,
    DiffView,
}

/// A key press, as the controller reads it.
#[derive(Debug, Clone, Copy, PartialEq, Eq, Structural)]
pub enum Key {
    Char(char),
    Enter,
    Esc,
    Backspace,
    Up,
    Down,
    PageUp,
    PageDown,
    Home,
    End,
    Other,
}

/// Lines moved by one page of scrolling.
pub const PAGE: usize = 20;

/// The largest scroll offset for `n` lines.
pub open spec fn max_scroll(n: nat) -> nat {
    if n == 0 {
        0
    } else {
        (n - 1) as nat
    }
}

/// The selection after moving down in a list of `n` entries.
pub open spec fn next_selection(sel: Option<usize>, n: nat) -> Option<usize> {
    if n == 0 {
        sel
    } else {
        match sel {
            Some(i) => Some(if i + 1 < n { (i + 1) as usize } else { (n - 1) as usize }),
            None => Some(0),
        }
    }
}

/// The selection after moving up in a list of `n` entries.
pub open spec fn previous_selection(sel: Option<usize>, n: nat) -> Option<usize> {
    if n == 0 {
        sel
    } else {
        match sel {
            Some(i) => Some(if i > 0 { (i - 1) as usize } else { 0 }),
            None => Some(0),
        }
    }
}

/// The selection that goes with a freshly filtered list of `n` entries.
pub open spec fn fresh_selection(n: nat) -> Option<usize> {
    if n > 0 {
        Some(0)
    } else {
        None
    }
}

/// The scroll offset after `key` on the diff screen, over `n` lines.
pub open spec fn scrolled(key: Key, scroll: nat, n: nat) -> nat {
    match key {
        Key::Char('j') | Key::Down => if scroll + 1 <= max_scroll(n) { scroll + 1 } else { max_scroll(n) },
        Key::Char('k') | Key::Up => if scroll >= 1 { (scroll - 1) as nat } else { 0 },
        Key::Char('d') | Key::PageDown => if scroll + PAGE <= max_scroll(n) { (scroll + PAGE) as nat } else { max_scroll(n) },
        Key::Char('u') | Key::PageUp => if scroll >= PAGE { (scroll - PAGE) as nat } else { 0 },
        Key::Char('g') | Key::Home => 0,
        Key::Char('G') | Key::End => max_scroll(n),
        Key::Char('q') | Key::Esc => 0,
        _ => scroll,
    }
}

/// Moving down from the last entry, or up from the first, keeps the cursor
/// where it is; a freshly filtered non-empty list selects its first entry.
pub proof fn lemma_selection_clamp(n: nat)
    requires
        0 < n <= usize::MAX,
    ensures
        next_selection(Some((n - 1) as usize), n) == Some((n - 1) as usize),
        previous_selection(Some(0), n) == Some(0usize),
        fresh_selection(n) == Some(0usize),
        forall|i: usize| i < n ==> ((#[trigger] next_selection(Some(i), n)) matches Some(j) && j < n),
        forall|i: usize| i < n ==> ((#[trigger] previous_selection(Some(i), n)) matches Some(j) && j < n),
{
}

/// No key on the diff screen scrolls past the last line of a buffer of `n`
/// lines (nor before the first: offsets are natural numbers).
pub proof fn lemma_scroll_clamp(key: Key, scroll: nat, n: nat)
    requires
        scroll <= max_scroll(n),
    ensures
        scrolled(key, scroll, n) <= max_scroll(n),
{
}

/// The key leaves the diff screen.
pub open spec fn is_back(key: Key) -> bool {
    key == Key::Char('q') || key == Key::Esc
}

/// What a key does on the file list, from state `a` to state `b`, with
/// `open` the file to open, if any. While searching, text edits the query and
/// filters anew, `Esc` clears it, `Enter` leaves the search and opens the
/// file under the cursor; otherwise `q` quits, `/` starts a search with an
/// empty query and `Enter` opens. The arrows (and `j`/`k` outside a search)
/// move the cursor. A query holds at most `MAX_QUERY_CHARS` characters:
/// text past that is ignored. The diff buffer and the settings are never
/// touched.
pub open spec fn file_list_step(a: App, key: Key, b: App, open: Option<usize>) -> bool {
    &&& b.diff_kept(a)
    &&& b.config == a.config
    &&& (!a.search_mode ==> b.fuzzy_matcher == a.fuzzy_matcher)
    &&& b.files@ == a.files@
    &&& b.file_paths@ == a.file_paths@
    &&& (a.search_mode ==> b.running == a.running)
    &&& (a.search_mode ==> match key {
        Key::Esc => !b.search_mode && b.search_query@.len() == 0 && b.refiltered(a) && open is None,
        Key::Enter => !b.search_mode && b.list_kept(a) && b.selected == a.selected
            && open == a.open_target_spec(),
        Key::Backspace => b.search_mode && b.search_query@ == (if a.search_query@.len() > 0 {
            a.search_query@.drop_last()
        } else {
            a.search_query@
        }) && b.refiltered(a) && open is None,
        Key::Char(c) => b.search_mode && open is None && if a.search_query@.len() < MAX_QUERY_CHARS {
            b.search_query@ == a.search_query@.push(c) && b.refiltered(a)
        } else {
            b.list_kept(a) && b.selected == a.selected
        },
        Key::Down => b.search_mode && b.list_kept(a)
            && b.selected == next_selection(a.selected, a.filtered_indices@.len()) && open is None,
        Key::Up => b.search_mode && b.list_kept(a)
            && b.selected == previous_selection(a.selected, a.filtered_indices@.len()) && open is None,
        _ => b.search_mode && b.list_kept(a) && b.selected == a.selected && open is None,
    })
    &&& (!a.search_mode ==> b.filtered_indices@ == a.filtered_indices@)
    &&& (!a.search_mode && key != Key::Char('/') ==> b.search_query@ == a.search_query@)
    &&& (!a.search_mode && key != Key::Char('q') ==> b.running == a.running)
    &&& (!a.search_mode ==> match key {
        Key::Char('q') => !b.running && b.selected == a.selected && !b.search_mode && open is None,
        Key::Char('j') | Key::Down => !b.search_mode
            && b.selected == next_selection(a.selected, a.filtered_indices@.len()) && open is None,
        Key::Char('k') | Key::Up => !b.search_mode
            && b.selected == previous_selection(a.selected, a.filtered_indices@.len()) && open is None,
        Key::Char('/') => b.search_mode && b.search_query@.len() == 0 && b.selected == a.selected
            && open is None,
        Key::Enter => !b.search_mode && b.selected == a.selected && open == a.open_target_spec(),
        _ => !b.search_mode && b.selected == a.selected && open is None,
    })
}

/// What a key does on the diff screen, from state `a` to state `b`: it
/// scrolls within the diff, or goes back to the file list; nothing else
/// changes.
pub open spec fn diff_view_step(a: App, key: Key, b: App) -> bool {
    &&& b.diff_scroll == scrolled(key, a.diff_scroll as nat, a.diff_lines@.len())
    &&& b.screen == (if is_back(key) { Screen::FileList } else { a.screen })
    &&& b.diff_lines@ == a.diff_lines@
    &&& b.diff_content@ == a.diff_content@
    &&& b.selected_file == a.selected_file
    &&& b.list_kept(a)
    &&& b.selected == a.selected
    &&& b.search_mode == a.search_mode
    &&& b.running == a.running
    &&& b.config == a.config
}

/// The interactive state of a session.
pub struct App {
    pub running: bool,
    pub screen: Screen,
    pub files: Vec<ChangedFile>,
    pub file_paths: Vec<String>,
    /// Indices into `files` of the entries shown, in order.
    pub filtered_indices: Vec<usize>,
    /// Cursor into `filtered_indices`.
    pub selected: Option<usize>,
    pub search_mode: bool,
    pub search_query: String,
    pub fuzzy_matcher: FuzzyMatcher,
    pub diff_content: Vec<u8>,
    pub diff_lines: Vec<StyledLine>,
    pub diff_scroll: usize,
    pub selected_file: Option<String>,
    pub config: Config,
}

impl App {
    /// The state is consistent: paths mirror the files, the shown indices are
    /// valid and distinct, the selection points into them, and the scroll
    /// offset stays within the diff.
    pub open spec fn wf(&self) -> bool {
        &&& self.file_paths@.len() == self.files@.len()
        &&& forall|i: int| 0 <= i < self.files@.len() ==> (#[trigger] self.file_paths@[i])@ == self.files@[i].path@
        &&& forall|k: int| 0 <= k < self.filtered_indices@.len() ==> #[trigger] self.filtered_indices@[k] < self.files@.len()
        &&& forall|j: int, k: int|
            0 <= j < k < self.filtered_indices@.len() ==> #[trigger] self.filtered_indices@[j] != #[trigger] self.filtered_indices@[k]
        &&& (self.selected is None <==> self.filtered_indices@.len() == 0)
        &&& (self.selected matches Some(i) ==> i < self.filtered_indices@.len())
        &&& self.diff_scroll <= max_scroll(self.diff_lines@.len())
        &&& self.search_query@.len() <= MAX_QUERY_CHARS
    }

    /// The file that opening would show: the one under the cursor.
    pub open spec fn open_target_spec(&self) -> Option<usize> {
        match self.selected {
            Some(i) => Some(self.filtered_indices@[i as int]),
            None => None,
        }
    }

    /// The list, its filter and the search are as they were.
    pub open spec fn list_kept(&self, old: App) -> bool {
        &&& self.files@ == old.files@
        &&& self.file_paths@ == old.file_paths@
        &&& self.filtered_indices@ == old.filtered_indices@
        &&& self.search_query@ == old.search_query@
        &&& self.fuzzy_matcher == old.fuzzy_matcher
    }

    /// The diff buffer and the screen are as they were.
    pub open spec fn diff_kept(&self, old: App) -> bool {
        &&& self.screen == old.screen
        &&& self.diff_content@ == old.diff_content@
        &&& self.diff_lines@ == old.diff_lines@
        &&& self.diff_scroll == old.diff_scroll
        &&& self.selected_file == old.selected_file
    }

    /// The list was filtered anew with the current query.
    pub open spec fn refiltered(&self, old: App) -> bool {
        &&& self.files@ == old.files@
        &&& self.file_paths@ == old.file_paths@
        &&& filter_result(self.file_paths@, self.search_query@, self.filtered_indices@)
        &&& self.selected == fresh_selection(self.filtered_indices@.len())
    }

    /// A session over `files`, every file shown, the first one selected.
    pub fn new(files: Vec<ChangedFile>, config: Config) -> (r: App)
        ensures
            r.wf(),
            r.running,
            r.screen == Screen::FileList,
            r.files@ == files@,
            r.filtered_indices@ == identity(files@.len()),
            r.selected == fresh_selection(files@.len()),
            !r.search_mode,
            r.search_query@.len() == 0,
            r.diff_lines@.len() == 0,
            r.diff_scroll == 0,
            r.selected_file is None,
            r.config == config,
    {
        let mut file_paths: Vec<String> = Vec::new();
        let mut filtered_indices: Vec<usize> = Vec::new();
        let mut i: usize = 0;
        while i < files.len()
            invariant
                i <= files@.len(),
                file_paths@.len() == i,
                forall|k: int| 0 <= k < i ==> (#[trigger] file_paths@[k])@ == files@[k].path@,
                filtered_indices@ == identity(i as nat),
            decreases files@.len() - i,
        {
            file_paths.push(files[i].path.clone());
            filtered_indices.push(i);
            i += 1;
            assert(filtered_indices@ =~= identity(i as nat));
        }
        let selected = if files.len() > 0 {
            Some(0)
        } else {
            None
        };
        App {
            running: true,
            screen: Screen::FileList,
            files,
            file_paths,
            filtered_indices,
            selected,
            search_mode: false,
            search_query: String::new(),
            fuzzy_matcher: FuzzyMatcher::new(),
            diff_content: Vec::new(),
            diff_lines: Vec::new(),
            diff_scroll: 0,
            selected_file: None,
            config,
        }
    }

    /// Moves the cursor one entry down, stopping at the last.
    pub fn select_next(&mut self)
        requires
            old(self).wf(),
        ensures
            final(self).wf(),
            final(self).selected == next_selection(old(self).selected, old(self).filtered_indices@.len()),
            final(self).list_kept(*old(self)),
            final(self).diff_kept(*old(self)),
            final(self).search_mode == old(self).search_mode,
            final(self).running == old(self).running,
            final(self).config == old(self).config,
    {
        if self.filtered_indices.is_empty() {
            return;
        }
        let i = match self.selected {
            Some(i) => if i < self.filtered_indices.len() - 1 {
                i + 1
            } else {
                self.filtered_indices.len() - 1
            },
            None => 0,
        };
        self.selected = Some(i);
    }

    /// Moves the cursor one entry up, stopping at the first.
    pub fn select_previous(&mut self)
        requires
            old(self).wf(),
        ensures
            final(self).wf(),
            final(self).selected == previous_selection(old(self).selected, old(self).filtered_indices@.len()),
            final(self).list_kept(*old(self)),
            final(self).diff_kept(*old(self)),
            final(self).search_mode == old(self).search_mode,
            final(self).running == old(self).running,
            final(self).config == old(self).config,
    {
        if self.filtered_indices.is_empty() {
            return;
        }
        let i = match self.selected {
            Some(i) => if i > 0 {
                i - 1
            } else {
                0
            },
            None => 0,
        };
        self.selected = Some(i);
    }

    /// Filters the list anew with the current query; the cursor goes to the
    /// first entry, or nowhere when nothing matches.
    pub fn update_filter(&mut self)
        requires
            old(self).wf(),
        ensures
            final(self).wf(),
            final(self).refiltered(*old(self)),
            final(self).search_query@ == old(self).search_query@,
            final(self).diff_kept(*old(self)),
            final(self).search_mode == old(self).search_mode,
            final(self).running == old(self).running,
            final(self).config == old(self).config,
    {
        // The length of a vector fits in `usize`, as the lemma below needs.
        let _count = self.file_paths.len();
        self.filtered_indices = self.fuzzy_matcher.filter(self.file_paths.as_slice(), self.search_query.as_str());
        proof {
            lemma_filter_indices_distinct(self.file_paths@, self.search_query@, self.filtered_indices@);
        }
        if !self.filtered_indices.is_empty() {
            self.selected = Some(0);
        } else {
            self.selected = None;
        }
    }

    /// The file under the cursor, if any.
    pub fn open_target(&self) -> (r: Option<usize>)
        requires
            self.wf(),
        ensures
            r == self.open_target_spec(),
            r matches Some(f) ==> f < self.files@.len(),
    {
        match self.selected {
            Some(i) => Some(self.filtered_indices[i]),
            None => None,
        }
    }

    /// Shows `content`, the diff of file `file_index`, from its first line.
    pub fn open_diff(&mut self, file_index: usize, content: Vec<u8>)
        requires
            old(self).wf(),
            file_index < old(self).files@.len(),
        ensures
            final(self).wf(),
            final(self).screen == Screen::DiffView,
            final(self).selected_file matches Some(p) && p@ == old(self).files@[file_index as int].path@,
            final(self).diff_content@ == content@,
            decodes_to(content@, final(self).diff_lines@),
            content@.len() > 0 ==> final(self).diff_lines@.len() >= 1,
            final(self).diff_scroll == 0,
            final(self).list_kept(*old(self)),
            final(self).selected == old(self).selected,
            final(self).search_mode == old(self).search_mode,
            final(self).running == old(self).running,
            final(self).config == old(self).config,
    {
        self.selected_file = Some(self.files[file_index].path.clone());
        self.diff_lines = decode_markup(content.as_slice());
        self.diff_content = content;
        self.diff_scroll = 0;
        self.screen = Screen::DiffView;
    }

    /// Handles a key on the file list. Returns the file to open, when the key
    /// asks for one; the caller fetches its diff and hands it to `open_diff`.
    pub fn handle_file_list_keys(&mut self, key: Key) -> (open: Option<usize>)
        requires
            old(self).wf(),
        ensures
            final(self).wf(),
            open matches Some(f) ==> f < final(self).files@.len(),
            file_list_step(*old(self), key, *final(self), open),
    {
        if self.search_mode {
            match key {
                Key::Esc => {
                    self.search_mode = false;
                    self.search_query = String::new();
                    self.update_filter();
                    None
                },
                Key::Enter => {
                    self.search_mode = false;
                    if !self.filtered_indices.is_empty() {
                        self.open_target()
                    } else {
                        None
                    }
                },
                Key::Backspace => {
                    self.search_query.pop();
                    self.update_filter();
                    None
                },
                Key::Char(c) => {
                    if self.search_query.as_str().unicode_len() < MAX_QUERY_CHARS {
                        self.search_query.push(c);
                        self.update_filter();
                    }
                    None
                },
                Key::Down => {
                    self.select_next();
                    None
                },
                Key::Up => {
                    self.select_previous();
                    None
                },
                _ => None,
            }
        } else {
            match key {
                Key::Char('q') => {
                    self.running = false;
                    None
                },
                Key::Char('j') | Key::Down => {
                    self.select_next();
                    None
                },
                Key::Char('k') | Key::Up => {
                    self.select_previous();
                    None
                },
                Key::Char('/') => {
                    self.search_mode = true;
                    self.search_query = String::new();
                    None
                },
                Key::Enter => self.open_target(),
                _ => None,
            }
        }
    }

    /// Handles a key on the diff screen: scrolling, clamped to the diff, or
    /// going back to the file list.
    pub fn handle_diff_view_keys(&mut self, key: Key)
        requires
            old(self).wf(),
        ensures
            final(self).wf(),
            diff_view_step(*old(self), key, *final(self)),
    {
        let max: usize = if self.diff_lines.len() > 0 {
            self.diff_lines.len() - 1
        } else {
            0
        };
        match key {
            Key::Char('q') | Key::Esc => {
                self.screen = Screen::FileList;
                self.diff_scroll = 0;
            },
            Key::Char('j') | Key::Down => {
                self.diff_scroll = if self.diff_scroll < max {
                    self.diff_scroll + 1
                } else {
                    max
                };
            },
            Key::Char('k') | Key::Up => {
                self.diff_scroll = if self.diff_scroll >= 1 {
                    self.diff_scroll - 1
                } else {
                    0
                };
            },
            Key::Char('d') | Key::PageDown => {
                self.diff_scroll = if max - self.diff_scroll >= PAGE {
                    self.diff_scroll + PAGE
                } else {
                    max
                };
            },
            Key::Char('u') | Key::PageUp => {
                self.diff_scroll = if self.diff_scroll >= PAGE {
                    self.diff_scroll - PAGE
                } else {
                    0
                };
            },
            Key::Char('g') | Key::Home => {
                self.diff_scroll = 0;
            },
            Key::Char('G') | Key::End => {
                self.diff_scroll = max;
            },
            _ => {},
        }
    }

    /// The lines of the diff that fit in `height` rows from the scroll
    /// offset: the range `start..end`.
    pub fn visible_range(&self, height: usize) -> (r: (usize, usize))
        requires
            self.wf(),
        ensures
            r.0 == self.diff_scroll,
            r.1 == (if self.diff_scroll + height <= self.diff_lines@.len() {
                self.diff_scroll + height
            } else if self.diff_scroll <= self.diff_lines@.len() {
                self.diff_lines@.len() as int
            } else {
                self.diff_scroll as int
            }),
    {
        let n = self.diff_lines.len();
        let end = if self.diff_scroll > n {
            self.diff_scroll
        } else if n - self.diff_scroll >= height {
            self.diff_scroll + height
        } else {
            n
        };
        (self.diff_scroll, end)
    }

    /// The number of the first line on show, counted from one (zero when
    /// there is none), and the number of lines.
    pub fn line_position(&self) -> (r: (usize, usize))
        requires
            self.wf(),
        ensures
            r.1 == self.diff_lines@.len(),
            r.0 == (if self.diff_lines@.len() == 0 { 0 } else { self.diff_scroll + 1 }),
            r.0 <= r.1,
    {
        let n = self.diff_lines.len();
        let current = if n == 0 {
            0
        } else {
            self.diff_scroll + 1
        };
        (current, n)
    }

    /// Routes a key to the screen on show. Returns the file to open, when the
    /// key asks for one.
    pub fn handle_key(&mut self, key: Key) -> (open: Option<usize>)
        requires
            old(self).wf(),
        ensures
            final(self).wf(),
            open matches Some(f) ==> f < final(self).files@.len(),
            old(self).screen == Screen::DiffView ==> open is None && diff_view_step(*old(self), key, *final(self)),
            old(self).screen == Screen::FileList ==> file_list_step(*old(self), key, *final(self), open),
    {
        match self.screen {
            Screen::FileList => self.handle_file_list_keys(key),
            Screen::DiffView => {
                self.handle_diff_view_keys(key);
                None
            },
        }
    }
}

} // verus!
