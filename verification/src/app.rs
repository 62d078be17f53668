//! The state of the file browser and how it reacts to keys.

use std::path::PathBuf;
use vstd::prelude::*;

use crate::pe::{ImportModel, PeInfo, PeModel};
use crate::text::{decimal, push_decimal};

verus! {

/// Index of the last `.` in `name`, or -1 if it has none.
pub open spec fn last_dot(name: Seq<char>) -> int
    decreases name.len(),
{
    if name.len() == 0 {
        -1
    } else if name.last() == '.' {
        name.len() - 1
    } else {
        last_dot(name.drop_last())
    }
}

/// The extension of a file name, as `Path::extension` finds it: the text after
/// the last `.`, where that dot is not the name's first character; `..` has none.
pub open spec fn extension(name: Seq<char>) -> Option<Seq<char>> {
    if name == seq!['.', '.'] || last_dot(name) <= 0 {
        None
    } else {
        Some(name.subrange(last_dot(name) + 1, name.len() as int))
    }
}

/// `c` with ASCII upper-case letters made lower-case.
pub open spec fn ascii_lower(c: char) -> char {
    if 'A' <= c <= 'Z' {
        ((c as u32) + 32) as char
    } else {
        c
    }
}

/// A file of this name is shown as a PE file: its extension is `dll` or `exe`,
/// in any ASCII case.
pub open spec fn spec_is_pe(name: Seq<char>) -> bool {
    match extension(name) {
        Some(ext) => {
            let lower = ext.map_values(|c: char| ascii_lower(c));
            lower == seq!['d', 'l', 'l'] || lower == seq!['e', 'x', 'e']
        },
        None => false,
    }
}

fn lower_char(c: char) -> (r: char)
    ensures
        r == ascii_lower(c),
{
    if 'A' <= c && c <= 'Z' {
        ((c as u8) + 32) as char
    } else {
        c
    }
}

/// Whether a file of this name is a PE file (by its `.dll` or `.exe` extension).
pub fn is_pe(name: &str) -> (r: bool)
    ensures
        r == spec_is_pe(name@),
{
    let ghost s = name@;
    let n = name.unicode_len();
    let mut i = n;
    assert(s.take(n as int) =~= s);
    while i > 0 && name.get_char(i - 1) != '.'
        invariant
            i <= n == s.len(),
            s == name@,
            last_dot(s) == last_dot(s.take(i as int)),
        decreases i,
    {
        assert(s.take(i as int).drop_last() =~= s.take(i - 1));
        i = i - 1;
    }
    proof {
        if i > 0 {
            assert(s.take(i as int).last() == s[i - 1]);
        } else {
            assert(s.take(0) =~= Seq::<char>::empty());
        }
        assert(last_dot(s) == i - 1);
    }
    if i <= 1 {
        return false;
    }
    if n == 2 && name.get_char(0) == '.' && name.get_char(1) == '.' {
        assert(s =~= seq!['.', '.']);
        return false;
    }
    assert(s != seq!['.', '.']);
    if n - i != 3 {
        proof {
            let lower = s.subrange(i as int, n as int).map_values(|c: char| ascii_lower(c));
            assert(lower.len() != 3);
            assert(lower != seq!['d', 'l', 'l'] && lower != seq!['e', 'x', 'e']);
        }
        return false;
    }
    let a = lower_char(name.get_char(i));
    let b = lower_char(name.get_char(i + 1));
    let c = lower_char(name.get_char(i + 2));
    let ghost lower = s.subrange(i as int, n as int).map_values(|c: char| ascii_lower(c));
    assert(lower[0] == a && lower[1] == b && lower[2] == c);
    let r = (a == 'd' && b == 'l' && c == 'l') || (a == 'e' && b == 'x' && c == 'e');
    proof {
        if r {
            if a == 'd' {
                assert(lower =~= seq!['d', 'l', 'l']);
            } else {
                assert(lower =~= seq!['e', 'x', 'e']);
            }
        } else {
            if lower == seq!['d', 'l', 'l'] {
                assert(lower[0] == 'd');
            }
            if lower == seq!['e', 'x', 'e'] {
                assert(lower[0] == 'e');
            }
        }
    }
    r
}

/// The screen being shown.
#[derive(Clone, Copy, Debug, PartialEq, Eq)]
pub enum Screen {
    /// The directory listing.
    Explorer,
    /// The card of the opened PE file.
    Detail,
    /// The whole export or import table.
    FullList,
}

/// Which table the full-screen list shows.
#[derive(Clone, Copy, Debug, PartialEq, Eq)]
pub enum ListKind {
    Exports,
    Imports,
}

/// One line of the full-screen export/import list.
pub struct FullItem {
    pub text: String,
    /// A DLL's heading line, as opposed to one of its functions.
    pub header: bool,
}

impl DeepView for FullItem {
    type V = (Seq<char>, bool);

    open spec fn deep_view(&self) -> (Seq<char>, bool) {
        (self.text@, self.header)
    }
}

/// What a directory listing entry is.
#[derive(Clone, Copy, Debug, PartialEq, Eq)]
pub enum EntryKind {
    /// The `..` entry that leads to the parent directory.
    Parent,
    Dir,
    PeFile,
}

/// One entry of the directory listing.
pub struct Entry {
    pub name: String,
    pub path: PathBuf,
    pub kind: EntryKind,
}

/// The text `prefix`, the decimal `n`, then `suffix`.
pub open spec fn framed_number(prefix: Seq<char>, n: nat, suffix: Seq<char>) -> Seq<char> {
    prefix + decimal(n) + suffix
}

/// The title of the full export list.
pub open spec fn exports_title(count: nat) -> Seq<char> {
    framed_number("Экспорт — "@, count, " функций"@)
}

/// The title of the full import list: the number of DLLs and of functions.
pub open spec fn imports_title(dlls: nat, functions: nat) -> Seq<char> {
    framed_number("Импорт — "@, dlls, " DLL, "@) + decimal(functions) + " функций"@
}

/// The number of imported functions over all DLLs.
pub open spec fn function_total(imports: Seq<ImportModel>) -> nat
    decreases imports.len(),
{
    if imports.len() == 0 {
        0
    } else {
        function_total(imports.drop_last()) + imports.last().functions.len()
    }
}

/// The lines of the full export list: one per exported name.
pub open spec fn export_lines(exports: Seq<Seq<char>>) -> Seq<(Seq<char>, bool)> {
    exports.map_values(|name: Seq<char>| (name, false))
}

/// The lines of one DLL in the full import list: a heading with the DLL's name
/// and number of functions, then each function indented by four spaces.
pub open spec fn dll_lines(dll: ImportModel) -> Seq<(Seq<char>, bool)> {
    seq![(framed_number(dll.name + " ("@, dll.functions.len(), ")"@), true)]
        + dll.functions.map_values(|f: Seq<char>| ("    "@ + f, false))
}

/// The lines of the full import list, DLL after DLL.
pub open spec fn import_lines(imports: Seq<ImportModel>) -> Seq<(Seq<char>, bool)>
    decreases imports.len(),
{
    if imports.len() == 0 {
        Seq::empty()
    } else {
        import_lines(imports.drop_last()) + dll_lines(imports.last())
    }
}

/// The title and the lines of the full-screen list of one table of `pe`.
/// The function total is held at `usize::MAX`.
pub open spec fn spec_full_items(pe: PeModel, kind: ListKind) -> (Seq<char>, Seq<(Seq<char>, bool)>) {
    match kind {
        ListKind::Exports => (exports_title(pe.exports.len()), export_lines(pe.exports)),
        ListKind::Imports => (
            imports_title(
                pe.imports.len(),
                if function_total(pe.imports) > usize::MAX {
                    usize::MAX as nat
                } else {
                    function_total(pe.imports)
                },
            ),
            import_lines(pe.imports),
        ),
    }
}

/// A new string: `prefix`, the decimal `n`, then `suffix`.
fn number_text(prefix: &str, n: u64, suffix: &str) -> (r: String)
    ensures
        r@ == framed_number(prefix@, n as nat, suffix@),
{
    let mut r = String::from_str(prefix);
    push_decimal(&mut r, n);
    r.append(suffix);
    r
}

/// Flattens the exports or the imports of `pe` into the lines of the
/// full-screen list, with its title.
pub fn build_full_items(pe: &PeInfo, kind: ListKind) -> (r: (String, Vec<FullItem>))
    ensures
        (r.0@, r.1.deep_view()) == spec_full_items(pe.model(), kind),
{
    match kind {
        ListKind::Exports => {
            let title = number_text("Экспорт — ", pe.exports.len() as u64, " функций");
            let mut items: Vec<FullItem> = Vec::new();
            let mut i: usize = 0;
            while i < pe.exports.len()
                invariant
                    i <= pe.exports.len(),
                    items.deep_view() =~= export_lines(pe.exports.deep_view().take(i as int)),
                decreases pe.exports.len() - i,
            {
                let ghost before = items.deep_view();
                let text = pe.exports[i].clone();
                items.push(FullItem { text, header: false });
                proof {
                    let names = pe.exports.deep_view();
                    assert(names[i as int] == pe.exports[i as int]@);
                    assert(items.deep_view() =~= before.push((names[i as int], false)));
                    assert(export_lines(names.take(i + 1)) =~= export_lines(names.take(i as int)).push(
                        (names[i as int], false),
                    ));
                }
                i = i + 1;
            }
            assert(pe.exports.deep_view().take(i as int) =~= pe.exports.deep_view());
            (title, items)
        },
        ListKind::Imports => {
            let ghost imports = pe.imports.deep_view();
            let mut total: usize = 0;
            let mut items: Vec<FullItem> = Vec::new();
            let mut d: usize = 0;
            while d < pe.imports.len()
                invariant
                    d <= pe.imports.len(),
                    imports == pe.imports.deep_view(),
                    total == if function_total(imports.take(d as int)) > usize::MAX {
                        usize::MAX as nat
                    } else {
                        function_total(imports.take(d as int))
                    },
                    items.deep_view() =~= import_lines(imports.take(d as int)),
                decreases pe.imports.len() - d,
            {
                let dll = &pe.imports[d];
                let ghost before = items.deep_view();
                let n = dll.functions.len();
                assert(imports.take(d + 1).drop_last() =~= imports.take(d as int));
                assert(imports[d as int] == dll.deep_view());
                total = total.saturating_add(n);
                let mut head = String::from_str(dll.name.as_str());
                head.append(" (");
                push_decimal(&mut head, n as u64);
                head.append(")");
                items.push(FullItem { text: head, header: true });
                let mut j: usize = 0;
                while j < n
                    invariant
                        j <= n == dll.functions.len(),
                        items.deep_view() =~= before + dll_lines(dll.deep_view()).take(j + 1),
                    decreases n - j,
                {
                    let ghost mid = items.deep_view();
                    let mut line = String::from_str("    ");
                    line.append(dll.functions[j].as_str());
                    items.push(FullItem { text: line, header: false });
                    proof {
                        let lines = dll_lines(dll.deep_view());
                        let fs = dll.deep_view().functions;
                        assert(fs[j as int] == dll.functions[j as int]@);
                        assert(lines[j + 1] == ("    "@ + fs[j as int], false));
                        assert(items.deep_view() =~= mid.push(lines[j + 1]));
                        assert(lines.take(j + 2) =~= lines.take(j + 1).push(lines[j + 1]));
                    }
                    j = j + 1;
                }
                assert(dll_lines(dll.deep_view()).take(n + 1) =~= dll_lines(dll.deep_view()));
                d = d + 1;
            }
            assert(imports.take(d as int) =~= imports);
            let title = number_text("Импорт — ", pe.imports.len() as u64, " DLL, ");
            let mut title = title;
            push_decimal(&mut title, total as u64);
            title.append(" функций");
            (title, items)
        },
    }
}

/// A key press, as the browser sees it.
#[derive(Clone, Copy, Debug, PartialEq, Eq)]
pub enum Key {
    Char(char),
    Esc,
    Enter,
    Backspace,
    Left,
    Right,
    Up,
    Down,
    PageUp,
    PageDown,
    Home,
    End,
    /// Any other key.
    Other,
}

/// What the caller has to do after a key: the browser's state cannot change
/// directory or read files itself.
#[derive(Clone, Copy, Debug, PartialEq, Eq)]
pub enum Action {
    /// Nothing more.
    Stay,
    /// List the directory of entry `i` and hand the result to `apply_listing`
    /// or `listing_failed`.
    EnterDir(usize),
    /// Read the PE file of entry `i` and hand the result to `show_pe` or
    /// `parse_failed`.
    OpenPe(usize),
    /// List the parent of the current directory, if it has one.
    ParentDir,
}

/// The whole state of the browser.
pub struct App {
    pub should_quit: bool,
    pub screen: Screen,
    /// The directory being listed.
    pub cwd: PathBuf,
    pub entries: Vec<Entry>,
    /// The highlighted entry of the listing.
    pub list_selected: Option<usize>,
    /// The PE file that was opened last.
    pub selected: Option<PeInfo>,
    /// How many lines the PE card is scrolled down.
    pub detail_scroll: u16,
    /// The message of the last failure, shown under the listing.
    pub error: Option<String>,
    pub full_items: Vec<FullItem>,
    pub full_title: String,
    /// The highlighted line of the full-screen list.
    pub full_selected: Option<usize>,
}

/// The first entry of a listing of `len` entries, if there is any.
pub open spec fn first_of(len: nat) -> Option<usize> {
    if len == 0 {
        None
    } else {
        Some(0)
    }
}

/// The selection after moving down in a list of `len > 0` entries: the next
/// entry, or the first after the last one.
pub open spec fn next_index(sel: Option<usize>, len: nat) -> Option<usize> {
    match sel {
        Some(i) => if i + 1 < len {
            Some((i + 1) as usize)
        } else {
            Some(0)
        },
        None => Some(0),
    }
}

/// The selection after moving up in a list of `len > 0` entries: the previous
/// entry, or the last before the first one.
pub open spec fn prev_index(sel: Option<usize>, len: nat) -> Option<usize> {
    match sel {
        Some(i) => if i == 0 {
            Some((len - 1) as usize)
        } else {
            Some((i - 1) as usize)
        },
        None => Some((len - 1) as usize),
    }
}

/// The selection after moving by `delta` in a list of `len` lines, held
/// inside the list (no wrapping); nothing moves in an empty list.
pub open spec fn moved(sel: Option<usize>, len: nat, delta: int) -> Option<usize> {
    if len == 0 {
        sel
    } else {
        let cur = match sel {
            Some(i) => i as int,
            None => 0,
        };
        let target = cur + delta;
        Some(
            (if target < 0 {
                0
            } else if target > len - 1 {
                len - 1
            } else {
                target
            }) as usize,
        )
    }
}

/// The state with the browser asked to stop.
pub open spec fn quitting(app: App) -> App {
    App { should_quit: true, ..app }
}

/// The state after moving the listing's highlight down.
pub open spec fn after_select_next(app: App) -> App {
    if app.entries.len() == 0 {
        app
    } else {
        App { list_selected: next_index(app.list_selected, app.entries@.len()), ..app }
    }
}

/// The state after moving the listing's highlight up.
pub open spec fn after_select_prev(app: App) -> App {
    if app.entries.len() == 0 {
        app
    } else {
        App { list_selected: prev_index(app.list_selected, app.entries@.len()), ..app }
    }
}

/// What activating the highlighted entry asks for: entering a directory
/// (or `..`), opening a PE file, or nothing where no entry is highlighted.
pub open spec fn activation(app: App) -> Action {
    match app.list_selected {
        None => Action::Stay,
        Some(i) => if i >= app.entries.len() {
            Action::Stay
        } else {
            match app.entries[i as int].kind {
                EntryKind::PeFile => Action::OpenPe(i),
                _ => Action::EnterDir(i),
            }
        },
    }
}

/// `new` shows the full list of `kind` of the opened file, where that list is
/// not empty; otherwise nothing changes.
pub open spec fn opened_full(old: App, kind: ListKind, new: App) -> bool {
    match old.selected {
        None => new == old,
        Some(pe) => {
            let (title, lines) = spec_full_items(pe.model(), kind);
            if lines.len() == 0 {
                new == old
            } else {
                &&& new.full_title@ == title
                &&& new.full_items.deep_view() == lines
                &&& new == App {
                    full_title: new.full_title,
                    full_items: new.full_items,
                    full_selected: Some(0),
                    screen: Screen::FullList,
                    ..old
                }
            }
        },
    }
}

/// The effect of a key on the directory listing.
pub open spec fn explorer_key(old: App, key: Key, new: App, act: Action) -> bool {
    match key {
        Key::Char('q') | Key::Esc => new == quitting(old) && act == Action::Stay,
        Key::Down | Key::Char('j') => new == after_select_next(old) && act == Action::Stay,
        Key::Up | Key::Char('k') => new == after_select_prev(old) && act == Action::Stay,
        Key::Enter | Key::Right | Key::Char('l') => new == old && act == activation(old),
        Key::Backspace | Key::Left | Key::Char('h') => new == old && act == Action::ParentDir,
        _ => new == old && act == Action::Stay,
    }
}

/// The effect of a key on the card of the opened file.
pub open spec fn detail_key(old: App, key: Key, new: App) -> bool {
    match key {
        Key::Char('q') => new == quitting(old),
        Key::Esc | Key::Backspace | Key::Left | Key::Char('h') => new == App {
            screen: Screen::Explorer,
            ..old
        },
        Key::Char('e') => opened_full(old, ListKind::Exports, new),
        Key::Char('i') => opened_full(old, ListKind::Imports, new),
        Key::Down | Key::Char('j') => new == App {
            detail_scroll: if old.detail_scroll == u16::MAX {
                u16::MAX
            } else {
                (old.detail_scroll + 1) as u16
            },
            ..old
        },
        Key::Up | Key::Char('k') => new == App {
            detail_scroll: if old.detail_scroll == 0 {
                0
            } else {
                (old.detail_scroll - 1) as u16
            },
            ..old
        },
        _ => new == old,
    }
}

/// The effect of a key on the full-screen list.
pub open spec fn full_list_key(old: App, key: Key, new: App) -> bool {
    let len = old.full_items@.len();
    match key {
        Key::Char('q') => new == quitting(old),
        Key::Esc | Key::Backspace | Key::Left | Key::Char('h') => new == App {
            screen: Screen::Detail,
            ..old
        },
        Key::Down | Key::Char('j') => new == App {
            full_selected: moved(old.full_selected, len, 1),
            ..old
        },
        Key::Up | Key::Char('k') => new == App {
            full_selected: moved(old.full_selected, len, -1),
            ..old
        },
        Key::PageDown => new == App { full_selected: moved(old.full_selected, len, 10), ..old },
        Key::PageUp => new == App { full_selected: moved(old.full_selected, len, -10), ..old },
        Key::Home => if len > 0 {
            new == App { full_selected: Some(0), ..old }
        } else {
            new == old
        },
        Key::End => if len > 0 {
            new == App { full_selected: Some((len - 1) as usize), ..old }
        } else {
            new == old
        },
        _ => new == old,
    }
}

/// Moves a selection by `delta` lines inside a list of `len` lines, stopping
/// at either end.
pub fn move_selection(sel: &mut Option<usize>, len: usize, delta: i32)
    ensures
        *final(sel) == moved(*old(sel), len as nat, delta as int),
{
    if len == 0 {
        return;
    }
    let cur: usize = match *sel {
        Some(i) => i,
        None => 0,
    };
    let last = len - 1;
    let next: usize = if delta >= 0 {
        let d = delta as usize;
        if cur >= last || last - cur <= d {
            last
        } else {
            cur + d
        }
    } else {
        let d = (0 - (delta as i64)) as usize;
        if cur <= d {
            0
        } else if cur - d > last {
            last
        } else {
            cur - d
        }
    };
    *sel = Some(next);
}

impl App {
    /// A browser showing the listing `entries` of directory `cwd`, with its
    /// first entry highlighted.
    pub fn new(cwd: PathBuf, entries: Vec<Entry>) -> (app: App)
        ensures
            app.should_quit == false,
            app.screen == Screen::Explorer,
            app.cwd == cwd,
            app.entries == entries,
            app.list_selected == first_of(entries.len() as nat),
            app.selected is None,
            app.detail_scroll == 0,
            app.error is None,
            app.full_items@.len() == 0,
            app.full_title@.len() == 0,
            app.full_selected is None,
    {
        let list_selected = if entries.len() == 0 {
            None
        } else {
            Some(0)
        };
        App {
            should_quit: false,
            screen: Screen::Explorer,
            cwd,
            entries,
            list_selected,
            selected: None,
            detail_scroll: 0,
            error: None,
            full_items: Vec::new(),
            full_title: String::new(),
            full_selected: None,
        }
    }

    /// Asks the browser to stop.
    pub fn quit(&mut self)
        ensures
            *final(self) == quitting(*old(self)),
    {
        self.should_quit = true;
    }

    /// Highlights the next entry of the listing, going round to the first.
    pub fn select_next(&mut self)
        ensures
            *final(self) == after_select_next(*old(self)),
    {
        let len = self.entries.len();
        if len == 0 {
            return;
        }
        let i = match self.list_selected {
            Some(i) => if i < len - 1 {
                i + 1
            } else {
                0
            },
            None => 0,
        };
        self.list_selected = Some(i);
    }

    /// Highlights the previous entry of the listing, going round to the last.
    pub fn select_prev(&mut self)
        ensures
            *final(self) == after_select_prev(*old(self)),
    {
        let len = self.entries.len();
        if len == 0 {
            return;
        }
        let i = match self.list_selected {
            Some(i) => if i == 0 {
                len - 1
            } else {
                i - 1
            },
            None => len - 1,
        };
        self.list_selected = Some(i);
    }

    /// What the highlighted entry asks for when it is activated.
    pub fn activate(&self) -> (act: Action)
        ensures
            act == activation(*self),
    {
        let i = match self.list_selected {
            Some(i) => i,
            None => return Action::Stay,
        };
        if i >= self.entries.len() {
            return Action::Stay;
        }
        match self.entries[i].kind {
            EntryKind::PeFile => Action::OpenPe(i),
            _ => Action::EnterDir(i),
        }
    }

    /// Shows the whole export or import table of the opened file, where it
    /// has any entry.
    pub fn open_full(&mut self, kind: ListKind)
        ensures
            opened_full(*old(self), kind, *final(self)),
    {
        let (title, items) = match &self.selected {
            Some(pe) => build_full_items(pe, kind),
            None => return,
        };
        if items.len() == 0 {
            return;
        }
        self.full_title = title;
        self.full_items = items;
        self.full_selected = Some(0);
        self.screen = Screen::FullList;
    }

    fn handle_explorer_key(&mut self, key: Key) -> (act: Action)
        ensures
            explorer_key(*old(self), key, *final(self), act),
    {
        match key {
            Key::Char('q') | Key::Esc => {
                self.quit();
                Action::Stay
            },
            Key::Down | Key::Char('j') => {
                self.select_next();
                Action::Stay
            },
            Key::Up | Key::Char('k') => {
                self.select_prev();
                Action::Stay
            },
            Key::Enter | Key::Right | Key::Char('l') => self.activate(),
            Key::Backspace | Key::Left | Key::Char('h') => Action::ParentDir,
            _ => Action::Stay,
        }
    }

    fn handle_detail_key(&mut self, key: Key)
        ensures
            detail_key(*old(self), key, *final(self)),
    {
        match key {
            Key::Char('q') => self.quit(),
            Key::Esc | Key::Backspace | Key::Left | Key::Char('h') => {
                self.screen = Screen::Explorer;
            },
            Key::Char('e') => self.open_full(ListKind::Exports),
            Key::Char('i') => self.open_full(ListKind::Imports),
            Key::Down | Key::Char('j') => {
                self.detail_scroll = self.detail_scroll.saturating_add(1);
            },
            Key::Up | Key::Char('k') => {
                self.detail_scroll = self.detail_scroll.saturating_sub(1);
            },
            _ => {},
        }
    }

    fn handle_full_list_key(&mut self, key: Key)
        ensures
            full_list_key(*old(self), key, *final(self)),
    {
        let len = self.full_items.len();
        match key {
            Key::Char('q') => self.quit(),
            Key::Esc | Key::Backspace | Key::Left | Key::Char('h') => {
                self.screen = Screen::Detail;
            },
            Key::Down | Key::Char('j') => move_selection(&mut self.full_selected, len, 1),
            Key::Up | Key::Char('k') => move_selection(&mut self.full_selected, len, -1),
            Key::PageDown => move_selection(&mut self.full_selected, len, 10),
            Key::PageUp => move_selection(&mut self.full_selected, len, -10),
            Key::Home => {
                if len > 0 {
                    self.full_selected = Some(0);
                }
            },
            Key::End => {
                if len > 0 {
                    self.full_selected = Some(len - 1);
                }
            },
            _ => {},
        }
    }

    /// Takes the listing of directory `dir` as the new current directory,
    /// with its first entry highlighted and the last failure cleared.
    pub fn apply_listing(&mut self, dir: PathBuf, entries: Vec<Entry>)
        ensures
            *final(self) == (App {
                entries,
                list_selected: first_of(entries@.len()),
                cwd: dir,
                error: None,
                ..*old(self)
            }),
    {
        let list_selected = if entries.len() == 0 {
            None
        } else {
            Some(0)
        };
        self.entries = entries;
        self.list_selected = list_selected;
        self.cwd = dir;
        self.error = None;
    }

    /// Records that the directory shown as `path` could not be listed, for `reason`.
    pub fn listing_failed(&mut self, path: &str, reason: &str)
        ensures
            final(self).error matches Some(msg) && msg@ == "Не удалось открыть "@ + path@ + ": "@
                + reason@,
            *final(self) == (App { error: final(self).error, ..*old(self) }),
    {
        let mut msg = String::from_str("Не удалось открыть ");
        msg.append(path);
        msg.append(": ");
        msg.append(reason);
        self.error = Some(msg);
    }

    /// Opens the card of a PE file that was read.
    pub fn show_pe(&mut self, info: PeInfo)
        ensures
            *final(self) == (App {
                selected: Some(info),
                detail_scroll: 0,
                error: None,
                screen: Screen::Detail,
                ..*old(self)
            }),
    {
        self.selected = Some(info);
        self.detail_scroll = 0;
        self.error = None;
        self.screen = Screen::Detail;
    }

    /// Records that a PE file could not be read, for `reason`.
    pub fn parse_failed(&mut self, reason: &str)
        ensures
            final(self).error matches Some(msg) && msg@ == "Ошибка разбора: "@ + reason@,
            *final(self) == (App { error: final(self).error, ..*old(self) }),
    {
        let mut msg = String::from_str("Ошибка разбора: ");
        msg.append(reason);
        self.error = Some(msg);
    }

    /// Reacts to a key on the current screen; returns what the caller has to
    /// do next.
    pub fn handle_key(&mut self, key: Key) -> (act: Action)
        ensures
            match old(self).screen {
                Screen::Explorer => explorer_key(*old(self), key, *final(self), act),
                Screen::Detail => detail_key(*old(self), key, *final(self)) && act == Action::Stay,
                Screen::FullList => full_list_key(*old(self), key, *final(self)) && act
                    == Action::Stay,
            },
    {
        match self.screen {
            Screen::Explorer => self.handle_explorer_key(key),
            Screen::Detail => {
                self.handle_detail_key(key);
                Action::Stay
            },
            Screen::FullList => {
                self.handle_full_list_key(key);
                Action::Stay
            },
        }
    }
}

/// Moving the listing's highlight down and then up, or up and then down,
/// comes back to the highlighted entry, the ends included (the list wraps round).
pub proof fn lemma_wrap_round_trip(app: App)
    requires
        app.list_selected matches Some(i) && i < app.entries.len(),
    ensures
        after_select_prev(after_select_next(app)) == app,
        after_select_next(after_select_prev(app)) == app,
{
}

/// Moving in a non-empty full-screen list always leaves a line of the list
/// highlighted.
pub proof fn lemma_moved_in_bounds(sel: Option<usize>, len: nat, delta: int)
    requires
        len > 0,
        len <= usize::MAX,
    ensures
        moved(sel, len, delta) matches Some(j) && j < len,
{
}

/// The number of heading lines among `ls`.
pub open spec fn headings(ls: Seq<(Seq<char>, bool)>) -> nat
    decreases ls.len(),
{
    if ls.len() == 0 {
        0
    } else {
        headings(ls.drop_last()) + if ls.last().1 {
            1nat
        } else {
            0nat
        }
    }
}

/// The headings of two runs of lines add up.
proof fn lemma_headings_add(a: Seq<(Seq<char>, bool)>, b: Seq<(Seq<char>, bool)>)
    ensures
        headings(a + b) == headings(a) + headings(b),
    decreases b.len(),
{
    if b.len() == 0 {
        assert(a + b =~= a);
    } else {
        lemma_headings_add(a, b.drop_last());
        assert((a + b).drop_last() =~= a + b.drop_last());
    }
}

/// Lines none of which is a heading hold no heading.
proof fn lemma_no_headings(ls: Seq<(Seq<char>, bool)>)
    requires
        forall|i: int| 0 <= i < ls.len() ==> !(#[trigger] ls[i]).1,
    ensures
        headings(ls) == 0,
    decreases ls.len(),
{
    if ls.len() > 0 {
        lemma_no_headings(ls.drop_last());
    }
}

/// The full import list has one heading per DLL and one line per function.
pub proof fn lemma_import_lines_count(imports: Seq<ImportModel>)
    ensures
        import_lines(imports).len() == imports.len() + function_total(imports),
        headings(import_lines(imports)) == imports.len(),
    decreases imports.len(),
{
    if imports.len() > 0 {
        let before = imports.drop_last();
        let last = imports.last();
        lemma_import_lines_count(before);
        let a = import_lines(before);
        let b = dll_lines(last);
        lemma_headings_add(a, b);
        let fs = last.functions.map_values(|f: Seq<char>| ("    "@ + f, false));
        lemma_no_headings(fs);
        let h = seq![(framed_number(last.name + " ("@, last.functions.len(), ")"@), true)];
        assert(b == h + fs);
        lemma_headings_add(h, fs);
        assert(h.drop_last() =~= Seq::<(Seq<char>, bool)>::empty());
        assert(headings(Seq::<(Seq<char>, bool)>::empty()) == 0);
        assert(headings(h) == 1);
        assert(headings(b) == 1);
    }
}

/// The title of the full import list gives the number of DLLs and the number
/// of function lines of the list: every line that is not a DLL's heading.
pub proof fn lemma_imports_title_counts(pe: PeModel)
    requires
        spec_full_items(pe, ListKind::Imports).1.len() <= usize::MAX,
    ensures
        ({
            let (title, lines) = spec_full_items(pe, ListKind::Imports);
            &&& headings(lines) == pe.imports.len()
            &&& title == "Импорт — "@ + decimal(pe.imports.len()) + " DLL, "@ + decimal(
                (lines.len() - pe.imports.len()) as nat,
            ) + " функций"@
        }),
{
    lemma_import_lines_count(pe.imports);
}

/// The full export list has one line per exported name, in order, none of
/// them a heading, and its title gives their number.
pub proof fn lemma_exports_list(pe: PeModel)
    ensures
        ({
            let (title, lines) = spec_full_items(pe, ListKind::Exports);
            &&& lines.len() == pe.exports.len()
            &&& forall|i: int| 0 <= i < lines.len() ==> #[trigger] lines[i] == (pe.exports[i], false)
            &&& title == "Экспорт — "@ + decimal(lines.len()) + " функций"@
        }),
{
}

/// A key that goes back one screen (or up one directory in the listing).
pub open spec fn is_back_key(key: Key) -> bool {
    key == Key::Esc || key == Key::Backspace || key == Key::Left || key == Key::Char('h')
}

/// What the keys do, for every state `old` and its successor `new` as
/// `handle_key` gives them: `q` quits anywhere (and Esc in the listing); in
/// the listing, Down/`j` and Up/`k` move the highlight by one entry, going
/// round at the ends, Enter/Right/`l` opens the highlighted directory or PE
/// file, Left/Backspace/`h` goes up; on the card, Esc/Left/Backspace/`h` goes
/// back to the listing and Down/Up scroll by one line; in the full list they
/// go back to the card, Down/Up move by one line, PageDown/PageUp by ten,
/// Home/End to the ends, all held inside the list.
pub proof fn lemma_keys(old: App, key: Key, new: App, act: Action)
    requires
        match old.screen {
            Screen::Explorer => explorer_key(old, key, new, act),
            Screen::Detail => detail_key(old, key, new) && act == Action::Stay,
            Screen::FullList => full_list_key(old, key, new) && act == Action::Stay,
        },
    ensures
        key == Key::Char('q') ==> new.should_quit && new.screen == old.screen,
        old.screen == Screen::Explorer ==> new.screen == Screen::Explorer,
        old.screen == Screen::Explorer && key == Key::Esc ==> new.should_quit,
        old.screen != Screen::Explorer ==> act == Action::Stay,
        old.screen == Screen::Detail && is_back_key(key) ==> new.screen == Screen::Explorer
            && new.should_quit == old.should_quit,
        old.screen == Screen::FullList && is_back_key(key) ==> new.screen == Screen::Detail
            && new.should_quit == old.should_quit,
        old.screen == Screen::Explorer && (key == Key::Down || key == Key::Char('j'))
            && old.list_selected == Some(0usize) && old.entries.len() > 1 ==> new.list_selected
            == Some(1usize),
        old.screen == Screen::Explorer && (key == Key::Up || key == Key::Char('k'))
            && old.list_selected == Some(0usize) && old.entries.len() > 0 ==> new.list_selected
            == Some((old.entries.len() - 1) as usize),
        old.screen == Screen::Explorer && (key == Key::Backspace || key == Key::Left || key
            == Key::Char('h')) ==> act == Action::ParentDir && new == old,
        old.screen == Screen::Detail && (key == Key::Down || key == Key::Char('j'))
            && old.detail_scroll < u16::MAX ==> new.detail_scroll == old.detail_scroll + 1,
        old.screen == Screen::Detail && (key == Key::Up || key == Key::Char('k'))
            && old.detail_scroll > 0 ==> new.detail_scroll == old.detail_scroll - 1,
        old.screen == Screen::FullList && key == Key::Home && old.full_items.len() > 0
            ==> new.full_selected == Some(0usize),
        old.screen == Screen::FullList && key == Key::End && old.full_items.len() > 0
            ==> new.full_selected == Some((old.full_items.len() - 1) as usize),
        old.screen == Screen::FullList && !is_back_key(key) ==> new.screen == Screen::FullList,
{
}

/// Moving and activating in the listing, from the highlighted entry `i`:
/// Down/`j` goes to the next entry or round to the first, Up/`k` to the
/// previous one or round to the last, and Enter/Right/`l` asks to open entry
/// `i`, as a PE file or as a directory by its kind.
pub proof fn lemma_listing_keys(old: App, key: Key, new: App, act: Action, i: usize)
    requires
        old.screen == Screen::Explorer,
        explorer_key(old, key, new, act),
        old.list_selected == Some(i),
        i < old.entries.len(),
    ensures
        (key == Key::Down || key == Key::Char('j')) && i + 1 < old.entries.len()
            ==> new.list_selected == Some((i + 1) as usize),
        (key == Key::Down || key == Key::Char('j')) && i + 1 == old.entries.len()
            ==> new.list_selected == Some(0usize),
        (key == Key::Up || key == Key::Char('k')) && i > 0 ==> new.list_selected == Some(
            (i - 1) as usize,
        ),
        (key == Key::Up || key == Key::Char('k')) && i == 0 ==> new.list_selected == Some(
            (old.entries.len() - 1) as usize,
        ),
        (key == Key::Enter || key == Key::Right || key == Key::Char('l'))
            && old.entries[i as int].kind == EntryKind::PeFile ==> act == Action::OpenPe(i),
        (key == Key::Enter || key == Key::Right || key == Key::Char('l'))
            && old.entries[i as int].kind != EntryKind::PeFile ==> act == Action::EnterDir(i),
{
}

/// Moving in the full list from line `j`: Down/`j` and Up/`k` by one line,
/// PageDown and PageUp by ten, stopping at the first and last lines.
pub proof fn lemma_full_list_keys(old: App, key: Key, new: App, j: usize)
    requires
        old.screen == Screen::FullList,
        full_list_key(old, key, new),
        old.full_selected == Some(j),
        j < old.full_items.len(),
    ensures
        (key == Key::Down || key == Key::Char('j')) ==> new.full_selected == Some(
            (if j + 1 < old.full_items.len() {
                j + 1
            } else {
                j as int
            }) as usize,
        ),
        (key == Key::Up || key == Key::Char('k')) ==> new.full_selected == Some(
            (if j > 0 {
                j - 1
            } else {
                0
            }) as usize,
        ),
        key == Key::PageDown ==> new.full_selected == Some(
            (if j + 10 < old.full_items.len() {
                j + 10
            } else {
                old.full_items.len() - 1
            }) as usize,
        ),
        key == Key::PageUp ==> new.full_selected == Some(
            (if j >= 10 {
                j - 10
            } else {
                0
            }) as usize,
        ),
{
}

/// On the card, `e` and `i` open the full export and import lists where they
/// have lines: the list then shows the exported names (or one heading per DLL
/// and one line per function), highlighting its first line.
pub proof fn lemma_open_full_lists(old: App, key: Key, new: App, pe: PeInfo)
    requires
        old.screen == Screen::Detail,
        detail_key(old, key, new),
        old.selected == Some(pe),
    ensures
        key == Key::Char('e') && pe.exports.len() > 0 ==> {
            &&& new.screen == Screen::FullList
            &&& new.full_selected == Some(0usize)
            &&& new.full_items.len() == pe.exports.len()
            &&& forall|i: int|
                0 <= i < pe.exports.len() ==> #[trigger] new.full_items[i].text@ == pe.exports[i]@
                    && !new.full_items[i].header
        },
        key == Key::Char('i') && pe.imports.len() > 0 ==> {
            &&& new.screen == Screen::FullList
            &&& new.full_selected == Some(0usize)
            &&& headings(new.full_items.deep_view()) == pe.imports.len()
        },
        key == Key::Char('e') && pe.exports.len() == 0 ==> new == old,
        key == Key::Char('i') && pe.imports.len() == 0 ==> new == old,
{
    lemma_import_lines_count(pe.model().imports);
    let m = pe.model();
    assert(m.exports.len() == pe.exports.len());
    assert(m.imports.len() == pe.imports.len());
    assert(export_lines(m.exports).len() == pe.exports.len());
    if key == Key::Char('e') && pe.exports.len() > 0 {
        assert(new.full_items.deep_view().len() == new.full_items.len());
        assert forall|i: int| 0 <= i < pe.exports.len() implies #[trigger] new.full_items[i].text@
            == pe.exports[i]@ && !new.full_items[i].header by {
            assert(new.full_items.deep_view()[i] == new.full_items[i].deep_view());
            assert(pe.exports.deep_view()[i] == pe.exports[i]@);
            assert(export_lines(m.exports)[i] == (m.exports[i], false));
        }
    }
    if key == Key::Char('i') && pe.imports.len() == 0 {
        assert(import_lines(pe.model().imports).len() == 0);
    }
}

/// A file name is shown as a PE file exactly when it ends in `.dll` or
/// `.exe`, in any mix of ASCII case, with at least one character before the
/// dot.
pub proof fn lemma_is_pe_meaning(name: Seq<char>)
    ensures
        spec_is_pe(name) <==> {
            let n = name.len() as int;
            &&& n >= 5
            &&& name[n - 4] == '.'
            &&& {
                ||| (name[n - 3] == 'd' || name[n - 3] == 'D') && (name[n - 2] == 'l' || name[n
                    - 2] == 'L') && (name[n - 1] == 'l' || name[n - 1] == 'L')
                ||| (name[n - 3] == 'e' || name[n - 3] == 'E') && (name[n - 2] == 'x' || name[n
                    - 2] == 'X') && (name[n - 1] == 'e' || name[n - 1] == 'E')
            }
        },
{
    let n = name.len() as int;
    lemma_last_dot(name);
    if spec_is_pe(name) {
        let d = last_dot(name);
        let ext = name.subrange(d + 1, n);
        let lower = ext.map_values(|c: char| ascii_lower(c));
        assert(lower.len() == 3);
        assert(d == n - 4);
        assert(lower[0] == ascii_lower(name[n - 3]));
        assert(lower[1] == ascii_lower(name[n - 2]));
        assert(lower[2] == ascii_lower(name[n - 1]));
        assert(name != seq!['.', '.']);
    }
    if n >= 5 && name[n - 4] == '.' && ((name[n - 3] == 'd' || name[n - 3] == 'D') && (name[n - 2]
        == 'l' || name[n - 2] == 'L') && (name[n - 1] == 'l' || name[n - 1] == 'L') || (name[n - 3]
        == 'e' || name[n - 3] == 'E') && (name[n - 2] == 'x' || name[n - 2] == 'X') && (name[n
        - 1] == 'e' || name[n - 1] == 'E')) {
        assert(name[n - 1] != '.' && name[n - 2] != '.' && name[n - 3] != '.');
        lemma_last_dot_at(name, n - 4);
        assert(name != seq!['.', '.']);
        let ext = name.subrange(n - 3, n);
        let lower = ext.map_values(|c: char| ascii_lower(c));
        assert(lower[0] == ascii_lower(name[n - 3]));
        assert(lower[1] == ascii_lower(name[n - 2]));
        assert(lower[2] == ascii_lower(name[n - 1]));
        if name[n - 3] == 'd' || name[n - 3] == 'D' {
            assert(lower =~= seq!['d', 'l', 'l']);
        } else {
            assert(lower =~= seq!['e', 'x', 'e']);
        }
    }
}

/// The last dot is a dot, and no dot follows it.
proof fn lemma_last_dot(name: Seq<char>)
    ensures
        -1 <= last_dot(name) < name.len(),
        last_dot(name) >= 0 ==> name[last_dot(name)] == '.',
        forall|j: int| last_dot(name) < j < name.len() ==> name[j] != '.',
    decreases name.len(),
{
    if name.len() > 0 && name.last() != '.' {
        let t = name.drop_last();
        lemma_last_dot(t);
        assert forall|j: int| last_dot(name) < j < name.len() implies name[j] != '.' by {
            if j < name.len() - 1 {
                assert(name[j] == t[j]);
            }
        }
    }
}

/// A dot with no dot after it is the last dot.
proof fn lemma_last_dot_at(name: Seq<char>, d: int)
    requires
        0 <= d < name.len(),
        name[d] == '.',
        forall|j: int| d < j < name.len() ==> name[j] != '.',
    ensures
        last_dot(name) == d,
    decreases name.len(),
{
    if d < name.len() - 1 {
        assert(name.last() != '.');
        lemma_last_dot_at(name.drop_last(), d);
    }
}

} // verus!
