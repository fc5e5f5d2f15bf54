//! The keyboard-driven view state of the process browser: the current
//! top-level tab, grid selection among the eight process categories, sort
//! settings, scroll offset, and the free-text command overlay.
//!
//! Every transition is total and is specified as a pure function on
//! [`AppView`], the mathematical model of the state.

use vstd::prelude::*;

use crate::text::{chars_of, eq_chars, lower_seq, lower_vec, trim_chars, trim_seq};

verus! {

/// Top-level panels of the dashboard.
#[derive(Clone, Copy, PartialEq, Eq, Structural, Debug)]
pub enum Tab {
    Overview,
    Processes,
    SystemInfo,
    Vpn,
}

impl Tab {
    /// The tab after `self` in the fixed cycle.
    pub open spec fn spec_next(self) -> Tab {
        match self {
            Tab::Overview => Tab::Processes,
            Tab::Processes => Tab::SystemInfo,
            Tab::SystemInfo => Tab::Vpn,
            Tab::Vpn => Tab::Overview,
        }
    }

    /// The tab before `self` in the fixed cycle.
    pub open spec fn spec_previous(self) -> Tab {
        match self {
            Tab::Overview => Tab::Vpn,
            Tab::Processes => Tab::Overview,
            Tab::SystemInfo => Tab::Processes,
            Tab::Vpn => Tab::SystemInfo,
        }
    }

    /// Display title of the tab.
    pub open spec fn spec_title(self) -> Seq<char> {
        match self {
            Tab::Overview => "Overview"@,
            Tab::Processes => "Processes"@,
            Tab::SystemInfo => "System Info"@,
            Tab::Vpn => "VPN"@,
        }
    }

    pub fn next(&self) -> (t: Tab)
        ensures
            t == self.spec_next(),
    {
        match self {
            Tab::Overview => Tab::Processes,
            Tab::Processes => Tab::SystemInfo,
            Tab::SystemInfo => Tab::Vpn,
            Tab::Vpn => Tab::Overview,
        }
    }

    pub fn previous(&self) -> (t: Tab)
        ensures
            t == self.spec_previous(),
    {
        match self {
            Tab::Overview => Tab::Vpn,
            Tab::Processes => Tab::Overview,
            Tab::SystemInfo => Tab::Processes,
            Tab::Vpn => Tab::SystemInfo,
        }
    }

    pub fn title(&self) -> (r: &'static str)
        ensures
            r@ == self.spec_title(),
    {
        match self {
            Tab::Overview => "Overview",
            Tab::Processes => "Processes",
            Tab::SystemInfo => "System Info",
            Tab::Vpn => "VPN",
        }
    }
}

/// The field processes are ordered by.
#[derive(Clone, Copy, PartialEq, Eq, Structural, Debug)]
pub enum ProcessSort {
    Cpu,
    Memory,
    Name,
    Pid,
}

impl ProcessSort {
    /// The next sort field in the fixed ring Cpu -> Memory -> Name -> Pid -> Cpu.
    pub open spec fn spec_cycle(self) -> ProcessSort {
        match self {
            ProcessSort::Cpu => ProcessSort::Memory,
            ProcessSort::Memory => ProcessSort::Name,
            ProcessSort::Name => ProcessSort::Pid,
            ProcessSort::Pid => ProcessSort::Cpu,
        }
    }
}

/// The three mutually exclusive navigation modes of the process browser.
#[derive(Clone, Copy, PartialEq, Eq, Structural, Debug)]
pub enum NavigationMode {
    CategoryGrid,
    CategoryExpanded,
    AllProcessesFlat,
}

/// Mathematical model of the view state.
#[verifier::ext_equal]
pub ghost struct AppView {
    pub should_quit: bool,
    pub show_help: bool,
    pub current_tab: Tab,
    pub process_sort: ProcessSort,
    pub sort_ascending: bool,
    pub process_scroll: nat,
    pub user_location: Seq<char>,
    pub selected_category: nat,
    pub category_expanded: bool,
    pub command_mode: bool,
    pub command_buffer: Seq<char>,
    pub show_all_processes: bool,
}

impl AppView {
    /// Well-formedness: the grid selection stays inside the eight fixed
    /// categories, and the command buffer is exactly the trigger character
    /// plus typed text while the overlay is active, and empty otherwise.
    pub open spec fn wf(self) -> bool {
        &&& self.selected_category < 8
        &&& self.command_mode ==> self.command_buffer.len() >= 1 && self.command_buffer[0] == '/'
        &&& !self.command_mode ==> self.command_buffer.len() == 0
    }

    /// The navigation mode encoded by the two mode flags: the flat view
    /// wins over an expanded category, which wins over the grid.
    pub open spec fn navigation_mode(self) -> NavigationMode {
        if self.show_all_processes {
            NavigationMode::AllProcessesFlat
        } else if self.category_expanded {
            NavigationMode::CategoryExpanded
        } else {
            NavigationMode::CategoryGrid
        }
    }

    /// The initial view state, before any key has been handled.
    pub open spec fn initial(location: Seq<char>) -> AppView {
        AppView {
            should_quit: false,
            show_help: false,
            current_tab: Tab::Overview,
            process_sort: ProcessSort::Cpu,
            sort_ascending: false,
            process_scroll: 0,
            user_location: location,
            selected_category: 0,
            category_expanded: false,
            command_mode: false,
            command_buffer: Seq::empty(),
            show_all_processes: false,
        }
    }
}

/// The interactive view state of the process browser.
///
/// Fields mirror [`AppView`]; all transitions are total.
pub struct App {
    pub should_quit: bool,
    pub show_help: bool,
    pub current_tab: Tab,
    pub process_sort: ProcessSort,
    pub sort_ascending: bool,
    pub process_scroll: usize,
    pub user_location: String,
    pub selected_category: usize,
    pub category_expanded: bool,
    pub command_mode: bool,
    pub command_buffer: Vec<char>,
    pub show_all_processes: bool,
}

impl View for App {
    type V = AppView;

    open spec fn view(&self) -> AppView {
        AppView {
            should_quit: self.should_quit,
            show_help: self.show_help,
            current_tab: self.current_tab,
            process_sort: self.process_sort,
            sort_ascending: self.sort_ascending,
            process_scroll: self.process_scroll as nat,
            user_location: self.user_location@,
            selected_category: self.selected_category as nat,
            category_expanded: self.category_expanded,
            command_mode: self.command_mode,
            command_buffer: self.command_buffer@,
            show_all_processes: self.show_all_processes,
        }
    }
}

/// Request to stop the application loop.
pub open spec fn spec_quit(v: AppView) -> AppView {
    AppView { should_quit: true, ..v }
}

/// Toggle the help overlay.
pub open spec fn spec_toggle_help(v: AppView) -> AppView {
    AppView { show_help: !v.show_help, ..v }
}

/// Switching to any tab resets the scroll offset, collapses an expanded
/// category and leaves the flat view, forcing the category grid: entering
/// a tab never preserves mid-navigation state.
pub open spec fn spec_select_tab(v: AppView, t: Tab) -> AppView {
    AppView {
        current_tab: t,
        process_scroll: 0,
        category_expanded: false,
        show_all_processes: false,
        ..v
    }
}

/// Advance to the next tab in the cycle.
pub open spec fn spec_next_tab(v: AppView) -> AppView {
    spec_select_tab(v, v.current_tab.spec_next())
}

/// Go back to the previous tab in the cycle.
pub open spec fn spec_previous_tab(v: AppView) -> AppView {
    spec_select_tab(v, v.current_tab.spec_previous())
}

/// Expand the selected category, or collapse it if already expanded;
/// either way the scroll offset is reset.
pub open spec fn spec_toggle_category_expanded(v: AppView) -> AppView {
    AppView { category_expanded: !v.category_expanded, process_scroll: 0, ..v }
}

/// Collapse the expanded category back to the grid and reset the scroll
/// offset.
pub open spec fn spec_collapse_category(v: AppView) -> AppView {
    AppView { category_expanded: false, process_scroll: 0, ..v }
}

/// Advance the sort field one step along the fixed ring.
pub open spec fn spec_cycle_process_sort(v: AppView) -> AppView {
    AppView { process_sort: v.process_sort.spec_cycle(), ..v }
}

/// Flip the sort direction.
pub open spec fn spec_toggle_sort_order(v: AppView) -> AppView {
    AppView { sort_ascending: !v.sort_ascending, ..v }
}

/// Scroll one row up; the offset is floor-clamped at zero.
pub open spec fn spec_scroll_up(v: AppView) -> AppView {
    AppView {
        process_scroll: if v.process_scroll > 0 {
            (v.process_scroll - 1) as nat
        } else {
            0
        },
        ..v
    }
}

/// Scroll one row down; the offset saturates at the machine limit and is
/// not clamped against any list length here (clamping happens at render
/// time).
pub open spec fn spec_scroll_down(v: AppView) -> AppView {
    AppView {
        process_scroll: if v.process_scroll < usize::MAX as nat {
            v.process_scroll + 1
        } else {
            v.process_scroll
        },
        ..v
    }
}

/// Move the grid selection one column left; a no-op from the left column.
/// Any grid move, including a no-op, resets the scroll offset.
pub open spec fn spec_move_category_left(v: AppView) -> AppView {
    AppView {
        selected_category: if v.selected_category % 2 == 1 {
            (v.selected_category - 1) as nat
        } else {
            v.selected_category
        },
        process_scroll: 0,
        ..v
    }
}

/// Move the grid selection one column right; a no-op from the right column.
pub open spec fn spec_move_category_right(v: AppView) -> AppView {
    AppView {
        selected_category: if v.selected_category % 2 == 0 {
            v.selected_category + 1
        } else {
            v.selected_category
        },
        process_scroll: 0,
        ..v
    }
}

/// Move the grid selection one row up; a no-op from the top row.
pub open spec fn spec_move_category_up(v: AppView) -> AppView {
    AppView {
        selected_category: if v.selected_category >= 2 {
            (v.selected_category - 2) as nat
        } else {
            v.selected_category
        },
        process_scroll: 0,
        ..v
    }
}

/// Move the grid selection one row down; a no-op from the bottom row.
pub open spec fn spec_move_category_down(v: AppView) -> AppView {
    AppView {
        selected_category: if v.selected_category < 6 {
            v.selected_category + 2
        } else {
            v.selected_category
        },
        process_scroll: 0,
        ..v
    }
}

/// Open the command overlay: the buffer is reset to the single trigger
/// character.
pub open spec fn spec_enter_command_mode(v: AppView) -> AppView {
    AppView { command_mode: true, command_buffer: seq!['/'], ..v }
}

/// Leave the command overlay; leaving the free-text filter always also
/// leaves the filtered flat view.
pub open spec fn spec_exit_command_mode(v: AppView) -> AppView {
    AppView {
        command_mode: false,
        command_buffer: Seq::empty(),
        show_all_processes: false,
        ..v
    }
}

/// Append one typed character to the command buffer.
pub open spec fn spec_command_input_char(v: AppView, c: char) -> AppView {
    AppView { command_buffer: v.command_buffer.push(c), ..v }
}

/// Remove the last character of the command buffer, but never the leading
/// trigger character: the buffer length has floor 1.
pub open spec fn spec_command_backspace(v: AppView) -> AppView {
    AppView {
        command_buffer: if v.command_buffer.len() > 1 {
            v.command_buffer.drop_last()
        } else {
            v.command_buffer
        },
        ..v
    }
}

/// A command buffer's recognized form: surrounding whitespace trimmed,
/// then case-folded.
pub open spec fn spec_normalized_command(buffer: Seq<char>) -> Seq<char> {
    lower_seq(trim_seq(buffer))
}

/// Run the typed command.  The one recognized command (the trigger
/// character followed by "all", case-insensitive, surrounding whitespace
/// ignored) switches to the flat view and resets the scroll offset; any
/// other input merely leaves command mode.  The buffer is cleared either
/// way.
pub open spec fn spec_execute_command(v: AppView) -> AppView {
    if spec_normalized_command(v.command_buffer) == "/all"@ {
        AppView {
            show_all_processes: true,
            command_mode: false,
            process_scroll: 0,
            command_buffer: Seq::empty(),
            ..v
        }
    } else {
        AppView { command_mode: false, command_buffer: Seq::empty(), ..v }
    }
}

/// One key of the keyboard contract: discrete events, no modifier but the
/// quit accelerator's control flag.
#[derive(Clone, Copy, PartialEq, Eq, Structural, Debug)]
pub enum Key {
    Char(char),
    Enter,
    Backspace,
    Esc,
    Tab,
    BackTab,
    Up,
    Down,
    Left,
    Right,
}

/// A left move: grid navigation inside the process tab (unless a list view
/// is open, which swallows the key), the previous tab elsewhere.
pub open spec fn spec_key_left(v: AppView) -> AppView {
    if v.current_tab == Tab::Processes {
        if !v.category_expanded && !v.show_all_processes {
            spec_move_category_left(v)
        } else {
            v
        }
    } else {
        spec_previous_tab(v)
    }
}

/// A right move, mirroring [`spec_key_left`].
pub open spec fn spec_key_right(v: AppView) -> AppView {
    if v.current_tab == Tab::Processes {
        if !v.category_expanded && !v.show_all_processes {
            spec_move_category_right(v)
        } else {
            v
        }
    } else {
        spec_next_tab(v)
    }
}

/// An up move: scrolling in the expanded and flat list views, grid row
/// movement on the grid; the same physical key scrolls on other tabs.
pub open spec fn spec_key_up(v: AppView) -> AppView {
    if v.current_tab == Tab::Processes {
        if v.category_expanded || v.show_all_processes {
            spec_scroll_up(v)
        } else {
            spec_move_category_up(v)
        }
    } else {
        spec_scroll_up(v)
    }
}

/// A down move, mirroring [`spec_key_up`].
pub open spec fn spec_key_down(v: AppView) -> AppView {
    if v.current_tab == Tab::Processes {
        if v.category_expanded || v.show_all_processes {
            spec_scroll_down(v)
        } else {
            spec_move_category_down(v)
        }
    } else {
        spec_scroll_down(v)
    }
}

/// A printable key outside command mode.
pub open spec fn spec_key_char(v: AppView, c: char, ctrl: bool) -> AppView {
    if c == 'q' || c == 'Q' {
        spec_quit(v)
    } else if c == 'c' && ctrl {
        spec_quit(v)
    } else if c == '?' {
        spec_toggle_help(v)
    } else if c == '1' {
        spec_select_tab(v, Tab::Overview)
    } else if c == '2' {
        spec_select_tab(v, Tab::Processes)
    } else if c == '3' {
        spec_select_tab(v, Tab::SystemInfo)
    } else if c == '4' {
        spec_select_tab(v, Tab::Vpn)
    } else if c == 's' {
        spec_cycle_process_sort(v)
    } else if c == 'o' {
        spec_toggle_sort_order(v)
    } else if c == '/' {
        if v.current_tab == Tab::Processes && !v.show_all_processes {
            spec_enter_command_mode(v)
        } else {
            v
        }
    } else if c == 'h' {
        spec_key_left(v)
    } else if c == 'l' {
        spec_key_right(v)
    } else if c == 'k' {
        spec_key_up(v)
    } else if c == 'j' {
        spec_key_down(v)
    } else {
        v
    }
}

/// The whole keyboard contract: what one key event does to the view state.
/// The help overlay swallows everything but its own exits, and command mode
/// routes keys into the buffer.
pub open spec fn spec_handle_key(v: AppView, key: Key, ctrl: bool) -> AppView {
    if v.show_help {
        match key {
            Key::Char(c) => if c == '?' || c == 'q' {
                spec_toggle_help(v)
            } else {
                v
            },
            Key::Esc => spec_toggle_help(v),
            _ => v,
        }
    } else if v.command_mode {
        match key {
            Key::Esc => spec_exit_command_mode(v),
            Key::Enter => spec_execute_command(v),
            Key::Backspace => spec_command_backspace(v),
            Key::Char(c) => spec_command_input_char(v, c),
            _ => v,
        }
    } else {
        match key {
            Key::Char(c) => spec_key_char(v, c, ctrl),
            Key::Tab => spec_next_tab(v),
            Key::BackTab => spec_previous_tab(v),
            Key::Enter => if v.current_tab == Tab::Processes {
                spec_toggle_category_expanded(v)
            } else {
                v
            },
            Key::Esc => if v.current_tab == Tab::Processes {
                if v.show_all_processes {
                    spec_exit_command_mode(v)
                } else if v.category_expanded {
                    spec_collapse_category(v)
                } else {
                    v
                }
            } else {
                v
            },
            Key::Left => spec_key_left(v),
            Key::Right => spec_key_right(v),
            Key::Up => spec_key_up(v),
            Key::Down => spec_key_down(v),
            Key::Backspace => v,
        }
    }
}

impl App {
    /// A fresh view state with the default location marker.
    pub fn new() -> (r: App)
        ensures
            r@ == AppView::initial("unknown"@),
            r@.wf(),
    {
        let r = App {
            should_quit: false,
            show_help: false,
            current_tab: Tab::Overview,
            process_sort: ProcessSort::Cpu,
            sort_ascending: false,
            process_scroll: 0,
            user_location: String::from_str("unknown"),
            selected_category: 0,
            category_expanded: false,
            command_mode: false,
            command_buffer: Vec::new(),
            show_all_processes: false,
        };
        assert(r@ =~= AppView::initial("unknown"@));
        r
    }

    /// A fresh view state carrying an explicit location hint; an empty hint
    /// falls back to the default marker.
    pub fn with_location(location: String) -> (r: App)
        ensures
            r@ == AppView::initial(
                if location@.len() == 0 {
                    "unknown"@
                } else {
                    location@
                },
            ),
            r@.wf(),
    {
        let mut r = App::new();
        if !location.as_str().is_empty() {
            r.user_location = location;
        }
        assert(r@ =~= AppView::initial(
            if location@.len() == 0 {
                "unknown"@
            } else {
                location@
            },
        ));
        r
    }

    pub fn quit(&mut self)
        ensures
            final(self)@ == spec_quit(old(self)@),
    {
        self.should_quit = true;
        assert(self@ =~= spec_quit(old(self)@));
    }

    pub fn toggle_help(&mut self)
        ensures
            final(self)@ == spec_toggle_help(old(self)@),
    {
        self.show_help = !self.show_help;
        assert(self@ =~= spec_toggle_help(old(self)@));
    }

    /// Jump straight to a given tab (number keys).
    pub fn select_tab(&mut self, t: Tab)
        ensures
            final(self)@ == spec_select_tab(old(self)@, t),
    {
        self.current_tab = t;
        self.process_scroll = 0;
        self.category_expanded = false;
        self.show_all_processes = false;
        assert(self@ =~= spec_select_tab(old(self)@, t));
    }

    pub fn next_tab(&mut self)
        ensures
            final(self)@ == spec_next_tab(old(self)@),
    {
        self.current_tab = self.current_tab.next();
        self.process_scroll = 0;
        self.category_expanded = false;
        self.show_all_processes = false;
        assert(self@ =~= spec_next_tab(old(self)@));
    }

    pub fn previous_tab(&mut self)
        ensures
            final(self)@ == spec_previous_tab(old(self)@),
    {
        self.current_tab = self.current_tab.previous();
        self.process_scroll = 0;
        self.category_expanded = false;
        self.show_all_processes = false;
        assert(self@ =~= spec_previous_tab(old(self)@));
    }

    pub fn toggle_category_expanded(&mut self)
        ensures
            final(self)@ == spec_toggle_category_expanded(old(self)@),
    {
        self.category_expanded = !self.category_expanded;
        self.process_scroll = 0;
        assert(self@ =~= spec_toggle_category_expanded(old(self)@));
    }

    pub fn collapse_category(&mut self)
        ensures
            final(self)@ == spec_collapse_category(old(self)@),
    {
        self.category_expanded = false;
        self.process_scroll = 0;
        assert(self@ =~= spec_collapse_category(old(self)@));
    }

    pub fn cycle_process_sort(&mut self)
        ensures
            final(self)@ == spec_cycle_process_sort(old(self)@),
    {
        self.process_sort = match self.process_sort {
            ProcessSort::Cpu => ProcessSort::Memory,
            ProcessSort::Memory => ProcessSort::Name,
            ProcessSort::Name => ProcessSort::Pid,
            ProcessSort::Pid => ProcessSort::Cpu,
        };
        assert(self@ =~= spec_cycle_process_sort(old(self)@));
    }

    pub fn toggle_sort_order(&mut self)
        ensures
            final(self)@ == spec_toggle_sort_order(old(self)@),
    {
        self.sort_ascending = !self.sort_ascending;
        assert(self@ =~= spec_toggle_sort_order(old(self)@));
    }

    pub fn scroll_up(&mut self)
        ensures
            final(self)@ == spec_scroll_up(old(self)@),
    {
        if self.process_scroll > 0 {
            self.process_scroll = self.process_scroll - 1;
        }
        assert(self@ =~= spec_scroll_up(old(self)@));
    }

    pub fn scroll_down(&mut self)
        ensures
            final(self)@ == spec_scroll_down(old(self)@),
    {
        if self.process_scroll < usize::MAX {
            self.process_scroll = self.process_scroll + 1;
        }
        assert(self@ =~= spec_scroll_down(old(self)@));
    }

    pub fn move_category_left(&mut self)
        ensures
            final(self)@ == spec_move_category_left(old(self)@),
    {
        if self.selected_category % 2 == 1 {
            self.selected_category = self.selected_category - 1;
        }
        self.process_scroll = 0;
        assert(self@ =~= spec_move_category_left(old(self)@));
    }

    pub fn move_category_right(&mut self)
        ensures
            final(self)@ == spec_move_category_right(old(self)@),
    {
        if self.selected_category % 2 == 0 {
            self.selected_category = self.selected_category + 1;
        }
        self.process_scroll = 0;
        assert(self@ =~= spec_move_category_right(old(self)@));
    }

    pub fn move_category_up(&mut self)
        ensures
            final(self)@ == spec_move_category_up(old(self)@),
    {
        if self.selected_category >= 2 {
            self.selected_category = self.selected_category - 2;
        }
        self.process_scroll = 0;
        assert(self@ =~= spec_move_category_up(old(self)@));
    }

    pub fn move_category_down(&mut self)
        ensures
            final(self)@ == spec_move_category_down(old(self)@),
    {
        if self.selected_category < 6 {
            self.selected_category = self.selected_category + 2;
        }
        self.process_scroll = 0;
        assert(self@ =~= spec_move_category_down(old(self)@));
    }

    pub fn enter_command_mode(&mut self)
        ensures
            final(self)@ == spec_enter_command_mode(old(self)@),
    {
        self.command_mode = true;
        self.command_buffer.clear();
        self.command_buffer.push('/');
        assert(self@ =~= spec_enter_command_mode(old(self)@));
    }

    pub fn exit_command_mode(&mut self)
        ensures
            final(self)@ == spec_exit_command_mode(old(self)@),
    {
        self.command_mode = false;
        self.command_buffer.clear();
        self.show_all_processes = false;
        assert(self@ =~= spec_exit_command_mode(old(self)@));
    }

    pub fn command_input_char(&mut self, c: char)
        ensures
            final(self)@ == spec_command_input_char(old(self)@, c),
    {
        self.command_buffer.push(c);
        assert(self@ =~= spec_command_input_char(old(self)@, c));
    }

    pub fn command_backspace(&mut self)
        ensures
            final(self)@ == spec_command_backspace(old(self)@),
    {
        if self.command_buffer.len() > 1 {
            self.command_buffer.pop();
        }
        assert(self@ =~= spec_command_backspace(old(self)@));
    }

    pub fn execute_command(&mut self)
        ensures
            final(self)@ == spec_execute_command(old(self)@),
    {
        let trimmed = trim_chars(&self.command_buffer);
        let cmd = lower_vec(&trimmed);
        let recognized = eq_chars(&cmd, &chars_of("/all"));
        if recognized {
            self.show_all_processes = true;
            self.command_mode = false;
            self.process_scroll = 0;
        } else {
            self.command_mode = false;
        }
        self.command_buffer.clear();
        assert(self@ =~= spec_execute_command(old(self)@));
    }

    /// The current navigation mode, for the renderer.
    pub fn navigation_mode(&self) -> (m: NavigationMode)
        ensures
            m == self@.navigation_mode(),
    {
        if self.show_all_processes {
            NavigationMode::AllProcessesFlat
        } else if self.category_expanded {
            NavigationMode::CategoryExpanded
        } else {
            NavigationMode::CategoryGrid
        }
    }

    /// Apply one key event to the view state.
    pub fn handle_key(&mut self, key: Key, ctrl: bool)
        ensures
            final(self)@ == spec_handle_key(old(self)@, key, ctrl),
    {
        if self.show_help {
            match key {
                Key::Char(c) => {
                    if c == '?' || c == 'q' {
                        self.toggle_help();
                    }
                },
                Key::Esc => {
                    self.toggle_help();
                },
                _ => {},
            }
            assert(self@ =~= spec_handle_key(old(self)@, key, ctrl));
            return;
        }
        if self.command_mode {
            match key {
                Key::Esc => {
                    self.exit_command_mode();
                },
                Key::Enter => {
                    self.execute_command();
                },
                Key::Backspace => {
                    self.command_backspace();
                },
                Key::Char(c) => {
                    self.command_input_char(c);
                },
                _ => {},
            }
            assert(self@ =~= spec_handle_key(old(self)@, key, ctrl));
            return;
        }
        match key {
            Key::Char(c) => {
                self.handle_char(c, ctrl);
            },
            Key::Tab => {
                self.next_tab();
            },
            Key::BackTab => {
                self.previous_tab();
            },
            Key::Enter => {
                if self.current_tab == Tab::Processes {
                    self.toggle_category_expanded();
                }
            },
            Key::Esc => {
                if self.current_tab == Tab::Processes {
                    if self.show_all_processes {
                        self.exit_command_mode();
                    } else if self.category_expanded {
                        self.collapse_category();
                    }
                }
            },
            Key::Left => {
                self.key_left();
            },
            Key::Right => {
                self.key_right();
            },
            Key::Up => {
                self.key_up();
            },
            Key::Down => {
                self.key_down();
            },
            Key::Backspace => {},
        }
        assert(self@ =~= spec_handle_key(old(self)@, key, ctrl));
    }

    fn key_left(&mut self)
        ensures
            final(self)@ == spec_key_left(old(self)@),
    {
        if self.current_tab == Tab::Processes {
            if !self.category_expanded && !self.show_all_processes {
                self.move_category_left();
            }
        } else {
            self.previous_tab();
        }
    }

    fn key_right(&mut self)
        ensures
            final(self)@ == spec_key_right(old(self)@),
    {
        if self.current_tab == Tab::Processes {
            if !self.category_expanded && !self.show_all_processes {
                self.move_category_right();
            }
        } else {
            self.next_tab();
        }
    }

    fn key_up(&mut self)
        ensures
            final(self)@ == spec_key_up(old(self)@),
    {
        if self.current_tab == Tab::Processes {
            if self.category_expanded || self.show_all_processes {
                self.scroll_up();
            } else {
                self.move_category_up();
            }
        } else {
            self.scroll_up();
        }
    }

    fn key_down(&mut self)
        ensures
            final(self)@ == spec_key_down(old(self)@),
    {
        if self.current_tab == Tab::Processes {
            if self.category_expanded || self.show_all_processes {
                self.scroll_down();
            } else {
                self.move_category_down();
            }
        } else {
            self.scroll_down();
        }
    }

    fn handle_char(&mut self, c: char, ctrl: bool)
        ensures
            final(self)@ == spec_key_char(old(self)@, c, ctrl),
    {
        if c == 'q' || c == 'Q' {
            self.quit();
        } else if c == 'c' && ctrl {
            self.quit();
        } else if c == '?' {
            self.toggle_help();
        } else if c == '1' {
            self.select_tab(Tab::Overview);
        } else if c == '2' {
            self.select_tab(Tab::Processes);
        } else if c == '3' {
            self.select_tab(Tab::SystemInfo);
        } else if c == '4' {
            self.select_tab(Tab::Vpn);
        } else if c == 's' {
            self.cycle_process_sort();
        } else if c == 'o' {
            self.toggle_sort_order();
        } else if c == '/' {
            if self.current_tab == Tab::Processes && !self.show_all_processes {
                self.enter_command_mode();
            }
        } else if c == 'h' {
            self.key_left();
        } else if c == 'l' {
            self.key_right();
        } else if c == 'k' {
            self.key_up();
        } else if c == 'j' {
            self.key_down();
        }
    }
}

impl Default for App {
    fn default() -> (r: App)
        ensures
            r@ == AppView::initial("unknown"@),
    {
        App::new()
    }
}

/// Grid navigation never leaves the selected index outside the eight
/// category cells, and the moves that would cross the grid's edge are
/// no-ops: left from the left column, right from the right column, up from
/// the top row, down from the bottom row.
pub proof fn lemma_grid_navigation_bounds(v: AppView)
    requires
        v.selected_category < 8,
    ensures
        spec_move_category_left(v).selected_category < 8,
        spec_move_category_right(v).selected_category < 8,
        spec_move_category_up(v).selected_category < 8,
        spec_move_category_down(v).selected_category < 8,
        v.selected_category % 2 == 0 ==> spec_move_category_left(v).selected_category
            == v.selected_category,
        v.selected_category % 2 == 1 ==> spec_move_category_right(v).selected_category
            == v.selected_category,
        v.selected_category < 2 ==> spec_move_category_up(v).selected_category
            == v.selected_category,
        v.selected_category >= 6 ==> spec_move_category_down(v).selected_category
            == v.selected_category,
{
}

/// Every transition documented to reset the scroll offset does so
/// unconditionally — grid moves even when they are no-ops, tab switches,
/// expanding and collapsing, and the recognized filter command.
pub proof fn lemma_scroll_reset_unconditional(v: AppView, t: Tab)
    ensures
        spec_move_category_left(v).process_scroll == 0,
        spec_move_category_right(v).process_scroll == 0,
        spec_move_category_up(v).process_scroll == 0,
        spec_move_category_down(v).process_scroll == 0,
        spec_select_tab(v, t).process_scroll == 0,
        spec_next_tab(v).process_scroll == 0,
        spec_previous_tab(v).process_scroll == 0,
        spec_toggle_category_expanded(v).process_scroll == 0,
        spec_collapse_category(v).process_scroll == 0,
        spec_normalized_command(v.command_buffer) == "/all"@ ==> spec_execute_command(
            v,
        ).process_scroll == 0,
{
}

/// Every tab switch — cycling with Tab/BackTab or jumping with a number
/// key — lands on the category grid: neither an expanded category nor the
/// flat view survives entering a tab.
pub proof fn lemma_tab_switch_forces_grid(v: AppView, t: Tab)
    ensures
        spec_select_tab(v, t).navigation_mode() == NavigationMode::CategoryGrid,
        spec_next_tab(v).navigation_mode() == NavigationMode::CategoryGrid,
        spec_previous_tab(v).navigation_mode() == NavigationMode::CategoryGrid,
{
}

/// The command buffer's length never drops below one while command mode is
/// active: backspace, repeated any number of times, keeps the leading
/// trigger character.
pub proof fn lemma_command_buffer_floor(v: AppView)
    requires
        v.wf(),
        v.command_mode,
    ensures
        spec_command_backspace(v).command_buffer.len() >= 1,
        spec_command_backspace(v).command_buffer[0] == '/',
        spec_command_backspace(v).command_mode,
        spec_command_backspace(v).wf(),
{
}

/// Executing the recognized filter command switches to the flat view;
/// any other buffer exits command mode without changing the navigation
/// mode.  The buffer is cleared and command mode left either way.
pub proof fn lemma_execute_command_outcome(v: AppView)
    ensures
        spec_normalized_command(v.command_buffer) == "/all"@ ==> spec_execute_command(
            v,
        ).navigation_mode() == NavigationMode::AllProcessesFlat,
        spec_normalized_command(v.command_buffer) != "/all"@ ==> spec_execute_command(
            v,
        ).navigation_mode() == v.navigation_mode(),
        spec_normalized_command(v.command_buffer) != "/all"@ ==> spec_execute_command(v).current_tab
            == v.current_tab && spec_execute_command(v).process_scroll == v.process_scroll,
        !spec_execute_command(v).command_mode,
        spec_execute_command(v).command_buffer.len() == 0,
{
}

/// Every key event keeps the view state well-formed.
pub proof fn lemma_handle_key_preserves_wf(v: AppView, key: Key, ctrl: bool)
    requires
        v.wf(),
    ensures
        spec_handle_key(v, key, ctrl).wf(),
{
}

} // verus!
