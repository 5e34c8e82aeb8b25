//! The terminal interface's state machine: tabs, selection, search and
//! confirmation, driven by key events. Scanning, executing plans and
//! describing the selected row are outside work; the state machine asks
//! for them with a `UiCommand`.
use crate::report::ExecutionReport;
use crate::text::{append_chars, append_str, chars_of, decimal, decimal_of, owned, string_of, views};
use crate::types::{Mode, PendingAction, Tab, ViewMode};
use vstd::prelude::*;

verus! {

/// A key press, as the interface distinguishes them.
#[derive(Debug, Clone, Copy, PartialEq, Eq, Structural)]
pub enum Key {
    Char(char),
    Tab,
    BackTab,
    Down,
    Up,
    Home,
    End,
    PageDown,
    PageUp,
    Enter,
    Esc,
    Backspace,
    Other,
}

/// Outside work the state machine asks for.
#[derive(Debug, Clone, Copy, PartialEq, Eq, Structural)]
pub enum UiCommand {
    Nothing,
    Scan,
    DescribeSelection,
    Execute(PendingAction),
}

/// Sizes of the current plans, for the confirmation prompts.
#[derive(Debug, Clone, Copy, PartialEq, Eq, Structural)]
pub struct PlanCounts {
    pub rename_total: usize,
    pub rename_blocked: usize,
    pub dedup_groups: usize,
    pub dedup_removals: usize,
    pub dedup_guarded: usize,
    pub organize_total: usize,
    pub organize_blocked: usize,
    pub organize_nfo: usize,
    pub organize_images: usize,
}

/// What the interface shows and where the user is.
pub struct AppState {
    pub tab: Tab,
    pub mode: Mode,
    pub selected: usize,
    pub scroll_offset: usize,
    pub search_query: String,
    pub status_msg: String,
    pub should_quit: bool,
    pub pending_action: Option<PendingAction>,
    pub view_mode: ViewMode,
}

pub open spec fn next_tab_spec(t: Tab) -> Tab {
    match t {
        Tab::Scan => Tab::Dedup,
        Tab::Dedup => Tab::Rename,
        Tab::Rename => Tab::Organize,
        Tab::Organize => Tab::Scan,
    }
}

pub open spec fn prev_tab_spec(t: Tab) -> Tab {
    match t {
        Tab::Scan => Tab::Organize,
        Tab::Dedup => Tab::Scan,
        Tab::Rename => Tab::Dedup,
        Tab::Organize => Tab::Rename,
    }
}

pub open spec fn toggled(v: ViewMode) -> ViewMode {
    match v {
        ViewMode::Table => ViewMode::Tree,
        ViewMode::Tree => ViewMode::Table,
    }
}

pub open spec fn view_mode_name(v: ViewMode) -> Seq<char> {
    match v {
        ViewMode::Table => "Table"@,
        ViewMode::Tree => "Tree"@,
    }
}

/// The scroll offset after the selection moved: never below the selection.
pub open spec fn scrolled(selected: usize, offset: usize) -> usize {
    if selected < offset {
        selected
    } else {
        offset
    }
}

pub open spec fn min_usize(a: int, b: int) -> int {
    if a < b {
        a
    } else {
        b
    }
}

/// Everything but the named fields is left as it was.
pub open spec fn same_but_nav(a: AppState, b: AppState) -> bool {
    &&& a.tab == b.tab
    &&& a.mode == b.mode
    &&& a.search_query@ == b.search_query@
    &&& a.status_msg@ == b.status_msg@
    &&& a.should_quit == b.should_quit
    &&& a.pending_action == b.pending_action
    &&& a.view_mode == b.view_mode
}

pub open spec fn confirm_rename_msg(total: usize, blocked: usize) -> Seq<char> {
    "Confirm rename: total="@ + decimal(total as nat) + " blocked="@ + decimal(blocked as nat)
        + " [Enter/y=yes, n/Esc=no]"@
}

pub open spec fn confirm_dedup_msg(removals: usize, guarded: usize) -> Seq<char> {
    "Confirm dedup: removals="@ + decimal(removals as nat) + " guarded_groups="@ + decimal(
        guarded as nat,
    ) + " [Enter/y=yes, n/Esc=no]"@
}

pub open spec fn confirm_organize_msg(
    total: usize,
    blocked: usize,
    nfo: usize,
    image: usize,
) -> Seq<char> {
    "Confirm organize: total="@ + decimal(total as nat) + " blocked="@ + decimal(blocked as nat)
        + " nfo="@ + decimal(nfo as nat) + " image="@ + decimal(image as nat)
        + " [Enter/y=yes, n/Esc=no]"@
}

fn push_num(v: &mut Vec<char>, n: usize)
    ensures
        final(v)@ == old(v)@ + decimal(n as nat),
{
    let d = decimal_of(n as u64);
    append_chars(v, d.as_slice());
}

impl AppState {
    /// The state before the first scan.
    pub fn new() -> (s: Self)
        ensures
            s.tab == Tab::Scan,
            s.mode == Mode::Normal,
            s.selected == 0,
            s.scroll_offset == 0,
            s.search_query@.len() == 0,
            s.status_msg@ == "Press 's' to scan, Tab to switch views, q to quit"@,
            !s.should_quit,
            s.pending_action is None,
            s.view_mode == ViewMode::Table,
    {
        AppState {
            tab: Tab::Scan,
            mode: Mode::Normal,
            selected: 0,
            scroll_offset: 0,
            search_query: String::new(),
            status_msg: owned("Press 's' to scan, Tab to switch views, q to quit"),
            should_quit: false,
            pending_action: None,
            view_mode: ViewMode::Table,
        }
    }

    /// The next tab, with the selection reset.
    pub fn next_tab(&mut self)
        ensures
            final(self).tab == next_tab_spec(old(self).tab),
            final(self).selected == 0,
            final(self).scroll_offset == 0,
            final(self).mode == old(self).mode,
            final(self).search_query@ == old(self).search_query@,
            final(self).status_msg@ == old(self).status_msg@,
            final(self).should_quit == old(self).should_quit,
            final(self).pending_action == old(self).pending_action,
            final(self).view_mode == old(self).view_mode,
    {
        self.tab = match self.tab {
            Tab::Scan => Tab::Dedup,
            Tab::Dedup => Tab::Rename,
            Tab::Rename => Tab::Organize,
            Tab::Organize => Tab::Scan,
        };
        self.selected = 0;
        self.scroll_offset = 0;
    }

    /// The previous tab, with the selection reset.
    pub fn prev_tab(&mut self)
        ensures
            final(self).tab == prev_tab_spec(old(self).tab),
            final(self).selected == 0,
            final(self).scroll_offset == 0,
            final(self).mode == old(self).mode,
            final(self).search_query@ == old(self).search_query@,
            final(self).status_msg@ == old(self).status_msg@,
            final(self).should_quit == old(self).should_quit,
            final(self).pending_action == old(self).pending_action,
            final(self).view_mode == old(self).view_mode,
    {
        self.tab = match self.tab {
            Tab::Scan => Tab::Organize,
            Tab::Dedup => Tab::Scan,
            Tab::Rename => Tab::Dedup,
            Tab::Organize => Tab::Rename,
        };
        self.selected = 0;
        self.scroll_offset = 0;
    }

    /// Jumps to a tab, with the selection reset.
    pub fn go_to_tab(&mut self, tab: Tab)
        ensures
            final(self).tab == tab,
            final(self).selected == 0,
            final(self).scroll_offset == 0,
            final(self).mode == old(self).mode,
            final(self).search_query@ == old(self).search_query@,
            final(self).status_msg@ == old(self).status_msg@,
            final(self).should_quit == old(self).should_quit,
            final(self).pending_action == old(self).pending_action,
            final(self).view_mode == old(self).view_mode,
    {
        self.tab = tab;
        self.selected = 0;
        self.scroll_offset = 0;
    }

    fn adjust_scroll(&mut self)
        ensures
            final(self).scroll_offset == scrolled(old(self).selected, old(self).scroll_offset),
            final(self).selected == old(self).selected,
            final(self).tab == old(self).tab,
            same_but_nav(*old(self), *final(self)),
    {
        if self.selected < self.scroll_offset {
            self.scroll_offset = self.selected;
        }
    }

    /// One row down, when there is one (`len` rows in the current list).
    pub fn select_next(&mut self, len: usize)
        ensures
            final(self).selected == (if len > 0 && old(self).selected < len - 1 {
                old(self).selected + 1
            } else {
                old(self).selected as int
            }),
            final(self).scroll_offset == (if len > 0 && old(self).selected < len - 1 {
                scrolled(final(self).selected, old(self).scroll_offset)
            } else {
                old(self).scroll_offset
            }),
            final(self).tab == old(self).tab,
            same_but_nav(*old(self), *final(self)),
    {
        if len > 0 && self.selected < len - 1 {
            self.selected = self.selected + 1;
            self.adjust_scroll();
        }
    }

    /// One row up, when there is one.
    pub fn select_prev(&mut self)
        ensures
            final(self).selected == (if old(self).selected > 0 {
                old(self).selected - 1
            } else {
                0
            }),
            final(self).scroll_offset == (if old(self).selected > 0 {
                scrolled(final(self).selected, old(self).scroll_offset)
            } else {
                old(self).scroll_offset
            }),
            final(self).tab == old(self).tab,
            same_but_nav(*old(self), *final(self)),
    {
        if self.selected > 0 {
            self.selected = self.selected - 1;
            self.adjust_scroll();
        }
    }

    /// The first row.
    pub fn select_first(&mut self)
        ensures
            final(self).selected == 0,
            final(self).scroll_offset == 0,
            final(self).tab == old(self).tab,
            same_but_nav(*old(self), *final(self)),
    {
        self.selected = 0;
        self.scroll_offset = 0;
    }

    /// The last row, when the list is not empty.
    pub fn select_last(&mut self, len: usize)
        ensures
            final(self).selected == (if len > 0 {
                len - 1
            } else {
                old(self).selected as int
            }),
            final(self).scroll_offset == (if len > 0 {
                scrolled(final(self).selected, old(self).scroll_offset)
            } else {
                old(self).scroll_offset
            }),
            final(self).tab == old(self).tab,
            same_but_nav(*old(self), *final(self)),
    {
        if len > 0 {
            self.selected = len - 1;
            self.adjust_scroll();
        }
    }

    /// `page_size` rows down, stopping at the last row.
    pub fn page_down(&mut self, page_size: usize, len: usize)
        requires
            old(self).selected + page_size <= usize::MAX,
        ensures
            final(self).selected == (if len > 0 {
                min_usize(old(self).selected + page_size, len - 1)
            } else {
                old(self).selected as int
            }),
            final(self).scroll_offset == (if len > 0 {
                scrolled(final(self).selected, old(self).scroll_offset)
            } else {
                old(self).scroll_offset
            }),
            final(self).tab == old(self).tab,
            same_but_nav(*old(self), *final(self)),
    {
        if len > 0 {
            let target = self.selected + page_size;
            self.selected = if target < len - 1 {
                target
            } else {
                len - 1
            };
            self.adjust_scroll();
        }
    }

    /// `page_size` rows up, stopping at the first row.
    pub fn page_up(&mut self, page_size: usize)
        ensures
            final(self).selected == (if old(self).selected >= page_size {
                old(self).selected - page_size
            } else {
                0
            }),
            final(self).scroll_offset == scrolled(final(self).selected, old(self).scroll_offset),
            final(self).tab == old(self).tab,
            same_but_nav(*old(self), *final(self)),
    {
        self.selected = if self.selected >= page_size {
            self.selected - page_size
        } else {
            0
        };
        self.adjust_scroll();
    }

    /// A new search, with the selection reset.
    pub fn set_search(&mut self, query: String)
        ensures
            final(self).search_query@ == query@,
            final(self).selected == 0,
            final(self).scroll_offset == 0,
            final(self).tab == old(self).tab,
            final(self).mode == old(self).mode,
            final(self).status_msg@ == old(self).status_msg@,
            final(self).should_quit == old(self).should_quit,
            final(self).pending_action == old(self).pending_action,
            final(self).view_mode == old(self).view_mode,
    {
        self.search_query = query;
        self.selected = 0;
        self.scroll_offset = 0;
    }

    /// Table and tree views swap; the selection goes back to the top.
    pub fn toggle_view(&mut self)
        ensures
            final(self).view_mode == toggled(old(self).view_mode),
            final(self).selected == 0,
            final(self).status_msg@ == "View: "@ + view_mode_name(final(self).view_mode),
            final(self).scroll_offset == old(self).scroll_offset,
            final(self).tab == old(self).tab,
            final(self).mode == old(self).mode,
            final(self).search_query@ == old(self).search_query@,
            final(self).should_quit == old(self).should_quit,
            final(self).pending_action == old(self).pending_action,
    {
        self.view_mode = match self.view_mode {
            ViewMode::Table => ViewMode::Tree,
            ViewMode::Tree => ViewMode::Table,
        };
        self.selected = 0;
        let mut v = chars_of("View: ");
        match self.view_mode {
            ViewMode::Table => append_str(&mut v, "Table"),
            ViewMode::Tree => append_str(&mut v, "Tree"),
        }
        self.status_msg = string_of(v.as_slice());
    }

    /// Drops the pending action.
    pub fn cancel_pending_action(&mut self)
        ensures
            final(self).pending_action is None,
            final(self).mode == Mode::Normal,
            final(self).status_msg@ == "Cancelled"@,
            final(self).tab == old(self).tab,
            final(self).selected == old(self).selected,
            final(self).scroll_offset == old(self).scroll_offset,
            final(self).search_query@ == old(self).search_query@,
            final(self).should_quit == old(self).should_quit,
            final(self).view_mode == old(self).view_mode,
    {
        self.pending_action = None;
        self.mode = Mode::Normal;
        self.status_msg = owned("Cancelled");
    }

    /// Asks to confirm executing the rename plans; with no plan, says so.
    pub fn request_rename_execute(&mut self, total: usize, blocked: usize)
        ensures
            total == 0 ==> final(self).status_msg@ == "No rename plans to execute"@
                && final(self).mode == old(self).mode && final(self).pending_action == old(
                self,
            ).pending_action,
            total > 0 ==> final(self).pending_action == Some(PendingAction::Rename)
                && final(self).mode == Mode::Confirm && final(self).status_msg@
                == confirm_rename_msg(total, blocked),
            final(self).tab == old(self).tab,
            final(self).selected == old(self).selected,
            final(self).scroll_offset == old(self).scroll_offset,
            final(self).search_query@ == old(self).search_query@,
            final(self).should_quit == old(self).should_quit,
            final(self).view_mode == old(self).view_mode,
    {
        if total == 0 {
            self.status_msg = owned("No rename plans to execute");
            return ;
        }
        self.pending_action = Some(PendingAction::Rename);
        self.mode = Mode::Confirm;
        let mut v = chars_of("Confirm rename: total=");
        push_num(&mut v, total);
        append_str(&mut v, " blocked=");
        push_num(&mut v, blocked);
        append_str(&mut v, " [Enter/y=yes, n/Esc=no]");
        self.status_msg = string_of(v.as_slice());
    }

    /// Asks to confirm the removals of the duplicate groups; with no group
    /// or nothing to remove, says so.
    pub fn request_dedup_execute(&mut self, groups: usize, removals: usize, guarded: usize)
        ensures
            groups == 0 ==> final(self).status_msg@ == "No duplicate groups to execute"@
                && final(self).mode == old(self).mode && final(self).pending_action == old(
                self,
            ).pending_action,
            groups > 0 && removals == 0 ==> final(self).status_msg@
                == "No duplicate items marked for removal"@ && final(self).mode == old(self).mode
                && final(self).pending_action == old(self).pending_action,
            groups > 0 && removals > 0 ==> final(self).pending_action == Some(PendingAction::Dedup)
                && final(self).mode == Mode::Confirm && final(self).status_msg@
                == confirm_dedup_msg(removals, guarded),
            final(self).tab == old(self).tab,
            final(self).selected == old(self).selected,
            final(self).scroll_offset == old(self).scroll_offset,
            final(self).search_query@ == old(self).search_query@,
            final(self).should_quit == old(self).should_quit,
            final(self).view_mode == old(self).view_mode,
    {
        if groups == 0 {
            self.status_msg = owned("No duplicate groups to execute");
            return ;
        }
        if removals == 0 {
            self.status_msg = owned("No duplicate items marked for removal");
            return ;
        }
        self.pending_action = Some(PendingAction::Dedup);
        self.mode = Mode::Confirm;
        let mut v = chars_of("Confirm dedup: removals=");
        push_num(&mut v, removals);
        append_str(&mut v, " guarded_groups=");
        push_num(&mut v, guarded);
        append_str(&mut v, " [Enter/y=yes, n/Esc=no]");
        self.status_msg = string_of(v.as_slice());
    }

    /// Asks to confirm executing the organize plans; with no plan, says so.
    pub fn request_organize_execute(
        &mut self,
        total: usize,
        blocked: usize,
        nfo: usize,
        image: usize,
    )
        ensures
            total == 0 ==> final(self).status_msg@ == "No organize plans to execute"@
                && final(self).mode == old(self).mode && final(self).pending_action == old(
                self,
            ).pending_action,
            total > 0 ==> final(self).pending_action == Some(PendingAction::Organize)
                && final(self).mode == Mode::Confirm && final(self).status_msg@
                == confirm_organize_msg(total, blocked, nfo, image),
            final(self).tab == old(self).tab,
            final(self).selected == old(self).selected,
            final(self).scroll_offset == old(self).scroll_offset,
            final(self).search_query@ == old(self).search_query@,
            final(self).should_quit == old(self).should_quit,
            final(self).view_mode == old(self).view_mode,
    {
        if total == 0 {
            self.status_msg = owned("No organize plans to execute");
            return ;
        }
        self.pending_action = Some(PendingAction::Organize);
        self.mode = Mode::Confirm;
        let mut v = chars_of("Confirm organize: total=");
        push_num(&mut v, total);
        append_str(&mut v, " blocked=");
        push_num(&mut v, blocked);
        append_str(&mut v, " nfo=");
        push_num(&mut v, nfo);
        append_str(&mut v, " image=");
        push_num(&mut v, image);
        append_str(&mut v, " [Enter/y=yes, n/Esc=no]");
        self.status_msg = string_of(v.as_slice());
    }

    /// Confirms: the pending action is taken for execution; with none,
    /// the interface says there is nothing to confirm.
    pub fn take_pending_action(&mut self) -> (a: Option<PendingAction>)
        ensures
            a == old(self).pending_action,
            final(self).pending_action is None,
            a is None ==> final(self).mode == Mode::Normal && final(self).status_msg@
                == "Nothing to confirm"@,
            a is Some ==> final(self).mode == old(self).mode && final(self).status_msg@ == old(
                self,
            ).status_msg@,
            final(self).tab == old(self).tab,
            final(self).selected == old(self).selected,
            final(self).scroll_offset == old(self).scroll_offset,
            final(self).search_query@ == old(self).search_query@,
            final(self).should_quit == old(self).should_quit,
            final(self).view_mode == old(self).view_mode,
    {
        let a = self.pending_action;
        self.pending_action = None;
        if a.is_none() {
            self.mode = Mode::Normal;
            self.status_msg = owned("Nothing to confirm");
        }
        a
    }

    /// After an execution: back to normal mode, showing its summary.
    pub fn finish_execution(&mut self, summary: String)
        ensures
            final(self).mode == Mode::Normal,
            final(self).status_msg@ == summary@,
            final(self).pending_action == old(self).pending_action,
            final(self).tab == old(self).tab,
            final(self).selected == old(self).selected,
            final(self).scroll_offset == old(self).scroll_offset,
            final(self).search_query@ == old(self).search_query@,
            final(self).should_quit == old(self).should_quit,
            final(self).view_mode == old(self).view_mode,
    {
        self.mode = Mode::Normal;
        self.status_msg = summary;
    }
}

// ---------------------------------------------------------------------------
// Key handling
// ---------------------------------------------------------------------------

/// The state of the interface as values.
pub struct UiModel {
    pub tab: Tab,
    pub mode: Mode,
    pub selected: usize,
    pub scroll_offset: usize,
    pub search_query: Seq<char>,
    pub status_msg: Seq<char>,
    pub should_quit: bool,
    pub pending_action: Option<PendingAction>,
    pub view_mode: ViewMode,
}

impl View for AppState {
    type V = UiModel;

    open spec fn view(&self) -> UiModel {
        UiModel {
            tab: self.tab,
            mode: self.mode,
            selected: self.selected,
            scroll_offset: self.scroll_offset,
            search_query: self.search_query@,
            status_msg: self.status_msg@,
            should_quit: self.should_quit,
            pending_action: self.pending_action,
            view_mode: self.view_mode,
        }
    }
}

/// The selection moved to `sel`, the scroll offset following it.
pub open spec fn moved_to(s: UiModel, sel: usize) -> UiModel {
    UiModel { selected: sel, scroll_offset: scrolled(sel, s.scroll_offset), ..s }
}

/// A tab shown afresh: selection and scroll back at the top.
pub open spec fn on_tab(s: UiModel, t: Tab) -> UiModel {
    UiModel { tab: t, selected: 0, scroll_offset: 0, ..s }
}

/// `request_rename_execute`: confirm mode for the rename plans, or a
/// message that there is none.
pub open spec fn rename_request(s: UiModel, total: usize, blocked: usize) -> UiModel {
    if total == 0 {
        UiModel { status_msg: "No rename plans to execute"@, ..s }
    } else {
        UiModel {
            pending_action: Some(PendingAction::Rename),
            mode: Mode::Confirm,
            status_msg: confirm_rename_msg(total, blocked),
            ..s
        }
    }
}

/// `request_dedup_execute`: confirm mode for the removals, or a message
/// that there is nothing to remove.
pub open spec fn dedup_request(s: UiModel, groups: usize, removals: usize, guarded: usize) -> UiModel {
    if groups == 0 {
        UiModel { status_msg: "No duplicate groups to execute"@, ..s }
    } else if removals == 0 {
        UiModel { status_msg: "No duplicate items marked for removal"@, ..s }
    } else {
        UiModel {
            pending_action: Some(PendingAction::Dedup),
            mode: Mode::Confirm,
            status_msg: confirm_dedup_msg(removals, guarded),
            ..s
        }
    }
}

/// `request_organize_execute`: confirm mode for the organize plans, or a
/// message that there is none.
pub open spec fn organize_request(
    s: UiModel,
    total: usize,
    blocked: usize,
    nfo: usize,
    image: usize,
) -> UiModel {
    if total == 0 {
        UiModel { status_msg: "No organize plans to execute"@, ..s }
    } else {
        UiModel {
            pending_action: Some(PendingAction::Organize),
            mode: Mode::Confirm,
            status_msg: confirm_organize_msg(total, blocked, nfo, image),
            ..s
        }
    }
}

/// `x`: execution is asked for on the Dedup, Rename and Organize tabs;
/// on the Scan tab nothing happens.
pub open spec fn execute_request(s: UiModel, counts: PlanCounts) -> UiModel {
    match s.tab {
        Tab::Rename => rename_request(s, counts.rename_total, counts.rename_blocked),
        Tab::Dedup => dedup_request(
            s,
            counts.dedup_groups,
            counts.dedup_removals,
            counts.dedup_guarded,
        ),
        Tab::Organize => organize_request(
            s,
            counts.organize_total,
            counts.organize_blocked,
            counts.organize_nfo,
            counts.organize_images,
        ),
        Tab::Scan => s,
    }
}

/// The state after one key in normal mode (`len` rows in the current
/// list); keys without a binding leave it as it is.
pub open spec fn normal_next(s: UiModel, key: Key, len: usize, counts: PlanCounts) -> UiModel {
    match key {
        Key::Char('q') => UiModel { should_quit: true, ..s },
        Key::Char('/') => UiModel {
            mode: Mode::Search,
            search_query: seq![],
            status_msg: "Search: (Esc to cancel)"@,
            ..s
        },
        Key::Tab => on_tab(s, next_tab_spec(s.tab)),
        Key::BackTab => on_tab(s, prev_tab_spec(s.tab)),
        Key::Down | Key::Char('j') => if len > 0 && s.selected < len - 1 {
            moved_to(s, (s.selected + 1) as usize)
        } else {
            s
        },
        Key::Up | Key::Char('k') => if s.selected > 0 {
            moved_to(s, (s.selected - 1) as usize)
        } else {
            s
        },
        Key::Home | Key::Char('g') => UiModel { selected: 0, scroll_offset: 0, ..s },
        Key::End | Key::Char('G') => if len > 0 {
            moved_to(s, (len - 1) as usize)
        } else {
            s
        },
        Key::PageDown => if len > 0 {
            moved_to(s, min_usize(s.selected + 20, len - 1) as usize)
        } else {
            s
        },
        Key::PageUp => moved_to(
            s,
            if s.selected >= 20 {
                (s.selected - 20) as usize
            } else {
                0
            },
        ),
        Key::Char('1') => on_tab(s, Tab::Scan),
        Key::Char('2') => on_tab(s, Tab::Dedup),
        Key::Char('3') => on_tab(s, Tab::Rename),
        Key::Char('4') => on_tab(s, Tab::Organize),
        Key::Char('v') => if s.tab == Tab::Scan {
            UiModel {
                view_mode: toggled(s.view_mode),
                selected: 0,
                status_msg: "View: "@ + view_mode_name(toggled(s.view_mode)),
                ..s
            }
        } else {
            s
        },
        Key::Char('x') => execute_request(s, counts),
        _ => s,
    }
}

/// The outside work a key in normal mode asks for.
pub open spec fn normal_command(key: Key) -> UiCommand {
    if key == Key::Char('s') {
        UiCommand::Scan
    } else if key == Key::Enter {
        UiCommand::DescribeSelection
    } else {
        UiCommand::Nothing
    }
}

/// The tab a digit key selects.
pub open spec fn digit_tab(c: char) -> Option<Tab> {
    if c == '1' {
        Some(Tab::Scan)
    } else if c == '2' {
        Some(Tab::Dedup)
    } else if c == '3' {
        Some(Tab::Rename)
    } else if c == '4' {
        Some(Tab::Organize)
    } else {
        None
    }
}

impl AppState {
    /// `handle_normal`: one key in normal mode. `len` is the number of rows
    /// in the current (filtered) list.
    pub fn handle_normal(&mut self, key: Key, len: usize, counts: &PlanCounts) -> (c: UiCommand)
        requires
            old(self).selected + 20 <= usize::MAX,
        ensures
            key == Key::Char('q') ==> final(self).should_quit && c == UiCommand::Nothing,
            key == Key::Char('s') ==> c == UiCommand::Scan,
            key == Key::Char('/') ==> final(self).mode == Mode::Search
                && final(self).search_query@.len() == 0 && final(self).status_msg@
                == "Search: (Esc to cancel)"@,
            key == Key::Tab ==> final(self).tab == next_tab_spec(old(self).tab)
                && final(self).selected == 0,
            key == Key::BackTab ==> final(self).tab == prev_tab_spec(old(self).tab)
                && final(self).selected == 0,
            (key == Key::Down || key == Key::Char('j')) ==> final(self).selected == (if len > 0
                && old(self).selected < len - 1 {
                old(self).selected + 1
            } else {
                old(self).selected as int
            }),
            (key == Key::Up || key == Key::Char('k')) ==> final(self).selected == (if old(
                self,
            ).selected > 0 {
                old(self).selected - 1
            } else {
                0
            }),
            (key == Key::Home || key == Key::Char('g')) ==> final(self).selected == 0,
            (key == Key::End || key == Key::Char('G')) ==> final(self).selected == (if len > 0 {
                len - 1
            } else {
                old(self).selected as int
            }),
            key == Key::PageDown ==> final(self).selected == (if len > 0 {
                min_usize(old(self).selected + 20, len - 1)
            } else {
                old(self).selected as int
            }),
            key == Key::PageUp ==> final(self).selected == (if old(self).selected >= 20 {
                old(self).selected - 20
            } else {
                0
            }),
            (key matches Key::Char(ch) && digit_tab(ch) is Some) ==> final(self).tab == digit_tab(
                key->Char_0,
            )->0 && final(self).selected == 0 && final(self).scroll_offset == 0,
            key == Key::Char('v') ==> (if old(self).tab == Tab::Scan {
                final(self).view_mode == toggled(old(self).view_mode)
            } else {
                final(self).view_mode == old(self).view_mode
            }),
            key == Key::Char('x') && old(self).tab == Tab::Rename && counts.rename_total > 0
                ==> final(self).pending_action == Some(PendingAction::Rename)
                && final(self).mode == Mode::Confirm,
            key == Key::Char('x') && old(self).tab == Tab::Dedup && counts.dedup_groups > 0
                && counts.dedup_removals > 0 ==> final(self).pending_action == Some(
                PendingAction::Dedup,
            ) && final(self).mode == Mode::Confirm,
            key == Key::Char('x') && old(self).tab == Tab::Organize && counts.organize_total > 0
                ==> final(self).pending_action == Some(PendingAction::Organize)
                && final(self).mode == Mode::Confirm,
            key == Key::Enter ==> c == UiCommand::DescribeSelection,
            key != Key::Char('s') && key != Key::Enter ==> c == UiCommand::Nothing,
            final(self)@ == normal_next(old(self)@, key, len, *counts),
            c == normal_command(key),
    {
        match key {
            Key::Char('q') => {
                self.should_quit = true;
                UiCommand::Nothing
            },
            Key::Char('s') => UiCommand::Scan,
            Key::Char('/') => {
                self.mode = Mode::Search;
                self.search_query = String::new();
                self.status_msg = owned("Search: (Esc to cancel)");
                UiCommand::Nothing
            },
            Key::Tab => {
                self.next_tab();
                UiCommand::Nothing
            },
            Key::BackTab => {
                self.prev_tab();
                UiCommand::Nothing
            },
            Key::Down | Key::Char('j') => {
                self.select_next(len);
                UiCommand::Nothing
            },
            Key::Up | Key::Char('k') => {
                self.select_prev();
                UiCommand::Nothing
            },
            Key::Home | Key::Char('g') => {
                self.select_first();
                UiCommand::Nothing
            },
            Key::End | Key::Char('G') => {
                self.select_last(len);
                UiCommand::Nothing
            },
            Key::PageDown => {
                self.page_down(20, len);
                UiCommand::Nothing
            },
            Key::PageUp => {
                self.page_up(20);
                UiCommand::Nothing
            },
            Key::Char('1') => {
                self.go_to_tab(Tab::Scan);
                UiCommand::Nothing
            },
            Key::Char('2') => {
                self.go_to_tab(Tab::Dedup);
                UiCommand::Nothing
            },
            Key::Char('3') => {
                self.go_to_tab(Tab::Rename);
                UiCommand::Nothing
            },
            Key::Char('4') => {
                self.go_to_tab(Tab::Organize);
                UiCommand::Nothing
            },
            Key::Char('v') => {
                if self.tab == Tab::Scan {
                    self.toggle_view();
                }
                UiCommand::Nothing
            },
            Key::Char('x') => {
                match self.tab {
                    Tab::Rename => self.request_rename_execute(
                        counts.rename_total,
                        counts.rename_blocked,
                    ),
                    Tab::Dedup => self.request_dedup_execute(
                        counts.dedup_groups,
                        counts.dedup_removals,
                        counts.dedup_guarded,
                    ),
                    Tab::Organize => self.request_organize_execute(
                        counts.organize_total,
                        counts.organize_blocked,
                        counts.organize_nfo,
                        counts.organize_images,
                    ),
                    Tab::Scan => {},
                }
                UiCommand::Nothing
            },
            Key::Enter => UiCommand::DescribeSelection,
            _ => UiCommand::Nothing,
        }
    }

    /// `handle_search`: one key while typing a search; `result_count` is
    /// the number of rows the query finds.
    pub fn handle_search(&mut self, key: Key, result_count: usize)
        ensures
            key == Key::Esc ==> final(self).mode == Mode::Normal
                && final(self).search_query@.len() == 0 && final(self).status_msg@
                == "Search cancelled"@,
            key == Key::Enter ==> final(self).mode == Mode::Normal && final(self).status_msg@
                == "Found "@ + decimal(result_count as nat) + " results"@
                && final(self).search_query@ == old(self).search_query@,
            key == Key::Backspace ==> final(self).search_query@ == (if old(
                self,
            ).search_query@.len() > 0 {
                old(self).search_query@.drop_last()
            } else {
                old(self).search_query@
            }) && final(self).mode == old(self).mode,
            key matches Key::Char(ch) ==> final(self).search_query@ == old(self).search_query@.push(
                ch,
            ) && final(self).mode == old(self).mode,
            final(self).tab == old(self).tab,
            final(self).selected == old(self).selected,
            final(self).scroll_offset == old(self).scroll_offset,
            final(self).pending_action == old(self).pending_action,
            final(self).view_mode == old(self).view_mode,
            final(self).should_quit == old(self).should_quit,
    {
        match key {
            Key::Esc => {
                self.mode = Mode::Normal;
                self.search_query = String::new();
                self.status_msg = owned("Search cancelled");
            },
            Key::Enter => {
                self.mode = Mode::Normal;
                let mut v = chars_of("Found ");
                push_num(&mut v, result_count);
                append_str(&mut v, " results");
                self.status_msg = string_of(v.as_slice());
            },
            Key::Backspace => {
                let mut q = chars_of(self.search_query.as_str());
                if q.len() > 0 {
                    q.pop();
                }
                self.search_query = string_of(q.as_slice());
            },
            Key::Char(c) => {
                self.search_query.push(c);
            },
            _ => {},
        }
    }

    /// `handle_confirm`: `y` or Enter takes the pending action for
    /// execution, `n` or Esc cancels it.
    pub fn handle_confirm(&mut self, key: Key) -> (c: UiCommand)
        ensures
            (key == Key::Char('y') || key == Key::Enter) ==> final(self).pending_action is None
                && (match old(self).pending_action {
                Some(a) => c == UiCommand::Execute(a),
                None => c == UiCommand::Nothing && final(self).mode == Mode::Normal
                    && final(self).status_msg@ == "Nothing to confirm"@,
            }),
            (key == Key::Char('n') || key == Key::Esc) ==> final(self).pending_action is None
                && final(self).mode == Mode::Normal && final(self).status_msg@ == "Cancelled"@
                && c == UiCommand::Nothing,
            !(key == Key::Char('y') || key == Key::Enter || key == Key::Char('n') || key
                == Key::Esc) ==> c == UiCommand::Nothing && final(self).pending_action == old(
                self,
            ).pending_action && final(self).mode == old(self).mode,
            final(self).tab == old(self).tab,
            final(self).selected == old(self).selected,
    {
        match key {
            Key::Char('y') | Key::Enter => match self.take_pending_action() {
                Some(a) => UiCommand::Execute(a),
                None => UiCommand::Nothing,
            },
            Key::Char('n') | Key::Esc => {
                self.cancel_pending_action();
                UiCommand::Nothing
            },
            _ => UiCommand::Nothing,
        }
    }
}

// ---------------------------------------------------------------------------
// Text panels
// ---------------------------------------------------------------------------

pub open spec fn enter_hint() -> Seq<char> {
    "Enter/y confirms execution; n/Esc cancels"@
}

/// The lines of the confirmation panel.
pub open spec fn confirm_lines_spec(pending: Option<PendingAction>, c: PlanCounts) -> Seq<
    Seq<char>,
> {
    match pending {
        Some(PendingAction::Rename) => seq![
            "Pending: Rename "@ + decimal(c.rename_total as nat) + " plans"@,
            "Ready: "@ + decimal(
                (if c.rename_total >= c.rename_blocked {
                    c.rename_total - c.rename_blocked
                } else {
                    0
                }) as nat,
            ),
            "Blocked: "@ + decimal(c.rename_blocked as nat),
            enter_hint(),
        ],
        Some(PendingAction::Dedup) => seq![
            "Pending: Dedup "@ + decimal(c.dedup_groups as nat) + " groups / "@ + decimal(
                c.dedup_removals as nat,
            ) + " removals"@,
            "Ready groups: "@ + decimal(
                (if c.dedup_groups >= c.dedup_guarded {
                    c.dedup_groups - c.dedup_guarded
                } else {
                    0
                }) as nat,
            ),
            "Guarded groups: "@ + decimal(c.dedup_guarded as nat),
            enter_hint(),
        ],
        Some(PendingAction::Organize) => seq![
            "Pending: Organize "@ + decimal(c.organize_total as nat) + " plans"@,
            "Ready: "@ + decimal(
                (if c.organize_total >= c.organize_blocked {
                    c.organize_total - c.organize_blocked
                } else {
                    0
                }) as nat,
            ),
            "Blocked: "@ + decimal(c.organize_blocked as nat),
            "Trusted assets: nfo="@ + decimal(c.organize_nfo as nat) + " image="@ + decimal(
                c.organize_images as nat,
            ),
            enter_hint(),
        ],
        None => seq!["Nothing to confirm"@],
    }
}

fn line_num(prefix: &str, n: usize, suffix: &str) -> (r: String)
    ensures
        r@ == prefix@ + decimal(n as nat) + suffix@,
{
    let mut v = chars_of(prefix);
    push_num(&mut v, n);
    append_str(&mut v, suffix);
    string_of(v.as_slice())
}

/// `App::confirm_lines` for the given pending action and plan sizes.
pub fn confirm_lines(pending: Option<PendingAction>, counts: &PlanCounts) -> (r: Vec<String>)
    ensures
        views(r@) == confirm_lines_spec(pending, *counts),
{
    proof {
        reveal_strlit("");
    }
    let r = match pending {
        Some(PendingAction::Rename) => {
            let ready = if counts.rename_total >= counts.rename_blocked {
                counts.rename_total - counts.rename_blocked
            } else {
                0
            };
            vec![
                line_num("Pending: Rename ", counts.rename_total, " plans"),
                line_num("Ready: ", ready, ""),
                line_num("Blocked: ", counts.rename_blocked, ""),
                owned("Enter/y confirms execution; n/Esc cancels"),
            ]
        },
        Some(PendingAction::Dedup) => {
            let ready = if counts.dedup_groups >= counts.dedup_guarded {
                counts.dedup_groups - counts.dedup_guarded
            } else {
                0
            };
            let mut first = chars_of("Pending: Dedup ");
            push_num(&mut first, counts.dedup_groups);
            append_str(&mut first, " groups / ");
            push_num(&mut first, counts.dedup_removals);
            append_str(&mut first, " removals");
            vec![
                string_of(first.as_slice()),
                line_num("Ready groups: ", ready, ""),
                line_num("Guarded groups: ", counts.dedup_guarded, ""),
                owned("Enter/y confirms execution; n/Esc cancels"),
            ]
        },
        Some(PendingAction::Organize) => {
            let ready = if counts.organize_total >= counts.organize_blocked {
                counts.organize_total - counts.organize_blocked
            } else {
                0
            };
            let mut assets = chars_of("Trusted assets: nfo=");
            push_num(&mut assets, counts.organize_nfo);
            append_str(&mut assets, " image=");
            push_num(&mut assets, counts.organize_images);
            vec![
                line_num("Pending: Organize ", counts.organize_total, " plans"),
                line_num("Ready: ", ready, ""),
                line_num("Blocked: ", counts.organize_blocked, ""),
                string_of(assets.as_slice()),
                owned("Enter/y confirms execution; n/Esc cancels"),
            ]
        },
        None => vec![owned("Nothing to confirm")],
    };
    assert(views(r@) =~= confirm_lines_spec(pending, *counts));
    r
}

/// The lines of the last-run panel: the summary, the operation, up to six
/// detail lines and how many more there are.
pub open spec fn last_report_lines_spec(report: Option<ExecutionReport>) -> Seq<Seq<char>> {
    match report {
        None => seq![],
        Some(r) => {
            let d = views(r.details@);
            seq![
                "Last Run: "@ + crate::report::summary_line_spec(r),
                "Operation: "@ + r.operation@,
            ] + d.take(if d.len() < 6 {
                d.len() as int
            } else {
                6
            }) + if d.len() > 6 {
                seq!["... "@ + decimal((d.len() - 6) as nat) + " more detail lines"@]
            } else {
                Seq::<Seq<char>>::empty()
            }
        },
    }
}

/// The lines showing the last execution in the detail pane.
pub fn last_report_lines(report: &Option<ExecutionReport>) -> (r: Vec<String>)
    ensures
        views(r@) == last_report_lines_spec(*report),
{
    let rep = match report {
        None => {
            let v: Vec<String> = Vec::new();
            assert(views(v@) =~= Seq::<Seq<char>>::empty());
            return v;
        },
        Some(r) => r,
    };
    let ghost d = views(rep.details@);
    let summary = rep.summary_line();
    let mut first = chars_of("Last Run: ");
    append_str(&mut first, summary.as_str());
    let mut second = chars_of("Operation: ");
    append_str(&mut second, rep.operation.as_str());
    let mut lines: Vec<String> = vec![string_of(first.as_slice()), string_of(second.as_slice())];
    let ghost head = seq![
        "Last Run: "@ + crate::report::summary_line_spec(*rep),
        "Operation: "@ + rep.operation@,
    ];
    assert(views(lines@) =~= head);
    let n = if rep.details.len() < 6 {
        rep.details.len()
    } else {
        6
    };
    let mut i: usize = 0;
    while i < n
        invariant
            i <= n,
            n <= rep.details.len(),
            d == views(rep.details@),
            views(lines@) == head + d.take(i as int),
        decreases n - i,
    {
        let ghost before = views(lines@);
        lines.push(owned(rep.details[i].as_str()));
        assert(d.take(i + 1) =~= d.take(i as int).push(rep.details@[i as int]@));
        assert(views(lines@) =~= before.push(rep.details@[i as int]@));
        i = i + 1;
    }
    if rep.details.len() > 6 {
        let ghost before = views(lines@);
        let extra = line_num("... ", rep.details.len() - 6, " more detail lines");
        lines.push(extra);
        assert(views(lines@) =~= before.push(
            "... "@ + decimal((d.len() - 6) as nat) + " more detail lines"@,
        ));
    } else {
        assert(views(lines@) =~= views(lines@) + Seq::<Seq<char>>::empty());
    }
    lines
}

// ---------------------------------------------------------------------------
// Search filters
// ---------------------------------------------------------------------------

pub open spec fn lower_name(path: Seq<char>) -> Seq<char> {
    match crate::paths::file_name_spec(path) {
        Some(n) => crate::text::lowercase_result(n),
        None => seq![],
    }
}

/// Whether an item answers a (lower-case) query: its file name, parsed
/// title or scraped title contains it, compared in lower case.
pub open spec fn item_matches(item: crate::media::MediaItem, q: Seq<char>) -> bool {
    crate::text::contains(lower_name(item.path@), q) || (match item.parsed {
        Some(p) => crate::text::contains(crate::text::lowercase_result(p.raw_title@), q),
        None => false,
    }) || (match item.scraped {
        Some(sc) => crate::text::contains(crate::text::lowercase_result(sc.title@), q),
        None => false,
    })
}

/// The positions of the items shown for a query, in order: all of them for
/// an empty query.
pub open spec fn filtered_upto(items: Seq<crate::media::MediaItem>, query: Seq<char>, n: nat) -> Seq<
    usize,
>
    decreases n,
{
    if n == 0 {
        seq![]
    } else {
        let rest = filtered_upto(items, query, (n - 1) as nat);
        if query.len() == 0 || item_matches(items[n - 1], crate::text::lowercase_result(query)) {
            rest.push((n - 1) as usize)
        } else {
            rest
        }
    }
}

fn item_matches_exec(item: &crate::media::MediaItem, q: &[char]) -> (r: bool)
    ensures
        r == item_matches(*item, q@),
{
    let name = match crate::paths::file_name(item.path.as_str()) {
        Some(n) => chars_of(crate::text::str_to_lowercase(n.as_str()).as_str()),
        None => Vec::new(),
    };
    if crate::text::contains_chars(name.as_slice(), q) {
        return true;
    }
    match &item.parsed {
        Some(p) => {
            let t = chars_of(crate::text::str_to_lowercase(p.raw_title.as_str()).as_str());
            if crate::text::contains_chars(t.as_slice(), q) {
                return true;
            }
        },
        None => {},
    }
    match &item.scraped {
        Some(sc) => {
            let t = chars_of(crate::text::str_to_lowercase(sc.title.as_str()).as_str());
            crate::text::contains_chars(t.as_slice(), q)
        },
        None => false,
    }
}

/// The positions of the items a search shows.
pub fn filtered_item_indices(items: &Vec<crate::media::MediaItem>, query: &str) -> (r: Vec<usize>)
    ensures
        r@ == filtered_upto(items@, query@, items.len() as nat),
{
    let q = chars_of(crate::text::str_to_lowercase(query).as_str());
    let empty = query.is_empty();
    let mut r: Vec<usize> = Vec::new();
    let mut i: usize = 0;
    while i < items.len()
        invariant
            i <= items.len(),
            empty == (query@.len() == 0),
            q@ == crate::text::lowercase_result(query@),
            r@ == filtered_upto(items@, query@, i as nat),
        decreases items.len() - i,
    {
        if empty || item_matches_exec(&items[i], q.as_slice()) {
            r.push(i);
        }
        i = i + 1;
    }
    r
}

/// Whether a pair of paths answers a (lower-case) query.
pub open spec fn paths_match(a: Seq<char>, b: Seq<char>, q: Seq<char>) -> bool {
    crate::text::contains(crate::text::lowercase_result(a), q) || crate::text::contains(
        crate::text::lowercase_result(b),
        q,
    )
}

pub open spec fn filtered_pairs_upto(pairs: Seq<(Seq<char>, Seq<char>)>, query: Seq<char>, n: nat) -> Seq<
    usize,
>
    decreases n,
{
    if n == 0 {
        seq![]
    } else {
        let rest = filtered_pairs_upto(pairs, query, (n - 1) as nat);
        if query.len() == 0 || paths_match(
            pairs[n - 1].0,
            pairs[n - 1].1,
            crate::text::lowercase_result(query),
        ) {
            rest.push((n - 1) as usize)
        } else {
            rest
        }
    }
}

/// The rename or organize plans a search shows, as the
/// positions of their (source, target) paths.
pub fn filtered_path_pairs(pairs: &Vec<(String, String)>, query: &str) -> (r: Vec<usize>)
    ensures
        r@ == filtered_pairs_upto(crate::rename::pair_views(pairs@), query@, pairs.len() as nat),
{
    let q = chars_of(crate::text::str_to_lowercase(query).as_str());
    let empty = query.is_empty();
    let ghost pv = crate::rename::pair_views(pairs@);
    let mut r: Vec<usize> = Vec::new();
    let mut i: usize = 0;
    while i < pairs.len()
        invariant
            i <= pairs.len(),
            pv == crate::rename::pair_views(pairs@),
            empty == (query@.len() == 0),
            q@ == crate::text::lowercase_result(query@),
            r@ == filtered_pairs_upto(pv, query@, i as nat),
        decreases pairs.len() - i,
    {
        let a = chars_of(crate::text::str_to_lowercase(pairs[i].0.as_str()).as_str());
        let b = chars_of(crate::text::str_to_lowercase(pairs[i].1.as_str()).as_str());
        assert(pv[i as int] == (pairs@[i as int].0@, pairs@[i as int].1@));
        if empty || crate::text::contains_chars(a.as_slice(), q.as_slice())
            || crate::text::contains_chars(b.as_slice(), q.as_slice()) {
            r.push(i);
        }
        i = i + 1;
    }
    r
}

/// A duplicate group as searched: its content id and the paths of its
/// members.
pub open spec fn group_views(groups: Seq<(String, Vec<String>)>) -> Seq<(Seq<char>, Seq<Seq<char>>)> {
    groups.map_values(|g: (String, Vec<String>)| (g.0@, views(g.1@)))
}

/// Whether a duplicate group answers a (lower-case) query: its content id,
/// or the file name of one of its members, contains it in lower case.
pub open spec fn group_matches(content_id: Seq<char>, members: Seq<Seq<char>>, q: Seq<char>) -> bool {
    crate::text::contains(crate::text::lowercase_result(content_id), q) || exists|j: int|
        0 <= j < members.len() && crate::text::contains(lower_name(#[trigger] members[j]), q)
}

/// The positions of the groups shown for a query, in order: all of them
/// for an empty query.
pub open spec fn filtered_groups_upto(
    groups: Seq<(Seq<char>, Seq<Seq<char>>)>,
    query: Seq<char>,
    n: nat,
) -> Seq<usize>
    decreases n,
{
    if n == 0 {
        seq![]
    } else {
        let rest = filtered_groups_upto(groups, query, (n - 1) as nat);
        if query.len() == 0 || group_matches(
            groups[n - 1].0,
            groups[n - 1].1,
            crate::text::lowercase_result(query),
        ) {
            rest.push((n - 1) as usize)
        } else {
            rest
        }
    }
}

fn lower_name_exec(path: &str) -> (r: Vec<char>)
    ensures
        r@ == lower_name(path@),
{
    match crate::paths::file_name(path) {
        Some(n) => chars_of(crate::text::str_to_lowercase(n.as_str()).as_str()),
        None => Vec::new(),
    }
}

fn group_matches_exec(content_id: &str, members: &Vec<String>, q: &[char]) -> (r: bool)
    ensures
        r == group_matches(content_id@, views(members@), q@),
{
    let id = chars_of(crate::text::str_to_lowercase(content_id).as_str());
    if crate::text::contains_chars(id.as_slice(), q) {
        return true;
    }
    let ghost mv = views(members@);
    let mut j: usize = 0;
    while j < members.len()
        invariant
            j <= members.len(),
            mv == views(members@),
            forall|k: int| 0 <= k < j ==> !crate::text::contains(lower_name(#[trigger] mv[k]), q@),
        decreases members.len() - j,
    {
        let name = lower_name_exec(members[j].as_str());
        assert(mv[j as int] == members@[j as int]@);
        if crate::text::contains_chars(name.as_slice(), q) {
            return true;
        }
        j = j + 1;
    }
    false
}

/// The duplicate groups a search shows, given each group's content id and
/// the paths of its members.
pub fn filtered_group_indices(groups: &Vec<(String, Vec<String>)>, query: &str) -> (r: Vec<usize>)
    ensures
        r@ == filtered_groups_upto(group_views(groups@), query@, groups.len() as nat),
{
    let q = chars_of(crate::text::str_to_lowercase(query).as_str());
    let empty = query.is_empty();
    let ghost gv = group_views(groups@);
    let mut r: Vec<usize> = Vec::new();
    let mut i: usize = 0;
    while i < groups.len()
        invariant
            i <= groups.len(),
            gv == group_views(groups@),
            empty == (query@.len() == 0),
            q@ == crate::text::lowercase_result(query@),
            r@ == filtered_groups_upto(gv, query@, i as nat),
        decreases groups.len() - i,
    {
        assert(gv[i as int] == (groups@[i as int].0@, views(groups@[i as int].1@)));
        if empty || group_matches_exec(groups[i].0.as_str(), &groups[i].1, q.as_slice()) {
            r.push(i);
        }
        i = i + 1;
    }
    r
}

// ---------------------------------------------------------------------------
// Laws
// ---------------------------------------------------------------------------

/// Moving to the next tab and back returns to the same tab; so does the
/// reverse.
pub proof fn lemma_tab_cycle(t: Tab)
    ensures
        prev_tab_spec(next_tab_spec(t)) == t,
        next_tab_spec(prev_tab_spec(t)) == t,
{
}

/// Four steps forward go round the four tabs.
pub proof fn lemma_tab_period(t: Tab)
    ensures
        next_tab_spec(next_tab_spec(next_tab_spec(next_tab_spec(t)))) == t,
{
}

/// Toggling the view twice restores it.
pub proof fn lemma_toggle_involution(v: ViewMode)
    ensures
        toggled(toggled(v)) == v,
{
}

/// Moving down, to the end or a page down keeps the selection inside a
/// non-empty list it started in, and the scroll offset never passes it.
pub proof fn lemma_selection_stays_in_list(selected: usize, offset: usize, len: usize, page: usize)
    requires
        selected < len,
        offset <= selected,
        selected + page <= usize::MAX,
    ensures
        (if selected < len - 1 {
            selected + 1
        } else {
            selected as int
        }) < len,
        min_usize(selected + page, len - 1) < len,
        scrolled(selected, offset) <= selected,
{
}


/// Rename plans with conflicts among the first `n`.
pub open spec fn rename_blocked_count(ps: Seq<crate::media::RenamePlan>, n: nat) -> nat
    decreases n,
{
    if n == 0 {
        0
    } else {
        rename_blocked_count(ps, (n - 1) as nat) + if ps[n - 1].conflicts@.len() > 0 {
            1nat
        } else {
            0nat
        }
    }
}

/// Copies marked for removal in the first `n` duplicate groups.
pub open spec fn dedup_removal_count(gs: Seq<crate::execute::DryRunGroup>, n: nat) -> nat
    decreases n,
{
    if n == 0 {
        0
    } else {
        dedup_removal_count(gs, (n - 1) as nat) + gs[n - 1].dropped@.len()
    }
}

/// Duplicate groups with guardrails among the first `n`.
pub open spec fn dedup_guarded_count(gs: Seq<crate::execute::DryRunGroup>, n: nat) -> nat
    decreases n,
{
    if n == 0 {
        0
    } else {
        dedup_guarded_count(gs, (n - 1) as nat) + if gs[n - 1].guardrails@.len() > 0 {
            1nat
        } else {
            0nat
        }
    }
}

/// Organize plans among the first `n` that are blocked, carry an NFO
/// document, and carry artwork.
pub open spec fn organize_counts(ps: Seq<crate::organize::OrganizePlan>, n: nat) -> (nat, nat, nat)
    decreases n,
{
    if n == 0 {
        (0, 0, 0)
    } else {
        let c = organize_counts(ps, (n - 1) as nat);
        let p = ps[n - 1];
        (
            c.0 + if p.conflicts@.len() > 0 {
                1nat
            } else {
                0nat
            },
            c.1 + if p.nfo_content is Some {
                1nat
            } else {
                0nat
            },
            c.2 + if p.image_urls@.len() > 0 {
                1nat
            } else {
                0nat
            },
        )
    }
}

/// The counts the confirmation prompts show, from the current plans and
/// duplicate groups (each group with its guardrails and the copies it
/// drops).
pub fn plan_counts(
    renames: &Vec<crate::media::RenamePlan>,
    groups: &Vec<crate::execute::DryRunGroup>,
    organizes: &Vec<crate::organize::OrganizePlan>,
) -> (r: PlanCounts)
    requires
        dedup_removal_count(groups@, groups.len() as nat) <= usize::MAX,
    ensures
        r.rename_total == renames.len(),
        r.rename_blocked == rename_blocked_count(renames@, renames.len() as nat),
        r.dedup_groups == groups.len(),
        r.dedup_removals == dedup_removal_count(groups@, groups.len() as nat),
        r.dedup_guarded == dedup_guarded_count(groups@, groups.len() as nat),
        r.organize_total == organizes.len(),
        r.organize_blocked == organize_counts(organizes@, organizes.len() as nat).0,
        r.organize_nfo == organize_counts(organizes@, organizes.len() as nat).1,
        r.organize_images == organize_counts(organizes@, organizes.len() as nat).2,
{
    let mut rb: usize = 0;
    let mut i: usize = 0;
    while i < renames.len()
        invariant
            i <= renames.len(),
            rb == rename_blocked_count(renames@, i as nat),
            rb <= i,
        decreases renames.len() - i,
    {
        if renames[i].conflicts.len() > 0 {
            rb = rb + 1;
        }
        i = i + 1;
    }
    let mut removals: usize = 0;
    let mut guarded: usize = 0;
    let mut k: usize = 0;
    while k < groups.len()
        invariant
            k <= groups.len(),
            removals == dedup_removal_count(groups@, k as nat),
            guarded == dedup_guarded_count(groups@, k as nat),
            guarded <= k,
            dedup_removal_count(groups@, groups.len() as nat) <= usize::MAX,
        decreases groups.len() - k,
    {
        proof {
            lemma_removal_count_mono(groups@, (k + 1) as nat, groups.len() as nat);
        }
        removals = removals + groups[k].dropped.len();
        if groups[k].guardrails.len() > 0 {
            guarded = guarded + 1;
        }
        k = k + 1;
    }
    let mut ob: usize = 0;
    let mut on: usize = 0;
    let mut oi: usize = 0;
    let mut j: usize = 0;
    while j < organizes.len()
        invariant
            j <= organizes.len(),
            (ob as nat, on as nat, oi as nat) == organize_counts(organizes@, j as nat),
            ob <= j && on <= j && oi <= j,
        decreases organizes.len() - j,
    {
        let p = &organizes[j];
        if p.conflicts.len() > 0 {
            ob = ob + 1;
        }
        if p.nfo_content.is_some() {
            on = on + 1;
        }
        if p.image_urls.len() > 0 {
            oi = oi + 1;
        }
        j = j + 1;
    }
    PlanCounts {
        rename_total: renames.len(),
        rename_blocked: rb,
        dedup_groups: groups.len(),
        dedup_removals: removals,
        dedup_guarded: guarded,
        organize_total: organizes.len(),
        organize_blocked: ob,
        organize_nfo: on,
        organize_images: oi,
    }
}

proof fn lemma_removal_count_mono(gs: Seq<crate::execute::DryRunGroup>, k: nat, m: nat)
    requires
        k <= m,
    ensures
        dedup_removal_count(gs, k) <= dedup_removal_count(gs, m),
    decreases m,
{
    if k < m {
        lemma_removal_count_mono(gs, k, (m - 1) as nat);
    }
}

} // verus!
