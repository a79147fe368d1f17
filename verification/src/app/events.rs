//! Keyboard and mouse input.

use vstd::prelude::*;
use crate::number::{all_digits, digit, is_digit, number_upto, parse_upto, value};
use crate::text::same;

verus! {

/// The part of the screen that has the focus.
#[derive(Debug, Clone, Copy, PartialEq, Eq, Structural)]
pub enum FocusArea {
    ActionBar,
    Content,
    PodStats,
}

/// What the program shows in front of everything else.
#[derive(Debug, Clone, Copy, PartialEq, Eq, Structural)]
pub enum AppMode {
    Normal,
    Input,
    Help,
    CommandPalette,
    OutputPopup,
    ConfirmDestroy,
    Diagnostics,
    Shell,
    SudoPassword,
    PodContextMenu,
}

/// An operation on the cluster as a whole.
#[derive(Debug, Clone, Copy, PartialEq, Eq, Structural)]
pub enum ClusterAction {
    Start,
    Stop,
    Restart,
    Destroy,
    Info,
    DeleteSnapshots,
    Diagnostics,
    PreflightCheck,
}

/// A key.
#[derive(Debug, Clone, Copy, PartialEq, Eq, Structural)]
pub enum Key {
    Char(char),
    Esc,
    Enter,
    Up,
    Down,
    Left,
    Right,
    PageUp,
    PageDown,
    Home,
    Backspace,
    Tab,
    BackTab,
    Other,
}

/// What the keybindings make of a key.
#[derive(Debug, Clone, Copy, PartialEq, Eq, Structural)]
pub enum KeyAction {
    Quit,
    Help,
    Refresh,
    CommandPalette,
    UpdateHosts,
    MoveUp,
    MoveDown,
    MoveLeft,
    MoveRight,
    ToggleFocus,
    Execute,
    CustomCommand,
    Cancel,
    Unbound,
}

/// A key press, with what the screen shows at that moment.
#[derive(Debug, Clone, Copy)]
pub struct KeyPress {
    pub code: Key,
    pub control: bool,
    pub action: KeyAction,
    /// A command is selected in the command palette.
    pub palette_selection: bool,
    /// An entry is selected in the pod's context menu.
    pub context_selection: bool,
    /// The key is the shortcut of an entry of the pod's context menu.
    pub context_shortcut: bool,
    /// The submit button of the input form has the focus.
    pub submit_focused: bool,
    /// The height of the pod list, where it has been laid out.
    pub pod_list_height: Option<u16>,
}

/// What a key makes the rest of the program do, in order.
#[derive(Debug, Clone, Copy)]
pub enum KeyEffect {
    CancelCommand,
    Warn(&'static str),
    Note(&'static str),
    ShowExecuting(bool),
    HelpReset,
    HelpUp,
    HelpDown,
    HelpPageUp(usize),
    HelpPageDown(usize),
    PopupUp,
    PopupDown(usize),
    PaletteReset,
    PaletteUp,
    PaletteDown,
    PaletteBackspace,
    PaletteChar(char),
    /// Record the selected palette command, close the palette and run the command.
    PaletteRun,
    /// Run the cluster action that was confirmed.
    RunClusterAction(ClusterAction),
    ContextReset,
    ContextUp,
    ContextDown,
    /// Run the context-menu entry that is selected, or the one whose shortcut was pressed.
    ContextRun,
    SearchEnter,
    SearchExit,
    SearchChar(char),
    /// Remove a character from the search text, and leave the search if nothing is left.
    SearchBackspace,
    MenuUp(usize),
    MenuDown(usize),
    MenuCollapse,
    MenuExpand,
    PodsUp(usize),
    PodsDown(usize, usize),
    ActionLeft,
    ActionRight,
    /// Do what Enter does on what is selected now.
    Activate,
    ShowResizeHint(i16),
    ShowCount,
    HideCount,
    CheckStatus,
    RefreshIngress,
    CheckMissingHosts,
    CheckPortForwards,
    ResetIngressTimers,
    UpdateHosts,
    RunCustomCommand,
    FormClear,
    FormNext,
    FormPrevious,
    FormLeft,
    FormRight,
    FormBackspace,
    FormSubmit,
    FormChar(char),
}

/// The state that keys read and change.
#[derive(Debug, Clone)]
pub struct InputState {
    pub mode: AppMode,
    pub focus: FocusArea,
    pub is_executing: bool,
    pub should_quit: bool,
    /// The digits typed so far before a movement.
    pub pending_count: String,
    /// A command runs that can be cancelled.
    pub cancellable: bool,
    pub menu_width_offset: i16,
    /// The menu is being searched.
    pub searching: bool,
    pub pending_cluster_action: Option<ClusterAction>,
    /// A command waits for the values of its form.
    pub pending_command: bool,
    pub password_input: String,
    pub sudo_password: String,
    pub pending_hosts_update: bool,
}

/// The model of [`InputState`].
pub struct InputView {
    pub mode: AppMode,
    pub focus: FocusArea,
    pub is_executing: bool,
    pub should_quit: bool,
    pub pending_count: Seq<char>,
    pub cancellable: bool,
    pub menu_width_offset: int,
    pub searching: bool,
    pub pending_cluster_action: Option<ClusterAction>,
    pub pending_command: bool,
    pub password_input: Seq<char>,
    pub sudo_password: Seq<char>,
    pub pending_hosts_update: bool,
}

impl View for InputState {
    type V = InputView;

    open spec fn view(&self) -> InputView {
        InputView {
            mode: self.mode,
            focus: self.focus,
            is_executing: self.is_executing,
            should_quit: self.should_quit,
            pending_count: self.pending_count@,
            cancellable: self.cancellable,
            menu_width_offset: self.menu_width_offset as int,
            searching: self.searching,
            pending_cluster_action: self.pending_cluster_action,
            pending_command: self.pending_command,
            password_input: self.password_input@,
            sudo_password: self.sudo_password@,
            pending_hosts_update: self.pending_hosts_update,
        }
    }
}

/// The adjustment of the menu's width stays in its range, and the count is made of digits.
pub open spec fn sane(st: InputView) -> bool {
    -20 <= st.menu_width_offset <= 40 && all_digits(st.pending_count)
}

/// The state with what it does.
pub type Step = (InputView, Seq<KeyEffect>);

// ---------------------------------------------------------------------------
// Modal keys
// ---------------------------------------------------------------------------

pub open spec fn cancel_step(st: InputView) -> Step {
    if st.cancellable {
        (
            InputView { cancellable: false, is_executing: false, ..st },
            seq![
                KeyEffect::CancelCommand,
                KeyEffect::Warn("Cancelling..."),
                KeyEffect::ShowExecuting(false),
            ],
        )
    } else {
        (InputView { should_quit: true, ..st }, seq![])
    }
}

pub open spec fn form_step(st: InputView, k: KeyPress) -> Step {
    match k.code {
        Key::Esc => (
            InputView { mode: AppMode::Normal, pending_command: false, ..st },
            seq![KeyEffect::FormClear, KeyEffect::Note("Input cancelled")],
        ),
        Key::Tab => (st, seq![KeyEffect::FormNext]),
        Key::BackTab => (st, seq![KeyEffect::FormPrevious]),
        Key::Up => (st, seq![KeyEffect::FormPrevious]),
        Key::Down => (st, seq![KeyEffect::FormNext]),
        Key::Left => (st, seq![KeyEffect::FormLeft]),
        Key::Right => (st, seq![KeyEffect::FormRight]),
        Key::Backspace => (st, seq![KeyEffect::FormBackspace]),
        Key::Enter => if k.submit_focused {
            (st, seq![KeyEffect::FormSubmit])
        } else {
            (st, seq![KeyEffect::FormNext])
        },
        Key::Char(c) => (st, seq![KeyEffect::FormChar(c)]),
        _ => (st, seq![]),
    }
}

pub open spec fn password_step(st: InputView, k: KeyPress) -> Step {
    match k.code {
        Key::Esc => (
            InputView {
                mode: AppMode::Normal,
                password_input: Seq::empty(),
                pending_hosts_update: false,
                ..st
            },
            seq![KeyEffect::Warn("Operation cancelled")],
        ),
        Key::Enter => (
            InputView {
                mode: AppMode::Normal,
                sudo_password: st.password_input,
                password_input: Seq::empty(),
                pending_hosts_update: false,
                ..st
            },
            if st.pending_hosts_update {
                seq![KeyEffect::UpdateHosts]
            } else {
                seq![]
            },
        ),
        Key::Backspace => (
            InputView {
                password_input: if st.password_input.len() > 0 {
                    st.password_input.drop_last()
                } else {
                    st.password_input
                },
                ..st
            },
            seq![],
        ),
        Key::Char(c) => (InputView { password_input: st.password_input.push(c), ..st }, seq![]),
        _ => (st, seq![]),
    }
}

/// How far a page of the help reaches.
pub open spec fn help_page(height: Option<u16>) -> usize {
    match height {
        Some(h) => if h >= 4 {
            (h - 4) as usize
        } else {
            0
        },
        None => 20,
    }
}

pub open spec fn help_step(st: InputView, k: KeyPress) -> Step {
    let page = help_page(k.pod_list_height);
    match k.code {
        Key::Esc => (InputView { mode: AppMode::Normal, ..st }, seq![KeyEffect::HelpReset]),
        Key::Char(c) => if c == '?' || c == 'q' {
            (InputView { mode: AppMode::Normal, ..st }, seq![KeyEffect::HelpReset])
        } else if c == 'k' {
            (st, seq![KeyEffect::HelpUp])
        } else if c == 'j' {
            (st, seq![KeyEffect::HelpDown])
        } else {
            (st, seq![])
        },
        Key::Up => (st, seq![KeyEffect::HelpUp]),
        Key::Down => (st, seq![KeyEffect::HelpDown]),
        Key::PageUp => (st, seq![KeyEffect::HelpPageUp(page)]),
        Key::PageDown => (st, seq![KeyEffect::HelpPageDown(page)]),
        Key::Home => (st, seq![KeyEffect::HelpReset]),
        _ => (st, seq![]),
    }
}

pub open spec fn popup_step(st: InputView, k: KeyPress) -> Step {
    match k.code {
        Key::Esc => (InputView { mode: AppMode::Normal, ..st }, seq![]),
        Key::Enter => (InputView { mode: AppMode::Normal, ..st }, seq![]),
        Key::Up => (st, seq![KeyEffect::PopupUp]),
        Key::Down => (st, seq![KeyEffect::PopupDown(20)]),
        Key::Char(c) => if c == 'q' {
            (InputView { mode: AppMode::Normal, ..st }, seq![])
        } else if c == 'k' {
            (st, seq![KeyEffect::PopupUp])
        } else if c == 'j' {
            (st, seq![KeyEffect::PopupDown(20)])
        } else {
            (st, seq![])
        },
        _ => (st, seq![]),
    }
}

pub open spec fn palette_step(st: InputView, k: KeyPress) -> Step {
    match k.code {
        Key::Esc => (InputView { mode: AppMode::Normal, ..st }, seq![KeyEffect::PaletteReset]),
        Key::Enter => if k.palette_selection {
            (InputView { mode: AppMode::Normal, ..st }, seq![KeyEffect::PaletteRun])
        } else {
            (st, seq![])
        },
        Key::Up => (st, seq![KeyEffect::PaletteUp]),
        Key::Down => (st, seq![KeyEffect::PaletteDown]),
        Key::Backspace => (st, seq![KeyEffect::PaletteBackspace]),
        Key::Char(c) => if k.control && (c == 'j' || c == 'n') {
            (st, seq![KeyEffect::PaletteDown])
        } else if k.control && (c == 'k' || c == 'p') {
            (st, seq![KeyEffect::PaletteUp])
        } else {
            (st, seq![KeyEffect::PaletteChar(c)])
        },
        _ => (st, seq![]),
    }
}

pub open spec fn confirm_step(st: InputView, k: KeyPress) -> Step {
    let cancelled = (
        InputView { mode: AppMode::Normal, pending_cluster_action: None, ..st },
        seq![KeyEffect::Note("Destroy cancelled")],
    );
    match k.code {
        Key::Esc => cancelled,
        Key::Char(c) => if c == 'y' || c == 'Y' {
            match st.pending_cluster_action {
                Some(a) => (
                    InputView {
                        mode: AppMode::OutputPopup,
                        pending_cluster_action: None,
                        is_executing: true,
                        cancellable: true,
                        ..st
                    },
                    seq![KeyEffect::RunClusterAction(a)],
                ),
                None => (st, seq![]),
            }
        } else if c == 'n' || c == 'N' {
            cancelled
        } else {
            (st, seq![])
        },
        _ => (st, seq![]),
    }
}

pub open spec fn context_step(st: InputView, k: KeyPress) -> Step {
    let closed = InputView { mode: AppMode::Normal, ..st };
    match k.code {
        Key::Esc => (closed, seq![KeyEffect::ContextReset]),
        Key::Up => (st, seq![KeyEffect::ContextUp]),
        Key::Down => (st, seq![KeyEffect::ContextDown]),
        Key::Enter => if k.context_selection {
            (closed, seq![KeyEffect::ContextRun])
        } else {
            (st, seq![])
        },
        Key::Char(c) => if c == 'q' {
            (closed, seq![KeyEffect::ContextReset])
        } else if c == 'k' {
            (st, seq![KeyEffect::ContextUp])
        } else if c == 'j' {
            (st, seq![KeyEffect::ContextDown])
        } else if k.context_shortcut {
            (closed, seq![KeyEffect::ContextRun])
        } else {
            (st, seq![])
        },
        _ => (st, seq![]),
    }
}

pub open spec fn search_step(st: InputView, k: KeyPress) -> Step {
    match k.code {
        Key::Esc => (InputView { searching: false, ..st }, seq![KeyEffect::SearchExit]),
        Key::Enter => (
            InputView { searching: false, ..st },
            seq![KeyEffect::SearchExit, KeyEffect::Activate],
        ),
        Key::Up => (st, seq![KeyEffect::MenuUp(1)]),
        Key::Down => (st, seq![KeyEffect::MenuDown(1)]),
        Key::Backspace => (st, seq![KeyEffect::SearchBackspace]),
        Key::Char(c) => if k.control && c == 'k' {
            (st, seq![KeyEffect::MenuUp(1)])
        } else if k.control && c == 'j' {
            (st, seq![KeyEffect::MenuDown(1)])
        } else {
            (st, seq![KeyEffect::SearchChar(c)])
        },
        _ => (st, seq![]),
    }
}

// ---------------------------------------------------------------------------
// Keys in normal mode
// ---------------------------------------------------------------------------

/// The movement count that the typed digits stand for: at least one, and one where they stand
/// for nothing.
pub open spec fn movement_count(digits: Seq<char>) -> nat {
    match number_upto(digits, usize::MAX as nat) {
        Some(n) => if n == 0 {
            1
        } else {
            n
        },
        None => 1,
    }
}

/// The area that follows in the cycle of the focus.
pub open spec fn next_focus(f: FocusArea) -> FocusArea {
    match f {
        FocusArea::ActionBar => FocusArea::Content,
        FocusArea::Content => FocusArea::PodStats,
        FocusArea::PodStats => FocusArea::ActionBar,
    }
}

/// How many pods are visible.
pub open spec fn visible_pods(height: Option<u16>) -> usize {
    match height {
        Some(h) => if h >= 2 {
            (h - 2) as usize
        } else {
            0
        },
        None => 20,
    }
}

/// The wider or narrower adjustment, kept in its range.
pub open spec fn adjusted(offset: int, by: int) -> int {
    if offset + by > 40 {
        40
    } else if offset + by < -20 {
        -20
    } else {
        offset + by
    }
}

/// What an action of the keybindings does, once the count is consumed.
pub open spec fn action_step(st: InputView, k: KeyPress, count: nat) -> Step {
    match k.action {
        KeyAction::Quit => (InputView { should_quit: true, ..st }, seq![]),
        KeyAction::Help => (InputView { mode: AppMode::Help, ..st }, seq![]),
        KeyAction::Refresh => (
            st,
            seq![
                KeyEffect::CheckStatus,
                KeyEffect::RefreshIngress,
                KeyEffect::CheckMissingHosts,
                KeyEffect::CheckPortForwards,
                KeyEffect::ResetIngressTimers,
            ],
        ),
        KeyAction::CommandPalette => (
            InputView { mode: AppMode::CommandPalette, ..st },
            seq![KeyEffect::PaletteReset],
        ),
        KeyAction::UpdateHosts => (
            InputView { mode: AppMode::OutputPopup, is_executing: true, ..st },
            seq![KeyEffect::UpdateHosts],
        ),
        KeyAction::MoveUp => (
            st,
            match st.focus {
                FocusArea::Content => seq![KeyEffect::MenuUp(count as usize)],
                FocusArea::PodStats => seq![KeyEffect::PodsUp(count as usize)],
                FocusArea::ActionBar => seq![],
            },
        ),
        KeyAction::MoveDown => (
            st,
            match st.focus {
                FocusArea::Content => seq![KeyEffect::MenuDown(count as usize)],
                FocusArea::PodStats => seq![
                    KeyEffect::PodsDown(count as usize, visible_pods(k.pod_list_height)),
                ],
                FocusArea::ActionBar => seq![],
            },
        ),
        KeyAction::MoveLeft => (
            st,
            match st.focus {
                FocusArea::ActionBar => seq![KeyEffect::ActionLeft],
                FocusArea::Content => seq![KeyEffect::MenuCollapse],
                FocusArea::PodStats => seq![],
            },
        ),
        KeyAction::MoveRight => (
            st,
            match st.focus {
                FocusArea::ActionBar => seq![KeyEffect::ActionRight],
                FocusArea::Content => seq![KeyEffect::MenuExpand],
                FocusArea::PodStats => seq![],
            },
        ),
        KeyAction::ToggleFocus => (InputView { focus: next_focus(st.focus), ..st }, seq![]),
        KeyAction::Execute => (st, seq![KeyEffect::Activate]),
        KeyAction::CustomCommand => (st, seq![KeyEffect::RunCustomCommand]),
        KeyAction::Cancel => (st, seq![]),
        KeyAction::Unbound => (st, seq![]),
    }
}

/// A slash starts a search of the menu, after whatever else it does.
pub open spec fn slash_step(s: Step, k: KeyPress) -> Step {
    if k.code == Key::Char('/') && s.0.focus == FocusArea::Content {
        (InputView { searching: true, ..s.0 }, s.1.push(KeyEffect::SearchEnter))
    } else {
        s
    }
}

/// Whether an action is a move that is made as often as a count says.
pub open spec fn is_counted(a: KeyAction) -> bool {
    a == KeyAction::MoveUp || a == KeyAction::MoveDown
}

/// The area that a single digit stands for, where no counted move follows it.
pub open spec fn picked_focus(digits: Seq<char>, focus: FocusArea) -> FocusArea {
    if digits == seq!['1'] {
        FocusArea::Content
    } else if digits == seq!['2'] {
        FocusArea::PodStats
    } else if digits == seq!['3'] {
        FocusArea::ActionBar
    } else {
        focus
    }
}

/// A key that is neither a digit of a count nor a shortcut of its own. A count that no counted
/// move follows picks an area: the key then acts in it.
pub open spec fn counted_step(st: InputView, k: KeyPress) -> Step {
    let focus = if is_counted(k.action) {
        st.focus
    } else {
        picked_focus(st.pending_count, st.focus)
    };
    let cleared = InputView { pending_count: Seq::empty(), focus, ..st };
    let s = action_step(cleared, k, movement_count(st.pending_count));
    slash_step((s.0, seq![KeyEffect::HideCount] + s.1), k)
}

pub open spec fn normal_step(st: InputView, k: KeyPress) -> Step {
    match k.code {
        Key::Char(c) => if c == '+' || c == '=' {
            let o = adjusted(st.menu_width_offset, 2);
            (
                InputView { menu_width_offset: o, ..st },
                seq![KeyEffect::ShowResizeHint(o as i16)],
            )
        } else if c == '-' || c == '_' {
            let o = adjusted(st.menu_width_offset, -2);
            (
                InputView { menu_width_offset: o, ..st },
                seq![KeyEffect::ShowResizeHint(o as i16)],
            )
        } else if digit(c) {
            (
                InputView { pending_count: st.pending_count.push(c), ..st },
                seq![KeyEffect::ShowCount],
            )
        } else {
            counted_step(st, k)
        },
        _ => counted_step(st, k),
    }
}

/// What a key press does.
pub open spec fn key_step(st: InputView, k: KeyPress) -> Step {
    if k.action == KeyAction::Quit && st.mode == AppMode::Normal {
        (InputView { should_quit: true, ..st }, seq![])
    } else if k.action == KeyAction::Cancel {
        cancel_step(st)
    } else if st.mode == AppMode::Input {
        form_step(st, k)
    } else if st.mode == AppMode::SudoPassword {
        password_step(st, k)
    } else if st.mode == AppMode::Help {
        help_step(st, k)
    } else if st.mode == AppMode::OutputPopup {
        popup_step(st, k)
    } else if st.mode == AppMode::CommandPalette {
        palette_step(st, k)
    } else if st.mode == AppMode::ConfirmDestroy {
        confirm_step(st, k)
    } else if st.mode == AppMode::PodContextMenu {
        context_step(st, k)
    } else if st.is_executing {
        (st, seq![])
    } else if st.searching && st.focus == FocusArea::Content {
        search_step(st, k)
    } else {
        normal_step(st, k)
    }
}

// ---------------------------------------------------------------------------
// Functions
// ---------------------------------------------------------------------------

fn nothing() -> (r: Vec<KeyEffect>)
    ensures
        r@ == Seq::<KeyEffect>::empty(),
{
    Vec::new()
}

fn just(e: KeyEffect) -> (r: Vec<KeyEffect>)
    ensures
        r@ == seq![e],
{
    let mut v: Vec<KeyEffect> = Vec::new();
    v.push(e);
    v
}

impl InputState {
    /// The state at the start of the program.
    pub fn new() -> (r: Self)
        ensures
            sane(r@),
            r@ == (InputView {
                mode: AppMode::Normal,
                focus: FocusArea::Content,
                is_executing: false,
                should_quit: false,
                pending_count: Seq::empty(),
                cancellable: false,
                menu_width_offset: 0,
                searching: false,
                pending_cluster_action: None,
                pending_command: false,
                password_input: Seq::empty(),
                sudo_password: Seq::empty(),
                pending_hosts_update: false,
            }),
    {
        InputState {
            mode: AppMode::Normal,
            focus: FocusArea::Content,
            is_executing: false,
            should_quit: false,
            pending_count: String::new(),
            cancellable: false,
            menu_width_offset: 0,
            searching: false,
            pending_cluster_action: None,
            pending_command: false,
            password_input: String::new(),
            sudo_password: String::new(),
            pending_hosts_update: false,
        }
    }

    fn on_cancel(&mut self) -> (r: Vec<KeyEffect>)
        ensures
            (final(self)@, r@) == cancel_step(old(self)@),
    {
        if self.cancellable {
            self.cancellable = false;
            self.is_executing = false;
            let mut v = just(KeyEffect::CancelCommand);
            v.push(KeyEffect::Warn("Cancelling..."));
            v.push(KeyEffect::ShowExecuting(false));
            v
        } else {
            self.should_quit = true;
            nothing()
        }
    }

    /// A key while the input form is open.
    pub fn handle_input_key(&mut self, k: &KeyPress) -> (r: Vec<KeyEffect>)
        ensures
            (final(self)@, r@) == form_step(old(self)@, *k),
    {
        match k.code {
            Key::Esc => {
                self.mode = AppMode::Normal;
                self.pending_command = false;
                let mut v = just(KeyEffect::FormClear);
                v.push(KeyEffect::Note("Input cancelled"));
                v
            },
            Key::Tab => just(KeyEffect::FormNext),
            Key::BackTab => just(KeyEffect::FormPrevious),
            Key::Up => just(KeyEffect::FormPrevious),
            Key::Down => just(KeyEffect::FormNext),
            Key::Left => just(KeyEffect::FormLeft),
            Key::Right => just(KeyEffect::FormRight),
            Key::Backspace => just(KeyEffect::FormBackspace),
            Key::Enter => if k.submit_focused {
                just(KeyEffect::FormSubmit)
            } else {
                just(KeyEffect::FormNext)
            },
            Key::Char(c) => just(KeyEffect::FormChar(c)),
            _ => nothing(),
        }
    }

    /// A key while the password for a privileged write is asked for.
    pub fn handle_sudo_password_key(&mut self, k: &KeyPress) -> (r: Vec<KeyEffect>)
        ensures
            (final(self)@, r@) == password_step(old(self)@, *k),
    {
        match k.code {
            Key::Esc => {
                self.mode = AppMode::Normal;
                self.password_input = String::new();
                self.pending_hosts_update = false;
                just(KeyEffect::Warn("Operation cancelled"))
            },
            Key::Enter => {
                self.sudo_password = self.password_input.clone();
                self.password_input = String::new();
                self.mode = AppMode::Normal;
                if self.pending_hosts_update {
                    self.pending_hosts_update = false;
                    just(KeyEffect::UpdateHosts)
                } else {
                    nothing()
                }
            },
            Key::Backspace => {
                let v = crate::text::chars_of(self.password_input.as_str());
                if v.len() > 0 {
                    self.password_input = crate::text::string_of_range(&v, 0, v.len() - 1);
                    assert(v@.subrange(0, v@.len() - 1) =~= v@.drop_last());
                }
                nothing()
            },
            Key::Char(c) => {
                self.password_input.push(c);
                nothing()
            },
            _ => nothing(),
        }
    }

    fn on_help_key(&mut self, k: &KeyPress) -> (r: Vec<KeyEffect>)
        ensures
            (final(self)@, r@) == help_step(old(self)@, *k),
    {
        let page: usize = match k.pod_list_height {
            Some(h) => if h >= 4 {
                (h - 4) as usize
            } else {
                0
            },
            None => 20,
        };
        match k.code {
            Key::Esc => {
                self.mode = AppMode::Normal;
                just(KeyEffect::HelpReset)
            },
            Key::Char(c) => if c == '?' || c == 'q' {
                self.mode = AppMode::Normal;
                just(KeyEffect::HelpReset)
            } else if c == 'k' {
                just(KeyEffect::HelpUp)
            } else if c == 'j' {
                just(KeyEffect::HelpDown)
            } else {
                nothing()
            },
            Key::Up => just(KeyEffect::HelpUp),
            Key::Down => just(KeyEffect::HelpDown),
            Key::PageUp => just(KeyEffect::HelpPageUp(page)),
            Key::PageDown => just(KeyEffect::HelpPageDown(page)),
            Key::Home => just(KeyEffect::HelpReset),
            _ => nothing(),
        }
    }

    fn on_popup_key(&mut self, k: &KeyPress) -> (r: Vec<KeyEffect>)
        ensures
            (final(self)@, r@) == popup_step(old(self)@, *k),
    {
        match k.code {
            Key::Esc => {
                self.mode = AppMode::Normal;
                nothing()
            },
            Key::Enter => {
                self.mode = AppMode::Normal;
                nothing()
            },
            Key::Up => just(KeyEffect::PopupUp),
            Key::Down => just(KeyEffect::PopupDown(20)),
            Key::Char(c) => if c == 'q' {
                self.mode = AppMode::Normal;
                nothing()
            } else if c == 'k' {
                just(KeyEffect::PopupUp)
            } else if c == 'j' {
                just(KeyEffect::PopupDown(20))
            } else {
                nothing()
            },
            _ => nothing(),
        }
    }

    fn on_palette_key(&mut self, k: &KeyPress) -> (r: Vec<KeyEffect>)
        ensures
            (final(self)@, r@) == palette_step(old(self)@, *k),
    {
        match k.code {
            Key::Esc => {
                self.mode = AppMode::Normal;
                just(KeyEffect::PaletteReset)
            },
            Key::Enter => if k.palette_selection {
                self.mode = AppMode::Normal;
                just(KeyEffect::PaletteRun)
            } else {
                nothing()
            },
            Key::Up => just(KeyEffect::PaletteUp),
            Key::Down => just(KeyEffect::PaletteDown),
            Key::Backspace => just(KeyEffect::PaletteBackspace),
            Key::Char(c) => if k.control && (c == 'j' || c == 'n') {
                just(KeyEffect::PaletteDown)
            } else if k.control && (c == 'k' || c == 'p') {
                just(KeyEffect::PaletteUp)
            } else {
                just(KeyEffect::PaletteChar(c))
            },
            _ => nothing(),
        }
    }

    /// The confirmation was given: the action that waits for it runs, if there is one.
    pub fn confirm_destroy(&mut self) -> (r: Vec<KeyEffect>)
        ensures
            match old(self).pending_cluster_action {
                Some(a) => {
                    &&& r@ == seq![KeyEffect::RunClusterAction(a)]
                    &&& final(self)@ == (InputView {
                        mode: AppMode::OutputPopup,
                        pending_cluster_action: None,
                        is_executing: true,
                        cancellable: true,
                        ..old(self)@
                    })
                },
                None => r@.len() == 0 && final(self)@ == old(self)@,
            },
    {
        match self.pending_cluster_action {
            Some(a) => {
                self.pending_cluster_action = None;
                self.mode = AppMode::OutputPopup;
                self.is_executing = true;
                self.cancellable = true;
                just(KeyEffect::RunClusterAction(a))
            },
            None => nothing(),
        }
    }

    /// The confirmation was refused.
    pub fn cancel_destroy(&mut self) -> (r: Vec<KeyEffect>)
        ensures
            r@ == seq![KeyEffect::Note("Destroy cancelled")],
            final(self)@ == (InputView {
                mode: AppMode::Normal,
                pending_cluster_action: None,
                ..old(self)@
            }),
    {
        self.pending_cluster_action = None;
        self.mode = AppMode::Normal;
        just(KeyEffect::Note("Destroy cancelled"))
    }

    fn on_confirm_key(&mut self, k: &KeyPress) -> (r: Vec<KeyEffect>)
        ensures
            (final(self)@, r@) == confirm_step(old(self)@, *k),
    {
        match k.code {
            Key::Esc => self.cancel_destroy(),
            Key::Char(c) => if c == 'y' || c == 'Y' {
                let r = self.confirm_destroy();
                assert(r@ =~= confirm_step(old(self)@, *k).1);
                r
            } else if c == 'n' || c == 'N' {
                self.cancel_destroy()
            } else {
                nothing()
            },
            _ => nothing(),
        }
    }

    fn on_context_key(&mut self, k: &KeyPress) -> (r: Vec<KeyEffect>)
        ensures
            (final(self)@, r@) == context_step(old(self)@, *k),
    {
        match k.code {
            Key::Esc => {
                self.mode = AppMode::Normal;
                just(KeyEffect::ContextReset)
            },
            Key::Up => just(KeyEffect::ContextUp),
            Key::Down => just(KeyEffect::ContextDown),
            Key::Enter => if k.context_selection {
                self.mode = AppMode::Normal;
                just(KeyEffect::ContextRun)
            } else {
                nothing()
            },
            Key::Char(c) => if c == 'q' {
                self.mode = AppMode::Normal;
                just(KeyEffect::ContextReset)
            } else if c == 'k' {
                just(KeyEffect::ContextUp)
            } else if c == 'j' {
                just(KeyEffect::ContextDown)
            } else if k.context_shortcut {
                self.mode = AppMode::Normal;
                just(KeyEffect::ContextRun)
            } else {
                nothing()
            },
            _ => nothing(),
        }
    }

    fn on_search_key(&mut self, k: &KeyPress) -> (r: Vec<KeyEffect>)
        ensures
            (final(self)@, r@) == search_step(old(self)@, *k),
    {
        match k.code {
            Key::Esc => {
                self.searching = false;
                just(KeyEffect::SearchExit)
            },
            Key::Enter => {
                self.searching = false;
                let mut v = just(KeyEffect::SearchExit);
                v.push(KeyEffect::Activate);
                v
            },
            Key::Up => just(KeyEffect::MenuUp(1)),
            Key::Down => just(KeyEffect::MenuDown(1)),
            Key::Backspace => just(KeyEffect::SearchBackspace),
            Key::Char(c) => if k.control && c == 'k' {
                just(KeyEffect::MenuUp(1))
            } else if k.control && c == 'j' {
                just(KeyEffect::MenuDown(1))
            } else {
                just(KeyEffect::SearchChar(c))
            },
            _ => nothing(),
        }
    }

    /// Moves the focus on to the next area.
    pub fn cycle_focus(&mut self)
        ensures
            final(self)@ == (InputView { focus: next_focus(old(self).focus), ..old(self)@ }),
    {
        self.focus = match self.focus {
            FocusArea::ActionBar => FocusArea::Content,
            FocusArea::Content => FocusArea::PodStats,
            FocusArea::PodStats => FocusArea::ActionBar,
        };
    }

    fn on_action(&mut self, k: &KeyPress, count: usize) -> (r: Vec<KeyEffect>)
        ensures
            (final(self)@, r@) == action_step(old(self)@, *k, count as nat),
    {
        match k.action {
            KeyAction::Quit => {
                self.should_quit = true;
                nothing()
            },
            KeyAction::Help => {
                self.mode = AppMode::Help;
                nothing()
            },
            KeyAction::Refresh => {
                let mut v = just(KeyEffect::CheckStatus);
                v.push(KeyEffect::RefreshIngress);
                v.push(KeyEffect::CheckMissingHosts);
                v.push(KeyEffect::CheckPortForwards);
                v.push(KeyEffect::ResetIngressTimers);
                v
            },
            KeyAction::CommandPalette => {
                self.mode = AppMode::CommandPalette;
                just(KeyEffect::PaletteReset)
            },
            KeyAction::UpdateHosts => {
                self.mode = AppMode::OutputPopup;
                self.is_executing = true;
                just(KeyEffect::UpdateHosts)
            },
            KeyAction::MoveUp => match self.focus {
                FocusArea::Content => just(KeyEffect::MenuUp(count)),
                FocusArea::PodStats => just(KeyEffect::PodsUp(count)),
                FocusArea::ActionBar => nothing(),
            },
            KeyAction::MoveDown => match self.focus {
                FocusArea::Content => just(KeyEffect::MenuDown(count)),
                FocusArea::PodStats => {
                    let visible: usize = match k.pod_list_height {
                        Some(h) => if h >= 2 {
                            (h - 2) as usize
                        } else {
                            0
                        },
                        None => 20,
                    };
                    just(KeyEffect::PodsDown(count, visible))
                },
                FocusArea::ActionBar => nothing(),
            },
            KeyAction::MoveLeft => match self.focus {
                FocusArea::ActionBar => just(KeyEffect::ActionLeft),
                FocusArea::Content => just(KeyEffect::MenuCollapse),
                FocusArea::PodStats => nothing(),
            },
            KeyAction::MoveRight => match self.focus {
                FocusArea::ActionBar => just(KeyEffect::ActionRight),
                FocusArea::Content => just(KeyEffect::MenuExpand),
                FocusArea::PodStats => nothing(),
            },
            KeyAction::ToggleFocus => {
                self.cycle_focus();
                nothing()
            },
            KeyAction::Execute => just(KeyEffect::Activate),
            KeyAction::CustomCommand => just(KeyEffect::RunCustomCommand),
            KeyAction::Cancel => nothing(),
            KeyAction::Unbound => nothing(),
        }
    }

    /// Moves the focus to the area that a single digit stands for.
    fn pick_area(&mut self)
        ensures
            final(self)@ == (InputView {
                focus: picked_focus(old(self).pending_count@, old(self).focus),
                ..old(self)@
            }),
    {
        proof {
            reveal_strlit("1");
            reveal_strlit("2");
            reveal_strlit("3");
            assert("1"@ =~= seq!['1'] && "2"@ =~= seq!['2'] && "3"@ =~= seq!['3']);
        }
        if same(self.pending_count.as_str(), "1") {
            self.focus = FocusArea::Content;
        } else if same(self.pending_count.as_str(), "2") {
            self.focus = FocusArea::PodStats;
        } else if same(self.pending_count.as_str(), "3") {
            self.focus = FocusArea::ActionBar;
        }
    }

    fn on_counted_key(&mut self, k: &KeyPress) -> (r: Vec<KeyEffect>)
        ensures
            (final(self)@, r@) == counted_step(old(self)@, *k),
    {
        let count: usize = match parse_upto(self.pending_count.as_str(), usize::MAX as u64) {
            Some(n) => if n == 0 {
                1
            } else {
                n as usize
            },
            None => 1,
        };
        if k.action != KeyAction::MoveUp && k.action != KeyAction::MoveDown {
            self.pick_area();
        }
        self.pending_count = String::new();
        assert(self.pending_count@ =~= Seq::<char>::empty());
        let mut rest = self.on_action(k, count);
        let mut v = just(KeyEffect::HideCount);
        v.append(&mut rest);
        if k.code == Key::Char('/') && self.focus == FocusArea::Content {
            self.searching = true;
            v.push(KeyEffect::SearchEnter);
        }
        v
    }

    fn on_normal_key(&mut self, k: &KeyPress) -> (r: Vec<KeyEffect>)
        requires
            sane(old(self)@),
        ensures
            (final(self)@, r@) == normal_step(old(self)@, *k),
    {
        if let Key::Char(c) = k.code {
            if c == '+' || c == '=' {
                let o: i16 = self.menu_width_offset + 2;
                self.menu_width_offset = if o > 40 {
                    40
                } else {
                    o
                };
                return just(KeyEffect::ShowResizeHint(self.menu_width_offset));
            }
            if c == '-' || c == '_' {
                let o: i16 = self.menu_width_offset - 2;
                self.menu_width_offset = if o < -20 {
                    -20
                } else {
                    o
                };
                return just(KeyEffect::ShowResizeHint(self.menu_width_offset));
            }
            if is_digit(c) {
                self.pending_count.push(c);
                return just(KeyEffect::ShowCount);
            }
        }
        self.on_counted_key(k)
    }

    /// What a key press does. Cancelling works in every mode; open dialogs take all other keys;
    /// while a command runs nothing else has an effect.
    pub fn handle_key(&mut self, k: &KeyPress) -> (r: Vec<KeyEffect>)
        requires
            sane(old(self)@),
        ensures
            (final(self)@, r@) == key_step(old(self)@, *k),
            sane(final(self)@),
    {
        proof {
            law_keys_keep_state_sane(self@, *k);
        }
        if k.action == KeyAction::Quit && self.mode == AppMode::Normal {
            self.should_quit = true;
            return nothing();
        }
        if k.action == KeyAction::Cancel {
            return self.on_cancel();
        }
        match self.mode {
            AppMode::Input => self.handle_input_key(k),
            AppMode::SudoPassword => self.handle_sudo_password_key(k),
            AppMode::Help => self.on_help_key(k),
            AppMode::OutputPopup => self.on_popup_key(k),
            AppMode::CommandPalette => self.on_palette_key(k),
            AppMode::ConfirmDestroy => self.on_confirm_key(k),
            AppMode::PodContextMenu => self.on_context_key(k),
            _ => {
                if self.is_executing {
                    return nothing();
                }
                if self.searching && self.focus == FocusArea::Content {
                    return self.on_search_key(k);
                }
                self.on_normal_key(k)
            },
        }
    }
}

// ---------------------------------------------------------------------------
// Laws
// ---------------------------------------------------------------------------

/// No key drives the menu's width out of its range or a letter into the count.
pub proof fn law_keys_keep_state_sane(st: InputView, k: KeyPress)
    requires
        sane(st),
    ensures
        sane(key_step(st, k).0),
{
    if let Key::Char(c) = k.code {
        assert(digit(c) ==> all_digits(st.pending_count.push(c)));
    }
}

/// Whether a state takes a key as one of the normal mode.
pub open spec fn takes_keys(st: InputView) -> bool {
    &&& st.mode == AppMode::Normal
    &&& !st.is_executing
    &&& !(st.searching && st.focus == FocusArea::Content)
}

/// The state after digits were typed, one after another.
pub open spec fn after_digits(st: InputView, keys: Seq<KeyPress>) -> InputView
    decreases keys.len(),
{
    if keys.len() == 0 {
        st
    } else {
        key_step(after_digits(st, keys.drop_last()), keys.last()).0
    }
}

/// Whether key presses type the digits of a text; what the keybindings make of them does not
/// matter, unless they quit or cancel.
pub open spec fn types(keys: Seq<KeyPress>, digits: Seq<char>) -> bool {
    &&& keys.len() == digits.len()
    &&& forall|i: int|
        0 <= i < keys.len() ==> (#[trigger] keys[i]).code == Key::Char(digits[i]) && keys[i].action
            != KeyAction::Quit && keys[i].action != KeyAction::Cancel
}

/// Typing digits changes nothing but the count.
proof fn lemma_digits_are_kept(st: InputView, keys: Seq<KeyPress>, digits: Seq<char>)
    requires
        takes_keys(st),
        st.pending_count.len() == 0,
        all_digits(digits),
        types(keys, digits),
    ensures
        after_digits(st, keys) == (InputView { pending_count: digits, ..st }),
    decreases keys.len(),
{
    if keys.len() == 0 {
        assert(digits =~= st.pending_count);
    } else {
        let before = digits.drop_last();
        assert forall|i: int| 0 <= i < before.len() implies digit(#[trigger] before[i]) by {
            assert(digit(digits[i]));
        }
        assert forall|i: int| 0 <= i < keys.len() - 1 implies (#[trigger] keys.drop_last()[i]).code
            == Key::Char(before[i]) && keys.drop_last()[i].action != KeyAction::Quit
            && keys.drop_last()[i].action != KeyAction::Cancel by {
            assert(keys[i].code == Key::Char(digits[i]));
        }
        lemma_digits_are_kept(st, keys.drop_last(), before);
        assert(keys.last() == keys[keys.len() - 1]);
        assert(digit(digits[digits.len() - 1]));
        assert(before.push(digits.last()) =~= digits);
    }
}

/// A number before a move up or down makes the move that often, wherever the focus is, and leaves
/// everything else as it was: three and `j` move the selection down by three.
pub proof fn law_counts_repeat_moves(
    st: InputView,
    keys: Seq<KeyPress>,
    digits: Seq<char>,
    k: KeyPress,
)
    requires
        takes_keys(st),
        st.pending_count.len() == 0,
        digits.len() > 0,
        all_digits(digits),
        0 < value(digits) <= usize::MAX,
        types(keys, digits),
        is_counted(k.action),
        k.code matches Key::Char(c) ==> !digit(c) && c != '+' && c != '=' && c != '-' && c != '_'
            && c != '/',
    ensures
        key_step(after_digits(st, keys), k).0 == st,
        key_step(after_digits(st, keys), k).1 == seq![KeyEffect::HideCount] + match (
            k.action,
            st.focus,
        ) {
            (KeyAction::MoveUp, FocusArea::Content) => seq![
                KeyEffect::MenuUp(value(digits) as usize),
            ],
            (KeyAction::MoveUp, FocusArea::PodStats) => seq![
                KeyEffect::PodsUp(value(digits) as usize),
            ],
            (KeyAction::MoveDown, FocusArea::Content) => seq![
                KeyEffect::MenuDown(value(digits) as usize),
            ],
            (KeyAction::MoveDown, FocusArea::PodStats) => seq![
                KeyEffect::PodsDown(value(digits) as usize, visible_pods(k.pod_list_height)),
            ],
            _ => seq![],
        },
{
    lemma_digits_are_kept(st, keys, digits);
    assert(digit(digits[0]));
    assert(crate::number::after_plus(digits) == digits);
    assert(st.pending_count =~= Seq::<char>::empty());
}

/// One, two or three without a move after it picks an area, in which the next key acts.
pub proof fn law_digits_pick_areas(st: InputView, d: KeyPress, k: KeyPress, c: char)
    requires
        takes_keys(st),
        st.pending_count.len() == 0,
        types(seq![d], seq![c]),
        digit(c),
        k.action == KeyAction::Execute,
        !(k.code is Char),
    ensures
        key_step(key_step(st, d).0, k).0.focus == picked_focus(seq![c], st.focus),
        key_step(key_step(st, d).0, k).0.pending_count.len() == 0,
        key_step(key_step(st, d).0, k).1 == seq![KeyEffect::HideCount, KeyEffect::Activate],
{
    assert(seq![d][0] == d && seq![c][0] == c);
    assert(st.pending_count.push(c) =~= seq![c]);
    assert(seq![KeyEffect::HideCount] + seq![KeyEffect::Activate] =~= seq![
        KeyEffect::HideCount,
        KeyEffect::Activate,
    ]);
}

/// While a command runs and no dialog is open, only cancelling and quitting do anything.
pub proof fn law_busy_ignores_keys(st: InputView, k: KeyPress)
    requires
        st.is_executing,
        st.mode == AppMode::Normal || st.mode == AppMode::Diagnostics || st.mode == AppMode::Shell,
        k.action != KeyAction::Cancel,
        k.action != KeyAction::Quit,
    ensures
        key_step(st, k).0 == st,
        key_step(st, k).1.len() == 0,
{
}

/// Escape closes every dialog.
pub proof fn law_escape_closes_dialogs(st: InputView, k: KeyPress)
    requires
        k.code == Key::Esc,
        k.action != KeyAction::Cancel,
        st.mode != AppMode::Normal,
        st.mode != AppMode::Diagnostics,
        st.mode != AppMode::Shell,
    ensures
        key_step(st, k).0.mode == AppMode::Normal,
        !key_step(st, k).0.should_quit || st.should_quit,
{
}

/// A cluster action runs only from its confirmation, and only the one that was asked about.
pub proof fn law_only_confirmed_actions_run(st: InputView, k: KeyPress, i: int, a: ClusterAction)
    requires
        0 <= i < key_step(st, k).1.len(),
        key_step(st, k).1[i] == KeyEffect::RunClusterAction(a),
    ensures
        st.mode == AppMode::ConfirmDestroy,
        st.pending_cluster_action == Some(a),
        k.code == Key::Char('y') || k.code == Key::Char('Y'),
        key_step(st, k).0.pending_cluster_action is None,
{
}

/// Three turns of the focus come back to where it was.
pub proof fn law_focus_cycles(f: FocusArea)
    ensures
        next_focus(next_focus(next_focus(f))) == f,
        next_focus(f) != f,
{
}

/// Cancelling ends a running command before it ends the program.
pub proof fn law_cancel_spares_the_program(st: InputView, k: KeyPress)
    requires
        k.action == KeyAction::Cancel,
        st.cancellable,
        !st.should_quit,
    ensures
        !key_step(st, k).0.should_quit,
        !key_step(st, k).0.is_executing,
        key_step(key_step(st, k).0, k).0.should_quit,
{
}

/// Nothing happens without the key that stands for it: of each effect, the key that it came from, and
/// what was in front when the key was pressed.
#[verifier::rlimit(60)]
pub proof fn law_effects_have_their_keys(st: InputView, k: KeyPress, i: int)
    requires
        0 <= i < key_step(st, k).1.len(),
    ensures
        match key_step(st, k).1[i] {
            KeyEffect::CancelCommand => k.action == KeyAction::Cancel && st.cancellable,
            KeyEffect::HelpReset => st.mode == AppMode::Help && (k.code == Key::Esc || k.code
                == Key::Home || k.code == Key::Char('?') || k.code == Key::Char('q')),
            KeyEffect::HelpUp => st.mode == AppMode::Help && (k.code == Key::Up || k.code
                == Key::Char('k')),
            KeyEffect::HelpDown => st.mode == AppMode::Help && (k.code == Key::Down || k.code
                == Key::Char('j')),
            KeyEffect::HelpPageUp(n) => st.mode == AppMode::Help && k.code == Key::PageUp && (
            k.pod_list_height matches Some(h) ==> n == if h > 4 {
                h - 4
            } else {
                0
            }),
            KeyEffect::HelpPageDown(n) => st.mode == AppMode::Help && k.code == Key::PageDown && (
            k.pod_list_height matches Some(h) ==> n == if h > 4 {
                h - 4
            } else {
                0
            }),
            KeyEffect::PopupUp => st.mode == AppMode::OutputPopup && (k.code == Key::Up || k.code
                == Key::Char('k')),
            KeyEffect::PopupDown(n) => st.mode == AppMode::OutputPopup && n == 20 && (k.code
                == Key::Down || k.code == Key::Char('j')),
            KeyEffect::PaletteUp => st.mode == AppMode::CommandPalette && (k.code == Key::Up || (
            k.control && (k.code == Key::Char('k') || k.code == Key::Char('p')))),
            KeyEffect::PaletteDown => st.mode == AppMode::CommandPalette && (k.code == Key::Down || (
            k.control && (k.code == Key::Char('j') || k.code == Key::Char('n')))),
            KeyEffect::PaletteBackspace => st.mode == AppMode::CommandPalette && k.code
                == Key::Backspace,
            KeyEffect::PaletteChar(c) => st.mode == AppMode::CommandPalette && k.code
                == Key::Char(c),
            KeyEffect::PaletteRun => st.mode == AppMode::CommandPalette && k.code == Key::Enter
                && k.palette_selection,
            KeyEffect::ContextUp => st.mode == AppMode::PodContextMenu && (k.code == Key::Up
                || k.code == Key::Char('k')),
            KeyEffect::ContextDown => st.mode == AppMode::PodContextMenu && (k.code == Key::Down
                || k.code == Key::Char('j')),
            KeyEffect::ContextRun => st.mode == AppMode::PodContextMenu && (k.code == Key::Enter
                && k.context_selection || k.code is Char && k.context_shortcut),
            KeyEffect::SearchEnter => k.code == Key::Char('/') && st.mode != AppMode::Input
                && !st.is_executing,
            KeyEffect::SearchExit => st.searching && (k.code == Key::Esc || k.code == Key::Enter),
            KeyEffect::SearchChar(c) => st.searching && k.code == Key::Char(c),
            KeyEffect::SearchBackspace => st.searching && k.code == Key::Backspace,
            KeyEffect::MenuUp(n) => !st.is_executing && (k.action == KeyAction::MoveUp
                || st.searching && n == 1),
            KeyEffect::MenuDown(n) => !st.is_executing && (k.action == KeyAction::MoveDown
                || st.searching && n == 1),
            KeyEffect::MenuCollapse => k.action == KeyAction::MoveLeft && !st.is_executing,
            KeyEffect::MenuExpand => k.action == KeyAction::MoveRight && !st.is_executing,
            KeyEffect::PodsUp(n) => k.action == KeyAction::MoveUp && st.focus == FocusArea::PodStats,
            KeyEffect::PodsDown(n, page) => k.action == KeyAction::MoveDown && st.focus
                == FocusArea::PodStats && (k.pod_list_height matches Some(h) ==> page == if h > 2 {
                h - 2
            } else {
                0
            }),
            KeyEffect::ActionLeft => k.action == KeyAction::MoveLeft && !st.is_executing,
            KeyEffect::ActionRight => k.action == KeyAction::MoveRight && !st.is_executing,
            KeyEffect::Activate => !st.is_executing && (k.action == KeyAction::Execute
                || st.searching && k.code == Key::Enter),
            KeyEffect::ShowCount => k.code matches Key::Char(c) && '0' <= c <= '9',
            KeyEffect::UpdateHosts => (k.action == KeyAction::UpdateHosts && !st.is_executing) || (
            st.mode == AppMode::SudoPassword && k.code == Key::Enter && st.pending_hosts_update),
            KeyEffect::RunCustomCommand => k.action == KeyAction::CustomCommand && !st.is_executing,
            KeyEffect::CheckStatus => k.action == KeyAction::Refresh,
            KeyEffect::RefreshIngress => k.action == KeyAction::Refresh,
            KeyEffect::CheckMissingHosts => k.action == KeyAction::Refresh,
            KeyEffect::CheckPortForwards => k.action == KeyAction::Refresh,
            KeyEffect::ResetIngressTimers => k.action == KeyAction::Refresh,
            KeyEffect::FormClear => st.mode == AppMode::Input && k.code == Key::Esc,
            KeyEffect::FormNext => st.mode == AppMode::Input && (k.code == Key::Tab || k.code
                == Key::Down || k.code == Key::Enter && !k.submit_focused),
            KeyEffect::FormPrevious => st.mode == AppMode::Input && (k.code == Key::BackTab || k.code
                == Key::Up),
            KeyEffect::FormLeft => st.mode == AppMode::Input && k.code == Key::Left,
            KeyEffect::FormRight => st.mode == AppMode::Input && k.code == Key::Right,
            KeyEffect::FormBackspace => st.mode == AppMode::Input && k.code == Key::Backspace,
            KeyEffect::FormSubmit => st.mode == AppMode::Input && k.code == Key::Enter
                && k.submit_focused,
            KeyEffect::FormChar(c) => st.mode == AppMode::Input && k.code == Key::Char(c),
            _ => true,
        },
{
}

/// A key that an open dialog knows has its effect there, whatever the keybindings make of it.
pub proof fn law_dialogs_answer_their_keys(st: InputView, k: KeyPress)
    requires
        k.action != KeyAction::Cancel,
    ensures
        st.mode == AppMode::Input && (k.code is Char || k.code == Key::Enter || k.code == Key::Tab
            || k.code == Key::BackTab || k.code == Key::Up || k.code == Key::Down || k.code
            == Key::Left || k.code == Key::Right || k.code == Key::Backspace) ==> key_step(
            st,
            k,
        ).1.len() == 1 && key_step(st, k).0 == st,
        st.mode == AppMode::Help && (k.code == Key::Up || k.code == Key::Down || k.code
            == Key::PageUp || k.code == Key::PageDown || k.code == Key::Home) ==> key_step(
            st,
            k,
        ).1.len() == 1 && key_step(st, k).0 == st,
        st.mode == AppMode::OutputPopup && (k.code == Key::Up || k.code == Key::Down || k.code
            == Key::Char('k') || k.code == Key::Char('j')) ==> key_step(st, k).1.len() == 1
            && key_step(st, k).0 == st,
        st.mode == AppMode::OutputPopup && (k.code == Key::Enter || k.code == Key::Char('q'))
            ==> key_step(st, k).0 == (InputView { mode: AppMode::Normal, ..st }),
        st.mode == AppMode::CommandPalette && (k.code == Key::Up || k.code == Key::Down || k.code
            == Key::Backspace || k.code is Char) ==> key_step(st, k).1.len() == 1 && key_step(st, k).0
            == st,
        st.mode == AppMode::CommandPalette && k.code == Key::Enter && k.palette_selection
            ==> key_step(st, k).1.len() == 1 && key_step(st, k).0.mode == AppMode::Normal,
        st.mode == AppMode::PodContextMenu && (k.code == Key::Up || k.code == Key::Down)
            ==> key_step(st, k).1.len() == 1 && key_step(st, k).0 == st,
        st.mode == AppMode::PodContextMenu && k.code == Key::Enter && k.context_selection
            ==> key_step(st, k).1.len() == 1 && key_step(st, k).0.mode == AppMode::Normal,
        st.mode == AppMode::ConfirmDestroy && (k.code == Key::Char('y') || k.code == Key::Char(
            'Y',
        )) && st.pending_cluster_action is Some ==> key_step(st, k).1.len() == 1 && key_step(
            st,
            k,
        ).0.is_executing && key_step(st, k).0.cancellable,
        st.mode == AppMode::ConfirmDestroy && (k.code == Key::Char('n') || k.code == Key::Char(
            'N',
        )) ==> key_step(st, k).0.pending_cluster_action is None && key_step(st, k).0.mode
            == AppMode::Normal,
{
}

/// What is typed is the password: a character is added, taken back by a backspace, and the enter key
/// hands the whole of it over and leaves nothing behind.
pub proof fn law_passwords_are_typed(st: InputView, k: KeyPress, back: KeyPress, done: KeyPress, c: char)
    requires
        st.mode == AppMode::SudoPassword,
        k.code == Key::Char(c),
        back.code == Key::Backspace,
        done.code == Key::Enter,
        k.action != KeyAction::Cancel,
        back.action != KeyAction::Cancel,
        done.action != KeyAction::Cancel,
    ensures
        key_step(st, k).0.password_input == st.password_input.push(c),
        key_step(key_step(st, k).0, back).0 == st,
        key_step(st, done).0.sudo_password == st.password_input,
        key_step(st, done).0.password_input.len() == 0,
        key_step(st, done).0.mode == AppMode::Normal,
        st.pending_hosts_update ==> key_step(st, done).1 == seq![KeyEffect::UpdateHosts],
        !key_step(st, done).0.pending_hosts_update,
{
    assert(st.password_input.push(c).drop_last() =~= st.password_input);
}

/// Escape forgets what was typed of a password and keeps the one that there was.
pub proof fn law_escape_forgets_the_password(st: InputView, k: KeyPress)
    requires
        st.mode == AppMode::SudoPassword,
        k.code == Key::Esc,
        k.action != KeyAction::Cancel,
    ensures
        key_step(st, k).0.password_input.len() == 0,
        key_step(st, k).0.sudo_password == st.sudo_password,
        !key_step(st, k).0.pending_hosts_update,
        forall|i: int|
            0 <= i < key_step(st, k).1.len() ==> key_step(st, k).1[i] != KeyEffect::UpdateHosts,
{
}

/// Plus makes the menu two wider and minus two narrower, as far as it goes; the one takes back the
/// other.
pub proof fn law_menu_width_goes_by_twos(st: InputView, plus: KeyPress, minus: KeyPress)
    requires
        takes_keys(st),
        sane(st),
        plus.code == Key::Char('+') || plus.code == Key::Char('='),
        minus.code == Key::Char('-') || minus.code == Key::Char('_'),
        plus.action != KeyAction::Cancel && plus.action != KeyAction::Quit,
        minus.action != KeyAction::Cancel && minus.action != KeyAction::Quit,
    ensures
        st.menu_width_offset <= 38 ==> key_step(st, plus).0.menu_width_offset
            == st.menu_width_offset + 2 && key_step(key_step(st, plus).0, minus).0 == st,
        st.menu_width_offset >= -18 ==> key_step(st, minus).0.menu_width_offset
            == st.menu_width_offset - 2 && key_step(key_step(st, minus).0, plus).0 == st,
        st.menu_width_offset > 38 ==> key_step(st, plus).0.menu_width_offset == 40,
        st.menu_width_offset < -18 ==> key_step(st, minus).0.menu_width_offset == -20,
{
}

/// The program ends only where it is asked to: by a key bound to that, or by cancelling where nothing
/// runs.
pub proof fn law_only_quitting_quits(st: InputView, k: KeyPress)
    requires
        !st.should_quit,
    ensures
        key_step(st, k).0.should_quit ==> k.action == KeyAction::Quit || k.action
            == KeyAction::Cancel && !st.cancellable,
        k.action == KeyAction::Quit && st.mode == AppMode::Normal ==> key_step(st, k).0.should_quit,
        k.action == KeyAction::Cancel && !st.cancellable ==> key_step(st, k).0.should_quit,
{
}

/// In normal mode what a key is bound to is done where the focus is.
pub proof fn law_bound_keys_act(st: InputView, k: KeyPress)
    requires
        takes_keys(st),
        st.pending_count.len() == 0,
        !(k.code is Char),
    ensures
        k.action == KeyAction::Help <==> key_step(st, k).0.mode == AppMode::Help,
        k.action == KeyAction::CommandPalette <==> key_step(st, k).0.mode == AppMode::CommandPalette,
        k.action == KeyAction::UpdateHosts ==> key_step(st, k).1.contains(KeyEffect::UpdateHosts)
            && key_step(st, k).0.is_executing,
        k.action == KeyAction::Execute ==> key_step(st, k).1.contains(KeyEffect::Activate),
        k.action == KeyAction::CustomCommand ==> key_step(st, k).1.contains(
            KeyEffect::RunCustomCommand,
        ),
        k.action == KeyAction::Refresh ==> key_step(st, k).1.contains(KeyEffect::CheckStatus)
            && key_step(st, k).1.contains(KeyEffect::RefreshIngress) && key_step(st, k).1.contains(
            KeyEffect::CheckMissingHosts,
        ) && key_step(st, k).1.contains(KeyEffect::CheckPortForwards) && key_step(st, k).1.contains(
            KeyEffect::ResetIngressTimers,
        ),
        k.action == KeyAction::MoveLeft && st.focus == FocusArea::Content ==> key_step(
            st,
            k,
        ).1.contains(KeyEffect::MenuCollapse),
        k.action == KeyAction::MoveRight && st.focus == FocusArea::Content ==> key_step(
            st,
            k,
        ).1.contains(KeyEffect::MenuExpand),
        k.action == KeyAction::MoveLeft && st.focus == FocusArea::ActionBar ==> key_step(
            st,
            k,
        ).1.contains(KeyEffect::ActionLeft),
        k.action == KeyAction::MoveRight && st.focus == FocusArea::ActionBar ==> key_step(
            st,
            k,
        ).1.contains(KeyEffect::ActionRight),
        k.action != KeyAction::ToggleFocus ==> key_step(st, k).0.focus == st.focus,
        k.action == KeyAction::ToggleFocus && st.focus == FocusArea::Content ==> key_step(
            st,
            k,
        ).0.focus == FocusArea::PodStats,
        k.action == KeyAction::ToggleFocus && st.focus == FocusArea::PodStats ==> key_step(
            st,
            k,
        ).0.focus == FocusArea::ActionBar,
{
    let r = key_step(st, k).1;
    assert(st.pending_count != seq!['1'] && st.pending_count != seq!['2'] && st.pending_count
        != seq!['3']);
    if k.action == KeyAction::Refresh {
        assert(r[1] == KeyEffect::CheckStatus);
        assert(r[2] == KeyEffect::RefreshIngress);
        assert(r[3] == KeyEffect::CheckMissingHosts);
        assert(r[4] == KeyEffect::CheckPortForwards);
        assert(r[5] == KeyEffect::ResetIngressTimers);
    } else if r.len() == 2 {
        assert(r.contains(r[1]));
    }
}

/// A search takes what is typed, and ends with escape, or with enter, which takes what was found.
pub proof fn law_searches_take_what_is_typed(st: InputView, k: KeyPress)
    requires
        st.mode == AppMode::Normal,
        !st.is_executing,
        st.searching,
        st.focus == FocusArea::Content,
        k.action != KeyAction::Cancel && k.action != KeyAction::Quit,
    ensures
        k.code matches Key::Char(c) ==> !k.control ==> key_step(st, k).1 == seq![
            KeyEffect::SearchChar(c),
        ],
        !key_step(st, k).0.searching <==> k.code == Key::Esc || k.code == Key::Enter,
        k.code == Key::Enter ==> key_step(st, k).1.last() == KeyEffect::Activate,
        k.code == Key::Esc ==> !key_step(st, k).1.contains(KeyEffect::Activate),
{
}

/// One picks the menu, two the pods and three the actions.
pub proof fn law_areas_are_numbered(digits: Seq<char>, f: FocusArea)
    ensures
        value(digits) == 1 && digits.len() == 1 && all_digits(digits) ==> picked_focus(digits, f)
            == FocusArea::Content,
        value(digits) == 2 && digits.len() == 1 && all_digits(digits) ==> picked_focus(digits, f)
            == FocusArea::PodStats,
        value(digits) == 3 && digits.len() == 1 && all_digits(digits) ==> picked_focus(digits, f)
            == FocusArea::ActionBar,
        digits.len() != 1 ==> picked_focus(digits, f) == f,
{
    if digits.len() == 1 && all_digits(digits) {
        reveal_with_fuel(value, 2);
        assert(digit(digits[0]));
        if value(digits) == 1 {
            assert(digits =~= seq!['1']);
        } else if value(digits) == 2 {
            assert(digits =~= seq!['2']);
        } else if value(digits) == 3 {
            assert(digits =~= seq!['3']);
        }
    }
}

/// A number of zero, or one that cannot be counted, moves by one, any other by itself.
pub proof fn law_every_count_moves(digits: Seq<char>)
    ensures
        movement_count(digits) >= 1,
        digits.len() == 0 ==> movement_count(digits) == 1,
        digits.len() > 0 && all_digits(digits) && 0 < value(digits) <= usize::MAX ==> movement_count(
            digits,
        ) == value(digits),
        value(digits) == 0 && all_digits(digits) ==> movement_count(digits) == 1,
{
    if digits.len() > 0 && all_digits(digits) {
        assert(digit(digits[0]));
    }
}

/// A slash on the menu starts a search.
pub proof fn law_slash_starts_a_search(st: InputView, k: KeyPress)
    requires
        takes_keys(st),
        st.pending_count.len() == 0,
        st.focus == FocusArea::Content,
        k.code == Key::Char('/'),
        k.action == KeyAction::Unbound,
    ensures
        key_step(st, k).0.searching,
        key_step(st, k).1.last() == KeyEffect::SearchEnter,
{
    assert(st.pending_count != seq!['1'] && st.pending_count != seq!['2'] && st.pending_count
        != seq!['3']);
}

} // verus!
