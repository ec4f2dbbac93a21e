use vstd::prelude::*;

use crate::model::Direction;

verus! {

/// The word the compositor's dispatchers use for a direction.
pub open spec fn dir_name(direction: Direction) -> Seq<char> {
    match direction {
        Direction::Up => "up"@,
        Direction::Down => "down"@,
        Direction::Left => "left"@,
        Direction::Right => "right"@,
    }
}

/// Name of a direction in the dispatcher's argument syntax.
pub fn dir_to_str(direction: Direction) -> (s: &'static str)
    ensures
        s@ == dir_name(direction),
{
    match direction {
        Direction::Up => "up",
        Direction::Down => "down",
        Direction::Left => "left",
        Direction::Right => "right",
    }
}

// ---------------------------------------------------------------------------
// Decimal numbers
// ---------------------------------------------------------------------------

/// The character of a decimal digit.
pub open spec fn digit_char(d: int) -> char {
    if d == 0 {
        '0'
    } else if d == 1 {
        '1'
    } else if d == 2 {
        '2'
    } else if d == 3 {
        '3'
    } else if d == 4 {
        '4'
    } else if d == 5 {
        '5'
    } else if d == 6 {
        '6'
    } else if d == 7 {
        '7'
    } else if d == 8 {
        '8'
    } else {
        '9'
    }
}

/// The decimal digits of `n`, most significant first, without leading zeros.
pub open spec fn digits(n: nat) -> Seq<char>
    decreases n,
{
    if n < 10 {
        seq![digit_char(n as int)]
    } else {
        digits(n / 10) + seq![digit_char((n % 10) as int)]
    }
}

/// `n` written in decimal, with a leading `-` when negative.
pub open spec fn decimal(n: int) -> Seq<char> {
    if n < 0 {
        seq!['-'] + digits((-n) as nat)
    } else {
        digits(n as nat)
    }
}

fn digit_str(d: u32) -> (s: &'static str)
    requires
        d < 10,
    ensures
        s@ == seq![digit_char(d as int)],
{
    proof {
        reveal_strlit("0");
        reveal_strlit("1");
        reveal_strlit("2");
        reveal_strlit("3");
        reveal_strlit("4");
        reveal_strlit("5");
        reveal_strlit("6");
        reveal_strlit("7");
        reveal_strlit("8");
        reveal_strlit("9");
    }
    match d {
        0 => "0",
        1 => "1",
        2 => "2",
        3 => "3",
        4 => "4",
        5 => "5",
        6 => "6",
        7 => "7",
        8 => "8",
        _ => "9",
    }
}

fn push_digits(n: u32, out: &mut String)
    ensures
        final(out)@ == old(out)@ + digits(n as nat),
    decreases n,
{
    if n >= 10 {
        push_digits(n / 10, out);
    }
    out.append(digit_str(n % 10));
    proof {
        if n >= 10 {
            assert(digits(n as nat) == digits((n / 10) as nat) + seq![digit_char((n % 10) as int)]);
        }
    }
}

/// `n` in decimal, as `i32::to_string` writes it.
pub fn decimal_string(n: i32) -> (s: String)
    ensures
        s@ == decimal(n as int),
{
    let mut s = String::new();
    if n < 0 {
        proof {
            reveal_strlit("-");
        }
        s.append("-");
        let magnitude: u32 = (-(n as i64)) as u32;
        push_digits(magnitude, &mut s);
    } else {
        push_digits(n as u32, &mut s);
    }
    s
}

// ---------------------------------------------------------------------------
// What the compositor is asked to do
// ---------------------------------------------------------------------------

/// One dispatch to the compositor.
#[derive(Debug, PartialEq, Eq)]
pub enum Action {
    /// Focus a workspace (by id, or relative such as `e+1`).
    FocusWorkspace(String),
    /// Move the focus to the neighbouring window.
    FocusDirection(Direction),
    /// Move the window (a floating one by some pixels, a tiled one in the layout).
    MoveDirection(Direction),
    /// Move the window to the neighbouring monitor.
    MoveMonitor(Direction),
    /// Swap the window with its neighbour.
    SwapDirection(Direction),
    /// Center the floating window on its monitor.
    CenterWindow,
    /// Focus the window with this address.
    FocusWindowAddress(String),
    /// Focus the next tiled window.
    CycleNextTiled,
    /// Focus the next floating window.
    CycleNextFloating,
    /// Focus the next (`true`) or previous (`false`) visible floating window.
    CycleNextFloatingVisible(bool),
    /// Raise the window to the top of the stack.
    AlterZorderTop,
}

/// An [`Action`] with its strings taken as character sequences.
pub enum ActionView {
    FocusWorkspace(Seq<char>),
    FocusDirection(Direction),
    MoveDirection(Direction),
    MoveMonitor(Direction),
    SwapDirection(Direction),
    CenterWindow,
    FocusWindowAddress(Seq<char>),
    CycleNextTiled,
    CycleNextFloating,
    CycleNextFloatingVisible(bool),
    AlterZorderTop,
}

impl View for Action {
    type V = ActionView;

    open spec fn view(&self) -> ActionView {
        match self {
            Action::FocusWorkspace(ws) => ActionView::FocusWorkspace(ws@),
            Action::FocusDirection(d) => ActionView::FocusDirection(*d),
            Action::MoveDirection(d) => ActionView::MoveDirection(*d),
            Action::MoveMonitor(d) => ActionView::MoveMonitor(*d),
            Action::SwapDirection(d) => ActionView::SwapDirection(*d),
            Action::CenterWindow => ActionView::CenterWindow,
            Action::FocusWindowAddress(a) => ActionView::FocusWindowAddress(a@),
            Action::CycleNextTiled => ActionView::CycleNextTiled,
            Action::CycleNextFloating => ActionView::CycleNextFloating,
            Action::CycleNextFloatingVisible(next) => ActionView::CycleNextFloatingVisible(*next),
            Action::AlterZorderTop => ActionView::AlterZorderTop,
        }
    }
}

/// The views of a sequence of actions.
pub open spec fn actions_view(actions: Seq<Action>) -> Seq<ActionView> {
    actions.map_values(|a: Action| a@)
}

/// The dispatcher an action calls.
pub open spec fn call_name(a: ActionView) -> Seq<char> {
    match a {
        ActionView::FocusWorkspace(_) => "hl.dsp.focus"@,
        ActionView::FocusDirection(_) => "hl.dsp.focus"@,
        ActionView::MoveDirection(_) => "hl.dsp.window.move"@,
        ActionView::MoveMonitor(_) => "hl.dsp.window.move"@,
        ActionView::SwapDirection(_) => "hl.dsp.window.swap"@,
        ActionView::CenterWindow => "hl.dsp.window.center"@,
        ActionView::FocusWindowAddress(_) => "hl.dsp.focus"@,
        ActionView::CycleNextTiled => "hl.dsp.window.cycle_next"@,
        ActionView::CycleNextFloating => "hl.dsp.window.cycle_next"@,
        ActionView::CycleNextFloatingVisible(_) => "hl.dsp.window.cycle_next"@,
        ActionView::AlterZorderTop => "hl.dsp.window.alter_zorder"@,
    }
}

/// `true` or `false`, as `bool`'s `Display` writes it.
pub open spec fn bool_name(b: bool) -> Seq<char> {
    if b {
        "true"@
    } else {
        "false"@
    }
}

/// The argument table an action hands to its dispatcher.
pub open spec fn call_args(a: ActionView) -> Seq<char> {
    match a {
        ActionView::FocusWorkspace(ws) => "{ workspace = \""@ + ws + "\" }"@,
        ActionView::FocusDirection(d) => "{ direction = \""@ + dir_name(d) + "\" }"@,
        ActionView::MoveDirection(d) => "{ direction = \""@ + dir_name(d) + "\" }"@,
        ActionView::MoveMonitor(d) => "{ monitor = \""@ + dir_name(d) + "\" }"@,
        ActionView::SwapDirection(d) => "{ direction = \""@ + dir_name(d) + "\" }"@,
        ActionView::CenterWindow => ""@,
        ActionView::FocusWindowAddress(a) => "{ window = \"address:"@ + a + "\" }"@,
        ActionView::CycleNextTiled => "{ tiled = true }"@,
        ActionView::CycleNextFloating => "{ floating = true }"@,
        ActionView::CycleNextFloatingVisible(next) => "{ next = "@ + bool_name(next)
            + ", floating = true }"@,
        ActionView::AlterZorderTop => "{ mode = \"top\" }"@,
    }
}

/// A dispatcher's name and the argument table to call it with.
#[derive(Debug, PartialEq, Eq)]
pub struct DispatchCall {
    pub name: String,
    pub args: String,
}

/// The call that `a` makes.
pub open spec fn is_call_of(call: DispatchCall, a: ActionView) -> bool {
    call.name@ == call_name(a) && call.args@ == call_args(a)
}

/// Focuses a workspace.
pub fn dispatch_focus_workspace(ws: &str) -> (call: DispatchCall)
    ensures
        is_call_of(call, ActionView::FocusWorkspace(ws@)),
{
    DispatchCall {
        name: String::from_str("hl.dsp.focus"),
        args: String::from_str("{ workspace = \"").concat(ws).concat("\" }"),
    }
}

/// Moves the focus in a direction.
pub fn dispatch_focus_direction(direction: Direction) -> (call: DispatchCall)
    ensures
        is_call_of(call, ActionView::FocusDirection(direction)),
{
    let dir = dir_to_str(direction);
    DispatchCall {
        name: String::from_str("hl.dsp.focus"),
        args: String::from_str("{ direction = \"").concat(dir).concat("\" }"),
    }
}

/// Moves the window in a direction.
pub fn dispatch_move_direction(direction: Direction) -> (call: DispatchCall)
    ensures
        is_call_of(call, ActionView::MoveDirection(direction)),
{
    let dir = dir_to_str(direction);
    DispatchCall {
        name: String::from_str("hl.dsp.window.move"),
        args: String::from_str("{ direction = \"").concat(dir).concat("\" }"),
    }
}

/// Moves the window to the monitor in a direction.
pub fn dispatch_move_monitor(direction: Direction) -> (call: DispatchCall)
    ensures
        is_call_of(call, ActionView::MoveMonitor(direction)),
{
    let dir = dir_to_str(direction);
    DispatchCall {
        name: String::from_str("hl.dsp.window.move"),
        args: String::from_str("{ monitor = \"").concat(dir).concat("\" }"),
    }
}

/// Swaps the window with its neighbour in a direction.
pub fn dispatch_swap_direction(direction: Direction) -> (call: DispatchCall)
    ensures
        is_call_of(call, ActionView::SwapDirection(direction)),
{
    let dir = dir_to_str(direction);
    DispatchCall {
        name: String::from_str("hl.dsp.window.swap"),
        args: String::from_str("{ direction = \"").concat(dir).concat("\" }"),
    }
}

/// Centers the window.
pub fn dispatch_center_window() -> (call: DispatchCall)
    ensures
        is_call_of(call, ActionView::CenterWindow),
{
    DispatchCall { name: String::from_str("hl.dsp.window.center"), args: String::from_str("") }
}

/// Focuses the window with the given address.
pub fn dispatch_focus_window_address(address: &str) -> (call: DispatchCall)
    ensures
        is_call_of(call, ActionView::FocusWindowAddress(address@)),
{
    DispatchCall {
        name: String::from_str("hl.dsp.focus"),
        args: String::from_str("{ window = \"address:").concat(address).concat("\" }"),
    }
}

/// Focuses the next tiled window.
pub fn dispatch_cycle_next_tiled() -> (call: DispatchCall)
    ensures
        is_call_of(call, ActionView::CycleNextTiled),
{
    DispatchCall {
        name: String::from_str("hl.dsp.window.cycle_next"),
        args: String::from_str("{ tiled = true }"),
    }
}

/// Focuses the next floating window.
pub fn dispatch_cycle_next_floating() -> (call: DispatchCall)
    ensures
        is_call_of(call, ActionView::CycleNextFloating),
{
    DispatchCall {
        name: String::from_str("hl.dsp.window.cycle_next"),
        args: String::from_str("{ floating = true }"),
    }
}

/// Focuses the next (or previous) visible floating window.
pub fn dispatch_cycle_next_floating_visible(next: bool) -> (call: DispatchCall)
    ensures
        is_call_of(call, ActionView::CycleNextFloatingVisible(next)),
{
    let word = if next {
        "true"
    } else {
        "false"
    };
    DispatchCall {
        name: String::from_str("hl.dsp.window.cycle_next"),
        args: String::from_str("{ next = ").concat(word).concat(", floating = true }"),
    }
}

/// Raises the window to the top.
pub fn dispatch_alter_zorder_top() -> (call: DispatchCall)
    ensures
        is_call_of(call, ActionView::AlterZorderTop),
{
    DispatchCall {
        name: String::from_str("hl.dsp.window.alter_zorder"),
        args: String::from_str("{ mode = \"top\" }"),
    }
}

impl Action {
    /// The dispatcher call that performs this action.
    pub fn to_call(&self) -> (call: DispatchCall)
        ensures
            is_call_of(call, self@),
    {
        match self {
            Action::FocusWorkspace(ws) => dispatch_focus_workspace(ws.as_str()),
            Action::FocusDirection(d) => dispatch_focus_direction(*d),
            Action::MoveDirection(d) => dispatch_move_direction(*d),
            Action::MoveMonitor(d) => dispatch_move_monitor(*d),
            Action::SwapDirection(d) => dispatch_swap_direction(*d),
            Action::CenterWindow => dispatch_center_window(),
            Action::FocusWindowAddress(a) => dispatch_focus_window_address(a.as_str()),
            Action::CycleNextTiled => dispatch_cycle_next_tiled(),
            Action::CycleNextFloating => dispatch_cycle_next_floating(),
            Action::CycleNextFloatingVisible(next) => dispatch_cycle_next_floating_visible(*next),
            Action::AlterZorderTop => dispatch_alter_zorder_top(),
        }
    }
}

} // verus!
