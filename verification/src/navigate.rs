use vstd::prelude::*;

use crate::dispatch::{decimal, decimal_string, Action, ActionView, actions_view};
use crate::geometry::{
    adjacent_monitor,
    bound_indices,
    extreme_floating,
    find_adjacent_monitor,
    get_bound_client,
    is_bound,
    is_extreme_floating,
    edge_test_fits,
    touches_edge,
};
use crate::model::{Client, Command, Direction, Monitor};

verus! {

// ---------------------------------------------------------------------------
// An empty workspace
// ---------------------------------------------------------------------------

/// The relative workspace an empty workspace moves to: the next existing one
/// for right and up, the previous one for left and down.
pub open spec fn empty_workspace_target(command: Command) -> Seq<char> {
    match command {
        Command::Right(_) | Command::Up(_) => "e+1"@,
        Command::Left(_) | Command::Down(_) => "e-1"@,
    }
}

/// Handles navigation when there are no windows on the current workspace: it
/// focuses the next (right, up) or previous (left, down) existing workspace.
pub fn handle_in_empty_ws(command: &Command) -> (action: Action)
    ensures
        action@ == ActionView::FocusWorkspace(empty_workspace_target(*command)),
{
    let direction = match command {
        Command::Right(_) | Command::Up(_) => "e+1",
        Command::Left(_) | Command::Down(_) => "e-1",
    };
    Action::FocusWorkspace(String::from_str(direction))
}

// ---------------------------------------------------------------------------
// Up and down
// ---------------------------------------------------------------------------

/// The window is tiled on workspace `ws`.
pub open spec fn tiled_on(c: Client, ws: i32) -> bool {
    c.workspace_id == ws && !c.floating
}

/// The tiled active window is at the top (up) or bottom (down) of its
/// workspace: the workspace has tiled windows and none has its top above
/// (up) or below (down) the active window's top.
pub open spec fn at_vertical_edge(direction: Direction, active: Client, clients: Seq<Client>) -> bool {
    let ws = active.workspace_id;
    &&& exists|k: int| 0 <= k < clients.len() && #[trigger] tiled_on(clients[k], ws)
    &&& match direction {
        Direction::Up => forall|k: int|
            0 <= k < clients.len() && #[trigger] tiled_on(clients[k], ws) ==> active.at.1
                <= clients[k].at.1,
        Direction::Down => forall|k: int|
            0 <= k < clients.len() && #[trigger] tiled_on(clients[k], ws) ==> active.at.1
                >= clients[k].at.1,
        _ => false,
    }
}

/// What a vertical key press does. With `swap`, a floating window moves and a
/// tiled one swaps. Without it, a floating window cycles through the floating
/// windows, or gives the focus to the tiled ones once it is the outermost; a
/// tiled window moves the focus, or gives it to the floating windows once it
/// is at the edge; either way the focused window is then raised.
pub open spec fn vertical_plan(
    direction: Direction,
    swap: bool,
    active: Client,
    clients: Seq<Client>,
) -> Seq<ActionView> {
    if swap {
        if active.floating {
            seq![ActionView::MoveDirection(direction)]
        } else {
            seq![ActionView::SwapDirection(direction)]
        }
    } else if active.floating {
        let first = if extreme_floating(active, clients, direction) {
            ActionView::CycleNextTiled
        } else {
            ActionView::CycleNextFloatingVisible(direction == Direction::Down)
        };
        seq![first, ActionView::AlterZorderTop]
    } else {
        let first = if at_vertical_edge(direction, active, clients) {
            ActionView::CycleNextFloating
        } else {
            ActionView::FocusDirection(direction)
        };
        seq![first, ActionView::AlterZorderTop]
    }
}

/// Whether the tiled active window is at the vertical edge of its workspace.
fn is_at_vertical_edge(direction: Direction, active_client: &Client, all_clients: &Vec<Client>) -> (res:
    bool)
    ensures
        res == at_vertical_edge(direction, *active_client, all_clients@),
{
    let ghost cs = all_clients@;
    let ws = active_client.workspace_id;
    let y = active_client.at.1;
    let n = all_clients.len();
    let mut any_tiled = false;
    let mut top_most = true;
    let mut bottom_most = true;
    for i in 0..n
        invariant
            n == cs.len(),
            cs == all_clients@,
            ws == active_client.workspace_id,
            y == active_client.at.1,
            any_tiled == exists|k: int| 0 <= k < i && #[trigger] tiled_on(cs[k], ws),
            top_most == forall|k: int| 0 <= k < i && #[trigger] tiled_on(cs[k], ws) ==> y <= cs[k].at.1,
            bottom_most == forall|k: int|
                0 <= k < i && #[trigger] tiled_on(cs[k], ws) ==> y >= cs[k].at.1,
    {
        let c = &all_clients[i];
        let ghost (a0, t0, b0) = (any_tiled, top_most, bottom_most);
        if c.workspace_id == ws && !c.floating {
            any_tiled = true;
            if y > c.at.1 {
                top_most = false;
            }
            if y < c.at.1 {
                bottom_most = false;
            }
        }
        proof {
            assert(tiled_on(cs[i as int], ws) == (c.workspace_id == ws && !c.floating));
            if a0 {
                let w = choose|k: int| 0 <= k < i && #[trigger] tiled_on(cs[k], ws);
                assert(0 <= w < i + 1);
            }
            if !t0 {
                let w = choose|k: int| !(0 <= k < i && #[trigger] tiled_on(cs[k], ws) ==> y <= cs[k].at.1);
                assert(0 <= w < i + 1);
            }
            if !b0 {
                let w = choose|k: int| !(0 <= k < i && #[trigger] tiled_on(cs[k], ws) ==> y >= cs[k].at.1);
                assert(0 <= w < i + 1);
            }
            assert(any_tiled == exists|k: int| 0 <= k < i + 1 && #[trigger] tiled_on(cs[k], ws));
            assert(top_most == forall|k: int|
                0 <= k < i + 1 && #[trigger] tiled_on(cs[k], ws) ==> y <= cs[k].at.1);
            assert(bottom_most == forall|k: int|
                0 <= k < i + 1 && #[trigger] tiled_on(cs[k], ws) ==> y >= cs[k].at.1);
        }
    }
    if !any_tiled {
        false
    } else {
        match direction {
            Direction::Up => top_most,
            Direction::Down => bottom_most,
            _ => false,
        }
    }
}

/// Handles vertical navigation (up and down), switching the focus between
/// tiled and floating windows at the workspace's edge. Returns the actions to
/// dispatch, in order.
pub fn handle_vertical_nav(
    direction: Direction,
    swap: bool,
    active_client: &Client,
    all_clients: &Vec<Client>,
) -> (plan: Vec<Action>)
    ensures
        actions_view(plan@) == vertical_plan(direction, swap, *active_client, all_clients@),
{
    let mut plan: Vec<Action> = Vec::new();
    if swap {
        if active_client.floating {
            plan.push(Action::MoveDirection(direction));
        } else {
            plan.push(Action::SwapDirection(direction));
        }
    } else {
        if active_client.floating {
            if is_extreme_floating(active_client, all_clients, &direction) {
                plan.push(Action::CycleNextTiled);
            } else {
                let is_down = direction == Direction::Down;
                plan.push(Action::CycleNextFloatingVisible(is_down));
            }
        } else {
            if is_at_vertical_edge(direction, active_client, all_clients) {
                plan.push(Action::CycleNextFloating);
            } else {
                plan.push(Action::FocusDirection(direction));
            }
        }
        plan.push(Action::AlterZorderTop);
    }
    assert(actions_view(plan@) =~= vertical_plan(direction, swap, *active_client, all_clients@));
    plan
}

// ---------------------------------------------------------------------------
// Left and right
// ---------------------------------------------------------------------------

/// The address of the leftmost tiled window of workspace `ws` (or the
/// rightmost one with `find_rightmost`), if it has tiled windows.
pub open spec fn bound_address(clients: Seq<Client>, ws: i32, find_rightmost: bool) -> Option<
    Seq<char>,
> {
    match bound_indices(clients, ws, false) {
        Some((l, r)) => Some(
            if find_rightmost {
                clients[r].address@
            } else {
                clients[l].address@
            },
        ),
        None => None,
    }
}

/// Entering workspace `ws` from the side: focus its outermost tiled window on
/// the near side, or, if it has none, the workspace itself.
pub open spec fn enter_workspace(clients: Seq<Client>, ws: i32, find_rightmost: bool) -> ActionView {
    match bound_address(clients, ws, find_rightmost) {
        Some(a) => ActionView::FocusWindowAddress(a),
        None => ActionView::FocusWorkspace(decimal(ws as int)),
    }
}

pub open spec fn border_or_zero(bordersize: Option<i32>) -> i32 {
    match bordersize {
        Some(b) => b,
        None => 0,
    }
}

/// What a horizontal key press does.
///
/// A floating window: with `swap` it moves, or, at the monitor's edge, moves
/// to the neighbouring monitor (if any) and is centered there; without `swap`
/// it cycles through the floating windows until it is the outermost one, and
/// then focuses the near outermost tiled window of its workspace; when its
/// workspace has no tiled window and it is at the monitor's edge, it enters
/// the neighbouring monitor's workspace (if any).
///
/// A tiled window: with `swap` it swaps with its neighbour, or, at the
/// monitor's edge, moves toward the neighbouring monitor if there is one;
/// without `swap` the focus moves to the neighbour, or, at the monitor's edge,
/// enters the neighbouring monitor's workspace if there is one.
pub open spec fn horizontal_plan(
    direction: Direction,
    swap: bool,
    bordersize: Option<i32>,
    gaps_out: i32,
    active: Client,
    monitor: Monitor,
    clients: Seq<Client>,
    monitors: Seq<Monitor>,
) -> Seq<ActionView> {
    let right = direction == Direction::Right;
    let at_boundary = touches_edge(active, monitor, border_or_zero(bordersize), gaps_out, right);
    let adjacent = adjacent_monitor(direction, monitor, monitors);
    let find_rightmost = direction == Direction::Left;
    if active.floating {
        if swap {
            if at_boundary {
                if adjacent is Some {
                    seq![ActionView::MoveMonitor(direction), ActionView::CenterWindow]
                } else {
                    seq![]
                }
            } else {
                seq![ActionView::MoveDirection(direction)]
            }
        } else if !extreme_floating(active, clients, direction) {
            seq![ActionView::CycleNextFloatingVisible(right), ActionView::AlterZorderTop]
        } else {
            match bound_address(clients, active.workspace_id, find_rightmost) {
                Some(a) => seq![ActionView::FocusWindowAddress(a)],
                None => if at_boundary {
                    match adjacent {
                        Some(t) => seq![enter_workspace(clients, t.active_workspace_id, find_rightmost)],
                        None => seq![],
                    }
                } else {
                    seq![]
                },
            }
        }
    } else if swap {
        if at_boundary {
            if adjacent is Some {
                seq![ActionView::MoveDirection(direction)]
            } else {
                seq![]
            }
        } else {
            seq![ActionView::SwapDirection(direction)]
        }
    } else if at_boundary {
        match adjacent {
            Some(t) => seq![enter_workspace(clients, t.active_workspace_id, find_rightmost)],
            None => seq![],
        }
    } else {
        seq![ActionView::FocusDirection(direction)]
    }
}

/// The address of the near outermost tiled window of a workspace.
fn focus_bound_client(all_clients: &Vec<Client>, workspace_id: i32, find_rightmost: bool) -> (res:
    Option<Action>)
    ensures
        match bound_address(all_clients@, workspace_id, find_rightmost) {
            Some(a) => res matches Some(act) && act@ == ActionView::FocusWindowAddress(a),
            None => res is None,
        },
{
    match get_bound_client(all_clients, workspace_id, false) {
        Some((l_client, r_client)) => {
            let target_client = if find_rightmost {
                r_client
            } else {
                l_client
            };
            Some(Action::FocusWindowAddress(target_client.address.clone()))
        },
        None => None,
    }
}

/// Enters a workspace from the side.
fn enter_workspace_action(all_clients: &Vec<Client>, workspace_id: i32, find_rightmost: bool) -> (res:
    Action)
    ensures
        res@ == enter_workspace(all_clients@, workspace_id, find_rightmost),
{
    match focus_bound_client(all_clients, workspace_id, find_rightmost) {
        Some(action) => action,
        None => Action::FocusWorkspace(decimal_string(workspace_id)),
    }
}

/// Handles horizontal navigation (left and right), switching to the adjacent
/// monitor only at its boundary. `gaps_out` is the compositor's outer gap.
/// Returns the actions to dispatch, in order.
pub fn handle_horizontal_nav(
    direction: Direction,
    swap: bool,
    bordersize: Option<i32>,
    gaps_out: i32,
    active_client: &Client,
    active_monitor: &Monitor,
    all_clients: &Vec<Client>,
    all_monitors: &Vec<Monitor>,
) -> (plan: Vec<Action>)
    requires
        direction == Direction::Left || direction == Direction::Right,
        edge_test_fits(*active_client, *active_monitor, gaps_out, direction == Direction::Right),
    ensures
        actions_view(plan@) == horizontal_plan(
            direction,
            swap,
            bordersize,
            gaps_out,
            *active_client,
            *active_monitor,
            all_clients@,
            all_monitors@,
        ),
{
    let is_checking_right_bound = match direction {
        Direction::Right => true,
        _ => false,
    };
    let border = match bordersize {
        Some(b) => b,
        None => 0,
    };
    let is_at_boundary = is_bound(
        active_client,
        active_monitor,
        border,
        gaps_out,
        is_checking_right_bound,
    );
    let find_rightmost = direction == Direction::Left;
    let mut plan: Vec<Action> = Vec::new();
    if active_client.floating {
        if swap {
            if is_at_boundary {
                if find_adjacent_monitor(&direction, active_monitor, all_monitors).is_some() {
                    plan.push(Action::MoveMonitor(direction));
                    plan.push(Action::CenterWindow);
                }
            } else {
                plan.push(Action::MoveDirection(direction));
            }
        } else {
            let is_right = direction == Direction::Right;
            if !is_extreme_floating(active_client, all_clients, &direction) {
                plan.push(Action::CycleNextFloatingVisible(is_right));
                plan.push(Action::AlterZorderTop);
            } else {
                match focus_bound_client(all_clients, active_client.workspace_id, find_rightmost) {
                    Some(action) => {
                        plan.push(action);
                    },
                    None => {
                        if is_at_boundary {
                            if let Some(target_monitor) = find_adjacent_monitor(
                                &direction,
                                active_monitor,
                                all_monitors,
                            ) {
                                plan.push(
                                    enter_workspace_action(
                                        all_clients,
                                        target_monitor.active_workspace_id,
                                        find_rightmost,
                                    ),
                                );
                            }
                        }
                    },
                }
            }
        }
    } else if swap {
        if is_at_boundary {
            if find_adjacent_monitor(&direction, active_monitor, all_monitors).is_some() {
                plan.push(Action::MoveDirection(direction));
            }
        } else {
            plan.push(Action::SwapDirection(direction));
        }
    } else if is_at_boundary {
        if let Some(target_monitor) = find_adjacent_monitor(&direction, active_monitor, all_monitors) {
            plan.push(
                enter_workspace_action(all_clients, target_monitor.active_workspace_id, find_rightmost),
            );
        }
    } else {
        plan.push(Action::FocusDirection(direction));
    }
    assert(actions_view(plan@) =~= horizontal_plan(
        direction,
        swap,
        bordersize,
        gaps_out,
        *active_client,
        *active_monitor,
        all_clients@,
        all_monitors@,
    ));
    plan
}

// ---------------------------------------------------------------------------
// A subcommand
// ---------------------------------------------------------------------------

/// What a subcommand does when the workspace has an active window.
pub open spec fn command_plan(
    command: Command,
    gaps_out: i32,
    active: Client,
    monitor: Monitor,
    clients: Seq<Client>,
    monitors: Seq<Monitor>,
) -> Seq<ActionView> {
    match command {
        Command::Up(p) => vertical_plan(Direction::Up, p.swap, active, clients),
        Command::Down(p) => vertical_plan(Direction::Down, p.swap, active, clients),
        Command::Left(p) => horizontal_plan(
            Direction::Left,
            p.swap,
            p.bordersize,
            gaps_out,
            active,
            monitor,
            clients,
            monitors,
        ),
        Command::Right(p) => horizontal_plan(
            Direction::Right,
            p.swap,
            p.bordersize,
            gaps_out,
            active,
            monitor,
            clients,
            monitors,
        ),
    }
}

/// The subcommand's arithmetic fits its integer widths (only left and right
/// compute with the monitor's edges).
pub open spec fn command_fits(command: Command, gaps_out: i32, active: Client, monitor: Monitor) -> bool {
    match command {
        Command::Left(_) => edge_test_fits(active, monitor, gaps_out, false),
        Command::Right(_) => edge_test_fits(active, monitor, gaps_out, true),
        _ => true,
    }
}

/// Runs the handler of the subcommand for the active window: up and down
/// navigate vertically, left and right horizontally (with the outer gap
/// `gaps_out`, which only they read).
pub fn navigate(
    command: &Command,
    gaps_out: i32,
    active_client: &Client,
    active_monitor: &Monitor,
    all_clients: &Vec<Client>,
    all_monitors: &Vec<Monitor>,
) -> (plan: Vec<Action>)
    requires
        command_fits(*command, gaps_out, *active_client, *active_monitor),
    ensures
        actions_view(plan@) == command_plan(
            *command,
            gaps_out,
            *active_client,
            *active_monitor,
            all_clients@,
            all_monitors@,
        ),
{
    match command {
        Command::Up(p) => handle_vertical_nav(Direction::Up, p.swap, active_client, all_clients),
        Command::Down(p) => handle_vertical_nav(Direction::Down, p.swap, active_client, all_clients),
        Command::Left(p) => handle_horizontal_nav(
            Direction::Left,
            p.swap,
            p.bordersize,
            gaps_out,
            active_client,
            active_monitor,
            all_clients,
            all_monitors,
        ),
        Command::Right(p) => handle_horizontal_nav(
            Direction::Right,
            p.swap,
            p.bordersize,
            gaps_out,
            active_client,
            active_monitor,
            all_clients,
            all_monitors,
        ),
    }
}

} // verus!
