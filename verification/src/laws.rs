//! What holds of the navigation decisions for all inputs.
use vstd::prelude::*;

use crate::dispatch::{decimal, ActionView};
use crate::geometry::{
    adjacent_monitor,
    beyond,
    bound_indices,
    count_floating,
    counts_for_bound,
    extreme_floating,
    floating_on,
    is_adjacent_among,
    is_adjacent_index,
    is_leftmost,
    is_leftmost_among,
    is_rightmost,
    is_rightmost_among,
    lemma_adjacent_index_exists,
    lemma_bound_indices_exist,
    no_farther,
    reaches_as_far,
    touches_edge,
};
use crate::model::{Client, Direction, Monitor};
use crate::navigate::{border_or_zero, horizontal_plan, vertical_plan};

verus! {

/// The action moves or swaps the window (rather than the focus).
pub open spec fn moves_window(a: ActionView) -> bool {
    match a {
        ActionView::MoveDirection(_) => true,
        ActionView::MoveMonitor(_) => true,
        ActionView::SwapDirection(_) => true,
        ActionView::CenterWindow => true,
        _ => false,
    }
}

/// The action takes the focus to another workspace (that of the neighbouring
/// monitor) or to a window picked by address.
pub open spec fn enters_other_place(a: ActionView) -> bool {
    match a {
        ActionView::FocusWindowAddress(_) => true,
        ActionView::FocusWorkspace(_) => true,
        _ => false,
    }
}

/// The monitor found in a direction lies beyond the active one, no monitor
/// beyond it is nearer, and it is one of the monitors; there is one exactly
/// when some monitor lies beyond.
pub proof fn lemma_adjacent_monitor_is_nearest(
    direction: Direction,
    active: Monitor,
    monitors: Seq<Monitor>,
)
    ensures
        adjacent_monitor(direction, active, monitors) is Some <==> exists|k: int|
            0 <= k < monitors.len() && #[trigger] beyond(direction, active, monitors[k]),
        adjacent_monitor(direction, active, monitors) matches Some(m) ==> {
            &&& beyond(direction, active, m)
            &&& monitors.contains(m)
            &&& forall|k: int|
                0 <= k < monitors.len() && #[trigger] beyond(direction, active, monitors[k])
                    ==> no_farther(direction, m, monitors[k])
        },
{
    if exists|k: int| 0 <= k < monitors.len() && #[trigger] beyond(direction, active, monitors[k]) {
        let k = choose|k: int| 0 <= k < monitors.len() && #[trigger] beyond(direction, active, monitors[k]);
        let n = monitors.len() as int;
        lemma_adjacent_index_exists(direction, active, monitors, n, k);
        let w = choose|i: int| is_adjacent_among(direction, active, monitors, n, i);
        assert(is_adjacent_index(direction, active, monitors, w));
        let i = choose|i: int| is_adjacent_index(direction, active, monitors, i);
        assert(monitors[i] == adjacent_monitor(direction, active, monitors)->0);
        assert(0 <= i < monitors.len() && monitors[i] == monitors[i]);
        assert(monitors.contains(monitors[i]));
    } else {
        if exists|i: int| is_adjacent_index(direction, active, monitors, i) {
            let i = choose|i: int| is_adjacent_index(direction, active, monitors, i);
            assert(beyond(direction, active, monitors[i]));
        }
    }
}

/// Going to the monitor on the left and then to the one on its right comes
/// back to a monitor at the starting monitor's x, and the same the other way
/// round.
pub proof fn lemma_adjacent_monitor_round_trip(
    direction: Direction,
    active: Monitor,
    monitors: Seq<Monitor>,
)
    requires
        direction == Direction::Left || direction == Direction::Right,
        monitors.contains(active),
        adjacent_monitor(direction, active, monitors) is Some,
    ensures
        ({
            let back = if direction == Direction::Left {
                Direction::Right
            } else {
                Direction::Left
            };
            let m = adjacent_monitor(direction, active, monitors)->0;
            adjacent_monitor(back, m, monitors) matches Some(r) && r.x == active.x
        }),
{
    let back = if direction == Direction::Left {
        Direction::Right
    } else {
        Direction::Left
    };
    lemma_adjacent_monitor_is_nearest(direction, active, monitors);
    let m = adjacent_monitor(direction, active, monitors)->0;
    let ia = choose|k: int| 0 <= k < monitors.len() && monitors[k] == active;
    assert(beyond(back, m, monitors[ia]));
    lemma_adjacent_monitor_is_nearest(back, m, monitors);
    let r = adjacent_monitor(back, m, monitors)->0;
    assert(no_farther(back, r, monitors[ia]));
    let ir = choose|k: int| 0 <= k < monitors.len() && monitors[k] == r;
    if r.x != active.x {
        assert(beyond(direction, active, monitors[ir]));
        assert(no_farther(direction, m, monitors[ir]));
    }
}

/// The leftmost and rightmost windows found on a workspace are counted
/// windows of it, and the leftmost is not right of the rightmost; there are
/// such windows exactly when the workspace has a counted window.
pub proof fn lemma_bound_clients_ordered(clients: Seq<Client>, ws: i32, floating: bool)
    ensures
        bound_indices(clients, ws, floating) is Some <==> exists|k: int|
            0 <= k < clients.len() && #[trigger] counts_for_bound(clients[k], ws, floating),
        bound_indices(clients, ws, floating) matches Some((l, r)) ==> {
            &&& 0 <= l < clients.len()
            &&& 0 <= r < clients.len()
            &&& counts_for_bound(clients[l], ws, floating)
            &&& counts_for_bound(clients[r], ws, floating)
            &&& clients[l].at.0 <= clients[r].at.0
            &&& is_leftmost(clients, ws, floating, l)
            &&& is_rightmost(clients, ws, floating, r)
        },
{
    if exists|k: int| 0 <= k < clients.len() && #[trigger] counts_for_bound(clients[k], ws, floating) {
        let k = choose|k: int| 0 <= k < clients.len() && #[trigger] counts_for_bound(clients[k], ws, floating);
        let n = clients.len() as int;
        lemma_bound_indices_exist(clients, ws, floating, n, k);
        let wl = choose|i: int| is_leftmost_among(clients, ws, floating, n, i);
        assert(is_leftmost(clients, ws, floating, wl));
        let wr = choose|i: int| is_rightmost_among(clients, ws, floating, n, i);
        assert(is_rightmost(clients, ws, floating, wr));
        let l = choose|i: int| is_leftmost(clients, ws, floating, i);
        let r = choose|i: int| is_rightmost(clients, ws, floating, i);
        assert(counts_for_bound(clients[r], ws, floating));
        assert(counts_for_bound(clients[l], ws, floating));
    }
}

/// A floating window alone on its workspace (or with no floating window
/// there) is the outermost in every direction.
pub proof fn lemma_lone_floating_window_is_extreme(
    active: Client,
    clients: Seq<Client>,
    direction: Direction,
)
    requires
        count_floating(clients, active.workspace_id) <= 1,
    ensures
        extreme_floating(active, clients, direction),
{
}

/// Among the first `n` clients, one floating on `ws` reaches at least as far
/// in `direction` as every other one floating there.
proof fn lemma_farthest_floating_among(clients: Seq<Client>, ws: i32, direction: Direction, n: int, k0: int)
    requires
        0 <= k0 < n <= clients.len(),
        floating_on(clients[k0], ws),
    ensures
        exists|i: int|
            0 <= i < n && floating_on(clients[i], ws) && forall|k: int|
                0 <= k < n && #[trigger] floating_on(clients[k], ws) ==> reaches_as_far(
                    direction,
                    clients[i],
                    clients[k],
                ),
    decreases n,
{
    let prev = n - 1;
    if exists|j: int| 0 <= j < prev && #[trigger] floating_on(clients[j], ws) {
        let j = choose|j: int| 0 <= j < prev && #[trigger] floating_on(clients[j], ws);
        lemma_farthest_floating_among(clients, ws, direction, prev, j);
        let i = choose|i: int|
            0 <= i < prev && floating_on(clients[i], ws) && forall|k: int|
                0 <= k < prev && #[trigger] floating_on(clients[k], ws) ==> reaches_as_far(
                    direction,
                    clients[i],
                    clients[k],
                );
        let last = clients[prev];
        if floating_on(last, ws) && reaches_as_far(direction, last, clients[i]) {
            assert forall|k: int| 0 <= k < n && #[trigger] floating_on(clients[k], ws) implies reaches_as_far(
                direction,
                last,
                clients[k],
            ) by {
                if k < prev {
                    assert(reaches_as_far(direction, clients[i], clients[k]));
                }
            }
            assert(0 <= prev < n && floating_on(clients[prev], ws));
        } else {
            assert forall|k: int| 0 <= k < n && #[trigger] floating_on(clients[k], ws) implies reaches_as_far(
                direction,
                clients[i],
                clients[k],
            ) by {
                if k == prev {
                    assert(!reaches_as_far(direction, last, clients[i]));
                }
            }
        }
    } else {
        assert(k0 == prev);
        assert forall|k: int| 0 <= k < n && #[trigger] floating_on(clients[k], ws) implies reaches_as_far(
            direction,
            clients[prev],
            clients[k],
        ) by {
            assert(k == prev);
        }
    }
}

/// Cycling through the floating windows of a workspace ends: as soon as the
/// workspace has a floating window, one of them is the outermost in any
/// given direction.
pub proof fn lemma_some_floating_window_is_extreme(
    clients: Seq<Client>,
    ws: i32,
    direction: Direction,
    k0: int,
)
    requires
        0 <= k0 < clients.len(),
        floating_on(clients[k0], ws),
    ensures
        exists|i: int|
            0 <= i < clients.len() && floating_on(clients[i], ws) && #[trigger] extreme_floating(
                clients[i],
                clients,
                direction,
            ),
{
    lemma_farthest_floating_among(clients, ws, direction, clients.len() as int, k0);
    let i = choose|i: int|
        0 <= i < clients.len() && floating_on(clients[i], ws) && forall|k: int|
            0 <= k < clients.len() && #[trigger] floating_on(clients[k], ws) ==> reaches_as_far(
                direction,
                clients[i],
                clients[k],
            );
    assert(extreme_floating(clients[i], clients, direction));
}

/// A window that touches the monitor's edge within some tolerance touches it
/// within any larger one, and no window touches it within a negative one.
/// (`touches_edge` is what `is_bound` returns wherever its arithmetic fits.)
pub proof fn lemma_edge_tolerance_monotone(
    act: Client,
    m: Monitor,
    b1: i32,
    b2: i32,
    gaps_out: i32,
    right: bool,
)
    requires
        b1 <= b2,
    ensures
        touches_edge(act, m, b1, gaps_out, right) ==> touches_edge(act, m, b2, gaps_out, right),
        b1 < 0 ==> !touches_edge(act, m, b1, gaps_out, right),
{
}

/// With `swap` a vertical key press only moves or swaps the window; without
/// it, it never does, and it always ends by raising the focused window.
pub proof fn lemma_vertical_swap_moves_window(
    direction: Direction,
    swap: bool,
    active: Client,
    clients: Seq<Client>,
)
    ensures
        ({
            let plan = vertical_plan(direction, swap, active, clients);
            &&& plan.len() > 0
            &&& forall|i: int| 0 <= i < plan.len() ==> moves_window(#[trigger] plan[i]) == swap
            &&& !swap ==> plan.len() == 2 && plan[1] == ActionView::AlterZorderTop
        }),
{
    let plan = vertical_plan(direction, swap, active, clients);
    assert forall|i: int| 0 <= i < plan.len() implies moves_window(#[trigger] plan[i]) == swap by {
        if !swap && i == 0 {
            assert(!moves_window(plan[0]));
        }
    }
}

/// With `swap` a horizontal key press only moves or swaps the window; without
/// it, it never does.
pub proof fn lemma_horizontal_swap_moves_window(
    direction: Direction,
    swap: bool,
    bordersize: Option<i32>,
    gaps_out: i32,
    active: Client,
    monitor: Monitor,
    clients: Seq<Client>,
    monitors: Seq<Monitor>,
)
    ensures
        ({
            let plan = horizontal_plan(
                direction,
                swap,
                bordersize,
                gaps_out,
                active,
                monitor,
                clients,
                monitors,
            );
            forall|i: int| 0 <= i < plan.len() ==> moves_window(#[trigger] plan[i]) == swap
        }),
{
    let plan = horizontal_plan(direction, swap, bordersize, gaps_out, active, monitor, clients, monitors);
    assert forall|i: int| 0 <= i < plan.len() implies moves_window(#[trigger] plan[i]) == swap by {
        if !swap && plan.len() > 0 && i == 0 {
            assert(!moves_window(plan[0]));
        }
    }
}

/// A tiled window leaves its workspace sideways only at the monitor's edge and
/// only when a monitor lies in that direction; away from the edge it focuses
/// or swaps with its neighbour; at the edge with no monitor beyond, nothing
/// happens.
pub proof fn lemma_tiled_leaves_only_at_boundary(
    direction: Direction,
    swap: bool,
    bordersize: Option<i32>,
    gaps_out: i32,
    active: Client,
    monitor: Monitor,
    clients: Seq<Client>,
    monitors: Seq<Monitor>,
)
    requires
        !active.floating,
    ensures
        ({
            let plan = horizontal_plan(
                direction,
                swap,
                bordersize,
                gaps_out,
                active,
                monitor,
                clients,
                monitors,
            );
            let at_boundary = touches_edge(
                active,
                monitor,
                border_or_zero(bordersize),
                gaps_out,
                direction == Direction::Right,
            );
            let adjacent = adjacent_monitor(direction, monitor, monitors);
            &&& (exists|i: int| 0 <= i < plan.len() && #[trigger] enters_other_place(plan[i]))
                ==> at_boundary && adjacent is Some && !swap
            &&& !at_boundary ==> plan == seq![
                if swap {
                    ActionView::SwapDirection(direction)
                } else {
                    ActionView::FocusDirection(direction)
                },
            ]
            &&& at_boundary && adjacent is None ==> plan.len() == 0
        }),
{
}

/// A floating window at the monitor's edge, asked to move on where no monitor
/// lies, stays put; one that is moved to another monitor is centered there.
pub proof fn lemma_floating_moves_to_monitor_only_if_one_exists(
    direction: Direction,
    bordersize: Option<i32>,
    gaps_out: i32,
    active: Client,
    monitor: Monitor,
    clients: Seq<Client>,
    monitors: Seq<Monitor>,
)
    requires
        active.floating,
    ensures
        ({
            let plan = horizontal_plan(
                direction,
                true,
                bordersize,
                gaps_out,
                active,
                monitor,
                clients,
                monitors,
            );
            let adjacent = adjacent_monitor(direction, monitor, monitors);
            &&& (exists|i: int| 0 <= i < plan.len() && #[trigger] plan[i] == ActionView::MoveMonitor(direction))
                ==> adjacent is Some && plan == seq![ActionView::MoveMonitor(direction), ActionView::CenterWindow]
            &&& touches_edge(
                active,
                monitor,
                border_or_zero(bordersize),
                gaps_out,
                direction == Direction::Right,
            ) && adjacent is None ==> plan.len() == 0
        }),
{
}

/// The action takes the window, or the focus, to the neighbouring monitor
/// `adjacent`: it moves the window to that monitor, or focuses that
/// monitor's workspace or a window on it.
pub open spec fn reaches_neighbour(
    a: ActionView,
    direction: Direction,
    clients: Seq<Client>,
    adjacent: Option<Monitor>,
) -> bool {
    ||| a == ActionView::MoveMonitor(direction)
    ||| adjacent matches Some(t) && {
        ||| a == ActionView::FocusWorkspace(decimal(t.active_workspace_id as int))
        ||| exists|k: int|
            0 <= k < clients.len() && clients[k].workspace_id == t.active_workspace_id && a
                == ActionView::FocusWindowAddress(#[trigger] clients[k].address@)
    }
}

/// A horizontal key press switches to the neighbouring monitor only when the
/// window is at the monitor's edge and a monitor lies in that direction,
/// whether the window floats or is tiled. The compositor's state is taken as
/// it is: window addresses are distinct, and the neighbouring monitor shows
/// another workspace than the active window's.
pub proof fn lemma_monitor_changes_only_at_boundary(
    direction: Direction,
    swap: bool,
    bordersize: Option<i32>,
    gaps_out: i32,
    active: Client,
    monitor: Monitor,
    clients: Seq<Client>,
    monitors: Seq<Monitor>,
)
    requires
        forall|j: int, k: int|
            0 <= j < clients.len() && 0 <= k < clients.len() && j != k ==> #[trigger] clients[j].address@
                != #[trigger] clients[k].address@,
        adjacent_monitor(direction, monitor, monitors) matches Some(t) ==> t.active_workspace_id
            != active.workspace_id,
    ensures
        ({
            let plan = horizontal_plan(
                direction,
                swap,
                bordersize,
                gaps_out,
                active,
                monitor,
                clients,
                monitors,
            );
            let adjacent = adjacent_monitor(direction, monitor, monitors);
            (exists|i: int|
                0 <= i < plan.len() && #[trigger] reaches_neighbour(plan[i], direction, clients, adjacent))
                ==> touches_edge(
                active,
                monitor,
                border_or_zero(bordersize),
                gaps_out,
                direction == Direction::Right,
            ) && adjacent is Some
        }),
{
    let plan = horizontal_plan(direction, swap, bordersize, gaps_out, active, monitor, clients, monitors);
    let adjacent = adjacent_monitor(direction, monitor, monitors);
    let at_boundary = touches_edge(
        active,
        monitor,
        border_or_zero(bordersize),
        gaps_out,
        direction == Direction::Right,
    );
    lemma_bound_clients_ordered(clients, active.workspace_id, false);
    if exists|i: int| 0 <= i < plan.len() && #[trigger] reaches_neighbour(plan[i], direction, clients, adjacent) {
        let i = choose|i: int| 0 <= i < plan.len() && #[trigger] reaches_neighbour(plan[i], direction, clients, adjacent);
        if !(at_boundary && adjacent is Some) {
            // The only plan left that names a window is the focus on the
            // active workspace's outermost tiled window.
            assert(active.floating && !swap && extreme_floating(active, clients, direction));
            let (l, r) = bound_indices(clients, active.workspace_id, false)->0;
            let w = if direction == Direction::Left { r } else { l };
            assert(plan[i] == ActionView::FocusWindowAddress(clients[w].address@));
            let t = adjacent->0;
            let k = choose|k: int|
                0 <= k < clients.len() && clients[k].workspace_id == t.active_workspace_id && plan[i]
                    == ActionView::FocusWindowAddress(#[trigger] clients[k].address@);
            assert(clients[k].address@ == clients[w].address@);
            assert(false);
        }
    }
}

} // verus!
