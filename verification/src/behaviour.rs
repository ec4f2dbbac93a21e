//! What each key press does, stated over the windows' coordinates.
use vstd::prelude::*;

use crate::dispatch::{decimal, ActionView};
use crate::geometry::{
    adjacent_monitor,
    beyond,
    bound_indices,
    has_prefix,
    is_adjacent_among,
    is_adjacent_index,
    lemma_adjacent_index_exists,
    count_floating,
    counts_for_bound,
    extreme_floating,
    floating_on,
    is_leftmost,
    is_rightmost,
    reaches_as_far,
    touches_edge,
};
use crate::model::{Client, Command, Direction, Monitor};
use crate::navigate::{
    at_vertical_edge,
    border_or_zero,
    command_plan,
    horizontal_plan,
    tiled_on,
    vertical_plan,
};

verus! {

/// How far the window reaches in `direction`, measured so that farther is
/// larger: minus its left edge, its right edge, minus its top, its bottom.
pub open spec fn far_edge(direction: Direction, c: Client) -> int {
    match direction {
        Direction::Left => -(c.at.0 as int),
        Direction::Right => c.at.0 + c.size.0,
        Direction::Up => -(c.at.1 as int),
        Direction::Down => c.at.1 + c.size.1,
    }
}

/// A sequence with one floating window of `ws` counts at least one.
proof fn lemma_count_floating_one(s: Seq<Client>, ws: i32, i: int)
    requires
        0 <= i < s.len(),
        s[i].workspace_id == ws && s[i].floating,
    ensures
        count_floating(s, ws) >= 1,
    decreases s.len(),
{
    if i < s.len() - 1 {
        assert(s.drop_last()[i] == s[i]);
        lemma_count_floating_one(s.drop_last(), ws, i);
    }
}

/// A sequence with two floating windows of `ws` counts at least two.
proof fn lemma_count_floating_two(s: Seq<Client>, ws: i32, i: int, j: int)
    requires
        0 <= i < j < s.len(),
        s[i].workspace_id == ws && s[i].floating,
        s[j].workspace_id == ws && s[j].floating,
    ensures
        count_floating(s, ws) >= 2,
    decreases s.len(),
{
    assert(s.drop_last()[i] == s[i]);
    if j < s.len() - 1 {
        assert(s.drop_last()[j] == s[j]);
        lemma_count_floating_two(s.drop_last(), ws, i, j);
    } else {
        lemma_count_floating_one(s.drop_last(), ws, i);
    }
}

/// A floating window (one of the listed windows) is the outermost floating
/// window of its workspace in a direction exactly when it reaches at least as
/// far as every floating window of that workspace.
pub proof fn lemma_extreme_floating_iff_reaches_farthest(
    active: Client,
    clients: Seq<Client>,
    direction: Direction,
)
    requires
        active.floating,
        clients.contains(active),
    ensures
        extreme_floating(active, clients, direction) <==> forall|k: int|
            0 <= k < clients.len() && clients[k].workspace_id == active.workspace_id
                && clients[k].floating ==> far_edge(direction, #[trigger] clients[k]) <= far_edge(
                direction,
                active,
            ),
{
    let ws = active.workspace_id;
    let a = choose|k: int| 0 <= k < clients.len() && clients[k] == active;
    if extreme_floating(active, clients, direction) {
        assert forall|k: int|
            0 <= k < clients.len() && clients[k].workspace_id == ws
                && clients[k].floating implies far_edge(direction, #[trigger] clients[k]) <= far_edge(
            direction,
            active,
        ) by {
            if count_floating(clients, ws) <= 1 {
                if k < a {
                    lemma_count_floating_two(clients, ws, k, a);
                } else if k > a {
                    lemma_count_floating_two(clients, ws, a, k);
                }
            } else {
                assert(floating_on(clients[k], ws));
            }
        }
    } else {
        let k = choose|k: int|
            !(0 <= k < clients.len() && #[trigger] floating_on(clients[k], ws) ==> reaches_as_far(
                direction,
                active,
                clients[k],
            ));
        assert(!(far_edge(direction, clients[k]) <= far_edge(direction, active)));
    }
}

/// The top of `c` lies strictly beyond the active window's top in a vertical
/// direction: above it going up, below it going down.
pub open spec fn top_beyond(direction: Direction, active: Client, c: Client) -> bool {
    match direction {
        Direction::Up => c.at.1 < active.at.1,
        Direction::Down => c.at.1 > active.at.1,
        _ => false,
    }
}

/// Up or down, without swap, from a tiled window: when its workspace has
/// tiled windows and none of them has its top beyond the active window's top,
/// the focus passes to the floating windows; otherwise it moves to the
/// neighbour. Floating windows play no part. The window is then raised.
pub proof fn lemma_vertical_tiled_focus(direction: Direction, active: Client, clients: Seq<Client>)
    requires
        !active.floating,
        direction == Direction::Up || direction == Direction::Down,
    ensures
        ({
            let ws = active.workspace_id;
            let plan = vertical_plan(direction, false, active, clients);
            let at_edge = (exists|k: int|
                0 <= k < clients.len() && #[trigger] clients[k].workspace_id == ws
                    && !clients[k].floating) && !(exists|k: int|
                0 <= k < clients.len() && clients[k].workspace_id == ws && !clients[k].floating
                    && #[trigger] top_beyond(direction, active, clients[k]));
            &&& plan.len() == 2
            &&& plan[0] == if at_edge {
                ActionView::CycleNextFloating
            } else {
                ActionView::FocusDirection(direction)
            }
            &&& plan[1] == ActionView::AlterZorderTop
        }),
{
    let ws = active.workspace_id;
    if exists|k: int|
        0 <= k < clients.len() && clients[k].workspace_id == ws && !clients[k].floating
            && #[trigger] top_beyond(direction, active, clients[k]) {
        let k = choose|k: int|
            0 <= k < clients.len() && clients[k].workspace_id == ws && !clients[k].floating
                && #[trigger] top_beyond(direction, active, clients[k]);
        assert(tiled_on(clients[k], ws));
    }
    if exists|k: int|
        0 <= k < clients.len() && #[trigger] clients[k].workspace_id == ws && !clients[k].floating {
        let k = choose|k: int|
            0 <= k < clients.len() && #[trigger] clients[k].workspace_id == ws && !clients[k].floating;
        assert(tiled_on(clients[k], ws));
        if !at_vertical_edge(direction, active, clients) {
            if direction == Direction::Up {
                let w = choose|w: int|
                    !(0 <= w < clients.len() && #[trigger] tiled_on(clients[w], ws) ==> active.at.1
                        <= clients[w].at.1);
                assert(top_beyond(direction, active, clients[w]));
            } else {
                let w = choose|w: int|
                    !(0 <= w < clients.len() && #[trigger] tiled_on(clients[w], ws) ==> active.at.1
                        >= clients[w].at.1);
                assert(top_beyond(direction, active, clients[w]));
            }
        }
    }
}

/// Adding a floating window to the list changes nothing for a tiled active
/// window going up or down.
pub proof fn lemma_vertical_tiled_ignores_floating(
    direction: Direction,
    swap: bool,
    active: Client,
    clients: Seq<Client>,
    f: Client,
)
    requires
        !active.floating,
        f.floating,
        direction == Direction::Up || direction == Direction::Down,
    ensures
        vertical_plan(direction, swap, active, clients.push(f)) == vertical_plan(
            direction,
            swap,
            active,
            clients,
        ),
{
    let more = clients.push(f);
    lemma_vertical_tiled_focus(direction, active, clients);
    lemma_vertical_tiled_focus(direction, active, more);
    let ws = active.workspace_id;
    assert((exists|k: int|
        0 <= k < clients.len() && #[trigger] clients[k].workspace_id == ws && !clients[k].floating)
        == (exists|k: int|
        0 <= k < more.len() && #[trigger] more[k].workspace_id == ws && !more[k].floating)) by {
        if exists|k: int|
            0 <= k < more.len() && #[trigger] more[k].workspace_id == ws && !more[k].floating {
            let k = choose|k: int|
                0 <= k < more.len() && #[trigger] more[k].workspace_id == ws && !more[k].floating;
            assert(more[k] == clients[k]);
        }
        if exists|k: int|
            0 <= k < clients.len() && #[trigger] clients[k].workspace_id == ws && !clients[k].floating {
            let k = choose|k: int|
                0 <= k < clients.len() && #[trigger] clients[k].workspace_id == ws
                    && !clients[k].floating;
            assert(more[k] == clients[k]);
        }
    }
    assert((exists|k: int|
        0 <= k < clients.len() && clients[k].workspace_id == ws && !clients[k].floating
            && #[trigger] top_beyond(direction, active, clients[k])) == (exists|k: int|
        0 <= k < more.len() && more[k].workspace_id == ws && !more[k].floating
            && #[trigger] top_beyond(direction, active, more[k]))) by {
        if exists|k: int|
            0 <= k < more.len() && more[k].workspace_id == ws && !more[k].floating
                && #[trigger] top_beyond(direction, active, more[k]) {
            let k = choose|k: int|
                0 <= k < more.len() && more[k].workspace_id == ws && !more[k].floating
                    && #[trigger] top_beyond(direction, active, more[k]);
            assert(more[k] == clients[k]);
        }
        if exists|k: int|
            0 <= k < clients.len() && clients[k].workspace_id == ws && !clients[k].floating
                && #[trigger] top_beyond(direction, active, clients[k]) {
            let k = choose|k: int|
                0 <= k < clients.len() && clients[k].workspace_id == ws && !clients[k].floating
                    && #[trigger] top_beyond(direction, active, clients[k]);
            assert(more[k] == clients[k]);
        }
    }
    if !swap {
        assert(vertical_plan(direction, swap, active, more) =~= vertical_plan(
            direction,
            swap,
            active,
            clients,
        ));
    }
}

/// Some floating window of the active window's workspace reaches strictly
/// farther than it in `direction`.
pub open spec fn outreached(direction: Direction, active: Client, clients: Seq<Client>) -> bool {
    exists|k: int|
        0 <= k < clients.len() && clients[k].workspace_id == active.workspace_id
            && clients[k].floating && #[trigger] far_edge(direction, clients[k]) > far_edge(
            direction,
            active,
        )
}

/// Up or down, without swap, from a floating window: while another floating
/// window of its workspace reaches farther, the focus cycles through the
/// floating windows, forward going down and backward going up; once none
/// does, the focus passes to the tiled windows. The window is then raised.
pub proof fn lemma_vertical_floating_focus(direction: Direction, active: Client, clients: Seq<Client>)
    requires
        active.floating,
        clients.contains(active),
        direction == Direction::Up || direction == Direction::Down,
    ensures
        vertical_plan(direction, false, active, clients) == seq![
            if outreached(direction, active, clients) {
                ActionView::CycleNextFloatingVisible(direction == Direction::Down)
            } else {
                ActionView::CycleNextTiled
            },
            ActionView::AlterZorderTop,
        ],
{
    lemma_extreme_floating_iff_reaches_farthest(active, clients, direction);
    if outreached(direction, active, clients) {
        let k = choose|k: int|
            0 <= k < clients.len() && clients[k].workspace_id == active.workspace_id
                && clients[k].floating && #[trigger] far_edge(direction, clients[k]) > far_edge(
                direction,
                active,
            );
        assert(!extreme_floating(active, clients, direction));
    }
}

/// Left or right, without swap, from a floating window that another floating
/// window of its workspace outreaches: the focus cycles through the floating
/// windows, forward going right and backward going left, and the window is
/// raised.
pub proof fn lemma_horizontal_floating_cycles(
    direction: Direction,
    bordersize: Option<i32>,
    gaps_out: i32,
    active: Client,
    monitor: Monitor,
    clients: Seq<Client>,
    monitors: Seq<Monitor>,
)
    requires
        active.floating,
        clients.contains(active),
        direction == Direction::Left || direction == Direction::Right,
        outreached(direction, active, clients),
    ensures
        horizontal_plan(direction, false, bordersize, gaps_out, active, monitor, clients, monitors)
            == seq![
            ActionView::CycleNextFloatingVisible(direction == Direction::Right),
            ActionView::AlterZorderTop,
        ],
{
    lemma_extreme_floating_iff_reaches_farthest(active, clients, direction);
    let k = choose|k: int|
        0 <= k < clients.len() && clients[k].workspace_id == active.workspace_id
            && clients[k].floating && #[trigger] far_edge(direction, clients[k]) > far_edge(
            direction,
            active,
        );
    assert(!extreme_floating(active, clients, direction));
}

/// The direction a subcommand names.
pub open spec fn command_direction(command: Command) -> Direction {
    match command {
        Command::Up(_) => Direction::Up,
        Command::Down(_) => Direction::Down,
        Command::Left(_) => Direction::Left,
        Command::Right(_) => Direction::Right,
    }
}

/// The action goes the way of `direction`: every direction it names is
/// `direction`, and a cycle through floating windows goes forward exactly
/// for down and right.
pub open spec fn goes_toward(a: ActionView, direction: Direction) -> bool {
    match a {
        ActionView::FocusDirection(d) => d == direction,
        ActionView::MoveDirection(d) => d == direction,
        ActionView::MoveMonitor(d) => d == direction,
        ActionView::SwapDirection(d) => d == direction,
        ActionView::CycleNextFloatingVisible(next) => next == (direction == Direction::Down
            || direction == Direction::Right),
        _ => true,
    }
}

/// Every action of a subcommand goes the way the subcommand names.
pub proof fn lemma_command_goes_its_direction(
    command: Command,
    gaps_out: i32,
    active: Client,
    monitor: Monitor,
    clients: Seq<Client>,
    monitors: Seq<Monitor>,
)
    ensures
        ({
            let plan = command_plan(command, gaps_out, active, monitor, clients, monitors);
            forall|i: int|
                0 <= i < plan.len() ==> goes_toward(#[trigger] plan[i], command_direction(command))
        }),
{
    let plan = command_plan(command, gaps_out, active, monitor, clients, monitors);
    assert forall|i: int| 0 <= i < plan.len() implies goes_toward(
        #[trigger] plan[i],
        command_direction(command),
    ) by {
        if i == 0 {
            assert(goes_toward(plan[0], command_direction(command)));
        } else {
            assert(goes_toward(plan[1], command_direction(command)));
        }
    }
}

/// `i` is the outermost tiled window of workspace `ws` on the side one
/// arrives from when going in `direction`: the leftmost going right, the
/// rightmost going left.
pub open spec fn near_side_window(direction: Direction, clients: Seq<Client>, ws: i32, i: int) -> bool {
    match direction {
        Direction::Left => is_rightmost(clients, ws, false, i),
        Direction::Right => is_leftmost(clients, ws, false, i),
        _ => false,
    }
}

/// The focus target of `a` is a proper one: a window picked by address is the
/// near-side outermost tiled window of some workspace; a workspace focused by
/// id is the neighbouring monitor's, written in decimal, focused only at the
/// monitor's edge and only when it has no tiled window to pick.
pub open spec fn proper_focus(
    a: ActionView,
    direction: Direction,
    bordersize: Option<i32>,
    gaps_out: i32,
    active: Client,
    monitor: Monitor,
    clients: Seq<Client>,
    monitors: Seq<Monitor>,
) -> bool {
    match a {
        ActionView::FocusWindowAddress(x) => {
            exists|ws: i32, i: int|
                #[trigger] near_side_window(direction, clients, ws, i) && x == clients[i].address@
        },
        ActionView::FocusWorkspace(x) => {
            &&& touches_edge(
                active,
                monitor,
                border_or_zero(bordersize),
                gaps_out,
                direction == Direction::Right,
            )
            &&& adjacent_monitor(direction, monitor, monitors) is Some
            &&& x == decimal(adjacent_monitor(direction, monitor, monitors)->0.active_workspace_id as int)
            &&& !exists|k: int|
                0 <= k < clients.len() && #[trigger] counts_for_bound(
                    clients[k],
                    adjacent_monitor(direction, monitor, monitors)->0.active_workspace_id,
                    false,
                )
        },
        _ => true,
    }
}

/// Left or right, every focus target is a proper one: the near side's
/// outermost tiled window of the active or the neighbouring workspace, or the
/// neighbouring workspace itself when it has none.
pub proof fn lemma_horizontal_focus_targets(
    direction: Direction,
    swap: bool,
    bordersize: Option<i32>,
    gaps_out: i32,
    active: Client,
    monitor: Monitor,
    clients: Seq<Client>,
    monitors: Seq<Monitor>,
)
    requires
        direction == Direction::Left || direction == Direction::Right,
    ensures
        ({
            let plan = horizontal_plan(
                direction,
                swap,
                bordersize,
                gaps_out,
                active,
                monitor,
                clients,
                monitors,
            );
            forall|j: int|
                0 <= j < plan.len() ==> proper_focus(
                    #[trigger] plan[j],
                    direction,
                    bordersize,
                    gaps_out,
                    active,
                    monitor,
                    clients,
                    monitors,
                )
        }),
{
    let plan = horizontal_plan(direction, swap, bordersize, gaps_out, active, monitor, clients, monitors);
    assert forall|j: int| 0 <= j < plan.len() implies proper_focus(
        #[trigger] plan[j],
        direction,
        bordersize,
        gaps_out,
        active,
        monitor,
        clients,
        monitors,
    ) by {
        if plan[j] is FocusWindowAddress {
            let ws = if active.floating && !swap && extreme_floating(active, clients, direction)
                && crate::navigate::bound_address(
                clients,
                active.workspace_id,
                direction == Direction::Left,
            ) is Some {
                active.workspace_id
            } else {
                adjacent_monitor(direction, monitor, monitors)->0.active_workspace_id
            };
            crate::laws::lemma_bound_clients_ordered(clients, ws, false);
            let (l, r) = bound_indices(clients, ws, false)->0;
            let i = if direction == Direction::Left {
                r
            } else {
                l
            };
            assert(near_side_window(direction, clients, ws, i));
        }
    }
}

/// Left or right, the neighbouring monitor is found by x alone: on the left
/// it is one with the largest x below the active monitor's x (the last such
/// one in the list on a tie), on the right one with the smallest x above it
/// (the first such one on a tie); up and down there is none.
pub proof fn lemma_adjacent_monitor_by_x(direction: Direction, active: Monitor, monitors: Seq<Monitor>)
    ensures
        direction == Direction::Up || direction == Direction::Down ==> adjacent_monitor(
            direction,
            active,
            monitors,
        ) is None,
        direction == Direction::Left ==> {
            &&& adjacent_monitor(direction, active, monitors) is Some <==> exists|k: int|
                0 <= k < monitors.len() && #[trigger] monitors[k].x < active.x
            &&& adjacent_monitor(direction, active, monitors) matches Some(m) ==> exists|i: int|
                0 <= i < monitors.len() && monitors[i] == m && m.x < active.x && (forall|k: int|
                    0 <= k < monitors.len() && #[trigger] monitors[k].x < active.x ==> monitors[k].x
                        <= m.x) && (forall|k: int|
                    i < k < monitors.len() && #[trigger] monitors[k].x < active.x ==> monitors[k].x
                        < m.x)
        },
        direction == Direction::Right ==> {
            &&& adjacent_monitor(direction, active, monitors) is Some <==> exists|k: int|
                0 <= k < monitors.len() && #[trigger] monitors[k].x > active.x
            &&& adjacent_monitor(direction, active, monitors) matches Some(m) ==> exists|i: int|
                0 <= i < monitors.len() && monitors[i] == m && m.x > active.x && (forall|k: int|
                    0 <= k < monitors.len() && #[trigger] monitors[k].x > active.x ==> m.x
                        <= monitors[k].x) && (forall|k: int|
                    0 <= k < i && #[trigger] monitors[k].x > active.x ==> monitors[k].x > m.x)
        },
{
    if exists|i: int| is_adjacent_index(direction, active, monitors, i) {
        let i = choose|i: int| is_adjacent_index(direction, active, monitors, i);
        assert(beyond(direction, active, monitors[i]));
        if direction == Direction::Left {
            assert forall|k: int|
                0 <= k < monitors.len() && #[trigger] monitors[k].x < active.x implies monitors[k].x
                <= monitors[i].x by {
                assert(beyond(direction, active, monitors[k]));
            }
            assert forall|k: int|
                i < k < monitors.len() && #[trigger] monitors[k].x < active.x implies monitors[k].x
                < monitors[i].x by {
                assert(beyond(direction, active, monitors[k]));
            }
        } else if direction == Direction::Right {
            assert forall|k: int|
                0 <= k < monitors.len() && #[trigger] monitors[k].x > active.x implies monitors[i].x
                <= monitors[k].x by {
                assert(beyond(direction, active, monitors[k]));
            }
            assert forall|k: int|
                0 <= k < i && #[trigger] monitors[k].x > active.x implies monitors[k].x
                > monitors[i].x by {
                assert(beyond(direction, active, monitors[k]));
            }
        }
    } else {
        if direction == Direction::Left && exists|k: int|
            0 <= k < monitors.len() && #[trigger] monitors[k].x < active.x {
            let k = choose|k: int| 0 <= k < monitors.len() && #[trigger] monitors[k].x < active.x;
            let n = monitors.len() as int;
            lemma_adjacent_index_exists(direction, active, monitors, n, k);
            let w = choose|i: int| is_adjacent_among(direction, active, monitors, n, i);
            assert(is_adjacent_index(direction, active, monitors, w));
        }
        if direction == Direction::Right && exists|k: int|
            0 <= k < monitors.len() && #[trigger] monitors[k].x > active.x {
            let k = choose|k: int| 0 <= k < monitors.len() && #[trigger] monitors[k].x > active.x;
            let n = monitors.len() as int;
            lemma_adjacent_index_exists(direction, active, monitors, n, k);
            let w = choose|i: int| is_adjacent_among(direction, active, monitors, n, i);
            assert(is_adjacent_index(direction, active, monitors, w));
        }
    }
}

/// The workspace's name begins with `special`.
pub open spec fn special_name(name: Seq<char>) -> bool {
    7 <= name.len() && name.subrange(0, 7) == seq!['s', 'p', 'e', 'c', 'i', 'a', 'l']
}

/// The window is on workspace `ws`, which is not a special workspace, and
/// floats exactly when `floating` says.
pub open spec fn on_plain_workspace(c: Client, ws: i32, floating: bool) -> bool {
    c.workspace_id == ws && !special_name(c.workspace_name@) && c.floating == floating
}

/// The outermost windows of a workspace, by x alone: the left one has the
/// smallest x of the workspace's windows (the first such one on a tie), the
/// right one the largest (the last such one on a tie); windows of special
/// workspaces and of the other floating state are left out, and there are
/// none when no window remains.
pub proof fn lemma_bound_clients_by_x(clients: Seq<Client>, ws: i32, floating: bool)
    ensures
        bound_indices(clients, ws, floating) is None <==> !exists|k: int|
            0 <= k < clients.len() && #[trigger] on_plain_workspace(clients[k], ws, floating),
        bound_indices(clients, ws, floating) matches Some((l, r)) ==> {
            &&& 0 <= l < clients.len() && on_plain_workspace(clients[l], ws, floating)
            &&& 0 <= r < clients.len() && on_plain_workspace(clients[r], ws, floating)
            &&& forall|k: int|
                0 <= k < clients.len() && #[trigger] on_plain_workspace(clients[k], ws, floating)
                    ==> clients[l].at.0 <= clients[k].at.0 && clients[k].at.0 <= clients[r].at.0
            &&& forall|k: int|
                0 <= k < l && #[trigger] on_plain_workspace(clients[k], ws, floating)
                    ==> clients[k].at.0 > clients[l].at.0
            &&& forall|k: int|
                r < k < clients.len() && #[trigger] on_plain_workspace(clients[k], ws, floating)
                    ==> clients[k].at.0 < clients[r].at.0
        },
{
    reveal_strlit("special");
    assert("special"@ =~= seq!['s', 'p', 'e', 'c', 'i', 'a', 'l']);
    assert forall|c: Client| #[trigger] on_plain_workspace(c, ws, floating) == counts_for_bound(
        c,
        ws,
        floating,
    ) by {
        assert(has_prefix(c.workspace_name@, "special"@) == special_name(c.workspace_name@));
    }
    crate::laws::lemma_bound_clients_ordered(clients, ws, floating);
    if exists|k: int| 0 <= k < clients.len() && #[trigger] on_plain_workspace(clients[k], ws, floating) {
        let k = choose|k: int| 0 <= k < clients.len() && #[trigger] on_plain_workspace(clients[k], ws, floating);
        assert(counts_for_bound(clients[k], ws, floating));
        let (l, r) = bound_indices(clients, ws, floating)->0;
        assert forall|k: int|
            0 <= k < clients.len() && #[trigger] on_plain_workspace(clients[k], ws, floating)
                implies clients[l].at.0 <= clients[k].at.0 && clients[k].at.0 <= clients[r].at.0 by {
            assert(counts_for_bound(clients[k], ws, floating));
        }
        assert forall|k: int|
            0 <= k < l && #[trigger] on_plain_workspace(clients[k], ws, floating) implies clients[k].at.0
            > clients[l].at.0 by {
            assert(counts_for_bound(clients[k], ws, floating));
        }
        assert forall|k: int|
            r < k < clients.len() && #[trigger] on_plain_workspace(clients[k], ws, floating)
                implies clients[k].at.0 < clients[r].at.0 by {
            assert(counts_for_bound(clients[k], ws, floating));
        }
    } else {
        if exists|k: int| 0 <= k < clients.len() && #[trigger] counts_for_bound(clients[k], ws, floating) {
            let k = choose|k: int| 0 <= k < clients.len() && #[trigger] counts_for_bound(clients[k], ws, floating);
            assert(on_plain_workspace(clients[k], ws, floating));
        }
    }
}

/// The edge test, by coordinates: the signed distance between the window's
/// right (left) edge and the monitor's right (left) edge, less the space
/// reserved there and the outer gap, lies between `-bordersize` and
/// `bordersize`.
pub proof fn lemma_edge_test_by_coordinates(
    act: Client,
    m: Monitor,
    bordersize: i32,
    gaps_out: i32,
    right: bool,
)
    ensures
        touches_edge(act, m, bordersize, gaps_out, right) <==> {
            let distance = if right {
                (act.at.0 + act.size.0) - (m.x + m.width - m.reserved_right - gaps_out)
            } else {
                act.at.0 - (m.x + m.reserved_left + gaps_out)
            };
            -bordersize <= distance <= bordersize
        },
{
}

/// Left or right from a tiled window at the monitor's edge: with swap the
/// window moves toward the neighbouring monitor, if there is one; without
/// swap the focus enters that monitor's workspace from the near side (its
/// near-side outermost tiled window, or the workspace itself when it has
/// none); with no neighbouring monitor nothing happens.
pub proof fn lemma_tiled_at_edge(
    direction: Direction,
    swap: bool,
    bordersize: Option<i32>,
    gaps_out: i32,
    active: Client,
    monitor: Monitor,
    clients: Seq<Client>,
    monitors: Seq<Monitor>,
)
    requires
        !active.floating,
        direction == Direction::Left || direction == Direction::Right,
        touches_edge(
            active,
            monitor,
            border_or_zero(bordersize),
            gaps_out,
            direction == Direction::Right,
        ),
    ensures
        ({
            let plan = horizontal_plan(
                direction,
                swap,
                bordersize,
                gaps_out,
                active,
                monitor,
                clients,
                monitors,
            );
            match adjacent_monitor(direction, monitor, monitors) {
                None => plan.len() == 0,
                Some(t) => if swap {
                    plan == seq![ActionView::MoveDirection(direction)]
                } else {
                    plan.len() == 1 && if exists|k: int|
                        0 <= k < clients.len() && #[trigger] on_plain_workspace(
                            clients[k],
                            t.active_workspace_id,
                            false,
                        ) {
                        exists|i: int|
                            #[trigger] near_side_window(direction, clients, t.active_workspace_id, i)
                                && plan[0] == ActionView::FocusWindowAddress(clients[i].address@)
                    } else {
                        plan[0] == ActionView::FocusWorkspace(decimal(t.active_workspace_id as int))
                    }
                },
            }
        }),
{
    if let Some(t) = adjacent_monitor(direction, monitor, monitors) {
        let ws = t.active_workspace_id;
        lemma_bound_clients_by_x(clients, ws, false);
        crate::laws::lemma_bound_clients_ordered(clients, ws, false);
        if let Some((l, r)) = bound_indices(clients, ws, false) {
            let i = if direction == Direction::Left {
                r
            } else {
                l
            };
            assert(near_side_window(direction, clients, ws, i));
        }
    }
}

/// Left or right with swap from a floating window: away from the monitor's
/// edge the window moves; at the edge it moves to the neighbouring monitor
/// and is centered there, or stays put when there is none.
pub proof fn lemma_floating_swap(
    direction: Direction,
    bordersize: Option<i32>,
    gaps_out: i32,
    active: Client,
    monitor: Monitor,
    clients: Seq<Client>,
    monitors: Seq<Monitor>,
)
    requires
        active.floating,
    ensures
        horizontal_plan(direction, true, bordersize, gaps_out, active, monitor, clients, monitors)
            == if !touches_edge(
            active,
            monitor,
            border_or_zero(bordersize),
            gaps_out,
            direction == Direction::Right,
        ) {
            seq![ActionView::MoveDirection(direction)]
        } else if adjacent_monitor(direction, monitor, monitors) is Some {
            seq![ActionView::MoveMonitor(direction), ActionView::CenterWindow]
        } else {
            seq![]
        },
{
}

/// Left or right without swap from the outermost floating window of a
/// workspace that has tiled windows: the focus goes to the workspace's
/// near-side outermost tiled window, wherever the window is on the monitor.
pub proof fn lemma_outermost_floating_focuses_own_tiled(
    direction: Direction,
    bordersize: Option<i32>,
    gaps_out: i32,
    active: Client,
    monitor: Monitor,
    clients: Seq<Client>,
    monitors: Seq<Monitor>,
)
    requires
        active.floating,
        clients.contains(active),
        direction == Direction::Left || direction == Direction::Right,
        !outreached(direction, active, clients),
        exists|k: int|
            0 <= k < clients.len() && #[trigger] on_plain_workspace(
                clients[k],
                active.workspace_id,
                false,
            ),
    ensures
        ({
            let plan = horizontal_plan(
                direction,
                false,
                bordersize,
                gaps_out,
                active,
                monitor,
                clients,
                monitors,
            );
            plan.len() == 1 && exists|i: int|
                #[trigger] near_side_window(direction, clients, active.workspace_id, i) && plan[0]
                    == ActionView::FocusWindowAddress(clients[i].address@)
        }),
{
    lemma_extreme_floating_iff_reaches_farthest(active, clients, direction);
    let ws = active.workspace_id;
    assert forall|k: int|
        0 <= k < clients.len() && clients[k].workspace_id == ws && clients[k].floating implies far_edge(
        direction,
        #[trigger] clients[k],
    ) <= far_edge(direction, active) by {
        if far_edge(direction, clients[k]) > far_edge(direction, active) {
            assert(outreached(direction, active, clients));
        }
    }
    lemma_bound_clients_by_x(clients, ws, false);
    crate::laws::lemma_bound_clients_ordered(clients, ws, false);
    let (l, r) = bound_indices(clients, ws, false)->0;
    let i = if direction == Direction::Left {
        r
    } else {
        l
    };
    assert(near_side_window(direction, clients, ws, i));
}

} // verus!
