use vstd::prelude::*;

use crate::model::{Client, Direction, Monitor};

verus! {

// ---------------------------------------------------------------------------
// The monitor next to the active one
// ---------------------------------------------------------------------------

/// `m` lies strictly beyond `active` in `direction` (only left and right count).
pub open spec fn beyond(direction: Direction, active: Monitor, m: Monitor) -> bool {
    match direction {
        Direction::Left => m.x < active.x,
        Direction::Right => m.x > active.x,
        _ => false,
    }
}

/// `a` is at least as near to the active monitor, going in `direction`, as `b`.
pub open spec fn no_farther(direction: Direction, a: Monitor, b: Monitor) -> bool {
    match direction {
        Direction::Left => a.x >= b.x,
        _ => a.x <= b.x,
    }
}

/// Among the first `n` monitors, `i` is the one picked as adjacent: it lies
/// beyond the active monitor, no other such monitor is nearer, and among equally
/// near ones it is the last (going left) or the first (going right).
pub open spec fn is_adjacent_among(
    direction: Direction,
    active: Monitor,
    monitors: Seq<Monitor>,
    n: int,
    i: int,
) -> bool {
    &&& 0 <= i < n <= monitors.len()
    &&& beyond(direction, active, monitors[i])
    &&& forall|k: int|
        0 <= k < n && #[trigger] beyond(direction, active, monitors[k]) ==> no_farther(
            direction,
            monitors[i],
            monitors[k],
        )
    &&& direction == Direction::Left ==> forall|k: int|
        i < k < n && #[trigger] beyond(direction, active, monitors[k]) ==> monitors[k].x
            < monitors[i].x
    &&& direction == Direction::Right ==> forall|k: int|
        0 <= k < i && #[trigger] beyond(direction, active, monitors[k]) ==> monitors[k].x
            > monitors[i].x
}

pub open spec fn is_adjacent_index(
    direction: Direction,
    active: Monitor,
    monitors: Seq<Monitor>,
    i: int,
) -> bool {
    is_adjacent_among(direction, active, monitors, monitors.len() as int, i)
}

/// The monitor next to `active` in `direction`, if there is one.
pub open spec fn adjacent_monitor(direction: Direction, active: Monitor, monitors: Seq<Monitor>) -> Option<
    Monitor,
> {
    if exists|i: int| is_adjacent_index(direction, active, monitors, i) {
        Some(monitors[choose|i: int| is_adjacent_index(direction, active, monitors, i)])
    } else {
        None
    }
}

/// At most one index is the adjacent one.
pub proof fn lemma_adjacent_index_unique(
    direction: Direction,
    active: Monitor,
    monitors: Seq<Monitor>,
    i: int,
    j: int,
)
    requires
        is_adjacent_index(direction, active, monitors, i),
        is_adjacent_index(direction, active, monitors, j),
    ensures
        i == j,
{
    assert(beyond(direction, active, monitors[i]));
    assert(beyond(direction, active, monitors[j]));
}

/// If some monitor lies beyond the active one, one of them is the adjacent one.
pub proof fn lemma_adjacent_index_exists(
    direction: Direction,
    active: Monitor,
    monitors: Seq<Monitor>,
    n: int,
    k: int,
)
    requires
        0 <= k < n <= monitors.len(),
        beyond(direction, active, monitors[k]),
    ensures
        exists|i: int| is_adjacent_among(direction, active, monitors, n, i),
    decreases n,
{
    if exists|j: int| 0 <= j < n - 1 && #[trigger] beyond(direction, active, monitors[j]) {
        let j = choose|j: int| 0 <= j < n - 1 && #[trigger] beyond(direction, active, monitors[j]);
        let prev = n - 1;
        lemma_adjacent_index_exists(direction, active, monitors, prev, j);
        let i = choose|i: int| is_adjacent_among(direction, active, monitors, prev, i);
        let last = monitors[n - 1];
        if beyond(direction, active, last) && ((direction == Direction::Left && last.x
            >= monitors[i].x) || (direction == Direction::Right && last.x < monitors[i].x)) {
            assert(is_adjacent_among(direction, active, monitors, n, n - 1));
        } else {
            assert(is_adjacent_among(direction, active, monitors, n, i));
        }
    } else {
        assert(k == n - 1);
        assert(is_adjacent_among(direction, active, monitors, n, n - 1));
    }
}

/// Finds the adjacent monitor in the given direction (left or right): the
/// nearest monitor whose x lies beyond the active one's; up and down have none.
pub fn find_adjacent_monitor(direction: &Direction, active_monitor: &Monitor, all_monitors: &Vec<
    Monitor,
>) -> (res: Option<Monitor>)
    ensures
        res == adjacent_monitor(*direction, *active_monitor, all_monitors@),
        res is Some <==> exists|k: int|
            0 <= k < all_monitors@.len() && #[trigger] beyond(
                *direction,
                *active_monitor,
                all_monitors@[k],
            ),
{
    let ghost d = *direction;
    let ghost a = *active_monitor;
    let ghost ms = all_monitors@;
    let mut best: Option<usize> = None;
    let n = all_monitors.len();
    for i in 0..n
        invariant
            n == ms.len(),
            ms == all_monitors@,
            d == *direction,
            a == *active_monitor,
            best is None ==> forall|k: int| 0 <= k < i ==> !#[trigger] beyond(d, a, ms[k]),
            best matches Some(b) ==> is_adjacent_among(d, a, ms, i as int, b as int),
    {
        let m = all_monitors[i];
        let is_beyond = match direction {
            Direction::Left => m.x < active_monitor.x,
            Direction::Right => m.x > active_monitor.x,
            _ => false,
        };
        if is_beyond {
            match best {
                None => {
                    best = Some(i);
                },
                Some(b) => {
                    let nearer = match direction {
                        Direction::Left => m.x >= all_monitors[b].x,
                        _ => m.x < all_monitors[b].x,
                    };
                    if nearer {
                        best = Some(i);
                    }
                },
            }
        }
    }
    match best {
        None => {
            assert forall|i: int| !is_adjacent_index(d, a, ms, i) by {
                if 0 <= i < ms.len() {
                    assert(!beyond(d, a, ms[i]));
                }
            }
            None
        },
        Some(b) => {
            proof {
                assert(is_adjacent_index(d, a, ms, b as int));
                let c = choose|i: int| is_adjacent_index(d, a, ms, i);
                lemma_adjacent_index_unique(d, a, ms, c, b as int);
            }
            Some(all_monitors[b])
        },
    }
}

// ---------------------------------------------------------------------------
// Leftmost and rightmost window of a workspace
// ---------------------------------------------------------------------------

/// `s` starts with `prefix`.
pub open spec fn has_prefix(s: Seq<char>, prefix: Seq<char>) -> bool {
    prefix.len() <= s.len() && s.subrange(0, prefix.len() as int) == prefix
}

/// Whether `s` starts with `prefix`.
pub fn starts_with(s: &str, prefix: &str) -> (res: bool)
    ensures
        res == has_prefix(s@, prefix@),
{
    let n = s.unicode_len();
    let m = prefix.unicode_len();
    if m > n {
        return false;
    }
    for i in 0..m
        invariant
            m == prefix@.len(),
            n == s@.len(),
            m <= n,
            forall|k: int| 0 <= k < i ==> s@[k] == prefix@[k],
    {
        if s.get_char(i) != prefix.get_char(i) {
            assert(s@.subrange(0, m as int)[i as int] != prefix@[i as int]);
            return false;
        }
    }
    assert(s@.subrange(0, m as int) =~= prefix@);
    true
}

/// The window counts when looking for the outermost windows of workspace `ws`:
/// it is on that workspace, the workspace is not a special one, and its
/// floating state is `floating`.
pub open spec fn counts_for_bound(c: Client, ws: i32, floating: bool) -> bool {
    &&& c.workspace_id == ws
    &&& !has_prefix(c.workspace_name@, "special"@)
    &&& c.floating == floating
}

/// Among the first `n` clients, `i` is the leftmost counted one, the first on a tie.
pub open spec fn is_leftmost_among(
    clients: Seq<Client>,
    ws: i32,
    floating: bool,
    n: int,
    i: int,
) -> bool {
    &&& 0 <= i < n <= clients.len()
    &&& counts_for_bound(clients[i], ws, floating)
    &&& forall|k: int|
        0 <= k < n && #[trigger] counts_for_bound(clients[k], ws, floating) ==> clients[i].at.0
            <= clients[k].at.0
    &&& forall|k: int|
        0 <= k < i && #[trigger] counts_for_bound(clients[k], ws, floating) ==> clients[k].at.0
            > clients[i].at.0
}

/// Among the first `n` clients, `i` is the rightmost counted one, the last on a tie.
pub open spec fn is_rightmost_among(
    clients: Seq<Client>,
    ws: i32,
    floating: bool,
    n: int,
    i: int,
) -> bool {
    &&& 0 <= i < n <= clients.len()
    &&& counts_for_bound(clients[i], ws, floating)
    &&& forall|k: int|
        0 <= k < n && #[trigger] counts_for_bound(clients[k], ws, floating) ==> clients[k].at.0
            <= clients[i].at.0
    &&& forall|k: int|
        i < k < n && #[trigger] counts_for_bound(clients[k], ws, floating) ==> clients[k].at.0
            < clients[i].at.0
}

pub open spec fn is_leftmost(clients: Seq<Client>, ws: i32, floating: bool, i: int) -> bool {
    is_leftmost_among(clients, ws, floating, clients.len() as int, i)
}

pub open spec fn is_rightmost(clients: Seq<Client>, ws: i32, floating: bool, i: int) -> bool {
    is_rightmost_among(clients, ws, floating, clients.len() as int, i)
}

/// Indices of the leftmost and rightmost counted windows of workspace `ws`, if
/// the workspace has any.
pub open spec fn bound_indices(clients: Seq<Client>, ws: i32, floating: bool) -> Option<(int, int)> {
    if exists|k: int| 0 <= k < clients.len() && #[trigger] counts_for_bound(clients[k], ws, floating) {
        Some(
            (
                choose|i: int| is_leftmost(clients, ws, floating, i),
                choose|i: int| is_rightmost(clients, ws, floating, i),
            ),
        )
    } else {
        None
    }
}

pub proof fn lemma_leftmost_unique(clients: Seq<Client>, ws: i32, floating: bool, i: int, j: int)
    requires
        is_leftmost(clients, ws, floating, i),
        is_leftmost(clients, ws, floating, j),
    ensures
        i == j,
{
    assert(counts_for_bound(clients[i], ws, floating));
    assert(counts_for_bound(clients[j], ws, floating));
}

pub proof fn lemma_rightmost_unique(clients: Seq<Client>, ws: i32, floating: bool, i: int, j: int)
    requires
        is_rightmost(clients, ws, floating, i),
        is_rightmost(clients, ws, floating, j),
    ensures
        i == j,
{
    assert(counts_for_bound(clients[i], ws, floating));
    assert(counts_for_bound(clients[j], ws, floating));
}

/// If the workspace has a counted window, it has a leftmost and a rightmost one.
pub proof fn lemma_bound_indices_exist(
    clients: Seq<Client>,
    ws: i32,
    floating: bool,
    n: int,
    k: int,
)
    requires
        0 <= k < n <= clients.len(),
        counts_for_bound(clients[k], ws, floating),
    ensures
        exists|i: int| is_leftmost_among(clients, ws, floating, n, i),
        exists|i: int| is_rightmost_among(clients, ws, floating, n, i),
    decreases n,
{
    if exists|j: int| 0 <= j < n - 1 && #[trigger] counts_for_bound(clients[j], ws, floating) {
        let j = choose|j: int| 0 <= j < n - 1 && #[trigger] counts_for_bound(clients[j], ws, floating);
        let prev = n - 1;
        lemma_bound_indices_exist(clients, ws, floating, prev, j);
        let l = choose|i: int| is_leftmost_among(clients, ws, floating, prev, i);
        let r = choose|i: int| is_rightmost_among(clients, ws, floating, prev, i);
        let last = clients[n - 1];
        if counts_for_bound(last, ws, floating) && last.at.0 < clients[l].at.0 {
            assert(is_leftmost_among(clients, ws, floating, n, n - 1));
        } else {
            assert(is_leftmost_among(clients, ws, floating, n, l));
        }
        if counts_for_bound(last, ws, floating) && last.at.0 >= clients[r].at.0 {
            assert(is_rightmost_among(clients, ws, floating, n, n - 1));
        } else {
            assert(is_rightmost_among(clients, ws, floating, n, r));
        }
    } else {
        assert(k == n - 1);
        assert(is_leftmost_among(clients, ws, floating, n, n - 1));
        assert(is_rightmost_among(clients, ws, floating, n, n - 1));
    }
}

/// Whether the window counts for `get_bound_client`.
fn counts(c: &Client, workspace_id: i32, floating: bool) -> (res: bool)
    ensures
        res == counts_for_bound(*c, workspace_id, floating),
{
    c.workspace_id == workspace_id && !starts_with(c.workspace_name.as_str(), "special")
        && c.floating == floating
}

/// Finds the leftmost and rightmost windows on a workspace (ignoring special
/// workspaces, and only windows whose floating state is `floating`): the one
/// with the smallest x, the first on a tie, and the one with the largest x,
/// the last on a tie. `None` when the workspace has no such window.
pub fn get_bound_client<'a>(all_clients: &'a Vec<Client>, workspace_id: i32, floating: bool) -> (res:
    Option<(&'a Client, &'a Client)>)
    ensures
        match bound_indices(all_clients@, workspace_id, floating) {
            None => res is None,
            Some((l, r)) => res matches Some((lc, rc)) && *lc == all_clients@[l] && *rc
                == all_clients@[r],
        },
{
    let ghost cs = all_clients@;
    let n = all_clients.len();
    let mut left: Option<usize> = None;
    let mut right: usize = 0;
    for i in 0..n
        invariant
            n == cs.len(),
            cs == all_clients@,
            left is None ==> forall|k: int|
                0 <= k < i ==> !#[trigger] counts_for_bound(cs[k], workspace_id, floating),
            left matches Some(l) ==> is_leftmost_among(cs, workspace_id, floating, i as int, l as int)
                && is_rightmost_among(cs, workspace_id, floating, i as int, right as int),
    {
        if counts(&all_clients[i], workspace_id, floating) {
            match left {
                None => {
                    left = Some(i);
                    right = i;
                },
                Some(l) => {
                    if all_clients[i].at.0 < all_clients[l].at.0 {
                        left = Some(i);
                    }
                    if all_clients[i].at.0 >= all_clients[right].at.0 {
                        right = i;
                    }
                },
            }
        }
    }
    match left {
        None => {
            assert(!exists|k: int|
                0 <= k < cs.len() && #[trigger] counts_for_bound(cs[k], workspace_id, floating));
            None
        },
        Some(l) => {
            proof {
                assert(is_leftmost(cs, workspace_id, floating, l as int));
                assert(is_rightmost(cs, workspace_id, floating, right as int));
                let cl = choose|i: int| is_leftmost(cs, workspace_id, floating, i);
                lemma_leftmost_unique(cs, workspace_id, floating, cl, l as int);
                let cr = choose|i: int| is_rightmost(cs, workspace_id, floating, i);
                lemma_rightmost_unique(cs, workspace_id, floating, cr, right as int);
            }
            Some((&all_clients[l], &all_clients[right]))
        },
    }
}

// ---------------------------------------------------------------------------
// The outermost floating window
// ---------------------------------------------------------------------------

/// The window floats on workspace `ws`.
pub open spec fn floating_on(c: Client, ws: i32) -> bool {
    c.workspace_id == ws && c.floating
}

/// How many of `clients` float on workspace `ws`.
pub open spec fn count_floating(clients: Seq<Client>, ws: i32) -> nat
    decreases clients.len(),
{
    if clients.len() == 0 {
        0
    } else {
        count_floating(clients.drop_last(), ws) + if floating_on(clients.last(), ws) {
            1nat
        } else {
            0nat
        }
    }
}

/// `active` reaches at least as far as `c` in `direction`: its left edge is
/// not right of `c`'s (left), its right edge not left of `c`'s (right), its top
/// not below `c`'s (up), its bottom not above `c`'s (down).
pub open spec fn reaches_as_far(direction: Direction, active: Client, c: Client) -> bool {
    match direction {
        Direction::Left => active.at.0 <= c.at.0,
        Direction::Right => active.at.0 + active.size.0 >= c.at.0 + c.size.0,
        Direction::Up => active.at.1 <= c.at.1,
        Direction::Down => active.at.1 + active.size.1 >= c.at.1 + c.size.1,
    }
}

/// The active floating window is the outermost floating window of its
/// workspace in `direction`: its workspace has at most one floating window, or
/// it reaches at least as far as every floating window there.
pub open spec fn extreme_floating(active: Client, clients: Seq<Client>, direction: Direction) -> bool {
    ||| count_floating(clients, active.workspace_id) <= 1
    ||| forall|k: int|
        0 <= k < clients.len() && #[trigger] floating_on(clients[k], active.workspace_id)
            ==> reaches_as_far(direction, active, clients[k])
}

/// Whether `active` reaches at least as far as `c` in `direction`.
fn reaches(direction: &Direction, active: &Client, c: &Client) -> (res: bool)
    ensures
        res == reaches_as_far(*direction, *active, *c),
{
    match direction {
        Direction::Left => active.at.0 <= c.at.0,
        Direction::Right => active.at.0 as i32 + active.size.0 as i32 >= c.at.0 as i32
            + c.size.0 as i32,
        Direction::Up => active.at.1 <= c.at.1,
        Direction::Down => active.at.1 as i32 + active.size.1 as i32 >= c.at.1 as i32
            + c.size.1 as i32,
    }
}

/// Checks if a floating window is the most extreme floating window of its
/// workspace in a given direction.
pub fn is_extreme_floating(active_client: &Client, all_clients: &Vec<Client>, direction: &Direction) -> (res:
    bool)
    ensures
        res == extreme_floating(*active_client, all_clients@, *direction),
{
    let ghost cs = all_clients@;
    let ws = active_client.workspace_id;
    let n = all_clients.len();
    let mut count: usize = 0;
    let mut all_reached = true;
    for i in 0..n
        invariant
            n == cs.len(),
            cs == all_clients@,
            ws == active_client.workspace_id,
            count <= i,
            count == count_floating(cs.take(i as int), ws),
            all_reached == forall|k: int|
                0 <= k < i && #[trigger] floating_on(cs[k], ws) ==> reaches_as_far(
                    *direction,
                    *active_client,
                    cs[k],
                ),
    {
        assert(cs.take(i + 1).drop_last() =~= cs.take(i as int));
        let c = &all_clients[i];
        let ghost before = all_reached;
        if c.workspace_id == ws && c.floating {
            count = count + 1;
            if !reaches(direction, active_client, c) {
                all_reached = false;
            }
        }
        assert(all_reached == forall|k: int|
            0 <= k < i + 1 && #[trigger] floating_on(cs[k], ws) ==> reaches_as_far(
                *direction,
                *active_client,
                cs[k],
            )) by {
            if floating_on(cs[i as int], ws) && !reaches_as_far(*direction, *active_client, cs[i as int]) {
                assert(!all_reached);
            }
            if !before {
                let w = choose|k: int|
                    !(0 <= k < i && #[trigger] floating_on(cs[k], ws) ==> reaches_as_far(
                        *direction,
                        *active_client,
                        cs[k],
                    ));
                assert(0 <= w < i + 1);
            }
        }
    }
    assert(cs.take(n as int) =~= cs);
    count <= 1 || all_reached
}

// ---------------------------------------------------------------------------
// Touching the monitor's edge
// ---------------------------------------------------------------------------

/// The x where the usable area of the monitor ends on the right: its right
/// edge less what bars reserve there and the outer gap.
pub open spec fn usable_right(m: Monitor, gaps_out: i32) -> int {
    m.x + m.width - m.reserved_right - gaps_out
}

/// The x where the usable area of the monitor begins on the left.
pub open spec fn usable_left(m: Monitor, gaps_out: i32) -> int {
    m.x + m.reserved_left + gaps_out
}

/// The x of the window's right edge.
pub open spec fn window_right(c: Client) -> int {
    c.at.0 + c.size.0
}

pub open spec fn abs(v: int) -> int {
    if v < 0 {
        -v
    } else {
        v
    }
}

/// The window's right (or left) edge lies within `bordersize` pixels of the
/// usable area's right (or left) edge.
pub open spec fn touches_edge(
    act: Client,
    m: Monitor,
    bordersize: i32,
    gaps_out: i32,
    right: bool,
) -> bool {
    if right {
        abs(window_right(act) - usable_right(m, gaps_out)) <= bordersize
    } else {
        abs(act.at.0 - usable_left(m, gaps_out)) <= bordersize
    }
}

pub open spec fn fits_i32(v: int) -> bool {
    i32::MIN <= v <= i32::MAX
}

/// The edge test computes in the integer widths it is written in: the
/// window's right edge in `i16`, the monitor's edges and the distance in
/// `i32`, where the distance is not `i32::MIN` (whose absolute value does not
/// fit).
pub open spec fn edge_test_fits(act: Client, m: Monitor, gaps_out: i32, right: bool) -> bool {
    &&& i16::MIN <= window_right(act) <= i16::MAX
    &&& fits_i32(m.x + m.width)
    &&& fits_i32(m.x + m.width - m.reserved_right)
    &&& fits_i32(usable_right(m, gaps_out))
    &&& fits_i32(m.x + m.reserved_left)
    &&& fits_i32(usable_left(m, gaps_out))
    &&& if right {
        i32::MIN < window_right(act) - usable_right(m, gaps_out) <= i32::MAX
    } else {
        i32::MIN < act.at.0 - usable_left(m, gaps_out) <= i32::MAX
    }
}

/// Whether the edge test can be computed for these values without an
/// arithmetic overflow.
pub fn edge_test_in_range(act: &Client, monitor: &Monitor, gaps_out: i32, is_checking_right_bound: bool) -> (res:
    bool)
    ensures
        res == edge_test_fits(*act, *monitor, gaps_out, is_checking_right_bound),
{
    let act_right: i64 = act.at.0 as i64 + act.size.0 as i64;
    let with_width: i64 = monitor.x as i64 + monitor.width as i64;
    let less_reserved: i64 = with_width - monitor.reserved_right as i64;
    let mon_right: i64 = less_reserved - gaps_out as i64;
    let with_reserved: i64 = monitor.x as i64 + monitor.reserved_left as i64;
    let mon_left: i64 = with_reserved + gaps_out as i64;
    let fits = |v: i64| -> (b: bool)
        ensures
            b == fits_i32(v as int),
        { i32::MIN as i64 <= v && v <= i32::MAX as i64 };
    if !(i16::MIN as i64 <= act_right && act_right <= i16::MAX as i64) {
        return false;
    }
    if !(fits(with_width) && fits(less_reserved) && fits(mon_right) && fits(with_reserved) && fits(
        mon_left,
    )) {
        return false;
    }
    let distance: i64 = if is_checking_right_bound {
        act_right - mon_right
    } else {
        act.at.0 as i64 - mon_left
    };
    (i32::MIN as i64) < distance && distance <= (i32::MAX as i64)
}

/// Checks if a window is physically at the edge of the monitor: whether its
/// right (or left) edge is within `bordersize` pixels of the right (or left)
/// edge of the monitor's usable area, which leaves out the space reserved by
/// bars and the outer gap `gaps_out`.
pub fn is_bound(
    act: &Client,
    monitor: &Monitor,
    bordersize: i32,
    gaps_out: i32,
    is_checking_right_bound: bool,
) -> (res: bool)
    requires
        edge_test_fits(*act, *monitor, gaps_out, is_checking_right_bound),
    ensures
        res == touches_edge(*act, *monitor, bordersize, gaps_out, is_checking_right_bound),
{
    let mon_right = monitor.x + monitor.width as i32 - monitor.reserved_right as i32 - gaps_out;
    let mon_left = monitor.x + monitor.reserved_left as i32 + gaps_out;
    let act_right = (act.at.0 + act.size.0) as i32;
    let act_left = act.at.0 as i32;
    let distance = if is_checking_right_bound {
        act_right - mon_right
    } else {
        act_left - mon_left
    };
    let magnitude = if distance < 0 {
        -distance
    } else {
        distance
    };
    magnitude <= bordersize
}

} // verus!
