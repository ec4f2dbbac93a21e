use hyprnav::dispatch::Action;
use hyprnav::model::{Client, Command, Direction, HorizontalArgs, Monitor, VerticalArgs};
use hyprnav::navigate::{handle_horizontal_nav, handle_in_empty_ws, handle_vertical_nav, navigate};

fn client(address: &str, ws: i32, floating: bool, at: (i16, i16), size: (i16, i16)) -> Client {
    Client {
        address: address.to_string(),
        at,
        size,
        workspace_id: ws,
        workspace_name: ws.to_string(),
        floating,
    }
}

fn monitor(x: i32, width: u16, ws: i32) -> Monitor {
    Monitor { x, width, reserved_right: 0, reserved_left: 0, active_workspace_id: ws }
}

fn ws(s: &str) -> Action {
    Action::FocusWorkspace(s.to_string())
}

fn addr(s: &str) -> Action {
    Action::FocusWindowAddress(s.to_string())
}

#[test]
fn empty_workspace_moves_to_neighbouring_workspace() {
    let v = VerticalArgs { swap: false };
    let h = HorizontalArgs { swap: false, bordersize: None };
    assert_eq!(handle_in_empty_ws(&Command::Right(h)), ws("e+1"));
    assert_eq!(handle_in_empty_ws(&Command::Up(v)), ws("e+1"));
    assert_eq!(handle_in_empty_ws(&Command::Left(h)), ws("e-1"));
    assert_eq!(handle_in_empty_ws(&Command::Down(v)), ws("e-1"));
}

/// Two tiled windows stacked vertically on workspace 1, one floating window.
fn stack() -> Vec<Client> {
    vec![
        client("0xtop", 1, false, (0, 0), (1920, 540)),
        client("0xbottom", 1, false, (0, 540), (1920, 540)),
        client("0xfloat", 1, true, (300, 300), (400, 300)),
        client("0xother", 2, false, (0, -500), (1920, 540)),
    ]
}

#[test]
fn vertical_swap_moves_or_swaps() {
    let cs = stack();
    assert_eq!(handle_vertical_nav(Direction::Up, true, &cs[0], &cs), vec![Action::SwapDirection(Direction::Up)]);
    assert_eq!(handle_vertical_nav(Direction::Down, true, &cs[2], &cs), vec![Action::MoveDirection(Direction::Down)]);
}

#[test]
fn vertical_tiled_focus() {
    let cs = stack();
    // Top window going up is at the edge: focus goes to the floating windows.
    assert_eq!(
        handle_vertical_nav(Direction::Up, false, &cs[0], &cs),
        vec![Action::CycleNextFloating, Action::AlterZorderTop]
    );
    // Top window going down: ordinary focus move.
    assert_eq!(
        handle_vertical_nav(Direction::Down, false, &cs[0], &cs),
        vec![Action::FocusDirection(Direction::Down), Action::AlterZorderTop]
    );
    assert_eq!(
        handle_vertical_nav(Direction::Down, false, &cs[1], &cs),
        vec![Action::CycleNextFloating, Action::AlterZorderTop]
    );
    assert_eq!(
        handle_vertical_nav(Direction::Up, false, &cs[1], &cs),
        vec![Action::FocusDirection(Direction::Up), Action::AlterZorderTop]
    );
}

#[test]
fn vertical_tiled_without_tiled_list() {
    // The active window is tiled but on a workspace the list does not show:
    // no edge, the focus just moves.
    let cs = stack();
    let lonely = client("0xl", 7, false, (0, 0), (10, 10));
    assert_eq!(
        handle_vertical_nav(Direction::Up, false, &lonely, &cs),
        vec![Action::FocusDirection(Direction::Up), Action::AlterZorderTop]
    );
}

#[test]
fn vertical_floating_focus() {
    let mut cs = stack();
    // Alone among floating windows: extreme, focus the tiled windows.
    assert_eq!(
        handle_vertical_nav(Direction::Up, false, &cs[2], &cs),
        vec![Action::CycleNextTiled, Action::AlterZorderTop]
    );
    cs.push(client("0xfloat2", 1, true, (300, 100), (100, 100)));
    // Now another floating window is above: cycle backwards.
    assert_eq!(
        handle_vertical_nav(Direction::Up, false, &cs[2], &cs),
        vec![Action::CycleNextFloatingVisible(false), Action::AlterZorderTop]
    );
    // Going down it is the lowest (bottom 600 against 200).
    assert_eq!(
        handle_vertical_nav(Direction::Down, false, &cs[2], &cs),
        vec![Action::CycleNextTiled, Action::AlterZorderTop]
    );
    assert_eq!(
        handle_vertical_nav(Direction::Down, false, &cs[4], &cs),
        vec![Action::CycleNextFloatingVisible(true), Action::AlterZorderTop]
    );
}

/// Three monitors side by side; the middle one shows workspace 2.
fn monitors() -> Vec<Monitor> {
    vec![monitor(-1920, 1920, 1), monitor(0, 1920, 2), monitor(1920, 1920, 3)]
}

/// Workspace 1 (left monitor) has two tiled windows, workspace 2 two tiled
/// windows side by side, workspace 3 none.
fn desk() -> Vec<Client> {
    vec![
        client("0xl1", 1, false, (-1920, 0), (960, 1080)),
        client("0xl2", 1, false, (-960, 0), (960, 1080)),
        client("0xm1", 2, false, (0, 0), (960, 1080)),
        client("0xm2", 2, false, (960, 0), (960, 1080)),
    ]
}

#[test]
fn horizontal_tiled_inside_moves_focus_or_swaps() {
    let cs = desk();
    let ms = monitors();
    assert_eq!(
        handle_horizontal_nav(Direction::Right, false, None, 0, &cs[2], &ms[1], &cs, &ms),
        vec![Action::FocusDirection(Direction::Right)]
    );
    assert_eq!(
        handle_horizontal_nav(Direction::Right, true, None, 0, &cs[2], &ms[1], &cs, &ms),
        vec![Action::SwapDirection(Direction::Right)]
    );
}

#[test]
fn horizontal_tiled_at_edge_enters_next_monitor() {
    let cs = desk();
    let ms = monitors();
    // Left edge of the middle monitor: enter workspace 1 at its rightmost window.
    assert_eq!(
        handle_horizontal_nav(Direction::Left, false, None, 0, &cs[2], &ms[1], &cs, &ms),
        vec![addr("0xl2")]
    );
    // Right edge: the right monitor's workspace 3 is empty, focus it by id.
    assert_eq!(
        handle_horizontal_nav(Direction::Right, false, None, 0, &cs[3], &ms[1], &cs, &ms),
        vec![ws("3")]
    );
    // With swap the window moves toward that monitor.
    assert_eq!(
        handle_horizontal_nav(Direction::Right, true, None, 0, &cs[3], &ms[1], &cs, &ms),
        vec![Action::MoveDirection(Direction::Right)]
    );
    // From the left monitor going right: enter workspace 2 at its leftmost window.
    assert_eq!(
        handle_horizontal_nav(Direction::Right, false, None, 0, &cs[1], &ms[0], &cs, &ms),
        vec![addr("0xm1")]
    );
}

#[test]
fn horizontal_tiled_at_outer_edge_does_nothing() {
    let cs = desk();
    let ms = monitors();
    assert_eq!(handle_horizontal_nav(Direction::Left, false, None, 0, &cs[0], &ms[0], &cs, &ms), vec![]);
    assert_eq!(handle_horizontal_nav(Direction::Left, true, None, 0, &cs[0], &ms[0], &cs, &ms), vec![]);
}

#[test]
fn horizontal_gaps_and_bordersize() {
    let cs = desk();
    let ms = monitors();
    // With an outer gap of 10 the window at x = 0 is 10 pixels off the
    // usable left edge: not at the boundary unless the tolerance covers it.
    assert_eq!(
        handle_horizontal_nav(Direction::Left, false, None, 10, &cs[2], &ms[1], &cs, &ms),
        vec![Action::FocusDirection(Direction::Left)]
    );
    assert_eq!(
        handle_horizontal_nav(Direction::Left, false, Some(10), 10, &cs[2], &ms[1], &cs, &ms),
        vec![addr("0xl2")]
    );
}

#[test]
fn horizontal_negative_workspace_id_is_written_in_decimal() {
    let cs = desk();
    let ms = vec![monitor(0, 1920, 2), monitor(1920, 1920, -98)];
    assert_eq!(
        handle_horizontal_nav(Direction::Right, false, None, 0, &cs[3], &ms[0], &cs, &ms),
        vec![ws("-98")]
    );
}

#[test]
fn horizontal_floating() {
    let mut cs = desk();
    let ms = monitors();
    cs.push(client("0xf1", 2, true, (100, 100), (300, 300)));
    cs.push(client("0xf2", 2, true, (1000, 100), (300, 300)));
    // f1 is not the rightmost floating window: cycle forward, raise.
    assert_eq!(
        handle_horizontal_nav(Direction::Right, false, None, 0, &cs[4], &ms[1], &cs, &ms),
        vec![Action::CycleNextFloatingVisible(true), Action::AlterZorderTop]
    );
    // f1 is the leftmost floating window: focus the workspace's rightmost tiled window.
    assert_eq!(
        handle_horizontal_nav(Direction::Left, false, None, 0, &cs[4], &ms[1], &cs, &ms),
        vec![addr("0xm2")]
    );
    // f2 going right: the leftmost tiled window.
    assert_eq!(
        handle_horizontal_nav(Direction::Right, false, None, 0, &cs[5], &ms[1], &cs, &ms),
        vec![addr("0xm1")]
    );
    // Swap away from the edge moves the window.
    assert_eq!(
        handle_horizontal_nav(Direction::Right, true, None, 0, &cs[5], &ms[1], &cs, &ms),
        vec![Action::MoveDirection(Direction::Right)]
    );
}

#[test]
fn horizontal_floating_at_edge_changes_monitor() {
    let cs = vec![client("0xf", 2, true, (1620, 0), (300, 300)), client("0xr", 3, false, (1920, 0), (100, 100))];
    let ms = monitors();
    assert_eq!(
        handle_horizontal_nav(Direction::Right, true, None, 0, &cs[0], &ms[1], &cs, &ms),
        vec![Action::MoveMonitor(Direction::Right), Action::CenterWindow]
    );
    // No tiled window on its own workspace: enter the next monitor's workspace.
    assert_eq!(
        handle_horizontal_nav(Direction::Right, false, None, 0, &cs[0], &ms[1], &cs, &ms),
        vec![addr("0xr")]
    );
    // On the last monitor there is nowhere to go.
    let ms2 = vec![monitor(0, 1920, 2)];
    assert_eq!(handle_horizontal_nav(Direction::Right, true, None, 0, &cs[0], &ms2[0], &cs, &ms2), vec![]);
    assert_eq!(handle_horizontal_nav(Direction::Right, false, None, 0, &cs[0], &ms2[0], &cs, &ms2), vec![]);
}

#[test]
fn navigate_runs_the_subcommand() {
    let cs = desk();
    let ms = monitors();
    let h = HorizontalArgs { swap: false, bordersize: None };
    assert_eq!(navigate(&Command::Left(h), 0, &cs[2], &ms[1], &cs, &ms), vec![addr("0xl2")]);
    assert_eq!(
        navigate(&Command::Down(VerticalArgs { swap: true }), 0, &cs[2], &ms[1], &cs, &ms),
        vec![Action::SwapDirection(Direction::Down)]
    );
}

#[test]
fn horizontal_floating_away_from_edge_stays_on_monitor() {
    // A floating window alone on its workspace, 280 pixels from the left
    // edge, with a monitor to the left: it is the outermost floating window,
    // but not at the edge, so nothing changes monitor.
    let cs = vec![client("0xf", 2, true, (280, 0), (300, 300)), client("0xl", 1, false, (-1920, 0), (100, 100))];
    let ms = monitors();
    assert_eq!(handle_horizontal_nav(Direction::Left, false, None, 0, &cs[0], &ms[1], &cs, &ms), vec![]);
    // At the edge it enters the left monitor's workspace.
    let cs = vec![client("0xf", 2, true, (0, 0), (300, 300)), client("0xl", 1, false, (-1920, 0), (100, 100))];
    assert_eq!(
        handle_horizontal_nav(Direction::Left, false, None, 0, &cs[0], &ms[1], &cs, &ms),
        vec![addr("0xl")]
    );
    // Within the tolerance counts as at the edge too.
    let cs = vec![client("0xf", 2, true, (280, 0), (300, 300)), client("0xl", 1, false, (-1920, 0), (100, 100))];
    assert_eq!(
        handle_horizontal_nav(Direction::Left, false, Some(280), 0, &cs[0], &ms[1], &cs, &ms),
        vec![addr("0xl")]
    );
}
