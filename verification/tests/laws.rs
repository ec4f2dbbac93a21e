use hyprnav::dispatch::Action;
use hyprnav::geometry::is_extreme_floating;
use hyprnav::model::{Client, Direction, Monitor};
use hyprnav::navigate::{handle_horizontal_nav, handle_vertical_nav};

fn client(address: &str, ws: i32, floating: bool, at: (i16, i16), size: (i16, i16)) -> Client {
    Client {
        address: address.to_string(),
        at,
        size,
        workspace_id: ws,
        workspace_name: ws.to_string(),
        floating,
    }
}

fn monitor(x: i32, ws: i32) -> Monitor {
    Monitor { x, width: 1920, reserved_right: 0, reserved_left: 0, active_workspace_id: ws }
}

fn moves_window(a: &Action) -> bool {
    matches!(
        a,
        Action::MoveDirection(_) | Action::MoveMonitor(_) | Action::SwapDirection(_) | Action::CenterWindow
    )
}

fn scene() -> (Vec<Client>, Vec<Monitor>) {
    let clients = vec![
        client("0x1", 1, false, (0, 0), (960, 1080)),
        client("0x2", 1, false, (960, 0), (960, 1080)),
        client("0x3", 1, true, (200, 200), (300, 300)),
        client("0x4", 1, true, (1600, 700), (320, 300)),
        client("0x5", 2, false, (1920, 0), (1920, 1080)),
    ];
    (clients, vec![monitor(0, 1), monitor(1920, 2)])
}

#[test]
fn swap_plans_only_move_windows() {
    let (cs, ms) = scene();
    for swap in [false, true] {
        for i in 0..4 {
            for d in [Direction::Up, Direction::Down] {
                let plan = handle_vertical_nav(d, swap, &cs[i], &cs);
                assert!(!plan.is_empty());
                assert!(plan.iter().all(|a| moves_window(a) == swap));
                if !swap {
                    assert_eq!(plan.len(), 2);
                    assert_eq!(plan[1], Action::AlterZorderTop);
                }
            }
            for d in [Direction::Left, Direction::Right] {
                let plan = handle_horizontal_nav(d, swap, None, 0, &cs[i], &ms[0], &cs, &ms);
                assert!(plan.iter().all(|a| moves_window(a) == swap));
            }
        }
    }
}

#[test]
fn some_floating_window_is_extreme_each_way() {
    let (cs, _) = scene();
    for d in [Direction::Up, Direction::Down, Direction::Left, Direction::Right] {
        assert!(cs.iter().filter(|c| c.floating && c.workspace_id == 1).any(|c| is_extreme_floating(c, &cs, &d)));
    }
}

#[test]
fn tiled_leaves_workspace_only_at_boundary() {
    let (cs, ms) = scene();
    // 0x2 touches the right edge of monitor 0, 0x1 touches its left edge.
    assert_eq!(
        handle_horizontal_nav(Direction::Right, false, None, 0, &cs[1], &ms[0], &cs, &ms),
        vec![Action::FocusWindowAddress("0x5".to_string())]
    );
    assert_eq!(
        handle_horizontal_nav(Direction::Right, false, None, 0, &cs[0], &ms[0], &cs, &ms),
        vec![Action::FocusDirection(Direction::Right)]
    );
    assert_eq!(handle_horizontal_nav(Direction::Left, false, None, 0, &cs[0], &ms[0], &cs, &ms), vec![]);
    // The left window's right edge is 960 pixels from the monitor's right
    // edge: it touches it only with a tolerance of at least 960.
    assert_eq!(
        handle_horizontal_nav(Direction::Right, false, Some(959), 0, &cs[0], &ms[0], &cs, &ms),
        vec![Action::FocusDirection(Direction::Right)]
    );
    assert_eq!(
        handle_horizontal_nav(Direction::Right, false, Some(960), 0, &cs[0], &ms[0], &cs, &ms),
        vec![Action::FocusWindowAddress("0x5".to_string())]
    );
}
