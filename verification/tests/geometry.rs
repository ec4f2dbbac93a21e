use hyprnav::geometry::{
    edge_test_in_range, find_adjacent_monitor, get_bound_client, is_bound, is_extreme_floating,
    starts_with,
};
use hyprnav::model::{Client, Direction, Monitor};

fn client(address: &str, ws: i32, ws_name: &str, floating: bool, at: (i16, i16), size: (i16, i16)) -> Client {
    Client {
        address: address.to_string(),
        at,
        size,
        workspace_id: ws,
        workspace_name: ws_name.to_string(),
        floating,
    }
}

fn monitor(x: i32, width: u16, ws: i32) -> Monitor {
    Monitor { x, width, reserved_right: 0, reserved_left: 0, active_workspace_id: ws }
}

#[test]
fn adjacent_monitor_is_nearest() {
    let monitors = vec![monitor(-1920, 1920, 1), monitor(0, 1920, 2), monitor(1920, 1920, 3), monitor(3840, 1920, 4)];
    let active = monitors[1];
    assert_eq!(find_adjacent_monitor(&Direction::Left, &active, &monitors), Some(monitors[0]));
    assert_eq!(find_adjacent_monitor(&Direction::Right, &active, &monitors), Some(monitors[2]));
    assert_eq!(find_adjacent_monitor(&Direction::Up, &active, &monitors), None);
    assert_eq!(find_adjacent_monitor(&Direction::Down, &active, &monitors), None);
    assert_eq!(find_adjacent_monitor(&Direction::Left, &monitors[0], &monitors), None);
    assert_eq!(find_adjacent_monitor(&Direction::Right, &monitors[3], &monitors), None);
}

#[test]
fn adjacent_monitor_ties() {
    // Two monitors at the same x: going left the last one is taken,
    // going right the first one.
    let monitors = vec![monitor(-100, 100, 10), monitor(-100, 100, 11), monitor(0, 100, 12), monitor(100, 100, 13), monitor(100, 100, 14)];
    let active = monitors[2];
    assert_eq!(find_adjacent_monitor(&Direction::Left, &active, &monitors).unwrap().active_workspace_id, 11);
    assert_eq!(find_adjacent_monitor(&Direction::Right, &active, &monitors).unwrap().active_workspace_id, 13);
}

#[test]
fn adjacent_monitor_round_trip() {
    let monitors = vec![monitor(2560, 1920, 3), monitor(0, 2560, 1), monitor(-1080, 1080, 2)];
    let start = monitors[1];
    let left = find_adjacent_monitor(&Direction::Left, &start, &monitors).unwrap();
    let back = find_adjacent_monitor(&Direction::Right, &left, &monitors).unwrap();
    assert_eq!(back.x, start.x);
    let right = find_adjacent_monitor(&Direction::Right, &start, &monitors).unwrap();
    let back = find_adjacent_monitor(&Direction::Left, &right, &monitors).unwrap();
    assert_eq!(back.x, start.x);
}

#[test]
fn prefix_test() {
    assert!(starts_with("special:scratch", "special"));
    assert!(starts_with("special", "special"));
    assert!(!starts_with("specia", "special"));
    assert!(!starts_with("1", "special"));
    assert!(starts_with("anything", ""));
}

#[test]
fn bound_clients_pick_outermost() {
    let clients = vec![
        client("0xa", 1, "1", false, (500, 0), (100, 100)),
        client("0xb", 1, "1", false, (10, 0), (100, 100)),
        client("0xc", 1, "1", false, (10, 50), (100, 100)),
        client("0xd", 1, "1", false, (900, 0), (100, 100)),
        client("0xe", 1, "1", false, (900, 50), (100, 100)),
        client("0xf", 1, "1", true, (2000, 0), (100, 100)),
        client("0x1", 2, "2", false, (-5, 0), (100, 100)),
    ];
    let (l, r) = get_bound_client(&clients, 1, false).unwrap();
    // First of the leftmost, last of the rightmost.
    assert_eq!(l.address, "0xb");
    assert_eq!(r.address, "0xe");
    let (l, r) = get_bound_client(&clients, 1, true).unwrap();
    assert_eq!(l.address, "0xf");
    assert_eq!(r.address, "0xf");
    assert!(get_bound_client(&clients, 3, false).is_none());
}

#[test]
fn bound_clients_skip_special_workspaces() {
    let clients = vec![client("0xa", -98, "special:magic", false, (0, 0), (10, 10))];
    assert!(get_bound_client(&clients, -98, false).is_none());
    let clients = vec![client("0xa", -98, "magic", false, (0, 0), (10, 10))];
    assert_eq!(get_bound_client(&clients, -98, false).unwrap().0.address, "0xa");
}

#[test]
fn extreme_floating_cases() {
    let a = client("0xa", 1, "1", true, (100, 100), (200, 200));
    let b = client("0xb", 1, "1", true, (50, 400), (100, 100));
    let tiled = client("0xc", 1, "1", false, (0, 0), (5000, 5000));
    let other_ws = client("0xd", 2, "2", true, (-500, -500), (10, 10));
    // Alone (with tiled windows and other workspaces around): extreme everywhere.
    let clients = vec![a.clone_for_test(), tiled.clone_for_test(), other_ws.clone_for_test()];
    for d in [Direction::Up, Direction::Down, Direction::Left, Direction::Right] {
        assert!(is_extreme_floating(&a, &clients, &d));
    }
    let clients = vec![a.clone_for_test(), b.clone_for_test(), tiled];
    // a: x 100..300, y 100..300; b: x 50..150, y 400..500.
    assert!(!is_extreme_floating(&a, &clients, &Direction::Left));
    assert!(is_extreme_floating(&b, &clients, &Direction::Left));
    assert!(is_extreme_floating(&a, &clients, &Direction::Right));
    assert!(!is_extreme_floating(&b, &clients, &Direction::Right));
    assert!(is_extreme_floating(&a, &clients, &Direction::Up));
    assert!(!is_extreme_floating(&b, &clients, &Direction::Up));
    assert!(!is_extreme_floating(&a, &clients, &Direction::Down));
    assert!(is_extreme_floating(&b, &clients, &Direction::Down));
}

trait CloneForTest {
    fn clone_for_test(&self) -> Self;
}

impl CloneForTest for Client {
    fn clone_for_test(&self) -> Self {
        Client {
            address: self.address.clone(),
            at: self.at,
            size: self.size,
            workspace_id: self.workspace_id,
            workspace_name: self.workspace_name.clone(),
            floating: self.floating,
        }
    }
}

#[test]
fn bound_on_right_edge() {
    let m = Monitor { x: 1920, width: 2560, reserved_right: 40, reserved_left: 30, active_workspace_id: 1 };
    // usable right edge: 1920 + 2560 - 40 - 10 = 4430
    let w = client("0xa", 1, "1", false, (4000, 0), (430, 100));
    assert!(is_bound(&w, &m, 0, 10, true));
    let w = client("0xa", 1, "1", false, (4000, 0), (428, 100));
    assert!(!is_bound(&w, &m, 0, 10, true));
    assert!(is_bound(&w, &m, 2, 10, true));
    assert!(!is_bound(&w, &m, 1, 10, true));
}

#[test]
fn bound_on_left_edge() {
    let m = Monitor { x: 1920, width: 2560, reserved_right: 40, reserved_left: 30, active_workspace_id: 1 };
    // usable left edge: 1920 + 30 + 10 = 1960
    let w = client("0xa", 1, "1", false, (1960, 0), (100, 100));
    assert!(is_bound(&w, &m, 0, 10, false));
    let w = client("0xa", 1, "1", false, (1963, 0), (100, 100));
    assert!(!is_bound(&w, &m, 2, 10, false));
    assert!(is_bound(&w, &m, 3, 10, false));
    let w = client("0xa", 1, "1", false, (1957, 0), (100, 100));
    assert!(is_bound(&w, &m, 3, 10, false));
    assert!(!is_bound(&w, &m, -1, 10, false));
}

#[test]
fn edge_test_range_check() {
    let m = Monitor { x: 0, width: 1920, reserved_right: 0, reserved_left: 0, active_workspace_id: 1 };
    let w = client("0xa", 1, "1", false, (0, 0), (100, 100));
    assert!(edge_test_in_range(&w, &m, 5, true));
    assert!(edge_test_in_range(&w, &m, 5, false));
    // The window's right edge overflows i16.
    let w = client("0xa", 1, "1", false, (32000, 0), (1000, 100));
    assert!(!edge_test_in_range(&w, &m, 5, true));
    // The monitor's right edge overflows i32.
    let big = Monitor { x: i32::MAX - 10, width: 100, reserved_right: 0, reserved_left: 0, active_workspace_id: 1 };
    let w = client("0xa", 1, "1", false, (0, 0), (100, 100));
    assert!(!edge_test_in_range(&w, &big, 0, false));
    // The gap pushes the left edge past i32::MAX.
    let m2 = Monitor { x: 0, width: 100, reserved_right: 0, reserved_left: 10, active_workspace_id: 1 };
    assert!(!edge_test_in_range(&w, &m2, i32::MAX, false));
}
