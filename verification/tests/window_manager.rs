use console_engine::canvas::Canvas;
use console_engine::pixel::{pxl, pxl_plain, Color};
use console_engine::window_manager::{Gesture, MouseInput, ResizeDir, WindowManager};

fn press(x: i32, y: i32) -> MouseInput {
    MouseInput { pressed: Some((x, y)), held: None, released: None }
}

fn hold(x: i32, y: i32) -> MouseInput {
    MouseInput { pressed: None, held: Some((x, y)), released: None }
}

fn release(x: i32, y: i32) -> MouseInput {
    MouseInput { pressed: None, held: None, released: Some((x, y)) }
}

/// A manager with one window at (10, 5), 30 wide and 9 high.
fn one_window() -> WindowManager {
    let mut wm = WindowManager::new();
    wm.add_window(String::from("Test"), 10, 5, 30, 9);
    wm
}

fn position(wm: &WindowManager, i: usize) -> (i32, i32) {
    wm.get_window(i).unwrap().get_position()
}

fn size(wm: &WindowManager, i: usize) -> (i32, i32) {
    wm.get_window(i).unwrap().get_size()
}

fn gesture(wm: &WindowManager, i: usize) -> Gesture {
    wm.get_window(i).unwrap().get_gesture()
}

fn is_permutation(order: &[usize]) -> bool {
    let mut seen = vec![false; order.len()];
    for &i in order {
        if i >= order.len() || seen[i] {
            return false;
        }
        seen[i] = true;
    }
    true
}

fn rows(c: &Canvas) -> Vec<String> {
    let mut out = Vec::new();
    for y in 0..c.get_height() as i32 {
        let mut row = String::new();
        for x in 0..c.get_width() as i32 {
            row.push(c.get_cell(x, y).unwrap().chr);
        }
        out.push(row);
    }
    out
}

#[test]
fn new_manager_is_empty() {
    let wm = WindowManager::new();
    assert_eq!(wm.window_count(), 0);
    assert!(wm.get_focus_order().is_empty());
    assert!(wm.get_window(0).is_none());
}

#[test]
fn window_areas() {
    let wm = one_window();
    let w = wm.get_window(0).unwrap();
    assert_eq!(w.get_title(), "Test");
    assert_eq!(w.get_titlebar_area(), (10, 5, 40, 7));
    assert_eq!(w.get_window_area(), (10, 7, 40, 14));
    assert_eq!(w.get_whole_window_area(), (10, 5, 40, 14));
    assert_eq!(w.get_contents_size(), (29, 6));
    assert_eq!(w.get_x_button_loc(), (39, 6));
    assert_eq!(w.get_contents().get_width(), 29);
    assert_eq!(w.get_contents().get_height(), 6);
    assert_eq!(w.get_gesture(), Gesture::Idle);
    assert!(!w.is_closing());
}

#[test]
fn window_areas_stop_at_the_limits() {
    let mut wm = WindowManager::new();
    wm.add_window(String::from("far"), i32::MAX - 3, i32::MAX - 1, 30, 9);
    let w = wm.get_window(0).unwrap();
    assert_eq!(w.get_whole_window_area(), (i32::MAX - 3, i32::MAX - 1, i32::MAX, i32::MAX));
    assert_eq!(w.get_titlebar_area(), (i32::MAX - 3, i32::MAX - 1, i32::MAX, i32::MAX));
    assert_eq!(w.get_x_button_loc(), (i32::MAX, i32::MAX));
}

#[test]
fn add_window_raises_small_sizes_to_the_floors() {
    let mut wm = WindowManager::new();
    wm.add_window(String::from("a"), 0, 0, 2, 1);
    wm.add_window(String::from("b"), 0, 0, -5, 0);
    wm.add_window(String::from("c"), 0, 0, 6, 4);
    for i in 0..3 {
        assert_eq!(size(&wm, i), (6, 4));
        let w = wm.get_window(i).unwrap();
        assert_eq!(w.get_contents().get_width(), 5);
        assert_eq!(w.get_contents().get_height(), 1);
    }
}

#[test]
fn add_window_puts_the_new_window_at_the_back() {
    let mut wm = WindowManager::new();
    for n in 0..5 {
        wm.add_window(String::from("w"), n, n, 10, 5);
        assert_eq!(wm.window_count(), (n + 1) as usize);
        assert!(is_permutation(wm.get_focus_order()));
    }
    assert_eq!(wm.get_focus_order(), &vec![4, 3, 2, 1, 0]);
}

#[test]
fn press_brings_the_window_to_the_front() {
    let mut wm = WindowManager::new();
    wm.add_window(String::from("a"), 0, 0, 10, 6);
    wm.add_window(String::from("b"), 20, 0, 10, 6);
    wm.add_window(String::from("c"), 40, 0, 10, 6);
    assert_eq!(wm.get_focus_order(), &vec![2, 1, 0]);
    wm.handle_input(&press(25, 4));
    assert_eq!(wm.get_focus_order().last(), Some(&1));
    assert_eq!(wm.get_focus_order(), &vec![2, 0, 1]);
    wm.handle_input(&press(45, 4));
    assert_eq!(wm.get_focus_order(), &vec![0, 1, 2]);
    assert!(is_permutation(wm.get_focus_order()));
    wm.handle_input(&press(100, 100));
    assert_eq!(wm.get_focus_order(), &vec![0, 1, 2]);
}

#[test]
fn press_goes_to_the_topmost_window_only() {
    let mut wm = WindowManager::new();
    wm.add_window(String::from("front"), 0, 0, 10, 6);
    wm.add_window(String::from("back"), 0, 0, 10, 6);
    assert_eq!(wm.get_focus_order(), &vec![1, 0]);
    wm.handle_input(&press(3, 1));
    assert_eq!(wm.get_focus_order(), &vec![1, 0]);
    assert_eq!(
        gesture(&wm, 0),
        Gesture::Moving { press_x: 3, press_y: 1, orig_x: 0, orig_y: 0 }
    );
    assert_eq!(gesture(&wm, 1), Gesture::Idle);
}

#[test]
fn press_inside_the_frame_only_focuses() {
    let mut wm = one_window();
    wm.handle_input(&press(20, 10));
    assert_eq!(gesture(&wm, 0), Gesture::Idle);
    assert!(!wm.get_window(0).unwrap().is_closing());
}

#[test]
fn press_on_the_titlebar_starts_a_move() {
    for (px, py) in [(10, 5), (25, 6), (40, 7), (10, 7), (38, 6), (40, 6)] {
        let mut wm = one_window();
        wm.handle_input(&press(px, py));
        assert_eq!(
            gesture(&wm, 0),
            Gesture::Moving { press_x: px, press_y: py, orig_x: 10, orig_y: 5 }
        );
    }
}

fn resizing(dir: ResizeDir, px: i32, py: i32) -> Gesture {
    Gesture::Resizing {
        dir,
        press_x: px,
        press_y: py,
        orig_x: 10,
        orig_y: 5,
        orig_width: 30,
        orig_height: 9,
    }
}

#[test]
fn press_on_edges_and_corners_starts_a_resize() {
    let cases = [
        (10, 14, ResizeDir::LeftCorner),
        (40, 14, ResizeDir::RightCorner),
        (11, 14, ResizeDir::Bottom),
        (39, 14, ResizeDir::Bottom),
        (10, 8, ResizeDir::Left),
        (10, 13, ResizeDir::Left),
        (40, 8, ResizeDir::Right),
        (40, 13, ResizeDir::Right),
    ];
    for (px, py, dir) in cases {
        let mut wm = one_window();
        wm.handle_input(&press(px, py));
        assert_eq!(gesture(&wm, 0), resizing(dir, px, py));
    }
}

#[test]
fn press_on_the_close_button_marks_the_window() {
    let mut wm = one_window();
    wm.handle_input(&press(39, 6));
    assert!(wm.get_window(0).unwrap().is_closing());
    assert_eq!(gesture(&wm, 0), Gesture::Idle);
    assert_eq!(wm.window_count(), 1);
}

#[test]
fn press_on_a_close_button_does_not_reach_the_window_below() {
    let mut wm = WindowManager::new();
    wm.add_window(String::from("top"), 10, 5, 30, 9);
    wm.add_window(String::from("below"), 30, 5, 30, 9);
    wm.handle_input(&press(45, 10));
    wm.handle_input(&release(45, 10));
    wm.handle_input(&press(15, 10));
    wm.handle_input(&release(15, 10));
    assert_eq!(wm.get_focus_order(), &vec![1, 0]);
    wm.handle_input(&press(39, 6));
    assert!(wm.get_window(0).unwrap().is_closing());
    assert!(!wm.get_window(1).unwrap().is_closing());
    assert_eq!(gesture(&wm, 1), Gesture::Idle);
}

#[test]
fn moving_follows_the_mouse() {
    let mut wm = one_window();
    wm.handle_input(&press(20, 6));
    wm.handle_input(&hold(25, 9));
    assert_eq!(position(&wm, 0), (15, 8));
    wm.handle_input(&hold(0, 0));
    assert_eq!(position(&wm, 0), (-10, -1));
    assert_eq!(size(&wm, 0), (30, 9));
    wm.handle_input(&release(0, 0));
    assert_eq!(gesture(&wm, 0), Gesture::Idle);
    wm.handle_input(&hold(50, 50));
    assert_eq!(position(&wm, 0), (-10, -1));
}

#[test]
fn moving_stops_at_the_limits_of_the_coordinates() {
    let mut wm = WindowManager::new();
    wm.add_window(String::from("far"), i32::MAX - 10, 0, 30, 9);
    wm.handle_input(&press(i32::MAX - 5, 1));
    wm.handle_input(&hold(i32::MAX, i32::MIN));
    assert_eq!(position(&wm, 0), (i32::MAX - 5, i32::MIN));
    wm.handle_input(&hold(i32::MIN, 1));
    assert_eq!(position(&wm, 0), (i32::MIN, 0));
    wm.handle_input(&hold(-1, 1));
    assert_eq!(position(&wm, 0), (-6, 0));
}

#[test]
fn dragging_the_right_edge() {
    let mut wm = one_window();
    wm.handle_input(&press(40, 10));
    wm.handle_input(&hold(50, 10));
    wm.handle_input(&release(50, 10));
    assert_eq!(size(&wm, 0), (40, 9));
    assert_eq!(position(&wm, 0), (10, 5));
    assert_eq!(gesture(&wm, 0), Gesture::Idle);
    let w = wm.get_window(0).unwrap();
    assert_eq!(w.get_contents().get_width(), 39);
    assert_eq!(w.get_contents().get_height(), 6);
}

#[test]
fn dragging_the_left_edge() {
    let mut wm = one_window();
    wm.handle_input(&press(10, 10));
    wm.handle_input(&hold(20, 10));
    wm.handle_input(&release(20, 10));
    assert_eq!(size(&wm, 0), (20, 9));
    assert_eq!(position(&wm, 0), (20, 5));
    assert_eq!(wm.get_window(0).unwrap().get_contents().get_width(), 19);
}

#[test]
fn dragging_the_bottom_edge_and_the_corners() {
    let mut wm = one_window();
    wm.handle_input(&press(20, 14));
    wm.handle_input(&hold(33, 17));
    assert_eq!(size(&wm, 0), (30, 12));
    assert_eq!(position(&wm, 0), (10, 5));
    wm.handle_input(&release(33, 17));

    wm.handle_input(&press(40, 17));
    wm.handle_input(&hold(45, 15));
    assert_eq!(size(&wm, 0), (35, 10));
    assert_eq!(position(&wm, 0), (10, 5));
    wm.handle_input(&release(45, 15));

    wm.handle_input(&press(10, 15));
    wm.handle_input(&hold(7, 18));
    assert_eq!(size(&wm, 0), (38, 13));
    assert_eq!(position(&wm, 0), (7, 5));
    assert_eq!(wm.get_window(0).unwrap().get_contents_size(), (37, 10));
    assert_eq!(wm.get_window(0).unwrap().get_contents().get_width(), 37);
    assert_eq!(wm.get_window(0).unwrap().get_contents().get_height(), 10);
}

#[test]
fn resize_stops_at_the_floors() {
    let mut wm = one_window();
    wm.handle_input(&press(40, 10));
    wm.handle_input(&hold(-1000, 10));
    assert_eq!(size(&wm, 0), (6, 9));
    wm.handle_input(&hold(i32::MIN, 10));
    assert_eq!(size(&wm, 0), (6, 9));
    wm.handle_input(&release(0, 0));

    let mut wm = one_window();
    wm.handle_input(&press(20, 14));
    wm.handle_input(&hold(20, i32::MIN));
    assert_eq!(size(&wm, 0), (30, 4));
    assert_eq!(wm.get_window(0).unwrap().get_contents().get_height(), 1);

    let mut wm = one_window();
    wm.handle_input(&press(10, 10));
    wm.handle_input(&hold(1000, 10));
    assert_eq!(size(&wm, 0), (6, 9));
    assert_eq!(position(&wm, 0), (1000, 5));

    let mut wm = one_window();
    wm.handle_input(&press(10, 14));
    wm.handle_input(&hold(i32::MAX, i32::MIN));
    assert_eq!(size(&wm, 0), (6, 4));
    let mut wm = one_window();
    wm.handle_input(&press(40, 14));
    wm.handle_input(&hold(i32::MIN, i32::MIN));
    assert_eq!(size(&wm, 0), (6, 4));
}

#[test]
fn resize_leaves_the_floor_when_the_mouse_turns_back() {
    let mut wm = one_window();
    wm.handle_input(&press(40, 10));
    wm.handle_input(&hold(0, 10));
    assert_eq!(size(&wm, 0), (6, 9));
    wm.handle_input(&hold(35, 10));
    assert_eq!(size(&wm, 0), (25, 9));
}

#[test]
fn resize_keeps_the_contents_that_fit() {
    let mut wm = one_window();
    wm.handle_input(&press(40, 10));
    wm.handle_input(&hold(30, 10));
    wm.handle_input(&hold(45, 10));
    let w = wm.get_window(0).unwrap();
    assert_eq!(w.get_size(), (35, 9));
    assert_eq!(w.get_contents().get_width(), 34);
    assert_eq!(w.get_contents().get_cell(33, 5), Some(pxl_plain(' ')));
}

#[test]
fn release_ends_every_gesture() {
    let mut wm = WindowManager::new();
    wm.add_window(String::from("a"), 0, 0, 10, 6);
    wm.add_window(String::from("b"), 20, 0, 10, 6);
    wm.handle_input(&press(3, 1));
    wm.handle_input(&press(30, 4));
    assert!(gesture(&wm, 0) != Gesture::Idle);
    assert!(gesture(&wm, 1) != Gesture::Idle);
    wm.handle_input(&release(0, 0));
    assert_eq!(gesture(&wm, 0), Gesture::Idle);
    assert_eq!(gesture(&wm, 1), Gesture::Idle);
}

#[test]
fn press_hold_and_release_in_one_frame() {
    let mut wm = one_window();
    wm.handle_input(&MouseInput {
        pressed: Some((20, 6)),
        held: Some((23, 8)),
        released: Some((23, 8)),
    });
    assert_eq!(position(&wm, 0), (13, 7));
    assert_eq!(gesture(&wm, 0), Gesture::Idle);
}

#[test]
fn render_removes_one_closed_window_per_call() {
    let mut wm = WindowManager::new();
    wm.add_window(String::from("a"), 0, 0, 10, 6);
    wm.add_window(String::from("b"), 20, 0, 10, 6);
    wm.add_window(String::from("c"), 40, 0, 10, 6);
    wm.handle_input(&press(9, 1));
    wm.handle_input(&press(49, 1));
    assert!(wm.get_window(0).unwrap().is_closing());
    assert!(wm.get_window(2).unwrap().is_closing());
    assert_eq!(wm.get_focus_order(), &vec![1, 0, 2]);
    let mut target = Canvas::new(60, 10);
    wm.render_windows(&mut target);
    assert_eq!(wm.window_count(), 2);
    assert_eq!(wm.get_window(0).unwrap().get_title(), "b");
    assert_eq!(wm.get_window(1).unwrap().get_title(), "c");
    assert_eq!(wm.get_focus_order(), &vec![0, 1]);
    assert!(wm.get_window(1).unwrap().is_closing());
    wm.render_windows(&mut target);
    assert_eq!(wm.window_count(), 1);
    assert_eq!(wm.get_window(0).unwrap().get_title(), "b");
    assert_eq!(wm.get_focus_order(), &vec![0]);
    wm.render_windows(&mut target);
    assert_eq!(wm.window_count(), 1);
}

#[test]
fn closing_an_unfocused_window_keeps_the_focus() {
    let mut wm = WindowManager::new();
    wm.add_window(String::from("a"), 0, 0, 10, 6);
    wm.add_window(String::from("b"), 20, 0, 10, 6);
    wm.add_window(String::from("c"), 40, 0, 10, 6);
    wm.handle_input(&press(9, 1));
    wm.handle_input(&press(45, 4));
    assert_eq!(wm.get_focus_order(), &vec![1, 0, 2]);
    let focused = *wm.get_focus_order().last().unwrap();
    assert_eq!(wm.get_window(focused).unwrap().get_title(), "c");
    let mut target = Canvas::new(60, 10);
    wm.render_windows(&mut target);
    assert_eq!(wm.get_focus_order(), &vec![0, 1]);
    let focused = *wm.get_focus_order().last().unwrap();
    assert_eq!(wm.get_window(focused).unwrap().get_title(), "c");
    assert!(is_permutation(wm.get_focus_order()));
}

#[test]
fn render_draws_frame_title_and_close_button() {
    let mut wm = WindowManager::new();
    wm.add_window(String::from("Hi"), 1, 0, 7, 5);
    let mut target = Canvas::new_filled(10, 7, pxl_plain('.'));
    wm.render_windows(&mut target);
    assert_eq!(
        rows(&target),
        vec![
            ".╔══════╗.",
            ".║Hi   X║.",
            ".╠══════╣.",
            ".║      ║.",
            ".║      ║.",
            ".╚══════╝.",
            "..........",
        ]
    );
    assert_eq!(target.get_cell(7, 1), Some(pxl('X', Some(Color::White), Some(Color::Red), None)));
    assert_eq!(target.get_cell(1, 0), Some(pxl('╔', Some(Color::White), Some(Color::Reset), None)));
    assert_eq!(target.get_cell(1, 5), Some(pxl('╚', Some(Color::White), Some(Color::Reset), None)));
    assert_eq!(target.get_cell(2, 1), Some(pxl_plain('H')));
}

#[test]
fn render_draws_the_focused_window_last_and_in_white() {
    let mut wm = WindowManager::new();
    wm.add_window(String::from("a"), 0, 0, 6, 4);
    wm.add_window(String::from("b"), 3, 1, 6, 4);
    assert_eq!(wm.get_focus_order(), &vec![1, 0]);
    let mut target = Canvas::new_filled(11, 7, pxl_plain('.'));
    wm.render_windows(&mut target);
    assert_eq!(
        rows(&target),
        vec![
            "╔═════╗....",
            "║a   X║══╗.",
            "╠═════╣ X║.",
            "║     ║══╣.",
            "╚═════╝  ║.",
            "...╚═════╝.",
            "...........",
        ]
    );
    assert_eq!(target.get_cell(0, 0).unwrap().fg, Color::White);
    assert_eq!(target.get_cell(9, 5).unwrap().fg, Color::Reset);
}

#[test]
fn render_on_a_small_canvas_is_clipped() {
    let mut wm = one_window();
    let mut target = Canvas::new_filled(12, 7, pxl_plain('.'));
    wm.render_windows(&mut target);
    assert_eq!(rows(&target)[4], "............");
    assert_eq!(rows(&target)[5], "..........╔═");
    assert_eq!(rows(&target)[6], "..........║T");
    let mut nothing = Canvas::new(0, 0);
    wm.render_windows(&mut nothing);
    assert_eq!(nothing.get_width(), 0);
}
