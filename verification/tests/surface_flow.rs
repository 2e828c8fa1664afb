use waylandsfpanel::bar::Bar;
use waylandsfpanel::config::{Button, Color, ColorConfig};
use waylandsfpanel::menu::Menu;
use waylandsfpanel::panel::{
    AppAction, DrawCommand, PointerEvent, PointerPosition, TouchEvent, WindowSize,
};
use waylandsfpanel::runtime::SurfaceSet;
use waylandsfpanel::surface::PanelApp;

fn palette() -> ColorConfig {
    ColorConfig {
        text_color: Color { a: 255, r: 255, g: 255, b: 255 },
        button_color: Color { a: 255, r: 10, g: 20, b: 30 },
        button_hover_color: Color { a: 255, r: 200, g: 100, b: 50 },
    }
}

fn two_button_bar() -> Bar {
    let buttons = vec![
        Button { text: "A".to_string(), command: "echo a".to_string() },
        Button { text: "B".to_string(), command: "echo b".to_string() },
    ];
    Bar::new(32, buttons, palette(), vec![])
}

fn three_option_menu() -> Menu {
    let options = vec!["one".to_string(), "two".to_string(), "three".to_string()];
    Menu::new(20, 2, options, palette(), vec![])
}

fn same_command(a: &DrawCommand, b: &DrawCommand) -> bool {
    a.x == b.x && a.y == b.y && a.width == b.width && a.height == b.height && a.fill == b.fill
        && a.label == b.label && a.text_color == b.text_color
}

#[test]
fn buffer_length_is_four_bytes_per_pixel() {
    assert_eq!(waylandsfpanel::panel::buffer_len(WindowSize(200, 32)), Some(25600));
    assert_eq!(waylandsfpanel::panel::buffer_len(WindowSize(0, 32)), Some(0));
    assert_eq!(waylandsfpanel::panel::buffer_len(WindowSize(u32::MAX, u32::MAX)), None);
}

#[test]
fn bar_divides_width_into_equal_cells() {
    let mut bar = two_button_bar();
    let cmds = bar.draw(WindowSize(200, 32));
    assert_eq!(cmds.len(), 2);
    assert_eq!((cmds[0].x, cmds[0].y, cmds[0].width, cmds[0].height), (0, 0, 100, 32));
    assert_eq!((cmds[1].x, cmds[1].y, cmds[1].width, cmds[1].height), (100, 0, 100, 32));
    assert_eq!(cmds[0].label, "A");
    assert_eq!(cmds[1].label, "B");
    assert_eq!(bar.click_targets.len(), 2);
}

#[test]
fn bar_highlights_only_the_engaged_hovered_cell() {
    let mut bar = two_button_bar();
    bar.input_start_gesture(PointerPosition(150, 16));
    let cmds = bar.draw(WindowSize(200, 32));
    assert_eq!(cmds[0].fill, palette().button_color);
    assert_eq!(cmds[1].fill, palette().button_hover_color);

    let mut idle = two_button_bar();
    idle.input_movement(PointerPosition(150, 16));
    let cmds = idle.draw(WindowSize(200, 32));
    assert_eq!(cmds[1].fill, palette().button_color);
}

#[test]
fn press_and_release_at_fifty_sixteen_runs_echo_a() {
    let mut set = SurfaceSet::new();
    set.add_output(7, PanelApp::Bar(two_button_bar()));
    let accepted = set.note_configure(7, 200, 32);
    assert!(accepted);
    let (frames, removed) = set.tick(&vec![true]);
    assert_eq!(frames.len(), 1);
    assert_eq!(frames[0].0, 7);
    assert_eq!(frames[0].1.size, WindowSize(200, 32));
    assert_eq!(frames[0].1.commands.len(), 2);
    assert!(removed.is_empty());

    let none = set.handle_pointer_event(&PointerEvent::Motion(PointerPosition(50, 16)));
    assert!(none.is_empty());
    let none = set.handle_pointer_event(&PointerEvent::ButtonPressed);
    assert!(none.is_empty());
    let actions = set.handle_pointer_event(&PointerEvent::ButtonReleased);
    assert_eq!(actions.len(), 1);
    match &actions[0] {
        AppAction::RunCommand(cmd) => assert_eq!(cmd, "echo a"),
        _ => panic!("expected a command to run"),
    }
}

#[test]
fn press_without_prior_motion_seeds_the_origin() {
    let mut bar = two_button_bar();
    let mut surface = waylandsfpanel::surface::Surface::new(PanelApp::Bar(bar.clone()));
    surface.handle_pointer_event(&PointerEvent::ButtonPressed);
    match &surface.app {
        PanelApp::Bar(b) => {
            assert!(b.pointer_engaged);
            assert_eq!(b.pointer_location, Some(PointerPosition(0, 0)));
        }
        _ => panic!("expected the bar"),
    }
    bar.input_start_gesture(PointerPosition(3, 4));
    assert_eq!(bar.pointer_location, Some(PointerPosition(3, 4)));
}

#[test]
fn touch_sequence_engages_and_commits_exactly_once() {
    let mut set = SurfaceSet::new();
    set.add_output(1, PanelApp::Bar(two_button_bar()));
    set.note_configure(1, 200, 32);
    set.tick(&vec![true]);

    assert!(set.handle_touch_event(&TouchEvent::Down(PointerPosition(150, 10))).is_empty());
    assert!(set.handle_touch_event(&TouchEvent::Motion(PointerPosition(160, 12))).is_empty());
    let actions = set.handle_touch_event(&TouchEvent::Up);
    assert_eq!(actions.len(), 1);
    match &actions[0] {
        AppAction::RunCommand(cmd) => assert_eq!(cmd, "echo b"),
        _ => panic!("expected a command to run"),
    }
    let more = set.handle_pointer_event(&PointerEvent::ButtonReleased);
    assert_eq!(more.len(), 1);
}

#[test]
fn touch_cancel_stops_without_committing() {
    let mut set = SurfaceSet::new();
    set.add_output(1, PanelApp::Bar(two_button_bar()));
    set.note_configure(1, 200, 32);
    set.tick(&vec![true]);
    set.handle_touch_event(&TouchEvent::Down(PointerPosition(10, 10)));
    let actions = set.handle_touch_event(&TouchEvent::Cancel);
    assert!(actions.is_empty());
}

#[test]
fn identical_configures_produce_identical_frames() {
    let mut set = SurfaceSet::new();
    set.add_output(3, PanelApp::Bar(two_button_bar()));
    set.note_configure(3, 200, 32);
    let (frames_a, _) = set.tick(&vec![true]);
    set.note_configure(3, 200, 32);
    let (frames_b, _) = set.tick(&vec![true]);
    assert_eq!(frames_a.len(), 1);
    assert_eq!(frames_b.len(), 1);
    let a = &frames_a[0].1;
    let b = &frames_b[0].1;
    assert_eq!(a.size, b.size);
    assert_eq!(a.commands.len(), b.commands.len());
    for (ca, cb) in a.commands.iter().zip(b.commands.iter()) {
        assert!(same_command(ca, cb));
    }
}

#[test]
fn input_requests_one_redraw_on_the_next_tick() {
    let mut set = SurfaceSet::new();
    set.add_output(5, PanelApp::Bar(two_button_bar()));
    set.note_configure(5, 200, 32);
    set.tick(&vec![true]);
    set.handle_pointer_event(&PointerEvent::Motion(PointerPosition(10, 10)));
    let (frames, _) = set.tick(&vec![true]);
    assert_eq!(frames.len(), 1);
    assert_eq!(frames[0].1.size, WindowSize(200, 32));
}

#[test]
fn menu_highlights_the_row_under_an_engaged_gesture() {
    let mut menu = three_option_menu();
    menu.input_start_gesture(PointerPosition(30, 10));
    let cmds = menu.draw(WindowSize(100, 40));
    assert_eq!(cmds[0].fill, palette().button_hover_color);
    assert_eq!(cmds[1].fill, palette().button_color);
}

#[test]
fn no_redundant_redraw_when_nothing_is_pending() {
    let mut set = SurfaceSet::new();
    set.add_output(2, PanelApp::Bar(two_button_bar()));
    set.note_configure(2, 200, 32);
    let (frames, _) = set.tick(&vec![true]);
    assert_eq!(frames.len(), 1);
    let (frames, removed) = set.tick(&vec![true]);
    assert!(frames.is_empty());
    assert!(removed.is_empty());
    assert_eq!(set.len(), 1);
}

#[test]
fn busy_pool_skips_the_frame_and_consumes_the_event() {
    let mut set = SurfaceSet::new();
    set.add_output(2, PanelApp::Bar(two_button_bar()));
    set.note_configure(2, 200, 32);
    let (frames, _) = set.tick(&vec![false]);
    assert!(frames.is_empty());
    let (frames, _) = set.tick(&vec![true]);
    assert!(frames.is_empty());
}

#[test]
fn zero_dimensions_are_never_drawn() {
    let mut set = SurfaceSet::new();
    set.add_output(2, PanelApp::Bar(two_button_bar()));
    set.note_configure(2, 0, 32);
    let (frames, removed) = set.tick(&vec![true]);
    assert!(frames.is_empty());
    assert!(removed.is_empty());
}

#[test]
fn closed_wins_over_a_later_configure() {
    let mut set = SurfaceSet::new();
    set.add_output(9, PanelApp::Bar(two_button_bar()));
    set.note_closed(9);
    let accepted = set.note_configure(9, 200, 32);
    assert!(!accepted);
    let (frames, removed) = set.tick(&vec![true]);
    assert!(frames.is_empty());
    assert_eq!(removed, vec![9]);
    assert!(set.is_empty());
}

#[test]
fn output_removal_shrinks_the_set_mid_session() {
    let mut set = SurfaceSet::new();
    set.add_output(1, PanelApp::Bar(two_button_bar()));
    set.add_output(2, PanelApp::Bar(two_button_bar()));
    set.note_configure(1, 200, 32);
    set.note_configure(2, 200, 32);
    let (frames, _) = set.tick(&vec![true, true]);
    assert_eq!(frames.len(), 2);
    set.remove_output(1);
    assert_eq!(set.len(), 1);
    let (frames, removed) = set.tick(&vec![true]);
    assert!(frames.is_empty());
    assert!(removed.is_empty());
    assert!(!set.is_empty());
}

#[test]
fn menu_surface_height_covers_the_visible_rows() {
    let menu = three_option_menu();
    let settings = menu.settings();
    assert_eq!(settings.size, WindowSize(0, 40));

    let short = Menu::new(20, 5, vec!["only".to_string()], palette(), vec![]);
    assert_eq!(short.settings().size, WindowSize(0, 20));
}

#[test]
fn zero_movement_click_selects_row_one_and_closes() {
    let mut set = SurfaceSet::new();
    set.add_output(4, PanelApp::Menu(three_option_menu()));
    let accepted = set.note_configure(4, 100, 40);
    assert!(accepted);
    let (frames, _) = set.tick(&vec![true]);
    assert_eq!(frames.len(), 1);
    assert_eq!(frames[0].1.commands.len(), 2);

    set.handle_touch_event(&TouchEvent::Down(PointerPosition(30, 10)));
    let actions = set.handle_touch_event(&TouchEvent::Up);
    assert_eq!(actions.len(), 1);
    match &actions[0] {
        AppAction::Emit(text) => assert_eq!(text, "one"),
        _ => panic!("expected a selection to emit"),
    }
    let (frames, removed) = set.tick(&vec![true]);
    assert!(frames.is_empty());
    assert_eq!(removed, vec![4]);
    assert!(set.is_empty());
}

#[test]
fn menu_rows_outside_the_surface_are_skipped() {
    let options = vec![
        "e1".to_string(),
        "e2".to_string(),
        "e3".to_string(),
        "e4".to_string(),
        "e5".to_string(),
    ];
    let mut menu = Menu::new(20, 2, options, palette(), vec![]);
    let cmds = menu.draw(WindowSize(100, 40));
    assert_eq!(cmds.len(), 2);
    assert_eq!(cmds[0].y, 0);
    assert_eq!(cmds[1].y, 20);
    assert_eq!(cmds[0].label, "e1");
    assert_eq!(cmds[1].label, "e2");

    menu.input_start_gesture(PointerPosition(0, 100));
    menu.input_movement(PointerPosition(0, 50));
    let cmds = menu.draw(WindowSize(100, 40));
    assert_eq!(cmds.len(), 2);
    assert_eq!(cmds[0].label, "e4");
    assert_eq!(cmds[0].y, 10);
    assert_eq!(cmds[1].label, "e5");
    assert_eq!(cmds[1].y, 30);
}

#[test]
fn swipe_commits_fold_into_a_clamped_offset() {
    let options = vec![
        "e1".to_string(),
        "e2".to_string(),
        "e3".to_string(),
        "e4".to_string(),
        "e5".to_string(),
    ];
    let mut menu = Menu::new(20, 2, options, palette(), vec![]);
    menu.input_start_gesture(PointerPosition(0, 100));
    menu.input_movement(PointerPosition(0, 10));
    menu.input_commit_gesture();
    assert_eq!(menu.list_offset, 60);
    assert!(!menu.pointer_engaged);

    menu.input_start_gesture(PointerPosition(0, 10));
    menu.input_movement(PointerPosition(0, 100));
    menu.input_commit_gesture();
    assert_eq!(menu.list_offset, 0);

    menu.input_start_gesture(PointerPosition(0, 50));
    menu.input_movement(PointerPosition(0, 25));
    menu.input_commit_gesture();
    assert_eq!(menu.list_offset, 25);
}

#[test]
fn pointer_leave_abandons_the_menu_gesture() {
    let mut menu = three_option_menu();
    menu.input_start_gesture(PointerPosition(0, 30));
    menu.input_movement(PointerPosition(0, 10));
    menu.input_stop_gesture();
    assert_eq!(menu.list_offset, 0);
    assert!(!menu.pointer_engaged);
    assert_eq!(menu.pointer_start, None);
    assert_eq!(menu.pointer_current, None);
}

#[test]
fn swipe_anchor_is_the_first_movement_after_engagement() {
    let mut menu = three_option_menu();
    menu.input_start_gesture(PointerPosition(5, 40));
    assert_eq!(menu.pointer_start, Some(PointerPosition(5, 40)));
    menu.input_movement(PointerPosition(5, 20));
    assert_eq!(menu.pointer_start, Some(PointerPosition(5, 40)));
    assert_eq!(menu.pointer_current, Some(PointerPosition(5, 20)));
}

#[test]
fn fresh_copies_reset_transient_state() {
    let mut bar = two_button_bar();
    bar.input_start_gesture(PointerPosition(1, 2));
    bar.draw(WindowSize(200, 32));
    let copy = bar.clone();
    assert!(!copy.pointer_engaged);
    assert_eq!(copy.pointer_location, None);
    assert!(copy.click_targets.is_empty());
    assert_eq!(copy.buttons.len(), 2);

    let mut menu = three_option_menu();
    menu.input_start_gesture(PointerPosition(0, 90));
    menu.input_movement(PointerPosition(0, 10));
    menu.input_commit_gesture();
    let copy = menu.clone();
    assert_eq!(copy.list_offset, 0);
    assert_eq!(copy.options.len(), 3);
}
