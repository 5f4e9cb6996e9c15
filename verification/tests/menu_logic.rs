use skeletal_anim::menu::{Menu, MenuEvent, MenuItem, MenuResponse, SliderMenuState};

fn sample_menu() -> Menu {
    let mut menu = Menu::new();
    menu.add_item(MenuItem::action_item("Toggle Skeleton", 1));
    menu.add_item(MenuItem::action_item("Toggle Mesh", 2));
    menu.add_item(MenuItem::slider_item("Playback Speed = ", -5_000_000, 5_000_000, 10_000, 1_000_000));
    menu
}

#[test]
fn selection_wraps_both_ways() {
    let mut menu = sample_menu();
    assert_eq!(menu.selected_item, 0);
    assert_eq!(menu.event(MenuEvent::Up), None);
    assert_eq!(menu.selected_item, 2);
    assert_eq!(menu.event(MenuEvent::Down), None);
    assert_eq!(menu.selected_item, 0);
    menu.event(MenuEvent::Down);
    assert_eq!(menu.selected_item, 1);
}

#[test]
fn empty_menu_ignores_events() {
    let mut menu = Menu::new();
    assert_eq!(menu.event(MenuEvent::Up), None);
    assert_eq!(menu.event(MenuEvent::Activate), None);
    assert_eq!(menu.selected_item, 0);
}

#[test]
fn action_item_fires_its_code() {
    let mut menu = sample_menu();
    assert_eq!(
        menu.event(MenuEvent::Activate),
        Some((0, MenuResponse::Action(1)))
    );
    menu.event(MenuEvent::Down);
    assert_eq!(menu.event(MenuEvent::Left), Some((1, MenuResponse::Action(2))));
}

#[test]
fn slider_steps_while_held() {
    let mut menu = sample_menu();
    menu.event(MenuEvent::Up);
    assert_eq!(menu.selected_item, 2);
    // ticks in the idle state change nothing
    assert_eq!(menu.event(MenuEvent::Tick), None);
    // hold right: each tick climbs one step
    assert_eq!(menu.event(MenuEvent::Right), None);
    assert_eq!(
        menu.event(MenuEvent::Tick),
        Some((2, MenuResponse::SliderValue(1_010_000)))
    );
    assert_eq!(
        menu.event(MenuEvent::Tick),
        Some((2, MenuResponse::SliderValue(1_020_000)))
    );
    // release, then hold left: the value falls again
    assert_eq!(menu.event(MenuEvent::ReleaseSide), None);
    assert_eq!(menu.event(MenuEvent::Tick), None);
    menu.event(MenuEvent::Left);
    assert_eq!(
        menu.event(MenuEvent::Tick),
        Some((2, MenuResponse::SliderValue(1_010_000)))
    );
}

#[test]
fn slider_clamps_at_its_bounds() {
    let mut menu = Menu::new();
    menu.add_item(MenuItem::slider_item("level", 0, 25_000, 10_000, 20_000));
    menu.event(MenuEvent::Right);
    assert_eq!(menu.event(MenuEvent::Tick), Some((0, MenuResponse::SliderValue(25_000))));
    assert_eq!(menu.event(MenuEvent::Tick), Some((0, MenuResponse::SliderValue(25_000))));
    menu.event(MenuEvent::Left);
    assert_eq!(menu.event(MenuEvent::Tick), Some((0, MenuResponse::SliderValue(15_000))));
    assert_eq!(menu.event(MenuEvent::Tick), Some((0, MenuResponse::SliderValue(5_000))));
    assert_eq!(menu.event(MenuEvent::Tick), Some((0, MenuResponse::SliderValue(0))));
    assert_eq!(menu.event(MenuEvent::Tick), Some((0, MenuResponse::SliderValue(0))));
}

#[test]
fn slider_initial_value_is_clamped() {
    let item = MenuItem::slider_item("level", 0, 10, 1, 99);
    match item {
        MenuItem::SliderItem(s) => {
            assert_eq!(s.value, 10);
            assert_eq!(s.state, SliderMenuState::Idle);
        }
        _ => panic!("expected a slider"),
    }
}

#[test]
fn draw_stacks_lines_down_the_screen() {
    let mut menu = sample_menu();
    menu.event(MenuEvent::Down);
    let lines = menu.draw();
    assert_eq!(lines.len(), 3);
    assert_eq!(lines[0].x, 10);
    assert_eq!(lines[0].y, 10);
    assert_eq!(lines[1].y, 30);
    assert_eq!(lines[2].y, 50);
    assert_eq!(lines[0].text, "Toggle Skeleton");
    assert!(!lines[0].selected);
    assert!(lines[1].selected);
    assert_eq!(lines[0].value, None);
    assert_eq!(lines[2].value, Some(1_000_000));
}

#[test]
fn selected_item_can_be_replaced() {
    let mut menu = sample_menu();
    match menu.get_selected_item() {
        MenuItem::ActionItem(a) => assert_eq!(a.action, 1),
        _ => panic!("expected an action item"),
    }
    menu.set_selected_item(MenuItem::action_item("Toggle Labels", 9));
    match menu.get_selected_item() {
        MenuItem::ActionItem(a) => assert_eq!(a.action, 9),
        _ => panic!("expected an action item"),
    }
}
