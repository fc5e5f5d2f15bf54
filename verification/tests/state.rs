use procdash::app::{App, Key, NavigationMode, ProcessSort, Tab};

#[test]
fn initial_state_defaults() {
    let app = App::new();
    assert!(!app.should_quit);
    assert!(!app.show_help);
    assert_eq!(app.current_tab, Tab::Overview);
    assert_eq!(app.process_sort, ProcessSort::Cpu);
    assert!(!app.sort_ascending);
    assert_eq!(app.process_scroll, 0);
    assert_eq!(app.user_location, "unknown".to_string());
    assert_eq!(app.selected_category, 0);
    assert!(!app.category_expanded);
    assert!(!app.command_mode);
    assert!(app.command_buffer.is_empty());
    assert!(!app.show_all_processes);
    assert_eq!(app.navigation_mode(), NavigationMode::CategoryGrid);
}

#[test]
fn with_location_empty_falls_back() {
    let app = App::with_location(String::new());
    assert_eq!(app.user_location, "unknown".to_string());
    let app = App::with_location("Berlin".to_string());
    assert_eq!(app.user_location, "Berlin".to_string());
}

#[test]
fn tab_cycle() {
    assert_eq!(Tab::Overview.next(), Tab::Processes);
    assert_eq!(Tab::Processes.next(), Tab::SystemInfo);
    assert_eq!(Tab::SystemInfo.next(), Tab::Vpn);
    assert_eq!(Tab::Vpn.next(), Tab::Overview);
    assert_eq!(Tab::Overview.previous(), Tab::Vpn);
    assert_eq!(Tab::Vpn.previous(), Tab::SystemInfo);
    assert_eq!(Tab::SystemInfo.previous(), Tab::Processes);
    assert_eq!(Tab::Processes.previous(), Tab::Overview);
}

#[test]
fn tab_titles() {
    assert_eq!(Tab::Overview.title(), "Overview");
    assert_eq!(Tab::Processes.title(), "Processes");
    assert_eq!(Tab::SystemInfo.title(), "System Info");
    assert_eq!(Tab::Vpn.title(), "VPN");
}

#[test]
fn sort_field_ring() {
    let mut app = App::new();
    app.cycle_process_sort();
    assert_eq!(app.process_sort, ProcessSort::Memory);
    app.cycle_process_sort();
    assert_eq!(app.process_sort, ProcessSort::Name);
    app.cycle_process_sort();
    assert_eq!(app.process_sort, ProcessSort::Pid);
    app.cycle_process_sort();
    assert_eq!(app.process_sort, ProcessSort::Cpu);
    assert!(!app.sort_ascending);
    app.toggle_sort_order();
    assert!(app.sort_ascending);
    app.toggle_sort_order();
    assert!(!app.sort_ascending);
}

#[test]
fn grid_moves_stay_inside_and_edge_moves_are_noops() {
    let mut app = App::new();
    // top-left corner: left and up are no-ops
    app.move_category_left();
    assert_eq!(app.selected_category, 0);
    app.move_category_up();
    assert_eq!(app.selected_category, 0);
    // walk to the bottom-right corner
    app.move_category_right();
    assert_eq!(app.selected_category, 1);
    app.move_category_right();
    assert_eq!(app.selected_category, 1);
    app.move_category_down();
    assert_eq!(app.selected_category, 3);
    app.move_category_down();
    assert_eq!(app.selected_category, 5);
    app.move_category_down();
    assert_eq!(app.selected_category, 7);
    app.move_category_down();
    assert_eq!(app.selected_category, 7);
    app.move_category_left();
    assert_eq!(app.selected_category, 6);
    app.move_category_left();
    assert_eq!(app.selected_category, 6);
    assert!(app.selected_category < 8);
}

#[test]
fn scroll_reset_is_unconditional_even_for_noop_moves() {
    let mut app = App::new();
    app.scroll_down();
    app.scroll_down();
    app.scroll_down();
    assert_eq!(app.process_scroll, 3);
    // a no-op grid move still resets the offset
    app.move_category_left();
    assert_eq!(app.process_scroll, 0);
    app.scroll_down();
    app.next_tab();
    assert_eq!(app.process_scroll, 0);
    app.scroll_down();
    app.toggle_category_expanded();
    assert_eq!(app.process_scroll, 0);
    app.scroll_down();
    app.collapse_category();
    assert_eq!(app.process_scroll, 0);
    app.scroll_down();
    app.select_tab(Tab::Processes);
    assert_eq!(app.process_scroll, 0);
}

#[test]
fn scroll_floor_at_zero() {
    let mut app = App::new();
    app.scroll_up();
    assert_eq!(app.process_scroll, 0);
    app.scroll_down();
    app.scroll_down();
    app.scroll_up();
    assert_eq!(app.process_scroll, 1);
}

#[test]
fn command_buffer_floor_survives_repeated_backspace() {
    let mut app = App::new();
    app.enter_command_mode();
    assert_eq!(app.command_buffer, vec!['/']);
    app.command_backspace();
    app.command_backspace();
    app.command_backspace();
    assert_eq!(app.command_buffer, vec!['/']);
    assert!(app.command_mode);
    app.command_input_char('a');
    assert_eq!(app.command_buffer, vec!['/', 'a']);
    app.command_backspace();
    assert_eq!(app.command_buffer, vec!['/']);
}

#[test]
fn recognized_command_switches_to_flat_view() {
    let mut app = App::new();
    app.select_tab(Tab::Processes);
    app.handle_key(Key::Char('/'), false);
    assert!(app.command_mode);
    app.handle_key(Key::Char('a'), false);
    app.handle_key(Key::Char('l'), false);
    app.handle_key(Key::Char('l'), false);
    app.handle_key(Key::Enter, false);
    assert_eq!(app.navigation_mode(), NavigationMode::AllProcessesFlat);
    assert!(!app.command_mode);
    assert!(app.command_buffer.is_empty());
    assert_eq!(app.process_scroll, 0);
}

#[test]
fn recognized_command_is_case_insensitive_and_trimmed() {
    let mut app = App::new();
    app.select_tab(Tab::Processes);
    app.enter_command_mode();
    app.command_input_char('A');
    app.command_input_char('L');
    app.command_input_char('L');
    app.command_input_char(' ');
    app.execute_command();
    assert!(app.show_all_processes);
    assert!(!app.command_mode);
    assert!(app.command_buffer.is_empty());
}

#[test]
fn unrecognized_command_only_exits_command_mode() {
    let mut app = App::new();
    app.select_tab(Tab::Processes);
    app.enter_command_mode();
    app.command_input_char('x');
    app.command_input_char('y');
    app.execute_command();
    assert!(!app.show_all_processes);
    assert!(!app.command_mode);
    assert!(app.command_buffer.is_empty());
    assert_eq!(app.navigation_mode(), NavigationMode::CategoryGrid);
}

#[test]
fn exit_command_mode_also_leaves_flat_view() {
    let mut app = App::new();
    app.select_tab(Tab::Processes);
    app.enter_command_mode();
    app.command_input_char('a');
    app.command_input_char('l');
    app.command_input_char('l');
    app.execute_command();
    assert!(app.show_all_processes);
    // Escape in the flat view leaves it and clears command state
    app.handle_key(Key::Esc, false);
    assert!(!app.show_all_processes);
    assert_eq!(app.navigation_mode(), NavigationMode::CategoryGrid);
    assert!(!app.command_mode);
    assert!(app.command_buffer.is_empty());
}

#[test]
fn keys_quit_help_and_tabs() {
    let mut app = App::new();
    app.handle_key(Key::Char('?'), false);
    assert!(app.show_help);
    // keys are swallowed while help is open
    app.handle_key(Key::Char('s'), false);
    assert_eq!(app.process_sort, ProcessSort::Cpu);
    app.handle_key(Key::Esc, false);
    assert!(!app.show_help);
    app.handle_key(Key::Tab, false);
    assert_eq!(app.current_tab, Tab::Processes);
    app.handle_key(Key::BackTab, false);
    assert_eq!(app.current_tab, Tab::Overview);
    app.handle_key(Key::Char('4'), false);
    assert_eq!(app.current_tab, Tab::Vpn);
    app.handle_key(Key::Char('c'), true);
    assert!(app.should_quit);
    let mut app2 = App::new();
    app2.handle_key(Key::Char('q'), false);
    assert!(app2.should_quit);
}

#[test]
fn unbound_keys_change_nothing() {
    let mut app = App::new();
    app.handle_key(Key::Char('x'), true);
    app.handle_key(Key::Char('z'), false);
    app.handle_key(Key::Backspace, false);
    let fresh = App::new();
    assert_eq!(app.current_tab, fresh.current_tab);
    assert_eq!(app.process_scroll, fresh.process_scroll);
    assert_eq!(app.selected_category, fresh.selected_category);
    assert!(!app.should_quit && !app.show_help && !app.command_mode);
}

#[test]
fn arrow_keys_follow_the_mode() {
    let mut app = App::new();
    app.handle_key(Key::Char('2'), false);
    assert_eq!(app.current_tab, Tab::Processes);
    // on the grid, down moves a row
    app.handle_key(Key::Down, false);
    assert_eq!(app.selected_category, 2);
    assert_eq!(app.process_scroll, 0);
    // expanded, down scrolls
    app.handle_key(Key::Enter, false);
    assert_eq!(app.navigation_mode(), NavigationMode::CategoryExpanded);
    app.handle_key(Key::Down, false);
    assert_eq!(app.process_scroll, 1);
    assert_eq!(app.selected_category, 2);
    // Escape collapses and resets the scroll
    app.handle_key(Key::Esc, false);
    assert_eq!(app.navigation_mode(), NavigationMode::CategoryGrid);
    assert_eq!(app.process_scroll, 0);
    // left/right move columns on the grid
    app.handle_key(Key::Right, false);
    assert_eq!(app.selected_category, 3);
    app.handle_key(Key::Left, false);
    assert_eq!(app.selected_category, 2);
}

#[test]
fn number_key_tab_switch_collapses_expansion() {
    let mut app = App::new();
    app.select_tab(Tab::Processes);
    app.toggle_category_expanded();
    app.scroll_down();
    app.handle_key(Key::Char('1'), false);
    assert_eq!(app.current_tab, Tab::Overview);
    assert!(!app.category_expanded);
    assert_eq!(app.process_scroll, 0);
}

#[test]
fn tab_switches_leave_the_flat_view() {
    let mut app = App::new();
    app.select_tab(Tab::Processes);
    app.enter_command_mode();
    app.command_input_char('a');
    app.command_input_char('l');
    app.command_input_char('l');
    app.execute_command();
    assert_eq!(app.navigation_mode(), NavigationMode::AllProcessesFlat);
    // cycling away and back never brings the flat view with it
    app.handle_key(Key::Tab, false);
    assert_eq!(app.navigation_mode(), NavigationMode::CategoryGrid);
    assert!(!app.show_all_processes);
    // the same through a number key
    let mut app2 = App::new();
    app2.select_tab(Tab::Processes);
    app2.enter_command_mode();
    app2.command_input_char('a');
    app2.command_input_char('l');
    app2.command_input_char('l');
    app2.execute_command();
    assert!(app2.show_all_processes);
    app2.handle_key(Key::Char('3'), false);
    assert_eq!(app2.current_tab, Tab::SystemInfo);
    assert!(!app2.show_all_processes);
    assert_eq!(app2.navigation_mode(), NavigationMode::CategoryGrid);
}
