use itop::app::{Action, App, REFRESH_EVERY};
use itop::event::{Config, Event, Key};
use itop::metrics::Reading;
use itop::process::{ProcessSample, Sort};
use itop::selection::RowStyle;

fn sample(name: &str, cpu: u64, memory: u64) -> ProcessSample {
    ProcessSample { name: name.to_string(), cpu, memory }
}

fn mock_processes() -> Vec<ProcessSample> {
    vec![
        sample("editor", 120_000, 300),
        sample("shell", 10_000, 50),
        sample("browser", 450_000, 100),
        sample("browser", 50_000, 150),
    ]
}

fn mock_reading(processes: bool) -> Reading {
    Reading {
        processes: if processes { Some(mock_processes()) } else { None },
        cores: vec![200_000, 400_000],
        used_memory: 2_000,
        total_memory: 8_000,
    }
}

fn names(app: &App) -> Vec<String> {
    app.processes().iter().map(|r| r.name.clone()).collect()
}

fn tick(app: &mut App, config: &Config) -> bool {
    match app.handle(Event::Tick, config) {
        Action::Sample { processes } => {
            app.update(&mock_reading(processes));
            processes
        }
        other => panic!("a tick asked for {:?}", other),
    }
}

fn press(app: &mut App, config: &Config, key: Key) -> Action {
    app.handle(Event::Input(key), config)
}

#[test]
fn app_starts_empty() {
    let app = App::new();
    assert_eq!(app.memory().len(), 0);
    assert_eq!(app.cpu().len(), 0);
    assert_eq!(app.memory().limit(), 1000);
    assert_eq!(app.cpu().limit(), 1000);
    assert!(app.processes().is_empty());
    assert_eq!(app.selection().highlighted, None);
    assert_eq!(app.selection().selected, None);
    assert_eq!(app.total_memory(), 0);
    assert_eq!(app.sort(), Sort::Cpu);
    assert_eq!(app.wants_sort(), Sort::Cpu);
    assert_eq!(app.ticks(), 0);
    assert_eq!(REFRESH_EVERY, 8);
}

#[test]
fn eight_ticks_refresh_once_and_sample_eight_times() {
    let config = Config::new();
    let mut app = App::new();
    let mut refreshed = Vec::new();
    for _ in 0..8 {
        refreshed.push(tick(&mut app, &config));
    }
    assert_eq!(refreshed, vec![true, false, false, false, false, false, false, false]);
    assert_eq!(app.cpu().len(), 8);
    assert_eq!(app.memory().len(), 8);
    assert_eq!(app.cpu().to_vec(), vec![30; 8]);
    assert_eq!(app.memory().to_vec(), vec![25; 8]);
    assert_eq!(app.ticks(), 8);
    assert_eq!(names(&app), vec!["browser".to_string(), "editor".to_string(), "shell".to_string()]);
    assert_eq!(app.total_memory(), 8_000);
}

#[test]
fn the_ninth_tick_refreshes_again() {
    let config = Config::new();
    let mut app = App::new();
    let mut refreshed = Vec::new();
    for _ in 0..17 {
        refreshed.push(tick(&mut app, &config));
    }
    let due: Vec<usize> = refreshed.iter().enumerate().filter(|(_, r)| **r).map(|(i, _)| i).collect();
    assert_eq!(due, vec![0, 8, 16]);
}

#[test]
fn a_sort_request_waits_for_the_next_tick_and_forces_a_refresh() {
    let config = Config::new();
    let mut app = App::new();
    assert!(tick(&mut app, &config));
    assert!(!tick(&mut app, &config));
    let before = app.processes().clone();
    assert_eq!(names(&app), vec!["browser".to_string(), "editor".to_string(), "shell".to_string()]);

    assert_eq!(press(&mut app, &config, Key::Char('m')), Action::Draw);
    assert_eq!(app.sort(), Sort::Cpu);
    assert_eq!(app.wants_sort(), Sort::Memory);
    assert_eq!(app.processes(), &before);
    assert_eq!(app.ticks(), 2);

    assert_eq!(app.handle(Event::Tick, &config), Action::Sample { processes: true });
    assert_eq!(app.sort(), Sort::Memory);
    assert_eq!(app.processes(), &before);
    app.update(&mock_reading(true));
    assert_eq!(names(&app), vec!["editor".to_string(), "browser".to_string(), "shell".to_string()]);

    assert!(!tick(&mut app, &config));
    assert_eq!(app.sort(), Sort::Memory);
}

#[test]
fn asking_for_the_order_in_force_forces_nothing() {
    let config = Config::new();
    let mut app = App::new();
    assert!(tick(&mut app, &config));
    assert_eq!(press(&mut app, &config, Key::Char('c')), Action::Draw);
    assert!(!tick(&mut app, &config));
    assert_eq!(press(&mut app, &config, Key::Char('m')), Action::Draw);
    assert_eq!(press(&mut app, &config, Key::Char('c')), Action::Draw);
    assert!(!tick(&mut app, &config));
}

#[test]
fn exit_keys_end_the_loop_and_change_nothing() {
    let config = Config::new();
    let mut app = App::new();
    tick(&mut app, &config);
    press(&mut app, &config, Key::Down);
    assert_eq!(press(&mut app, &config, Key::Char('q')), Action::Exit);
    assert_eq!(press(&mut app, &config, Key::Ctrl('c')), Action::Exit);
    assert_eq!(app.selection().highlighted, Some("browser".to_string()));
    assert_eq!(app.ticks(), 1);
    assert_eq!(app.cpu().len(), 1);
}

#[test]
fn navigation_keys_move_the_cursor_over_the_snapshot() {
    let config = Config::new();
    let mut app = App::new();
    tick(&mut app, &config);
    assert_eq!(press(&mut app, &config, Key::Up), Action::Draw);
    assert_eq!(app.selection().highlighted, None);
    assert_eq!(press(&mut app, &config, Key::Down), Action::Draw);
    assert_eq!(app.selection().highlighted, Some("browser".to_string()));
    press(&mut app, &config, Key::Char('j'));
    assert_eq!(app.selection().highlighted, Some("editor".to_string()));
    press(&mut app, &config, Key::Char('k'));
    assert_eq!(app.selection().highlighted, Some("browser".to_string()));
    press(&mut app, &config, Key::Up);
    assert_eq!(app.selection().highlighted, None);
}

#[test]
fn enter_pins_and_releases_the_highlighted_row() {
    let config = Config::new();
    let mut app = App::new();
    tick(&mut app, &config);
    assert_eq!(press(&mut app, &config, Key::Char('\n')), Action::Draw);
    assert_eq!(app.selection().selected, None);
    press(&mut app, &config, Key::Down);
    press(&mut app, &config, Key::Char('\n'));
    assert_eq!(app.selection().selected, Some("browser".to_string()));
    assert_eq!(app.row_style(&"browser".to_string()), RowStyle::Selected);
    press(&mut app, &config, Key::Down);
    assert_eq!(app.row_style(&"browser".to_string()), RowStyle::Selected);
    assert_eq!(app.row_style(&"editor".to_string()), RowStyle::Highlighted);
    assert_eq!(app.row_style(&"shell".to_string()), RowStyle::Plain);
    press(&mut app, &config, Key::Up);
    press(&mut app, &config, Key::Char('\n'));
    assert_eq!(app.selection().selected, None);
    assert_eq!(app.row_style(&"browser".to_string()), RowStyle::Highlighted);
}

#[test]
fn keys_touch_neither_snapshot_nor_histories() {
    let config = Config::new();
    let mut app = App::new();
    tick(&mut app, &config);
    let rows = app.processes().clone();
    for key in [Key::Down, Key::Char('\n'), Key::Char('m'), Key::Up, Key::Char('x'), Key::Esc] {
        assert_eq!(press(&mut app, &config, key), Action::Draw);
        assert_eq!(app.processes(), &rows);
        assert_eq!(app.cpu().to_vec(), vec![30]);
        assert_eq!(app.memory().to_vec(), vec![25]);
        assert_eq!(app.ticks(), 1);
        assert_eq!(app.total_memory(), 8_000);
    }
}

#[test]
fn a_stale_cursor_survives_the_refresh_and_falls_at_the_next_move() {
    let config = Config::new();
    let mut app = App::new();
    tick(&mut app, &config);
    press(&mut app, &config, Key::Down);
    press(&mut app, &config, Key::Char('\n'));
    assert_eq!(app.selection().highlighted, Some("browser".to_string()));
    app.update_processes(&vec![sample("shell", 1, 1), sample("editor", 2, 2)], 8_000);
    assert_eq!(app.selection().highlighted, Some("browser".to_string()));
    assert_eq!(app.selection().selected, Some("browser".to_string()));
    press(&mut app, &config, Key::Down);
    assert_eq!(app.selection().highlighted, None);
    assert_eq!(app.selection().selected, Some("browser".to_string()));
}

#[test]
fn update_without_a_process_list_keeps_the_snapshot() {
    let mut app = App::new();
    app.update(&mock_reading(true));
    let rows = app.processes().clone();
    let mut reading = mock_reading(false);
    reading.total_memory = 16_000;
    app.update(&reading);
    assert_eq!(app.processes(), &rows);
    assert_eq!(app.total_memory(), 8_000);
    assert_eq!(app.memory().to_vec(), vec![12, 25]);
    assert_eq!(app.cpu().to_vec(), vec![30, 30]);
}

#[test]
fn update_parts_each_change_their_own() {
    let mut app = App::new();
    app.update_memory(1, 3);
    assert_eq!(app.memory().to_vec(), vec![33]);
    assert_eq!(app.cpu().len(), 0);
    app.update_cpu(&vec![1_000_000, 0]);
    assert_eq!(app.cpu().to_vec(), vec![50]);
    assert_eq!(app.memory().to_vec(), vec![33]);
    app.update_processes(&mock_processes(), 4_096);
    assert_eq!(app.total_memory(), 4_096);
    assert_eq!(app.processes().len(), 3);
    assert_eq!(app.processes()[0].cpu_usage, 500_000);
    assert_eq!(app.processes()[0].memory, 250);
    assert_eq!(app.processes()[0].count, 2);
    assert_eq!(app.cpu().to_vec(), vec![50]);
}

#[test]
fn histories_of_the_app_stop_at_a_thousand() {
    let mut app = App::new();
    for i in 0..1003u64 {
        app.update_memory(i, 100_000);
        app.update_cpu(&vec![i * 10_000]);
    }
    assert_eq!(app.memory().len(), 1000);
    assert_eq!(app.cpu().len(), 1000);
    assert_eq!(app.cpu().to_vec()[0], 1002);
    assert_eq!(app.cpu().to_vec()[999], 3);
}

#[test]
fn cpu_chart_shows_the_history_or_the_pinned_row() {
    let config = Config::new();
    let mut app = App::new();
    tick(&mut app, &config);
    tick(&mut app, &config);
    assert_eq!(app.cpu_series(), vec![30, 30]);
    press(&mut app, &config, Key::Down);
    assert_eq!(app.cpu_series(), vec![30, 30]);
    press(&mut app, &config, Key::Char('\n'));
    assert_eq!(app.cpu_series(), vec![50]);
    app.update_processes(&vec![sample("shell", 19_999, 1)], 8_000);
    assert_eq!(app.cpu_series(), vec![30, 30]);
    press(&mut app, &config, Key::Down);
    press(&mut app, &config, Key::Down);
    press(&mut app, &config, Key::Char('\n'));
    assert_eq!(app.selection().selected, Some("shell".to_string()));
    assert_eq!(app.cpu_series(), vec![1]);
}

#[test]
fn ticks_are_counted() {
    let config = Config::new();
    let mut app = App::new();
    for _ in 0..3 {
        app.handle(Event::Tick, &config);
    }
    assert_eq!(app.ticks(), 3);
}
