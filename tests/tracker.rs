use timetracker::hours::parse_hours;
use timetracker::input::Throttle;
use timetracker::model::{Project, ProjectTask, TimeEntry};
use timetracker::navigator::{NavError, Navigator, Prompt};
use timetracker::pages::{clamp_selection, Page};
use timetracker::session::{name_command, timer_command, NameCommand, TimerCommand};
use timetracker::store::{Store, StoreError, Table};
use timetracker::timestamp::{to_datetime, to_i64, Timestamp};

fn entry(start: i64, end: i64) -> TimeEntry {
    TimeEntry::new(1, 1, "work".to_string(), start, end, 0)
}

#[test]
fn duration_string_of_an_hour_a_minute_and_a_second() {
    assert_eq!(entry(0, 3661).duration_string(), "01:01:01");
    assert_eq!(entry(100, 100).duration_string(), "00:00:00");
    assert_eq!(entry(10, 10 + 100 * 3600 + 59).duration_string(), "100:00:59");
}

#[test]
fn duration_is_recomputed_not_stored() {
    let mut e = entry(50, 110);
    assert_eq!(e.duration, 60);
    e.duration = 5;
    assert_eq!(e.duration(), 60);
    assert_eq!(e.duration_string(), "00:01:00");
}

#[test]
fn negative_duration_is_signed() {
    let e = entry(3661, 0);
    assert_eq!(e.duration(), -3661);
    assert_eq!(e.duration_string(), "-01:01:01");
}

#[test]
fn epoch_round_trip() {
    for x in [
        0i64,
        1,
        59,
        86399,
        86400,
        951782400,
        1700000000,
        4102444800,
        253402300799,
        -1,
        -86400,
        -86401,
        -2208988800,
        i64::MAX,
        i64::MIN,
    ] {
        let t = to_datetime(x);
        assert_eq!(to_i64(&t), x);
    }
}

#[test]
fn epoch_known_dates() {
    let start = Timestamp { year: 1970, month: 1, day: 1, hour: 0, minute: 0, second: 0 };
    assert_eq!(to_datetime(0), start);
    let leap = Timestamp { year: 2000, month: 2, day: 29, hour: 0, minute: 0, second: 0 };
    assert_eq!(to_datetime(951782400), leap);
    let t = Timestamp { year: 2023, month: 11, day: 14, hour: 22, minute: 13, second: 20 };
    assert_eq!(to_datetime(1700000000), t);
    assert_eq!(to_i64(&t), 1700000000);
    let end = Timestamp { year: 9999, month: 12, day: 31, hour: 23, minute: 59, second: 59 };
    assert_eq!(to_datetime(253402300799), end);
    let before = Timestamp { year: 1969, month: 12, day: 31, hour: 23, minute: 59, second: 59 };
    assert_eq!(to_datetime(-1), before);
    let century = Timestamp { year: 1900, month: 1, day: 1, hour: 0, minute: 0, second: 0 };
    assert_eq!(to_datetime(-2208988800), century);
}

#[test]
fn selection_is_clamped() {
    assert_eq!(clamp_selection(5, 3), 2);
    assert_eq!(clamp_selection(3, 3), 2);
    assert_eq!(clamp_selection(1, 3), 1);
    assert_eq!(clamp_selection(7, 0), 0);
    assert_eq!(clamp_selection(0, 0), 0);
}

#[test]
fn project_crud_round_trip() {
    let mut store = Store::new();
    let p = store.create_project("P1".to_string(), "D1".to_string()).unwrap();
    assert!(p.id > 0);
    let got = store.get_project(p.id).unwrap();
    assert_eq!(got.id, p.id);
    assert_eq!(got.name, "P1");
    assert_eq!(got.description, "D1");
    store.delete_project(p.id);
    assert_eq!(store.get_project(p.id).unwrap_err(), StoreError::NotFound);
    store.delete_project(p.id);
    assert!(store.list_projects().is_empty());
}

#[test]
fn deleting_a_project_leaves_its_tasks() {
    let mut store = Store::new();
    let p = store.create_project("P".to_string(), "D".to_string()).unwrap();
    let t = store.create_task(p.id, "T".to_string(), "TD".to_string()).unwrap();
    store.delete_project(p.id);
    let got = store.get_task(t.id).unwrap();
    assert_eq!(got.project_id, p.id);
    assert_eq!(got.name, "T");
}

#[test]
fn ids_rise_from_one() {
    let mut store = Store::new();
    let a = store.create_project("a".to_string(), String::new()).unwrap();
    let b = store.create_project("b".to_string(), String::new()).unwrap();
    assert_eq!(a.id, 1);
    assert_eq!(b.id, 2);
    store.delete_project(b.id);
    let c = store.create_project("c".to_string(), String::new()).unwrap();
    assert_eq!(c.id, 3);
}

#[test]
fn update_replaces_every_field() {
    let mut store = Store::new();
    let p = store.create_project("old".to_string(), "old d".to_string()).unwrap();
    let mut q = Project::new("new".to_string(), "new d".to_string());
    q.id = p.id;
    assert_eq!(store.update_project(q), Ok(()));
    let got = store.get_project(p.id).unwrap();
    assert_eq!(got.name, "new");
    assert_eq!(got.description, "new d");
    let mut missing = ProjectTask::new(1, "x".to_string(), String::new());
    missing.id = 42;
    assert_eq!(store.update_task(missing), Err(StoreError::NotFound));
}

#[test]
fn lists_filter_by_parent_and_day() {
    let mut store = Store::new();
    store.create_task(1, "a".to_string(), String::new()).unwrap();
    store.create_task(2, "b".to_string(), String::new()).unwrap();
    store.create_task(1, "c".to_string(), String::new()).unwrap();
    let names: Vec<String> = store.list_tasks(1).into_iter().map(|t| t.name).collect();
    assert_eq!(names, vec!["a".to_string(), "c".to_string()]);

    let day = 86400 * 10;
    store.create_time_entry(TimeEntry::new(1, 7, "in".to_string(), day, day + 60, 0)).unwrap();
    store.create_time_entry(TimeEntry::new(1, 8, "late".to_string(), day + 86400, day + 86460, 0)).unwrap();
    store.create_time_entry(TimeEntry::new(1, 7, "last".to_string(), day + 86399, day + 86400, 0)).unwrap();
    let on_day: Vec<String> =
        store.list_time_entries_for_date(day).into_iter().map(|e| e.description).collect();
    assert_eq!(on_day, vec!["in".to_string(), "last".to_string()]);
    assert_eq!(store.list_time_entries_for_task(8).len(), 1);
    store.delete_time_entry(1);
    assert_eq!(store.get_time_entry(1).unwrap_err(), StoreError::NotFound);
}

#[test]
fn settings_default_then_latest() {
    let mut store = Store::new();
    let s = store.load_settings();
    assert_eq!(s.database_path, "timetracker.db");
    assert_eq!(s.user.name, "");
    store.save_settings("Ann".to_string(), "a@x".to_string(), "a.db".to_string());
    store.save_settings("Bo".to_string(), "b@x".to_string(), "b.db".to_string());
    let s = store.load_settings();
    assert_eq!(s.user.name, "Bo");
    assert_eq!(s.user.email, "b@x");
    assert_eq!(s.database_path, "b.db");
}

#[test]
fn time_page_scenario() {
    let mut nav = Navigator::new(Store::new());
    assert_eq!(nav.pages(), vec![Page::Time]);
    let screen = nav.render();
    assert!(screen.text.contains("No time entries"));
    assert!(screen.text.contains("Total time: 0"));
    assert_eq!(screen.cursor_row, 1);
    nav.handle_key('p', 0).unwrap();
    assert_eq!(nav.pages(), vec![Page::Time, Page::Projects]);
    nav.handle_key('b', 0).unwrap();
    assert_eq!(nav.pages(), vec![Page::Time]);
    nav.handle_key('q', 0).unwrap();
    assert!(nav.quit);
}

#[test]
fn stack_keeps_time_at_the_bottom() {
    let mut nav = Navigator::new(Store::new());
    for key in "bbpbbbsbbbptbbbcxbbpsbq?zbbb".chars() {
        if nav.prompt.is_some() {
            nav.handle_line("n".to_string()).unwrap();
        } else {
            nav.handle_key(key, 0).unwrap();
        }
        let pages = nav.pages();
        assert!(!pages.is_empty());
        assert_eq!(pages[0], Page::Time);
    }
}

#[test]
fn time_page_lists_entries_and_total() {
    let mut store = Store::new();
    store.create_time_entry(entry(0, 90)).unwrap();
    store.create_time_entry(entry(0, 3600)).unwrap();
    let nav = Navigator::new(store);
    let screen = nav.render();
    assert_eq!(
        screen.text,
        "Time entries\nwork 00:01:30\nwork 01:00:00\nTotal time: 3690\nc: create, e: edit, d: delete, p: projects, s: settings, q: quit"
    );
}

#[test]
fn creating_and_deleting_entries_from_the_time_page() {
    let mut nav = Navigator::new(Store::new());
    nav.handle_key('c', 1000).unwrap();
    assert_eq!(nav.pages(), vec![Page::Time, Page::TimeEntryCreateOrEdit]);
    assert_eq!(nav.entries.len(), 1);
    assert_eq!(nav.entries[0].start_time, 1000);
    nav.handle_key('e', 0).unwrap();
    assert_eq!(nav.prompt, Some(Prompt::EntryDescription));
    nav.handle_line("coding".to_string()).unwrap();
    nav.handle_key('t', 0).unwrap();
    nav.handle_line("1.5".to_string()).unwrap();
    assert_eq!(nav.entries[0].description, "coding");
    assert_eq!(nav.entries[0].duration, 5400);
    let id = nav.entries[0].id;
    assert_eq!(nav.store.get_time_entry(id).unwrap().duration, 5400);
    nav.handle_key('t', 0).unwrap();
    assert_eq!(nav.handle_line("soon".to_string()), Err(NavError::ParseError));
    assert_eq!(nav.prompt, None);
    nav.handle_key('b', 0).unwrap();
    nav.handle_key('d', 0).unwrap();
    assert!(nav.entries.is_empty());
    assert_eq!(nav.store.get_time_entry(id).unwrap_err(), StoreError::NotFound);
}

#[test]
fn creating_a_project_and_a_task() {
    let mut nav = Navigator::new(Store::new());
    nav.handle_key('p', 0).unwrap();
    nav.handle_key('c', 0).unwrap();
    assert_eq!(nav.pages(), vec![Page::Time, Page::Projects, Page::ProjectCreateOrEdit]);
    assert!(nav.render().text.ends_with("Project name:"));
    nav.handle_line("Site".to_string()).unwrap();
    nav.handle_line("the web site".to_string()).unwrap();
    assert_eq!(nav.pages(), vec![Page::Time, Page::Projects]);
    assert_eq!(nav.projects.len(), 1);
    assert_eq!(nav.selection, 0);
    assert!(nav.render().text.contains("Site: the web site"));
    nav.handle_key('e', 0).unwrap();
    nav.handle_line("Shop".to_string()).unwrap();
    nav.handle_line("the shop".to_string()).unwrap();
    assert_eq!(nav.projects.len(), 1);
    assert_eq!(nav.store.get_project(nav.projects[0].id).unwrap().name, "Shop");
    nav.handle_key('t', 0).unwrap();
    assert_eq!(nav.pages(), vec![Page::Time, Page::Projects, Page::ProjectDetail]);
    assert!(nav.render().text.contains("No tasks"));
    nav.handle_key('c', 0).unwrap();
    nav.handle_line("Cart".to_string()).unwrap();
    nav.handle_line("checkout".to_string()).unwrap();
    assert_eq!(nav.pages(), vec![Page::Time, Page::Projects, Page::ProjectDetail]);
    assert_eq!(nav.tasks[0].project_id, nav.projects[0].id);
    assert!(nav.render().text.contains("Cart: checkout"));
    nav.handle_key('b', 0).unwrap();
    nav.handle_key('d', 0).unwrap();
    assert!(nav.projects.is_empty());
    assert!(nav.render().text.contains("No projects"));
}

#[test]
fn settings_page_shows_the_settings() {
    let mut store = Store::new();
    store.save_settings("Ann".to_string(), "ann@example.com".to_string(), "t.db".to_string());
    let mut nav = Navigator::new(store);
    nav.handle_key('s', 0).unwrap();
    assert_eq!(
        nav.render().text,
        "Settings\nName: Ann\nEmail: ann@example.com\nDatabase: t.db\nb: back, q: quit"
    );
    nav.handle_key('x', 0).unwrap();
    assert_eq!(nav.pages(), vec![Page::Time, Page::Settings]);
}

#[test]
fn hours_are_read_as_decimals() {
    assert_eq!(parse_hours("2"), Some(7200));
    assert_eq!(parse_hours("1.5"), Some(5400));
    assert_eq!(parse_hours("0.25"), Some(900));
    assert_eq!(parse_hours("1."), Some(3600));
    assert_eq!(parse_hours("0.0001"), Some(0));
    assert_eq!(parse_hours(""), None);
    assert_eq!(parse_hours(".5"), None);
    assert_eq!(parse_hours("1.2.3"), None);
    assert_eq!(parse_hours("-1"), None);
    assert_eq!(parse_hours("abc"), None);
    assert_eq!(parse_hours("99999999999999999999"), None);
}

#[test]
fn typed_commands() {
    assert_eq!(timer_command(" stop\n"), TimerCommand::Stop);
    assert_eq!(timer_command("go"), TimerCommand::Invalid);
    assert_eq!(timer_command("\u{3000}stop\u{a0}"), TimerCommand::Stop);
    assert_eq!(timer_command("st op"), TimerCommand::Invalid);
    assert_eq!(name_command("exit\n"), NameCommand::Exit);
    assert_eq!(name_command("  Work \n"), NameCommand::Start("Work".to_string()));
}

#[test]
fn events_closer_than_the_spacing_are_dropped() {
    let mut t = Throttle::new();
    assert!(t.accept(1000));
    assert!(!t.accept(1050));
    assert!(!t.accept(1099));
    assert!(t.accept(1100));
    assert!(!t.accept(900));
    assert_eq!(t.last_accepted_ms, Some(1100));
}

#[test]
fn a_table_out_of_ids_refuses_new_records() {
    let mut store = Store::new();
    store.projects = Table::restore(Vec::new(), i64::MAX).unwrap();
    assert_eq!(
        store.create_project("p".to_string(), String::new()).unwrap_err(),
        StoreError::StorageError
    );
    assert!(store.list_projects().is_empty());
    store.entries = Table::restore(Vec::new(), i64::MAX).unwrap();
    let mut nav = Navigator::new(store);
    assert_eq!(nav.handle_key('c', 0), Err(NavError::Store(StoreError::StorageError)));
    assert_eq!(nav.pages(), vec![Page::Time]);
}

#[test]
fn restoring_checks_the_ids() {
    let mut a = Project::new("a".to_string(), String::new());
    a.id = 2;
    let mut b = Project::new("b".to_string(), String::new());
    b.id = 5;
    let table = Table::restore(vec![a, b], 6).unwrap();
    assert_eq!(table.list().len(), 2);
    let mut c = Project::new("c".to_string(), String::new());
    c.id = 5;
    let mut d = Project::new("d".to_string(), String::new());
    d.id = 3;
    assert!(Table::restore(vec![c, d], 6).is_none());
    assert!(Table::<Project>::restore(Vec::new(), 0).is_none());
    let mut e = Project::new("e".to_string(), String::new());
    e.id = 6;
    assert!(Table::restore(vec![e], 6).is_none());
}
