use timetracker::clock::{duration_as_words, SECONDS_PER_DAY, SECONDS_PER_HOUR, SECONDS_PER_MINUTE};
use timetracker::session::tasks_completed_report;
use timetracker::{get_clock_format, Moment, Task, Timer};

#[test]
fn creates_new_task() {
    let mut task = Task::new(&"Test".to_string());
    assert_eq!(task.name, "Test");
    task.start = task.start.earlier_by_secs(1);
    task.stop();
    assert_eq!(task.time_tracked_seconds(), 1);
}

#[test]
fn correct_duration_as_string() {
    let task_name = "Test".to_string();
    let mut task = Task::new(&task_name);
    task.start = task.start.earlier_by_secs(1);
    task.stop();
    assert_eq!(task.time_tracked_string(), "1 Second");

    let mut task = Task::new(&task_name);
    task.start = task.start.earlier_by_secs(61);
    task.stop();
    assert_eq!(task.time_tracked_string(), "1 Minute and 1 Second");

    // simulate 1 minute and 2 seconds.
    let mut task = Task::new(&task_name);
    task.start = task.start.earlier_by_secs(62);
    task.stop();
    assert_eq!(task.time_tracked_string(), "1 Minute and 2 Seconds");

    // simulate 2 minutes.
    let mut task = Task::new(&task_name);
    task.start = task.start.earlier_by_secs(120);
    task.stop();
    assert_eq!(task.time_tracked_string(), "2 Minutes");

    // simulate 1 day.
    let mut task = Task::new(&task_name);
    task.start = task.start.earlier_by_secs(86400);
    task.stop();
    assert_eq!(task.time_tracked_string(), "1 Day");

    // simulate 1 day, 1 hour, 1 minute, and 39 seconds.
    let mut task = Task::new(&task_name);
    let days = SECONDS_PER_DAY;
    let hours = SECONDS_PER_HOUR;
    let minutes = SECONDS_PER_MINUTE;
    let seconds = 39;
    task.start = task.start.earlier_by_secs(days + hours + minutes + seconds);
    task.stop();
    assert_eq!(
        task.time_tracked_string(),
        "1 Day, 1 Hour, 1 Minute, and 39 Seconds"
    );

    // simulate 1 day, 1 hour, 1 minute, and 1 second.
    let mut task = Task::new(&task_name);
    let days = SECONDS_PER_DAY;
    let hours = SECONDS_PER_HOUR;
    let minutes = SECONDS_PER_MINUTE;
    let seconds = 1;
    task.start = task.start.earlier_by_secs(days + hours + minutes + seconds);
    task.stop();
    assert_eq!(
        task.time_tracked_string(),
        "1 Day, 1 Hour, 1 Minute, and 1 Second"
    );

    // simulate 4 hours, 45 minutes, and 53 seconds.
    let mut task = Task::new(&task_name);
    let hours = SECONDS_PER_HOUR * 4;
    let minutes = SECONDS_PER_MINUTE * 45;
    let seconds = 53;
    task.start = task.start.earlier_by_secs(hours + minutes + seconds);
    task.stop();
    assert_eq!(
        task.time_tracked_string(),
        "4 Hours, 45 Minutes, and 53 Seconds"
    );

    // simulate 4 days and 8 hours.
    let mut task = Task::new(&task_name);
    let days = SECONDS_PER_DAY * 4;
    let hours = SECONDS_PER_HOUR * 8;
    task.start = task.start.earlier_by_secs(days + hours);
    task.stop();
    assert_eq!(task.time_tracked_string(), "4 Days and 8 Hours");
}

#[test]
fn test_get_clock_format() {
    assert_eq!(get_clock_format(0), "00:00:00");
    assert_eq!(get_clock_format(1), "00:00:01");
    assert_eq!(get_clock_format(60), "00:01:00");
    assert_eq!(get_clock_format(3600), "01:00:00");
    assert_eq!(get_clock_format(86400), "24:00:00");
    assert_eq!(get_clock_format(86401), "24:00:01");
    assert_eq!(get_clock_format(86460), "24:01:00");
    assert_eq!(get_clock_format(99999), "27:46:39");
}

#[test]
fn clock_format_grows_past_two_hour_digits() {
    assert_eq!(get_clock_format(360000), "100:00:00");
    assert_eq!(get_clock_format(u64::MAX), "5124095576030431:00:15");
}

#[test]
fn words_of_zero_seconds_are_empty() {
    assert_eq!(duration_as_words(0), "");
    assert_eq!(duration_as_words(7200 + 5), "2 Hours and 5 Seconds");
    assert_eq!(duration_as_words(2 * 86400 + 3), "2 Days and 3 Seconds");
}

#[test]
fn timer_measures_between_its_moments() {
    let start = Moment { nanos: 5_000_000_000 };
    let end = Moment { nanos: 3_726_900_000_000 };
    let timer = Timer::between(start, end);
    assert_eq!(timer.elapsed(), 3721);
    assert_eq!(timer.to_clock_string(), "01:02:01");
    let backwards = Timer::between(end, start);
    assert_eq!(backwards.elapsed(), 0);
}

#[test]
fn timer_update_keeps_start() {
    let mut timer = Timer::new();
    timer.update();
    assert!(timer.elapsed() < 5);
}

#[test]
fn earlier_by_secs_moves_back() {
    let m = Moment { nanos: 1_500_000_000 };
    assert_eq!(m.earlier_by_secs(1).nanos, 500_000_000);
    assert_eq!(m.earlier_by_secs(2).nanos, -500_000_000);
    assert_eq!(Moment { nanos: i128::MIN + 1 }.earlier_by_secs(1).nanos, i128::MIN);
    assert_eq!(Moment { nanos: 9_999_999_999 }.whole_seconds_since(&Moment { nanos: 0 }), 9);
    assert_eq!(Moment { nanos: 0 }.whole_seconds_since(&Moment { nanos: 9_999_999_999 }), 0);
    assert_eq!(
        Moment { nanos: i128::MAX }.whole_seconds_since(&Moment { nanos: i128::MIN }),
        u64::MAX
    );
}

#[test]
fn new_timers_and_tasks_start_at_zero() {
    let timer = Timer::new();
    assert_eq!(timer.elapsed(), 0);
    let task = Task::new(&"t".to_string());
    assert_eq!(task.start, task.end);
    assert_eq!(task.time_tracked_seconds(), 0);
    assert_eq!(task.time_tracked_string(), "");
}

#[test]
fn stopping_at_a_moment_keeps_the_start() {
    let mut task = Task::new(&"t".to_string());
    task.stop_at(Moment { nanos: 120_000_000_000 });
    assert_eq!(task.time_tracked_seconds(), 120);
    let mut timer = Timer::between(Moment { nanos: 0 }, Moment { nanos: 0 });
    timer.set_end(Moment { nanos: 3_600_000_000_000 });
    assert_eq!(timer.to_clock_string(), "01:00:00");
}

#[test]
fn task_clock_string_and_summary() {
    let mut task = Task::new(&"write".to_string());
    task.start = Moment { nanos: 0 };
    task.end = Moment { nanos: 61_000_000_000 };
    assert_eq!(task.to_clock_string(), "00:01:01");
    assert_eq!(task.summary_line(), "write: 00:01:01");
    assert_eq!(task.completion_message(), "Task 'write' completed in 1 Minute and 1 Second.");
    assert_eq!(task.started_message(), "Started task 'write', stop the task with 'stop'");
    assert_eq!(
        task.invalid_input_message(),
        "write: Invalid input. Please type 'stop' to stop the timer."
    );
}

#[test]
fn report_lists_completed_tasks() {
    let lines = vec!["a: 00:00:01".to_string(), "b: 00:01:00".to_string()];
    assert_eq!(
        tasks_completed_report(&lines),
        "\n\nTasks completed:\na: 00:00:01\nb: 00:01:00"
    );
    assert_eq!(tasks_completed_report(&Vec::new()), "\n\nTasks completed:");
}
