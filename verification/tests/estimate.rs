use cli_tools::estimate::{
    format_duration, is_measured, parse_args, progress_line, results_text, total_runs, Config,
    DurationText, Elapsed, ExecutionStats, Invocation,
};
use std::time::Duration;

fn strings(list: &[&str]) -> Vec<String> {
    list.iter().map(|s| s.to_string()).collect()
}

fn of(d: Duration) -> Elapsed {
    Elapsed::new(d.as_secs(), d.subsec_nanos())
}

#[test]
fn estimate_elapsed_times() {
    assert_eq!(Elapsed::zero(), Elapsed { secs: 0, nanos: 0 });
    assert_eq!(Elapsed::new(3, 5), Elapsed { secs: 3, nanos: 5 });
    assert!(Elapsed::new(1, 999_999_999).shorter_than(&Elapsed::new(2, 0)));
    assert!(Elapsed::new(2, 1).shorter_than(&Elapsed::new(2, 2)));
    assert!(!Elapsed::new(2, 2).shorter_than(&Elapsed::new(2, 2)));
    assert!(!Elapsed::new(3, 0).shorter_than(&Elapsed::new(2, 999_999_999)));
}

#[test]
fn estimate_adding_elapsed_times_as_durations_add() {
    let pairs = [
        (Duration::new(1, 500_000_000), Duration::new(2, 600_000_000)),
        (Duration::new(0, 999_999_999), Duration::new(0, 1)),
        (Duration::new(0, 0), Duration::new(0, 0)),
        (Duration::new(u64::MAX, 0), Duration::new(0, 999_999_999)),
        (Duration::new(u64::MAX, 999_999_999), Duration::new(0, 1)),
        (Duration::new(u64::MAX, 1), Duration::new(1, 0)),
        (Duration::new(u64::MAX - 1, 999_999_999), Duration::new(0, 1)),
    ];
    for (a, b) in pairs {
        assert_eq!(of(a).checked_add(&of(b)), a.checked_add(b).map(of));
    }
}

#[test]
fn estimate_dividing_elapsed_times_as_durations_divide() {
    let cases = [
        (Duration::new(10, 0), 3u32),
        (Duration::new(1, 1), 2),
        (Duration::new(0, 999_999_999), 1_000_000_000),
        (Duration::new(u64::MAX, 999_999_999), 1),
        (Duration::new(u64::MAX, 999_999_999), 7),
        (Duration::new(u64::MAX, 999_999_999), u32::MAX),
        (Duration::new(0, 0), 5),
        (Duration::new(7, 5), 7),
    ];
    for (d, n) in cases {
        assert_eq!(of(d).divided(n), of(d / n));
    }
}

#[test]
fn estimate_new_statistics_are_empty() {
    let stats = ExecutionStats::new();
    assert_eq!(stats.times.len(), 0);
    assert_eq!(stats.min, Elapsed::zero());
    assert_eq!(stats.max, Elapsed::zero());
    assert_eq!(stats.avg, Elapsed::zero());
    assert_eq!(stats.total_time, Elapsed::zero());
    assert_eq!(stats.success_count, 0);
    assert_eq!(stats.fail_count, 0);
}

#[test]
fn estimate_statistics_follow_the_runs() {
    let mut stats = ExecutionStats::new();
    stats.add_execution(Elapsed::new(2, 0), true);
    assert_eq!(stats.min, Elapsed::new(2, 0));
    assert_eq!(stats.max, Elapsed::new(2, 0));
    assert_eq!(stats.avg, Elapsed::new(2, 0));
    assert_eq!(stats.total_time, Elapsed::new(2, 0));
    assert_eq!((stats.success_count, stats.fail_count), (1, 0));

    stats.add_execution(Elapsed::new(1, 0), false);
    assert_eq!(stats.min, Elapsed::new(1, 0));
    assert_eq!(stats.max, Elapsed::new(2, 0));
    assert_eq!(stats.avg, Elapsed::new(1, 500_000_000));
    assert_eq!(stats.total_time, Elapsed::new(3, 0));
    assert_eq!((stats.success_count, stats.fail_count), (1, 1));

    stats.add_execution(Elapsed::new(4, 1), true);
    assert_eq!(stats.min, Elapsed::new(1, 0));
    assert_eq!(stats.max, Elapsed::new(4, 1));
    assert_eq!(stats.avg, Elapsed::new(2, 333_333_333));
    assert_eq!(stats.total_time, Elapsed::new(7, 1));
    assert_eq!((stats.success_count, stats.fail_count), (2, 1));
    assert_eq!(
        stats.times.iter().copied().collect::<Vec<_>>(),
        vec![Elapsed::new(2, 0), Elapsed::new(1, 0), Elapsed::new(4, 1)]
    );
}

#[test]
fn estimate_statistics_of_a_run_of_no_time() {
    let mut stats = ExecutionStats::new();
    stats.add_execution(Elapsed::new(5, 0), true);
    stats.add_execution(Elapsed::zero(), true);
    assert_eq!(stats.min, Elapsed::zero());
    assert_eq!(stats.max, Elapsed::new(5, 0));
    assert_eq!(stats.avg, Elapsed::new(2, 500_000_000));
}

#[test]
fn estimate_room_for_one_more_run() {
    let mut stats = ExecutionStats::new();
    assert!(stats.can_add(Elapsed::new(u64::MAX, 999_999_999)));
    stats.add_execution(Elapsed::new(u64::MAX, 0), true);
    assert!(stats.can_add(Elapsed::new(0, 999_999_999)));
    assert!(!stats.can_add(Elapsed::new(1, 0)));
}

#[test]
fn estimate_durations_below_a_second_are_written_in_milliseconds() {
    let plain = |secs, nanos| format_duration(Elapsed::new(secs, nanos));
    assert_eq!(plain(0, 0), DurationText::Plain("0ms".to_string()));
    assert_eq!(plain(0, 999_999), DurationText::Plain("0ms".to_string()));
    assert_eq!(plain(0, 1_000_000), DurationText::Plain("1ms".to_string()));
    assert_eq!(plain(0, 250_500_000), DurationText::Plain("250ms".to_string()));
    assert_eq!(plain(0, 999_999_999), DurationText::Plain("999ms".to_string()));
}

#[test]
fn estimate_durations_of_a_second_or_more_are_left_to_be_written() {
    assert_eq!(
        format_duration(Elapsed::new(1, 0)),
        DurationText::Seconds { secs: 1, nanos: 0 }
    );
    assert_eq!(
        format_duration(Elapsed::new(12, 345_678_901)),
        DurationText::Seconds { secs: 12, nanos: 345_678_901 }
    );
}

#[test]
fn estimate_warmup_runs_are_not_measured() {
    assert!(!is_measured(0, 1));
    assert!(is_measured(1, 1));
    assert!(is_measured(0, 0));
    assert!(!is_measured(4, 5));
    assert!(is_measured(5, 5));
    assert_eq!(total_runs(1, 3), Some(4));
    assert_eq!(total_runs(0, 1), Some(1));
    assert_eq!(total_runs(usize::MAX, 1), None);
    assert_eq!(total_runs(usize::MAX, 0), Some(usize::MAX));
}

#[test]
fn estimate_progress_lines() {
    assert_eq!(progress_line(1, 4), "\rProgress: [ 25%] 1/4 ");
    assert_eq!(progress_line(4, 4), "\rProgress: [100%] 4/4 ");
    assert_eq!(progress_line(1, 3), "\rProgress: [ 33%] 1/3 ");
    assert_eq!(progress_line(2, 3), "\rProgress: [ 66%] 2/3 ");
    assert_eq!(progress_line(1, 200), "\rProgress: [  0%] 1/200 ");
    assert_eq!(progress_line(0, 1), "\rProgress: [  0%] 0/1 ");
    assert_eq!(progress_line(30, 1), "\rProgress: [3000%] 30/1 ");
}

fn config(command: &str, args: &[&str]) -> Config {
    Config {
        iterations: 3,
        warmup: 1,
        quiet: false,
        simple: false,
        command: command.to_string(),
        args: strings(args),
    }
}

#[test]
fn estimate_args_with_a_command_only() {
    assert_eq!(
        parse_args(&strings(&["estimate", "ls"])),
        Ok(Invocation::Run(config("ls", &[])))
    );
    assert_eq!(
        parse_args(&strings(&["estimate", "ls", "-la", "-n", "5"])),
        Ok(Invocation::Run(config("ls", &["-la", "-n", "5"])))
    );
    assert_eq!(
        parse_args(&strings(&["estimate", "sleep 1"])),
        Ok(Invocation::Run(config("sleep 1", &[])))
    );
}

#[test]
fn estimate_args_with_options() {
    let mut wanted = config("find", &[".", "-type", "f"]);
    wanted.iterations = 5;
    wanted.warmup = 2;
    wanted.quiet = true;
    wanted.simple = true;
    assert_eq!(
        parse_args(&strings(&[
            "estimate", "-w", "2", "-n", "5", "-q", "-s", "find", ".", "-type", "f"
        ])),
        Ok(Invocation::Run(wanted.clone()))
    );
    assert_eq!(
        parse_args(&strings(&[
            "estimate", "--quiet", "--simple", "--iterations", "+5", "--warmup", "002", "find",
            ".", "-type", "f"
        ])),
        Ok(Invocation::Run(wanted))
    );
    let mut none = config("x", &[]);
    none.warmup = 0;
    assert_eq!(
        parse_args(&strings(&["estimate", "-w", "0", "x"])),
        Ok(Invocation::Run(none))
    );
}

#[test]
fn estimate_the_last_of_repeated_options_stands() {
    let mut wanted = config("x", &[]);
    wanted.iterations = 9;
    assert_eq!(
        parse_args(&strings(&["estimate", "-n", "4", "-n", "9", "x"])),
        Ok(Invocation::Run(wanted))
    );
}

#[test]
fn estimate_args_asking_for_help() {
    assert_eq!(parse_args(&strings(&["estimate", "-h"])), Ok(Invocation::Help));
    assert_eq!(parse_args(&strings(&["estimate", "-q", "--help", "-n"])), Ok(Invocation::Help));
    assert_eq!(
        parse_args(&strings(&["estimate", "ls", "--help"])),
        Ok(Invocation::Run(config("ls", &["--help"])))
    );
}

#[test]
fn estimate_args_errors() {
    let err = |list: &[&str]| parse_args(&strings(list)).unwrap_err();
    assert_eq!(err(&[]), "No command specified");
    assert_eq!(err(&["estimate"]), "No command specified");
    assert_eq!(err(&["estimate", "-q"]), "No command specified");
    assert_eq!(err(&["estimate", "-q", "-s", "-n", "2"]), "No command specified");
    assert_eq!(err(&["estimate", ""]), "No command specified");
    assert_eq!(err(&["estimate", "-n"]), "Missing value for iterations");
    assert_eq!(err(&["estimate", "-q", "--iterations"]), "Missing value for iterations");
    assert_eq!(err(&["estimate", "-n", "x", "ls"]), "Invalid iterations value");
    assert_eq!(err(&["estimate", "-n", "-1", "ls"]), "Invalid iterations value");
    assert_eq!(err(&["estimate", "-n", "-h"]), "Invalid iterations value");
    assert_eq!(
        err(&["estimate", "-n", "99999999999999999999999", "ls"]),
        "Invalid iterations value"
    );
    assert_eq!(err(&["estimate", "-n", "0", "ls"]), "Iterations must be at least 1");
    assert_eq!(err(&["estimate", "-w"]), "Missing value for warmup");
    assert_eq!(err(&["estimate", "-w", "two", "ls"]), "Invalid warmup value");
    assert_eq!(err(&["estimate", "--warmup", "", "ls"]), "Invalid warmup value");
}

fn measured() -> ExecutionStats {
    let mut stats = ExecutionStats::new();
    stats.add_execution(Elapsed::new(0, 5_000_000), true);
    stats.add_execution(Elapsed::new(0, 7_000_000), false);
    stats
}

#[test]
fn estimate_results_on_one_line() {
    let mut c = config("ls", &["-l"]);
    c.simple = true;
    assert_eq!(
        results_text(&measured(), &c, "5ms", "7ms", "6ms", "12ms"),
        "min=5ms max=7ms avg=6ms total=12ms success=1 fail=1\n"
    );
}

#[test]
fn estimate_results_in_full() {
    let c = config("ls", &["-l", "/tmp"]);
    assert_eq!(
        results_text(&measured(), &c, "5ms", "7ms", "6ms", "12ms"),
        "\n=== Execution Summary ===\nCommand: ls -l /tmp\nIterations: 2\nSuccessful: 1\n\
         Failed: 1\n\nTimings:\n  Minimum: 5ms\n  Maximum: 7ms\n  Average: 6ms\n  Total:   12ms\n"
    );
    let bare = config("ls", &[]);
    assert_eq!(
        results_text(&ExecutionStats::new(), &bare, "a", "b", "c", "d"),
        "\n=== Execution Summary ===\nCommand: ls \nIterations: 0\nSuccessful: 0\n\
         Failed: 0\n\nTimings:\n  Minimum: a\n  Maximum: b\n  Average: c\n  Total:   d\n"
    );
}

#[test]
fn estimate_the_average_lies_between_the_extremes() {
    let mut stats = ExecutionStats::new();
    let mut seed: u64 = 99;
    for _ in 0..200 {
        seed = seed.wrapping_mul(6364136223846793005).wrapping_add(1442695040888963407);
        let d = Elapsed::new((seed >> 40) % 5, ((seed >> 8) % 1_000_000_000) as u32);
        stats.add_execution(d, seed % 3 != 0);
        assert!(!stats.avg.shorter_than(&stats.min));
        assert!(!stats.max.shorter_than(&stats.avg));
        assert_eq!(stats.success_count + stats.fail_count, stats.times.len());
        let all: Vec<Duration> =
            stats.times.iter().map(|e| Duration::new(e.secs, e.nanos)).collect();
        assert_eq!(stats.min, of(*all.iter().min().unwrap()));
        assert_eq!(stats.max, of(*all.iter().max().unwrap()));
        let total: Duration = all.iter().sum();
        assert_eq!(stats.total_time, of(total));
        assert_eq!(stats.avg, of(total / all.len() as u32));
    }
}
