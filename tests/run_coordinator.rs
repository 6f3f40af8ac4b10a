use eintopf_sweep::run::{
    artifact_name, benchmark_argv, collect_artifact, fan_in_order, node_report, RunParams,
    RunResult,
};

fn result(partition: usize, stdout: &str, stderr: &str, exit_status: i32) -> RunResult {
    RunResult {
        partition,
        stdout: stdout.to_string(),
        stderr: stderr.to_string(),
        exit_status,
    }
}

#[test]
fn reverse_arrival_gives_forward_output() {
    let results = vec![
        result(2, "c\n", "", 0),
        result(1, "b\n", "", 0),
        result(0, "a\n", "", 0),
    ];
    assert_eq!(collect_artifact(&results), Some("a\nb\nc\n".to_string()));
    assert_eq!(fan_in_order(&results), Some(vec![2, 1, 0]));
}

#[test]
fn failed_node_does_not_hide_the_others() {
    let results = vec![
        result(0, "a\n", "", 0),
        result(1, "partial\n", "crash", 3),
        result(2, "c\n", "", 0),
    ];
    assert_eq!(collect_artifact(&results), Some("a\nc\n".to_string()));
}

#[test]
fn warning_output_is_still_collected() {
    let results = vec![result(0, "a\n", "slow start", 0)];
    assert_eq!(collect_artifact(&results), Some("a\n".to_string()));
}

#[test]
fn incomplete_fan_in_is_refused() {
    let dup = vec![result(0, "a", "", 0), result(0, "b", "", 0)];
    assert_eq!(collect_artifact(&dup), None);
    let gap = vec![result(0, "a", "", 0), result(2, "b", "", 0)];
    assert_eq!(collect_artifact(&gap), None);
    assert_eq!(fan_in_order(&gap), None);
}

#[test]
fn empty_run_gives_empty_artifact() {
    assert_eq!(collect_artifact(&Vec::new()), Some(String::new()));
}

#[test]
fn benchmark_command_carries_partition_and_parameters() {
    let params = RunParams { articles: 100000, runtime: 60, skewed: true };
    let argv = benchmark_argv(&params, 3);
    assert_eq!(
        argv,
        vec![
            "env",
            "RUST_BACKTRACE=1",
            "eintopf/target/release/eintopf",
            "--workers",
            "12",
            "-a",
            "100000",
            "-r",
            "60",
            "-d",
            "zipf:1.08",
            "-h",
            "hosts",
            "-p",
            "3",
        ]
    );
    let uniform = RunParams { articles: 5, runtime: 1, skewed: false };
    let argv = benchmark_argv(&uniform, 0);
    assert_eq!(argv[10], "uniform");
    assert_eq!(argv[14], "0");
}

#[test]
fn artifact_names_are_deterministic() {
    assert_eq!(artifact_name(true, 4), "eintopf-12s.skewed.4h.log");
    assert_eq!(artifact_name(false, 12), "eintopf-12s.uniform.12h.log");
}

#[test]
fn reports_on_failure_and_warning() {
    assert_eq!(
        node_report("h1", 2, "boom"),
        Some("h1 failed to run benchmark client:\nboom".to_string())
    );
    assert_eq!(
        node_report("h2", 0, "line1\nline2\n  "),
        Some("h2 reported:\n > line1\n > line2".to_string())
    );
    assert_eq!(node_report("h3", 0, ""), None);
}
