use bench_list::bench::{fill_ascending, per_run_overhead, result_line, run_function, switch_latency};

#[test]
fn result_line_is_csv_with_newline() {
    assert_eq!(
        result_line("LinkedList creation", "Rust", 100000, 123456789),
        "LinkedList creation,Rust,100000,123456789\n"
    );
    assert_eq!(result_line("ThreadMigration", "Rust", 0, 0), "ThreadMigration,Rust,0,0\n");
}

#[test]
fn overhead_is_difference_per_run() {
    assert_eq!(per_run_overhead(1000, 100, 3), 300);
    assert_eq!(per_run_overhead(50, 50, 7), 0);
    assert_eq!(per_run_overhead(u128::MAX, 0, 1), u128::MAX);
}

#[test]
fn switch_latency_halves_round_trips() {
    assert_eq!(switch_latency(1001), 500);
    assert_eq!(switch_latency(0), 0);
}

#[test]
fn fill_ascending_counts_from_one() {
    let mut a = [0i32; 100000];
    fill_ascending(&mut a);
    assert_eq!(a[0], 1);
    assert_eq!(a[99999], 100000);
    let mut e: [i32; 0] = [];
    fill_ascending(&mut e);
}

#[test]
fn run_function_returns() {
    run_function();
}
