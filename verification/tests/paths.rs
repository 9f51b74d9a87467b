use nautilus::exitreason::ExitReason;
use nautilus::paths::{asan_file_path, queue_file_path, queue_min_file_path, signaled_file_path,
    timeout_file_path};

#[test]
fn queue_entry_path() {
    let p = queue_file_path(
        &String::from("wd"),
        1,
        &ExitReason::Normal(0),
        &String::from(".txt"),
    );
    assert_eq!(p, "wd/outputs/queue/id:000000001,er:Normal(0).txt");
}

#[test]
fn queue_entry_path_labels() {
    let wd = String::from("/w");
    let ext = String::from("");
    assert_eq!(
        queue_file_path(&wd, 7, &ExitReason::Timeouted, &ext),
        "/w/outputs/queue/id:000000007,er:Timeouted"
    );
    assert_eq!(
        queue_file_path(&wd, 7, &ExitReason::Signaled(11), &ext),
        "/w/outputs/queue/id:000000007,er:Signaled(11)"
    );
    assert_eq!(
        queue_file_path(&wd, 7, &ExitReason::Stopped(19), &ext),
        "/w/outputs/queue/id:000000007,er:Stopped(19)"
    );
}

#[test]
fn queue_min_path() {
    let p = queue_min_file_path(
        &String::from("wd"),
        12,
        &ExitReason::Normal(223),
        &String::from(".bin"),
    );
    assert_eq!(p, "wd/outputs/queue/id:000000012,er:Normal(223).min.bin");
}

#[test]
fn signaled_path() {
    // The second end-to-end scenario's crash file: signal 6, first execution.
    let p = signaled_file_path(&String::from("wd"), 6, 0, &String::from(".txt"));
    assert_eq!(p, "wd/outputs/signaled/6_000000000.txt");
}

#[test]
fn asan_path() {
    let p = asan_file_path(&String::from("wd"), 0, &String::from(".txt"), &String::from("fuzzer_1"));
    assert_eq!(p, "wd/outputs/signaled/ASAN_000000000_.txtfuzzer_1");
}

#[test]
fn timeout_path() {
    let p = timeout_file_path(&String::from("wd"), 0, &String::from(".txt"));
    assert_eq!(p, "wd/outputs/timeout/000000000.txt");
}

#[test]
fn long_ids_keep_all_digits() {
    let p = queue_file_path(
        &String::from(""),
        1234567890,
        &ExitReason::Normal(0),
        &String::from(""),
    );
    assert_eq!(p, "/outputs/queue/id:1234567890,er:Normal(0)");
}

#[test]
fn negative_code_label() {
    let p = queue_file_path(
        &String::from(""),
        0,
        &ExitReason::Normal(-7),
        &String::from(""),
    );
    assert_eq!(p, "/outputs/queue/id:000000000,er:Normal(-7)");
}
