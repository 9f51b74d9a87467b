use nautilus::error::{descr_err, path_err, SpawnError, SubprocessError};
use nautilus::forkserver::{asan_env_line, build_argv, shm_env_line, zero_bitmap, FORKSERVER_FD};

#[test]
fn argv_substitutes_the_input_file() {
    let argv = build_argv(
        &String::from("/bin/target"),
        &vec![String::from("-f"), String::from("@@"), String::from("x")],
        &String::from("/tmp/input.txt"),
    );
    assert_eq!(argv, vec!["/bin/target", "-f", "/tmp/input.txt", "x"]);
}

#[test]
fn argv_without_placeholder_is_kept() {
    let argv = build_argv(
        &String::from("/bin/true"),
        &vec![],
        &String::from("/tmp/input.txt"),
    );
    assert_eq!(argv, vec!["/bin/true"]);
}

#[test]
fn child_environment_lines() {
    assert_eq!(shm_env_line(1234), "__AFL_SHM_ID=1234");
    assert_eq!(shm_env_line(0), "__AFL_SHM_ID=0");
    assert_eq!(
        asan_env_line(),
        "ASAN_OPTIONS=exitcode=223,abort_on_error=true,detect_leaks=0,symbolize=0"
    );
    assert_eq!(FORKSERVER_FD, 198);
}

#[test]
fn error_constructors() {
    let r: Result<(), SpawnError> = path_err("no such binary");
    match r {
        Err(SpawnError::Path(d)) => assert_eq!(d, "no such binary"),
        _ => panic!("expected a path error"),
    }
    let r2: Result<u32, SubprocessError> = descr_err("pipe closed");
    match r2 {
        Err(SubprocessError::Unspecific(d)) => assert_eq!(d, "pipe closed"),
        _ => panic!("expected an unspecific error"),
    }
}

#[test]
fn bitmap_is_zeroed_before_a_run() {
    let mut bitmap = vec![3u8, 0, 255, 1];
    zero_bitmap(&mut bitmap);
    assert_eq!(bitmap, vec![0, 0, 0, 0]);
}
