use stricter::worker::{exit_code, worker_command, WorkerCommand};

fn args(a: &[&str]) -> Vec<String> {
    a.iter().map(|s| s.to_string()).collect()
}

#[test]
fn accept_same_version() {
    let cmd = worker_command(&args(&["worker", "--accept", "abc"]), "abc");
    assert_eq!(cmd, WorkerCommand::Accept { accepted: true });
    assert_eq!(exit_code(cmd), 0);
}

#[test]
fn accept_other_version() {
    let cmd = worker_command(&args(&["worker", "--accept", "abd"]), "abc");
    assert_eq!(cmd, WorkerCommand::Accept { accepted: false });
    assert_eq!(exit_code(cmd), 4);
}

#[test]
fn start_command() {
    let cmd = worker_command(&args(&["worker", "--start", "ignored"]), "abc");
    assert_eq!(cmd, WorkerCommand::Start);
    assert_eq!(exit_code(cmd), 0);
}

#[test]
fn usage_otherwise() {
    assert_eq!(worker_command(&args(&["worker"]), "abc"), WorkerCommand::Usage);
    assert_eq!(worker_command(&args(&["worker", "--help"]), "abc"), WorkerCommand::Usage);
    assert_eq!(exit_code(WorkerCommand::Usage), 2);
}
