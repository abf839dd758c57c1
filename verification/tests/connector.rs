use stricter::connector::docker_transport::{
    check_probe_reply, docker_run_args, probe_command, ProbeError, PROBE_REPLY_LEN,
};
use stricter::connector::init::{
    decode_code, init_script, init_step, phase_context, InitError, InitPhase, InitStep,
};
use stricter::connector::Connector;

#[test]
fn init_script_text() {
    let script = init_script("abc123", 4096);
    assert_eq!(
        script,
        "D=~/.cache/stricter; set -x && echo H && (\
([ -x \"$D/worker\" ] && \"$D/worker\" --accept abc123 && exec \"$D/worker\" --start) || \
(echo N && mkdir -p \"$D\" && dd ibs=1 of=\"$D/worker\" count=4096 && chmod a+x \"$D/worker\") && \
([ -x \"$D/worker\" ] && \"$D/worker\" --accept abc123 && exec \"$D/worker\" --start))\n"
    );
}

#[test]
fn init_script_size_zero() {
    assert!(init_script("v", 0).contains("count=0 "));
}

#[test]
fn decode_code_needs_newline() {
    assert_eq!(decode_code(b"H\n"), Some(b'H'));
    assert_eq!(decode_code(b"HH"), None);
}

#[test]
fn init_runs_without_upload() {
    assert_eq!(
        init_step(InitPhase::AwaitBanner, b"H\n"),
        Ok(InitStep::Await(InitPhase::AwaitUploadDecision))
    );
    assert_eq!(init_step(InitPhase::AwaitUploadDecision, b"U\n"), Ok(InitStep::Started));
}

#[test]
fn init_runs_with_upload() {
    assert_eq!(
        init_step(InitPhase::AwaitUploadDecision, b"N\n"),
        Ok(InitStep::UploadThenAwait(InitPhase::AwaitStart))
    );
    assert_eq!(init_step(InitPhase::AwaitStart, b"U\n"), Ok(InitStep::Started));
}

#[test]
fn init_errors() {
    assert_eq!(init_step(InitPhase::AwaitBanner, b"X\n"), Err(InitError::InvalidStartupCode(b'X')));
    assert_eq!(
        init_step(InitPhase::AwaitUploadDecision, b"H\n"),
        Err(InitError::InvalidUploadCode(b'H'))
    );
    assert_eq!(init_step(InitPhase::AwaitStart, b"N\n"), Err(InitError::InvalidStartCode(b'N')));
    assert_eq!(
        init_step(InitPhase::AwaitStart, b"U?"),
        Err(InitError::Sync { phase: InitPhase::AwaitStart, first: b'U', second: b'?' })
    );
}

#[test]
fn phase_contexts() {
    assert_eq!(phase_context(InitPhase::AwaitBanner), "initial startup response code (banner?)");
    assert_eq!(phase_context(InitPhase::AwaitUploadDecision), "upload request response code");
    assert_eq!(phase_context(InitPhase::AwaitStart), "start request response code");
}

#[test]
fn docker_arguments() {
    assert_eq!(
        docker_run_args("ubuntu:18.04"),
        vec!["run", "--rm", "--net", "host", "--interactive", "ubuntu:18.04", "/bin/sh"]
    );
}

#[test]
fn probe_bytes() {
    assert_eq!(
        probe_command(),
        b"printf 'pad:%05d tab:\\t space:%4s\\n' '1234' 'ab'\n".to_vec()
    );
    assert_eq!(PROBE_REPLY_LEN, b"pad:01234 tab:\t space:  ab\n".len());
}

#[test]
fn probe_reply_verdict() {
    assert_eq!(check_probe_reply(b"pad:01234 tab:\t space:  ab\n"), Ok(()));
    assert_eq!(
        check_probe_reply(b"pad:1234 tab:\\t space:  ab\n"),
        Err(ProbeError::UnexpectedOutput { text: "pad:1234 tab:\\t space:  ab\n".to_string() })
    );
    assert_eq!(
        check_probe_reply(b"\xffad:01234 tab:\t space:  ab\n"),
        Err(ProbeError::UnexpectedOutput { text: "\u{FFFD}ad:01234 tab:\t space:  ab\n".to_string() })
    );
}

#[test]
fn connector_value() {
    let c = Connector::DockerTest { base_image: "ubuntu:18.04".to_string() };
    assert_eq!(c.clone(), c);
}
