//! The decisions of the Docker transport: how the container is started, the
//! probe that checks its shell, and the verdict on the probe's reply.

use vstd::prelude::*;
use crate::model::err::{decode_lossy, lossy_utf8};
use crate::model::string_views;
use crate::text::string_of;

verus! {

/// The arguments of `docker` that start the container with an interactive
/// shell on the host's network.
pub open spec fn docker_run_args_spec(base_image: Seq<char>) -> Seq<Seq<char>> {
    seq!["run"@, "--rm"@, "--net"@, "host"@, "--interactive"@, base_image, "/bin/sh"@]
}

/// `docker` is asked to run the image given, unchanged, with an interactive
/// shell on the host's network, and removes the container afterwards.
pub proof fn lemma_docker_run_args(base_image: Seq<char>)
    ensures
        docker_run_args_spec(base_image).len() == 7,
        docker_run_args_spec(base_image)[0] == "run"@,
        docker_run_args_spec(base_image)[1] == "--rm"@,
        docker_run_args_spec(base_image)[2] == "--net"@,
        docker_run_args_spec(base_image)[3] == "host"@,
        docker_run_args_spec(base_image)[4] == "--interactive"@,
        docker_run_args_spec(base_image)[5] == base_image,
        docker_run_args_spec(base_image)[6] == "/bin/sh"@,
{
}

/// The arguments of `docker` for a container of `base_image`.
pub fn docker_run_args(base_image: &str) -> (args: Vec<String>)
    ensures
        string_views(args@) == docker_run_args_spec(base_image@),
{
    let mut args: Vec<String> = Vec::new();
    args.push(string_of("run"));
    args.push(string_of("--rm"));
    args.push(string_of("--net"));
    args.push(string_of("host"));
    args.push(string_of("--interactive"));
    args.push(string_of(base_image));
    args.push(string_of("/bin/sh"));
    assert(string_views(args@) =~= docker_run_args_spec(base_image@));
    args
}

/// The shell line sent first: `printf 'pad:%05d tab:\t space:%4s\n' '1234' 'ab'`
/// and a newline, which checks that the shell formats as expected.
pub open spec fn probe_command_spec() -> Seq<u8> {
    seq![
        112u8, 114, 105, 110, 116, 102, 32, 39, 112, 97, 100, 58, 37, 48, 53, 100, 32, 116, 97,
        98, 58, 92, 116, 32, 115, 112, 97, 99, 101, 58, 37, 52, 115, 92, 110, 39, 32, 39, 49, 50,
        51, 52, 39, 32, 39, 97, 98, 39, 10,
    ]
}

/// What a working shell answers to the probe: `pad:01234 tab:<TAB> space:  ab`
/// and a newline.
pub open spec fn expected_probe_reply() -> Seq<u8> {
    seq![
        112u8, 97, 100, 58, 48, 49, 50, 51, 52, 32, 116, 97, 98, 58, 9, 32, 115, 112, 97, 99, 101,
        58, 32, 32, 97, 98, 10,
    ]
}

/// The probe is the ASCII text of a `printf` call, and the reply expected of
/// it is the ASCII text of what `printf` makes of it: `%05d` pads `1234` with
/// a zero, `\t` is a tab, `%4s` pads `ab` with two spaces, `\n` ends the line.
pub proof fn lemma_probe_text()
    ensures
        probe_command_spec().len() == "printf 'pad:%05d tab:\\t space:%4s\\n' '1234' 'ab'\n"@.len(),
        forall|i: int|
            0 <= i < probe_command_spec().len() ==> #[trigger] probe_command_spec()[i] as int
                == "printf 'pad:%05d tab:\\t space:%4s\\n' '1234' 'ab'\n"@[i] as int,
        expected_probe_reply().len() == "pad:01234 tab:\t space:  ab\n"@.len(),
        expected_probe_reply().len() == PROBE_REPLY_LEN,
        forall|i: int|
            0 <= i < expected_probe_reply().len() ==> #[trigger] expected_probe_reply()[i] as int
                == "pad:01234 tab:\t space:  ab\n"@[i] as int,
{
    reveal_strlit("printf 'pad:%05d tab:\\t space:%4s\\n' '1234' 'ab'\n");
    reveal_strlit("pad:01234 tab:\t space:  ab\n");
}

/// The length of the expected reply, which is how much is read back.
pub const PROBE_REPLY_LEN: usize = 27;

/// The probe line, as bytes to send.
pub fn probe_command() -> (bytes: Vec<u8>)
    ensures
        bytes@ == probe_command_spec(),
{
    let bytes: Vec<u8> = vec![
        112u8, 114, 105, 110, 116, 102, 32, 39, 112, 97, 100, 58, 37, 48, 53, 100, 32, 116, 97,
        98, 58, 92, 116, 32, 115, 112, 97, 99, 101, 58, 37, 52, 115, 92, 110, 39, 32, 39, 49, 50,
        51, 52, 39, 32, 39, 97, 98, 39, 10,
    ];
    assert(bytes@ =~= probe_command_spec());
    bytes
}

/// The shell answered something other than the expected reply; `text` is
/// the reply decoded as `String::from_utf8_lossy` does.
#[derive(Debug, Clone, PartialEq, Eq)]
pub enum ProbeError {
    UnexpectedOutput { text: String },
}

/// The verdict on the reply read back after the probe.
pub fn check_probe_reply(reply: &[u8]) -> (res: Result<(), ProbeError>)
    ensures
        res is Ok <==> reply@ == expected_probe_reply(),
        res matches Err(ProbeError::UnexpectedOutput { text }) ==> text@ == lossy_utf8(reply@),
{
    let expected: Vec<u8> = vec![
        112u8, 97, 100, 58, 48, 49, 50, 51, 52, 32, 116, 97, 98, 58, 9, 32, 115, 112, 97, 99, 101,
        58, 32, 32, 97, 98, 10,
    ];
    assert(expected@ =~= expected_probe_reply());
    let mut same = reply.len() == expected.len();
    if same {
        let mut i: usize = 0;
        while i < reply.len()
            invariant
                reply@.len() == expected@.len(),
                i <= reply@.len(),
                same == (forall|j: int| 0 <= j < i ==> reply@[j] == expected@[j]),
            decreases reply@.len() - i,
        {
            if reply[i] != expected[i] {
                same = false;
            }
            i = i + 1;
        }
        if same {
            assert(reply@ =~= expected@);
        }
    }
    if same {
        Ok(())
    } else {
        Err(ProbeError::UnexpectedOutput { text: decode_lossy(reply) })
    }
}

} // verus!
