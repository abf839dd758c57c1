//! The bootstrap protocol that installs and starts the worker on a host.
//!
//! The host is sent one shell line. It prints `H` (the banner), then either
//! starts a worker that is already installed and accepts this version, which
//! answers `U`, or prints `N`, reads the worker binary from its input,
//! installs it and starts it, which then answers `U`. Every answer is one
//! byte and a newline. The decisions on the answers are `init_step`; the
//! transport that sends and reads runs outside this crate.

use vstd::prelude::*;
use crate::text::{decimal, push_decimal};

verus! {

/// The shell line that starts an installed worker of `version`.
pub open spec fn happy_path(version: Seq<char>) -> Seq<char> {
    "([ -x \"$D/worker\" ] && \"$D/worker\" --accept "@ + version
        + " && exec \"$D/worker\" --start)"@
}

/// The shell line that asks for the worker binary (`N`) and installs the
/// `size` bytes that follow.
pub open spec fn upload_step(size: nat) -> Seq<char> {
    "(echo N && mkdir -p \"$D\" && dd ibs=1 of=\"$D/worker\" count="@ + decimal(size)
        + " && chmod a+x \"$D/worker\")"@
}

/// The whole bootstrap line for a worker of `version` whose binary has
/// `size` bytes, with the cache directory `~/.cache/stricter`.
pub open spec fn init_script_spec(version: Seq<char>, size: nat) -> Seq<char> {
    "D=~/.cache/stricter; set -x && echo H && ("@ + happy_path(version) + " || "@ + upload_step(
        size,
    ) + " && "@ + happy_path(version) + ")\n"@
}

fn push_happy_path(s: &mut String, version: &str)
    ensures
        final(s)@ == old(s)@ + happy_path(version@),
{
    let ghost start = s@;
    s.append("([ -x \"$D/worker\" ] && \"$D/worker\" --accept ");
    s.append(version);
    s.append(" && exec \"$D/worker\" --start)");
    assert(s@ =~= start + happy_path(version@));
}

/// The bootstrap line for a worker of `version` whose binary is
/// `binary_len` bytes long.
pub fn init_script(version: &str, binary_len: usize) -> (script: String)
    ensures
        script@ == init_script_spec(version@, binary_len as nat),
{
    let mut s = String::new();
    s.append("D=~/.cache/stricter; set -x && echo H && (");
    push_happy_path(&mut s, version);
    s.append(" || ");
    let ghost before_upload = s@;
    s.append("(echo N && mkdir -p \"$D\" && dd ibs=1 of=\"$D/worker\" count=");
    push_decimal(&mut s, binary_len);
    s.append(" && chmod a+x \"$D/worker\")");
    assert(s@ =~= before_upload + upload_step(binary_len as nat));
    s.append(" && ");
    push_happy_path(&mut s, version);
    s.append(")\n");
    assert(s@ =~= init_script_spec(version@, binary_len as nat));
    s
}

/// `part` stands in `s` from index `i` on.
pub open spec fn occurs_at(s: Seq<char>, part: Seq<char>, i: int) -> bool {
    0 <= i && i + part.len() <= s.len() && s.subrange(i, i + part.len()) == part
}

/// The command that checks the installed worker against `version` and
/// starts it.
pub open spec fn accept_command(version: Seq<char>) -> Seq<char> {
    "\"$D/worker\" --accept "@ + version + " && exec \"$D/worker\" --start"@
}

/// The bootstrap line starts with the banner, asks the installed worker to
/// accept the whole version given, unchanged, and start, both right after
/// the banner and again at the end after the upload, and uploads exactly
/// `size` bytes.
pub proof fn lemma_init_script(version: Seq<char>, size: nat)
    ensures
        ({
            let s = init_script_spec(version, size);
            let head = "D=~/.cache/stricter; set -x && echo H && (([ -x \"$D/worker\" ] && "@;
            let a = accept_command(version);
            let count = "count="@ + decimal(size) + " && chmod a+x"@;
            let upload_head = ") || (echo N && mkdir -p \"$D\" && dd ibs=1 of=\"$D/worker\" "@;
            &&& s.subrange(0, head.len() as int) == head
            &&& occurs_at(s, a, head.len() as int)
            &&& occurs_at(s, a, s.len() - 3 - a.len())
            &&& head.len() + a.len() < s.len() - 3 - a.len()
            &&& occurs_at(s, count, (head.len() + a.len() + upload_head.len()) as int)
            &&& s.subrange(s.len() - 3, s.len() as int) == "))\n"@
        }),
{
    reveal_strlit("D=~/.cache/stricter; set -x && echo H && (");
    reveal_strlit("([ -x \"$D/worker\" ] && \"$D/worker\" --accept ");
    reveal_strlit(" && exec \"$D/worker\" --start)");
    reveal_strlit(" || ");
    reveal_strlit("(echo N && mkdir -p \"$D\" && dd ibs=1 of=\"$D/worker\" count=");
    reveal_strlit(" && chmod a+x \"$D/worker\")");
    reveal_strlit(" && ");
    reveal_strlit(")\n");
    reveal_strlit("D=~/.cache/stricter; set -x && echo H && (([ -x \"$D/worker\" ] && ");
    reveal_strlit("\"$D/worker\" --accept ");
    reveal_strlit(" && exec \"$D/worker\" --start");
    reveal_strlit("count=");
    reveal_strlit(" && chmod a+x");
    reveal_strlit(") || (echo N && mkdir -p \"$D\" && dd ibs=1 of=\"$D/worker\" ");
    reveal_strlit("))\n");
    reveal_strlit(") || (echo N && mkdir -p \"$D\" && dd ibs=1 of=\"$D/worker\" count=");
    reveal_strlit(" && chmod a+x \"$D/worker\") && ([ -x \"$D/worker\" ] && ");
    reveal_strlit(" \"$D/worker\") && ([ -x \"$D/worker\" ] && ");
    let s = init_script_spec(version, size);
    let head = "D=~/.cache/stricter; set -x && echo H && (([ -x \"$D/worker\" ] && "@;
    let a = accept_command(version);
    let count = "count="@ + decimal(size) + " && chmod a+x"@;
    let upload_head = ") || (echo N && mkdir -p \"$D\" && dd ibs=1 of=\"$D/worker\" "@;
    let tail1 = ") || (echo N && mkdir -p \"$D\" && dd ibs=1 of=\"$D/worker\" count="@ + decimal(
        size,
    ) + " && chmod a+x \"$D/worker\") && ([ -x \"$D/worker\" ] && "@;
    assert(s =~= head + a + tail1 + a + "))\n"@);
    assert((head + a + tail1 + a + "))\n"@).subrange(0, head.len() as int) =~= head);
    assert((head + a + tail1 + a + "))\n"@).subrange(
        head.len() as int,
        (head.len() + a.len()) as int,
    ) =~= a);
    let j = (head.len() + a.len() + tail1.len()) as int;
    assert(s.len() - 3 - a.len() == j);
    assert((head + a + tail1 + a + "))\n"@).subrange(j, j + a.len()) =~= a);
    let k = (head.len() + a.len() + upload_head.len()) as int;
    assert(tail1 =~= upload_head + count + " \"$D/worker\") && ([ -x \"$D/worker\" ] && "@);
    assert((head + a + tail1 + a + "))\n"@).subrange(k, k + count.len()) =~= count);
    assert((head + a + tail1 + a + "))\n"@).subrange(s.len() - 3, s.len() as int) =~= "))\n"@);
}

/// The answer that the protocol waits for.
#[derive(Debug, Clone, Copy, PartialEq, Eq, Structural)]
pub enum InitPhase {
    /// The banner `H` that shows the line reached a shell.
    AwaitBanner,
    /// `U` (started) or `N` (upload needed).
    AwaitUploadDecision,
    /// `U` after the upload.
    AwaitStart,
}

/// What to do after an answer.
#[derive(Debug, Clone, Copy, PartialEq, Eq, Structural)]
pub enum InitStep {
    /// Read the next answer, which belongs to the given phase.
    Await(InitPhase),
    /// Send the worker binary, then read the next answer, of the given phase.
    UploadThenAwait(InitPhase),
    /// The worker runs: the protocol is over.
    Started,
}

/// Why the protocol failed.
#[derive(Debug, Clone, Copy, PartialEq, Eq, Structural)]
pub enum InitError {
    /// The two bytes read in `phase`, `first` and `second`, do not end with
    /// a newline.
    Sync { phase: InitPhase, first: u8, second: u8 },
    /// The first answer was not `H`.
    InvalidStartupCode(u8),
    /// The second answer was neither `N` nor `U`.
    InvalidUploadCode(u8),
    /// The answer after the upload was not `U`.
    InvalidStartCode(u8),
}

/// The code in a two-byte answer: its first byte, if the second is a newline.
pub open spec fn decode_code_spec(reply: [u8; 2]) -> Option<u8> {
    if reply@[1] == 10u8 {
        Some(reply@[0])
    } else {
        None
    }
}

/// The code in a two-byte answer, or `None` when the answer is out of step.
pub fn decode_code(reply: &[u8; 2]) -> (code: Option<u8>)
    ensures
        code == decode_code_spec(*reply),
{
    if reply[1] == 10u8 {
        Some(reply[0])
    } else {
        None
    }
}

/// The decision on the answer `reply`, read in `phase`.
pub open spec fn init_step_spec(phase: InitPhase, reply: [u8; 2]) -> Result<InitStep, InitError> {
    match decode_code_spec(reply) {
        None => Err(InitError::Sync { phase, first: reply@[0], second: reply@[1] }),
        Some(c) => match phase {
            InitPhase::AwaitBanner => if c == 72u8 {
                Ok(InitStep::Await(InitPhase::AwaitUploadDecision))
            } else {
                Err(InitError::InvalidStartupCode(c))
            },
            InitPhase::AwaitUploadDecision => if c == 78u8 {
                Ok(InitStep::UploadThenAwait(InitPhase::AwaitStart))
            } else if c == 85u8 {
                Ok(InitStep::Started)
            } else {
                Err(InitError::InvalidUploadCode(c))
            },
            InitPhase::AwaitStart => if c == 85u8 {
                Ok(InitStep::Started)
            } else {
                Err(InitError::InvalidStartCode(c))
            },
        },
    }
}

/// Decides what follows the answer `reply`, read in `phase`.
pub fn init_step(phase: InitPhase, reply: &[u8; 2]) -> (res: Result<InitStep, InitError>)
    ensures
        res == init_step_spec(phase, *reply),
{
    let code = match decode_code(reply) {
        Some(c) => c,
        None => {
            return Err(InitError::Sync { phase, first: reply[0], second: reply[1] });
        },
    };
    match phase {
        InitPhase::AwaitBanner => {
            if code == 72u8 {
                Ok(InitStep::Await(InitPhase::AwaitUploadDecision))
            } else {
                Err(InitError::InvalidStartupCode(code))
            }
        },
        InitPhase::AwaitUploadDecision => {
            if code == 78u8 {
                Ok(InitStep::UploadThenAwait(InitPhase::AwaitStart))
            } else if code == 85u8 {
                Ok(InitStep::Started)
            } else {
                Err(InitError::InvalidUploadCode(code))
            }
        },
        InitPhase::AwaitStart => {
            if code == 85u8 {
                Ok(InitStep::Started)
            } else {
                Err(InitError::InvalidStartCode(code))
            }
        },
    }
}

/// Where a run of the protocol from `phase` over the answers `replies` ends:
/// `None` while it still waits for an answer; `Some(Ok(uploaded))` once the
/// worker started, `uploaded` telling whether the binary was sent (or had
/// been, when `uploaded` is given as true); `Some(Err(e))` when it failed.
pub open spec fn protocol_outcome(
    phase: InitPhase,
    replies: Seq<[u8; 2]>,
    uploaded: bool,
) -> Option<Result<bool, InitError>>
    decreases replies.len(),
{
    if replies.len() == 0 {
        None
    } else {
        match init_step_spec(phase, replies[0]) {
            Err(e) => Some(Err(e)),
            Ok(InitStep::Started) => Some(Ok(uploaded)),
            Ok(InitStep::Await(next)) => protocol_outcome(next, replies.drop_first(), uploaded),
            Ok(InitStep::UploadThenAwait(next)) => protocol_outcome(
                next,
                replies.drop_first(),
                true,
            ),
        }
    }
}

/// The answer `c` followed by a newline.
pub open spec fn answer(reply: [u8; 2], c: u8) -> bool {
    reply@[0] == c && reply@[1] == 10u8
}

/// The protocol is decided by its first three answers at most: a run over
/// three or more answers has ended, and ends as the run over the first three.
/// The worker starts without an upload exactly when the answers begin with
/// `H` and `U`, and with an upload exactly when they begin with `H`, `N`
/// and `U`.
pub proof fn lemma_protocol_outcome(replies: Seq<[u8; 2]>)
    requires
        replies.len() >= 3,
    ensures
        protocol_outcome(InitPhase::AwaitBanner, replies, false) is Some,
        protocol_outcome(InitPhase::AwaitBanner, replies, false) == protocol_outcome(
            InitPhase::AwaitBanner,
            replies.take(3),
            false,
        ),
        protocol_outcome(InitPhase::AwaitBanner, replies, false) == Some(
            Ok::<bool, InitError>(false),
        ) <==> answer(replies[0], 72u8) && answer(replies[1], 85u8),
        protocol_outcome(InitPhase::AwaitBanner, replies, false) == Some(
            Ok::<bool, InitError>(true),
        ) <==> answer(replies[0], 72u8) && answer(replies[1], 78u8) && answer(replies[2], 85u8),
{
    let r1 = replies.drop_first();
    let r2 = r1.drop_first();
    let r3 = r2.drop_first();
    let t = replies.take(3);
    let t1 = t.drop_first();
    let t2 = t1.drop_first();
    let t3 = t2.drop_first();
    assert(t[0] == replies[0]);
    assert(t1[0] == replies[1]);
    assert(t2[0] == replies[2]);
    assert(r1[0] == replies[1]);
    assert(r2[0] == replies[2]);
    assert(t3.len() == 0);
    reveal_with_fuel(protocol_outcome, 4);
}

/// What a read failure in `phase` is reported as.
pub fn phase_context(phase: InitPhase) -> (s: &'static str)
    ensures
        phase == InitPhase::AwaitBanner ==> s@ == "initial startup response code (banner?)"@,
        phase == InitPhase::AwaitUploadDecision ==> s@ == "upload request response code"@,
        phase == InitPhase::AwaitStart ==> s@ == "start request response code"@,
{
    match phase {
        InitPhase::AwaitBanner => "initial startup response code (banner?)",
        InitPhase::AwaitUploadDecision => "upload request response code",
        InitPhase::AwaitStart => "start request response code",
    }
}

} // verus!
