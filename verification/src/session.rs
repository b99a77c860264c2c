//! Decision logic of the interactive channel driver and the one-shot
//! executor: terminal geometry clamps, the bytes an `exec` writes, the
//! translation of channel messages into stream events, the reader loop's
//! termination rule, output accumulation for one-shot commands, and the
//! unconditional teardown plan.
//!
//! The I/O itself — connecting, writing, awaiting channel messages — happens
//! outside; it hands each observed message in as a [`ChannelEvent`] and
//! performs the steps these functions decide.

use vstd::prelude::*;
use vstd::string::StringSliceAdditionalSpecFns;
use vstd::string::StrSliceExecFns;
use vstd::utf8::decode_utf8;
use vstd::utf8::valid_utf8;

use crate::strutil::spec_decimal;
use crate::strutil::u32_to_decimal;

verus! {

/// The interactive inactivity timeout, in seconds.
pub fn interactive_inactivity_timeout_secs() -> (r: u64)
    ensures
        r == 30,
{
    30
}

/// The one-shot inactivity timeout, in seconds: longer than the interactive
/// one, because exec workloads may run longer.
pub fn one_shot_inactivity_timeout_secs() -> (r: u64)
    ensures
        r == 60,
        r > 30,
{
    60
}

/// The pseudo-terminal every channel requests.
pub struct PtyRequest {
    pub term: String,
    pub cols: u32,
    pub rows: u32,
    pub pixel_width: u32,
    pub pixel_height: u32,
}

/// The default pseudo-terminal: xterm-compatible, 220 by 64 cells, no pixel
/// dimensions.
pub fn default_pty_request() -> (r: PtyRequest)
    ensures
        r.term@ == "xterm-256color"@,
        r.cols == 220,
        r.rows == 64,
        r.pixel_width == 0,
        r.pixel_height == 0,
{
    PtyRequest { term: "xterm-256color".to_owned(), cols: 220, rows: 64, pixel_width: 0, pixel_height: 0 }
}

/// A value clamped into an inclusive range.
pub open spec fn spec_clamp_u32(v: u32, lo: u32, hi: u32) -> u32
    recommends
        lo <= hi,
{
    if v < lo {
        lo
    } else if v > hi {
        hi
    } else {
        v
    }
}

/// Clamps a requested terminal width to the 40..=400 columns the driver
/// accepts.
pub fn clamp_terminal_cols(cols: u32) -> (r: u32)
    ensures
        r == spec_clamp_u32(cols, 40, 400),
        40 <= r <= 400,
{
    if cols < 40 {
        40
    } else if cols > 400 {
        400
    } else {
        cols
    }
}

/// Clamps a requested terminal height to the 10..=180 rows the driver
/// accepts.
pub fn clamp_terminal_rows(rows: u32) -> (r: u32)
    ensures
        r == spec_clamp_u32(rows, 10, 180),
        10 <= r <= 180,
{
    if rows < 10 {
        10
    } else if rows > 180 {
        180
    } else {
        rows
    }
}

/// The bytes an interactive `exec` writes to the shell: the command and one
/// newline. Output is not captured synchronously; it arrives through the
/// background reader as stream events.
pub fn exec_command_payload(command: &str) -> (r: Vec<u8>)
    ensures
        r@ == command.spec_bytes().push(10u8),
{
    let mut payload = command.as_bytes_vec();
    payload.push(10);
    payload
}

/// One message observed on a remote-shell channel, as the driver's logic
/// sees it; anything it does not react to is `Other`.
pub enum ChannelEvent {
    Data(Vec<u8>),
    ExtendedData(Vec<u8>),
    ExitStatus(u32),
    Eof,
    Close,
    Other,
}

/// What channel a stream of events belongs to: a persistent interactive
/// shell, or a one-shot command.
pub enum ChannelPurpose {
    InteractiveShell,
    OneShotCommand,
}

/// One event published to the external sink.
pub struct StreamEvent {
    pub session_id: String,
    pub kind: String,
    pub text: String,
    pub at: String,
}

/// What `String::from_utf8_lossy` decodes; a function of the bytes alone.
pub uninterp spec fn lossy_text_of(bytes: Seq<u8>) -> Seq<char>;

/// Relies on String::from_utf8_lossy: the decoded text depends on the bytes
/// alone, and valid UTF-8 decodes to exactly its characters.
#[verifier::external_body]
fn utf8_lossy(bytes: &[u8]) -> (r: String)
    ensures
        r@ == lossy_text_of(bytes@),
        valid_utf8(bytes@) ==> r@ == decode_utf8(bytes@),
{
    String::from_utf8_lossy(bytes).into_owned()
}

/// The meta text for an exit-status notification.
pub open spec fn spec_exit_status_text(code: u32) -> Seq<char> {
    "Exit status: "@ + spec_decimal(code as nat)
}

fn exit_status_text(code: u32) -> (r: String)
    ensures
        r@ == spec_exit_status_text(code),
{
    let mut out = String::new();
    out.append("Exit status: ");
    let digits = u32_to_decimal(code);
    out.append(digits.as_str());
    out
}

/// Translates one channel message into the stream event to publish, or none:
/// data chunks become `stdout`, extended data `stderr`, and exit-status,
/// end-of-file and close notifications `meta` summaries; empty chunks and
/// unhandled messages publish nothing.
pub fn stream_event_for(
    session_id: &str,
    at: &str,
    purpose: &ChannelPurpose,
    event: &ChannelEvent,
) -> (r: Option<StreamEvent>)
    ensures
        r matches Some(e) ==> e.session_id@ == session_id@ && e.at@ == at@,
        event matches ChannelEvent::Data(d) ==> (if lossy_text_of(d@).len() == 0 {
            r is None
        } else {
            r matches Some(e) && e.kind@ == "stdout"@ && e.text@ == lossy_text_of(d@)
        }),
        event matches ChannelEvent::ExtendedData(d) ==> (if lossy_text_of(d@).len() == 0 {
            r is None
        } else {
            r matches Some(e) && e.kind@ == "stderr"@ && e.text@ == lossy_text_of(d@)
        }),
        event matches ChannelEvent::ExitStatus(code) ==> (r matches Some(e) && e.kind@ == "meta"@
            && e.text@ == spec_exit_status_text(*code)),
        event is Eof ==> (r matches Some(e) && e.kind@ == "meta"@ && e.text@ == (
        if purpose is InteractiveShell {
            "Remote shell sent EOF."@
        } else {
            "Remote command sent EOF."@
        })),
        event is Close ==> (r matches Some(e) && e.kind@ == "meta"@ && e.text@ == (
        if purpose is InteractiveShell {
            "Remote shell closed."@
        } else {
            "Remote command channel closed."@
        })),
        event is Other ==> r is None,
{
    let (kind, text): (&str, String) = match event {
        ChannelEvent::Data(d) => ("stdout", utf8_lossy(d.as_slice())),
        ChannelEvent::ExtendedData(d) => ("stderr", utf8_lossy(d.as_slice())),
        ChannelEvent::ExitStatus(code) => ("meta", exit_status_text(*code)),
        ChannelEvent::Eof => (
            "meta",
            match purpose {
                ChannelPurpose::InteractiveShell => "Remote shell sent EOF.".to_owned(),
                ChannelPurpose::OneShotCommand => "Remote command sent EOF.".to_owned(),
            },
        ),
        ChannelEvent::Close => (
            "meta",
            match purpose {
                ChannelPurpose::InteractiveShell => "Remote shell closed.".to_owned(),
                ChannelPurpose::OneShotCommand => "Remote command channel closed.".to_owned(),
            },
        ),
        ChannelEvent::Other => {
            return None;
        },
    };
    if text.as_str().is_empty() {
        proof {
            reveal_strlit("Exit status: ");
            reveal_strlit("Remote shell sent EOF.");
            reveal_strlit("Remote command sent EOF.");
            reveal_strlit("Remote shell closed.");
            reveal_strlit("Remote command channel closed.");
            match event {
                ChannelEvent::ExitStatus(code) => {
                    crate::strutil::lemma_spec_decimal_len(*code as nat);
                },
                _ => {},
            }
        }
        return None;
    }
    Some(
        StreamEvent {
            session_id: session_id.to_owned(),
            kind: kind.to_owned(),
            text,
            at: at.to_owned(),
        },
    )
}

/// What an interactive `exec` reports back: the echo of the request and
/// deliberately empty output fields.
pub struct InteractiveExecResult {
    pub session_id: String,
    pub command: String,
    pub stdout: String,
    pub stderr: String,
    pub exit_status: Option<u32>,
}

/// The result of writing one command into a live shell: output is never
/// captured synchronously — it arrives through the background reader as
/// stream events — so the output fields are empty by contract. Callers that
/// need correlated output must run a one-shot command instead.
pub fn interactive_exec_result(session_id: String, command: String) -> (r: InteractiveExecResult)
    ensures
        r.session_id == session_id,
        r.command == command,
        r.stdout@ == Seq::<char>::empty(),
        r.stderr@ == Seq::<char>::empty(),
        r.exit_status is None,
{
    InteractiveExecResult {
        session_id,
        command,
        stdout: String::new(),
        stderr: String::new(),
        exit_status: None,
    }
}

/// The interactive reader loop's termination rule: it stops at a close
/// notification (or when the channel is exhausted); nothing else stops it,
/// and stopping does not itself unregister the session.
pub fn reader_should_stop(event: &ChannelEvent) -> (r: bool)
    ensures
        r == (event is Close),
{
    match event {
        ChannelEvent::Close => true,
        _ => false,
    }
}

/// The output a one-shot command has produced so far.
pub struct OneShotOutcome {
    pub stdout: String,
    pub stderr: String,
    pub exit_status: Option<u32>,
}

impl OneShotOutcome {
    /// No output yet.
    pub fn new() -> (r: Self)
        ensures
            r.stdout@ == Seq::<char>::empty(),
            r.stderr@ == Seq::<char>::empty(),
            r.exit_status is None,
    {
        OneShotOutcome { stdout: String::new(), stderr: String::new(), exit_status: None }
    }

    /// Folds one channel message into the aggregate: data appends to stdout,
    /// extended data to stderr, an exit-status notification records the code;
    /// everything else changes nothing.
    pub fn absorb(&mut self, event: &ChannelEvent)
        ensures
            event matches ChannelEvent::Data(d) ==> final(self).stdout@ == old(self).stdout@
                + lossy_text_of(d@) && final(self).stderr@ == old(self).stderr@
                && final(self).exit_status == old(self).exit_status,
            event matches ChannelEvent::ExtendedData(d) ==> final(self).stderr@
                == old(self).stderr@ + lossy_text_of(d@) && final(self).stdout@
                == old(self).stdout@ && final(self).exit_status == old(self).exit_status,
            event matches ChannelEvent::ExitStatus(code) ==> final(self).exit_status == Some(*code)
                && final(self).stdout@ == old(self).stdout@ && final(self).stderr@
                == old(self).stderr@,
            (event is Eof || event is Close || event is Other) ==> final(self).stdout@
                == old(self).stdout@ && final(self).stderr@ == old(self).stderr@
                && final(self).exit_status == old(self).exit_status,
    {
        match event {
            ChannelEvent::Data(d) => {
                let text = utf8_lossy(d.as_slice());
                self.stdout.append(text.as_str());
            },
            ChannelEvent::ExtendedData(d) => {
                let text = utf8_lossy(d.as_slice());
                self.stderr.append(text.as_str());
            },
            ChannelEvent::ExitStatus(code) => {
                self.exit_status = Some(*code);
            },
            _ => {},
        }
    }
}

/// One best-effort teardown step of a one-shot connection. Failures of these
/// steps are logged, never surfaced: they do not change the command's
/// reported outcome.
#[derive(Debug, PartialEq, Eq, Structural)]
pub enum TeardownStep {
    SendEof,
    CloseChannel,
    Disconnect,
}

/// The teardown a one-shot execution performs on its way out, whatever
/// happened to the command loop.
pub open spec fn spec_one_shot_teardown(stream_failed: bool) -> Seq<TeardownStep> {
    seq![TeardownStep::SendEof, TeardownStep::CloseChannel, TeardownStep::Disconnect]
}

/// The teardown steps to perform, in order, after a one-shot command loop
/// ends — the same three whether the loop succeeded or failed mid-stream.
pub fn one_shot_teardown_plan(stream_failed: bool) -> (r: Vec<TeardownStep>)
    ensures
        r@ == spec_one_shot_teardown(stream_failed),
{
    let mut plan: Vec<TeardownStep> = Vec::new();
    plan.push(TeardownStep::SendEof);
    plan.push(TeardownStep::CloseChannel);
    plan.push(TeardownStep::Disconnect);
    proof {
        assert(plan@ =~= spec_one_shot_teardown(stream_failed));
    }
    plan
}

/// One-shot execution always attempts full teardown: channel end-of-file,
/// channel close, connection disconnect, in that order, regardless of
/// whether the command loop succeeded or returned an error mid-stream.
pub proof fn lemma_one_shot_teardown_unconditional(succeeded: bool, failed: bool)
    ensures
        spec_one_shot_teardown(succeeded) == spec_one_shot_teardown(failed),
        spec_one_shot_teardown(failed).len() == 3,
        spec_one_shot_teardown(failed)[0] == TeardownStep::SendEof,
        spec_one_shot_teardown(failed)[1] == TeardownStep::CloseChannel,
        spec_one_shot_teardown(failed)[2] == TeardownStep::Disconnect,
{
}

/// Relies on chrono::Utc::now and to_rfc3339: the current instant as an
/// RFC 3339 stamp for stream events; clock-dependent, so nothing is promised
/// of its value.
#[verifier::external_body]
pub fn rfc3339_timestamp_now() -> String {
    chrono::Utc::now().to_rfc3339()
}

} // verus!
