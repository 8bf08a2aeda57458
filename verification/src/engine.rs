//! The local inference server: which backends to try, how it is started, and how its
//! answers are read.
use crate::i18n::{f, key_args_text, key_text, text};
use crate::models::RuntimeModel;
use crate::runtimes::Hardware;
use crate::strings::{chars_of, decimal, push_decimal, same_text, trim, trimmed};
use crate::table::texts_of;
use vstd::prelude::*;

verus! {

/// Whether a backend cannot be tried on this machine: CUDA or Vulkan without a
/// driver that answered.
pub open spec fn unavailable(variant: Seq<char>, h: Hardware) -> bool {
    (variant == "cuda"@ && !h.cuda) || (variant == "vulkan"@ && !h.vulkan)
}

/// Whether a backend cannot be tried on this machine.
pub fn is_unavailable(variant: &str, hardware: Hardware) -> (r: bool)
    ensures
        r == unavailable(variant@, hardware),
{
    (same_text(variant, "cuda") && !hardware.cuda) || (same_text(variant, "vulkan") && !hardware.vulkan)
}

/// The failure of one backend, as it is listed: `variant: message`.
pub open spec fn failure_line(variant: Seq<char>, message: Seq<char>) -> Seq<char> {
    variant + ": "@ + message
}

/// The failure of one backend.
pub fn failure(variant: &str, message: &str) -> (r: String)
    ensures
        r@ == failure_line(variant@, message@),
{
    let mut r = variant.to_string();
    r.append(": ");
    r.append(message);
    r
}

/// The error when no backend started: every failure on a line of its own, and the
/// directory of the server logs.
pub fn start_error(failures: &Vec<String>, log_dir: &str) -> (r: String)
    ensures
        r@ == key_args_text(
            "engineStartError"@,
            seq![crate::document::join_with(texts_of(failures@), "\n"@), log_dir@],
        ),
{
    let mut args: Vec<String> = Vec::new();
    args.push(crate::document::join_texts(failures, "\n"));
    args.push(log_dir.to_string());
    assert(args@.map_values(|s: String| s@) =~= seq![
        crate::document::join_with(texts_of(failures@), "\n"@),
        log_dir@,
    ]);
    f("engineStartError", args.as_slice())
}

/// The arguments that start the server for a model on a device: the model's weights
/// and projector loaded together, loopback only with the session key, one slot, all
/// layers on the GPU except on the CPU, the model's chat template, greedy decoding,
/// no web interface, and the projector kept on the CPU when the device is the CPU.
pub open spec fn server_arguments(
    model_weights: Seq<char>,
    projector: Seq<char>,
    template: Seq<char>,
    alias: Seq<char>,
    context: u32,
    port: u16,
    key: Seq<char>,
    device: Seq<char>,
) -> Seq<Seq<char>> {
    seq![
        "--model"@,
        model_weights,
        "--mmproj"@,
        projector,
        "--host"@,
        "127.0.0.1"@,
        "--port"@,
        decimal(port as nat),
        "--api-key"@,
        key,
        "--alias"@,
        alias,
        "--ctx-size"@,
        decimal(context as nat),
        "--parallel"@,
        "1"@,
        "--n-gpu-layers"@,
        if device == "cpu"@ {
            "0"@
        } else {
            "99"@
        },
        "--jinja"@,
        "--chat-template-file"@,
        template,
        "--temp"@,
        "0"@,
        "--no-webui"@,
    ] + if device == "cpu"@ {
        seq!["--no-mmproj-offload"@]
    } else {
        Seq::empty()
    }
}

fn number(n: u64) -> (r: String)
    ensures
        r@ == decimal(n as nat),
{
    let mut r = String::new();
    push_decimal(&mut r, n);
    r
}

/// The arguments that start the server.
pub fn server_args(model: &RuntimeModel, port: u16, key: &str, device: &str) -> (r: Vec<String>)
    ensures
        texts_of(r@) == server_arguments(
            model.weights@,
            model.projector@,
            model.template@,
            model.alias@,
            model.context,
            port,
            key@,
            device@,
        ),
{
    let cpu = same_text(device, "cpu");
    let mut r: Vec<String> = Vec::new();
    r.push("--model".to_string());
    r.push(model.weights.clone());
    r.push("--mmproj".to_string());
    r.push(model.projector.clone());
    r.push("--host".to_string());
    r.push("127.0.0.1".to_string());
    r.push("--port".to_string());
    r.push(number(port as u64));
    r.push("--api-key".to_string());
    r.push(key.to_string());
    r.push("--alias".to_string());
    r.push(model.alias.clone());
    r.push("--ctx-size".to_string());
    r.push(number(model.context as u64));
    r.push("--parallel".to_string());
    r.push("1".to_string());
    r.push("--n-gpu-layers".to_string());
    r.push(if cpu { "0".to_string() } else { "99".to_string() });
    r.push("--jinja".to_string());
    r.push("--chat-template-file".to_string());
    r.push(model.template.clone());
    r.push("--temp".to_string());
    r.push("0".to_string());
    r.push("--no-webui".to_string());
    if cpu {
        r.push("--no-mmproj-offload".to_string());
    }
    assert(texts_of(r@) =~= server_arguments(
        model.weights@,
        model.projector@,
        model.template@,
        model.alias@,
        model.context,
        port,
        key@,
        device@,
    ));
    r
}

/// What is observed while the server starts, in the order it is checked each round:
/// whether the operation was cancelled; whether the server is still registered and
/// its exit code, written out, if it exited; whether its health endpoint answered
/// with success, and the milliseconds since the start.
pub enum StartCheck {
    Cancelled(bool),
    Process { registered: bool, exit: Option<String> },
    Health { healthy: bool, elapsed_ms: u64 },
}

/// An observation as values.
pub enum StartCheckView {
    Cancelled(bool),
    Process { registered: bool, exit: Option<Seq<char>> },
    Health { healthy: bool, elapsed_ms: u64 },
}

impl View for StartCheck {
    type V = StartCheckView;

    open spec fn view(&self) -> StartCheckView {
        match self {
            StartCheck::Cancelled(c) => StartCheckView::Cancelled(*c),
            StartCheck::Process { registered, exit } => StartCheckView::Process {
                registered: *registered,
                exit: crate::download::opt_view(*exit),
            },
            StartCheck::Health { healthy, elapsed_ms } => StartCheckView::Health {
                healthy: *healthy,
                elapsed_ms: *elapsed_ms,
            },
        }
    }
}

/// What follows an observation: the next check, a started server, a pause before the
/// next round, or a failure with its message.
pub enum StartAction {
    Continue,
    Ready,
    Wait { ms: u64 },
    Fail(String),
}

/// An action as values.
pub enum StartActionView {
    Continue,
    Ready,
    Wait { ms: u64 },
    Fail(Seq<char>),
}

impl View for StartAction {
    type V = StartActionView;

    open spec fn view(&self) -> StartActionView {
        match self {
            StartAction::Continue => StartActionView::Continue,
            StartAction::Ready => StartActionView::Ready,
            StartAction::Wait { ms } => StartActionView::Wait { ms: *ms },
            StartAction::Fail(m) => StartActionView::Fail(m@),
        }
    }
}

/// What follows an observation: a cancelled start fails; a server no longer
/// registered fails, and one that exited fails with its exit code; a healthy server
/// is ready; past three minutes the start fails; otherwise the next round comes after
/// 250 ms.
pub open spec fn start_response(c: StartCheckView) -> StartActionView {
    match c {
        StartCheckView::Cancelled(cancelled) => if cancelled {
            StartActionView::Fail(key_text("cancelledOperation"@))
        } else {
            StartActionView::Continue
        },
        StartCheckView::Process { registered, exit } => if !registered {
            StartActionView::Fail(key_text("engineStopped"@))
        } else {
            match exit {
                Some(code) => StartActionView::Fail(key_args_text("processExit"@, seq![code])),
                None => StartActionView::Continue,
            }
        },
        StartCheckView::Health { healthy, elapsed_ms } => if healthy {
            StartActionView::Ready
        } else if elapsed_ms > 180000 {
            StartActionView::Fail(key_text("loadTimeout"@))
        } else {
            StartActionView::Wait { ms: 250 }
        },
    }
}

/// What follows an observation while the server starts.
pub fn start_step(check: StartCheck) -> (r: StartAction)
    ensures
        r@ == start_response(check@),
{
    match check {
        StartCheck::Cancelled(cancelled) => if cancelled {
            StartAction::Fail(text("cancelledOperation"))
        } else {
            StartAction::Continue
        },
        StartCheck::Process { registered, exit } => if !registered {
            StartAction::Fail(text("engineStopped"))
        } else {
            match exit {
                Some(code) => {
                    let ghost cv = code@;
                    let mut args: Vec<String> = Vec::new();
                    args.push(code);
                    assert(args@.map_values(|s: String| s@) =~= seq![cv]);
                    StartAction::Fail(f("processExit", args.as_slice()))
                },
                None => StartAction::Continue,
            }
        },
        StartCheck::Health { healthy, elapsed_ms } => if healthy {
            StartAction::Ready
        } else if elapsed_ms > 180000 {
            StartAction::Fail(text("loadTimeout"))
        } else {
            StartAction::Wait { ms: 250 }
        },
    }
}

/// The name of a server's log file for a device.
pub open spec fn log_name(device: Seq<char>) -> Seq<char> {
    "llama-"@ + device + ".log"@
}

/// The name of a server's log file.
pub fn log_file(device: &str) -> (r: String)
    ensures
        r@ == log_name(device@),
{
    let mut r = "llama-".to_string();
    r.append(device);
    r.append(".log");
    r
}

/// The server's error message, or `runtime_error` when it gives none.
pub open spec fn server_message(message: Option<Seq<char>>) -> Seq<char> {
    match message {
        Some(m) => m,
        None => "runtime_error"@,
    }
}

/// What a chat completion answer means: a failed status is an error naming the
/// status and the server's message (`runtime_error` when it gives none); a missing
/// content is an error; otherwise the text, with a warning when the output was cut
/// at the token limit or is blank.
pub open spec fn reply_outcome(
    success: bool,
    status: Seq<char>,
    message: Option<Seq<char>>,
    content: Option<Seq<char>>,
    finish_reason: Option<Seq<char>>,
) -> Result<(Seq<char>, Option<Seq<char>>), Seq<char>> {
    if !success {
        Err(key_args_text("ocrError"@, seq![status, server_message(message)]))
    } else {
        match content {
            None => Err(key_text("emptyResponse"@)),
            Some(t) => Ok(
                (
                    t,
                    if finish_reason == Some("length"@) {
                        Some(key_text("outputTruncated"@))
                    } else if trim(t).len() == 0 {
                        Some(key_text("emptyRecognition"@))
                    } else {
                        None
                    },
                ),
            ),
        }
    }
}

/// What a chat completion answer means.
pub fn read_reply(
    success: bool,
    status: &str,
    message: Option<&str>,
    content: Option<&str>,
    finish_reason: Option<&str>,
) -> (r: Result<(String, Option<String>), String>)
    ensures
        match reply_outcome(
            success,
            status@,
            crate::download::opt_str(message),
            crate::download::opt_str(content),
            crate::download::opt_str(finish_reason),
        ) {
            Ok((t, w)) => r matches Ok((x, y)) && x@ == t && crate::download::opt_view(y) == w,
            Err(e) => r matches Err(m) && m@ == e,
        },
{
    if !success {
        let mut args: Vec<String> = Vec::new();
        args.push(status.to_string());
        args.push(
            match message {
                Some(m) => m.to_string(),
                None => "runtime_error".to_string(),
            },
        );
        assert(args@.map_values(|s: String| s@) =~= seq![
            status@,
            server_message(crate::download::opt_str(message)),
        ]);
        let e = f("ocrError", args.as_slice());
        return Err(e);
    }
    let t = match content {
        None => {
            return Err(text("emptyResponse"));
        },
        Some(t) => t,
    };
    let length = match finish_reason {
        Some(reason) => same_text(reason, "length"),
        None => false,
    };
    let warning = if length {
        Some(text("outputTruncated"))
    } else if chars_of(trimmed(t).as_str()).len() == 0 {
        Some(text("emptyRecognition"))
    } else {
        None
    };
    Ok((t.to_string(), warning))
}

} // verus!
