//! The native messaging bridge: what the host answers to the browser
//! extension, and how the shim sorts the frames that it reads.

use vstd::prelude::*;
use vstd::string::*;

verus! {

/// A command of the browser extension.
#[derive(Debug, Clone)]
pub enum Command {
    Ping,
    AddDownload { url: String },
}

/// The answer of the host to a command.
#[derive(Debug, Clone)]
pub struct Response {
    pub success: bool,
    pub message: String,
}

/// What the host does with a command.
#[derive(Debug, Clone)]
pub enum Reaction {
    /// The answer is sent at once.
    Reply(Response),
    /// A terminal is launched that downloads `url`; the answer depends on
    /// how the launch goes.
    Launch { url: String },
}

/// A program and the arguments to start it with.
#[derive(Debug, Clone)]
pub struct Invocation {
    pub program: String,
    pub args: Vec<String>,
}

/// A frame with a body of more than this many bytes ends the shim (10 MiB).
pub const MAX_FRAME_LENGTH: u32 = 10_485_760;

/// A length above this that starts with `{` is taken for unframed JSON.
pub const RAW_JSON_THRESHOLD: u32 = 1_000_000;

/// What the four bytes at the head of a frame announce.
#[derive(Debug, Clone, Copy, PartialEq, Eq, Structural)]
pub enum Frame {
    /// The bytes are no length but the start of unframed JSON: the rest of
    /// the input is read as one message, and the shim ends.
    RawJson,
    /// A frame without a body: it is skipped.
    Empty,
    /// The body is too long: the shim ends.
    TooLarge,
    /// A body of `length` bytes follows.
    Body { length: u32 },
}

/// What the four bytes at the head of a frame announce, given the first of
/// them and the length that they denote.
pub open spec fn frame_of(first: u8, length: u32) -> Frame {
    if first == 0x7b && length > RAW_JSON_THRESHOLD {
        Frame::RawJson
    } else if length == 0 {
        Frame::Empty
    } else if length > MAX_FRAME_LENGTH {
        Frame::TooLarge
    } else {
        Frame::Body { length }
    }
}

/// The text of the answer to a launch that failed with `error`.
pub open spec fn launch_failure(error: Seq<char>) -> Seq<char> {
    "Failed to launch terminal: "@ + error + ". Install x-terminal-emulator."@
}

/// The argument that hands `exe` and `url` to a terminal as one command
/// line.
pub open spec fn command_line(exe: Seq<char>, url: Seq<char>) -> Seq<char> {
    exe + " \""@ + url + "\""@
}

/// What the four bytes at the head of a frame announce.
pub fn classify_frame(first: u8, length: u32) -> (frame: Frame)
    ensures
        frame == frame_of(first, length),
{
    if first == 0x7b && length > RAW_JSON_THRESHOLD {
        Frame::RawJson
    } else if length == 0 {
        Frame::Empty
    } else if length > MAX_FRAME_LENGTH {
        Frame::TooLarge
    } else {
        Frame::Body { length }
    }
}

/// What the host does with a command: a ping is answered with `Pong`, a
/// download is handed to a terminal.
pub fn handle_command(command: Command) -> (reaction: Reaction)
    ensures
        match command {
            Command::Ping => reaction matches Reaction::Reply(response) && response.success
                && response.message@ == "Pong"@,
            Command::AddDownload { url } => reaction matches Reaction::Launch { url: target }
                && target@ == url@,
        },
{
    match command {
        Command::Ping => Reaction::Reply(
            Response { success: true, message: String::from_str("Pong") },
        ),
        Command::AddDownload { url } => Reaction::Launch { url },
    }
}

/// The answer after the launch of a terminal: `failure` is the text of the
/// error, `None` where the terminal came up.
pub fn launch_response(failure: Option<&str>) -> (response: Response)
    ensures
        match failure {
            None => response.success && response.message@ == "Download started in terminal"@,
            Some(error) => !response.success && response.message@ == launch_failure(error@),
        },
{
    match failure {
        None => Response { success: true, message: String::from_str("Download started in terminal") },
        Some(error) => {
            let mut message = String::from_str("Failed to launch terminal: ");
            message.append(error);
            message.append(". Install x-terminal-emulator.");
            Response { success: false, message }
        },
    }
}

/// The terminals to try, in order, for a download of `url` by the program
/// at `exe`: `alacritty`, then `x-terminal-emulator`, then `gnome-terminal`.
pub fn terminal_invocations(exe: &str, url: &str) -> (attempts: Vec<Invocation>)
    ensures
        attempts@.len() == 3,
        attempts@[0].program@ == "alacritty"@,
        attempts@[0].args@.len() == 3 && attempts@[0].args@[0]@ == "-e"@ && attempts@[0].args@[1]@
            == exe@ && attempts@[0].args@[2]@ == url@,
        attempts@[1].program@ == "x-terminal-emulator"@,
        attempts@[1].args@.len() == 2 && attempts@[1].args@[0]@ == "-e"@ && attempts@[1].args@[1]@
            == command_line(exe@, url@),
        attempts@[2].program@ == "gnome-terminal"@,
        attempts@[2].args@.len() == 3 && attempts@[2].args@[0]@ == "--"@ && attempts@[2].args@[1]@
            == exe@ && attempts@[2].args@[2]@ == url@,
{
    let mut line = String::from_str(exe);
    line.append(" \"");
    line.append(url);
    line.append("\"");
    let mut first: Vec<String> = Vec::new();
    first.push(String::from_str("-e"));
    first.push(String::from_str(exe));
    first.push(String::from_str(url));
    let mut second: Vec<String> = Vec::new();
    second.push(String::from_str("-e"));
    second.push(line);
    let mut third: Vec<String> = Vec::new();
    third.push(String::from_str("--"));
    third.push(String::from_str(exe));
    third.push(String::from_str(url));
    let mut attempts: Vec<Invocation> = Vec::new();
    attempts.push(Invocation { program: String::from_str("alacritty"), args: first });
    attempts.push(Invocation { program: String::from_str("x-terminal-emulator"), args: second });
    attempts.push(Invocation { program: String::from_str("gnome-terminal"), args: third });
    attempts
}

} // verus!
