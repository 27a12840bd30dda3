//! What the boot sequence asks of the system, and what it gets back.
//!
//! A [`Request`] is one effect or one question; the driver performs it and answers with a
//! [`Reply`].  Both are plain data, so every decision between two requests is a pure function.

use nix::mount::MsFlags;
use vstd::prelude::*;

use crate::flags::flag_bits;

verus! {

/// One effect to perform, or one question to answer.
#[derive(Debug)]
pub enum Request {
    /// Write `text` to the console, as a line of standard output.
    Print { text: String },
    /// Write `text` to standard error, as a line.
    PrintError { text: String },
    /// Record `text` in the boot log, and in the file `dest` if there is one.
    Log { dest: Option<String>, text: String },
    /// Report `text` through the logger, at the level for information.
    Info { text: String },
    /// Report `text` through the logger, at the level for warnings.
    Warn { text: String },
    /// Let the logger pass every level from here on.
    EnableTracing,
    /// The value of an environment variable; answered by [`Reply::Text`].
    ReadEnv { name: String },
    /// Is this environment variable set, to whatever value?  Answered by [`Reply::Flag`].
    HasEnv { name: String },
    SetEnv { name: String, value: String },
    RemoveEnv { name: String },
    /// The text of a file; answered by [`Reply::Text`].
    ReadFile { path: String },
    /// Answered by [`Reply::Flag`].
    PathExists { path: String },
    /// Can this file be opened for appending?  Answered by [`Reply::Flag`].
    CanAppend { path: String },
    /// Create a directory with its parents.
    CreateDirectory { path: String },
    Chown { path: String, uid: u32, gid: u32 },
    Chmod { path: String, mode: u32 },
    /// Make `link` a symbolic link to `target`, in place of a link that was there: in one step, by
    /// way of another name, if it is to be `atomic`, and simply by removing the old link otherwise.
    Symlink { target: String, link: String, atomic: bool },
    /// Is a file system mounted at this path?  Answered by [`Reply::Flag`].
    IsMounted { path: String },
    /// The options of the mount at this path; answered by [`Reply::Options`].
    MountOptions { path: String },
    Mount {
        source: Option<String>,
        target: String,
        fstype: Option<String>,
        flags: MsFlags,
        data: Option<String>,
    },
    /// The number of a group; answered by [`Reply::Group`].
    LookupGroup { name: String },
    /// Run a program to its end, with the file `stdin` as its input if one is named.
    Spawn { program: String, args: Vec<String>, stdin: Option<String> },
    /// Duplicate standard output and standard error; answered by [`Reply::Duplicates`].  What that
    /// does to the open files is [`crate::stdio::copied`].
    DuplicateStdio,
    /// Start `/bin/sh -c command` with its input on a pipe, and leave it running.
    StartCapture { command: String },
    /// Put standard output and standard error onto the pipe of the capture that was started, and
    /// close the pipe's own descriptor.  What that does to the open files is
    /// [`crate::stdio::redirected`].
    RedirectStdio,
    /// Put the two saved descriptors back as standard output and standard error, and close the
    /// copies.  What that does to the open files is [`crate::stdio::restored`].
    RestoreStdio { stdout: i32, stderr: i32 },
    /// Answered by [`Reply::Pid`].
    ProcessId,
    /// Replace this process; there is a reply only if that failed.
    Exec { program: String, args: Vec<String> },
    Exit { code: i32 },
}

/// The answer to a [`Request`].
#[derive(Debug)]
pub enum Reply {
    /// The effect took place.
    Done,
    /// The effect failed; the text says why.
    Failed { reason: String },
    Flag { value: bool },
    /// A text, or that there is none to be had.
    Text { content: Option<String> },
    /// The options of a mount, or that they could not be found.
    Options { list: Option<Vec<String>> },
    Group { gid: Option<u32> },
    /// A program ran and ended; `text` is how its status reads.
    Exited { success: bool, code: Option<i32>, text: String },
    /// The file that was to be a program's input could not be opened.
    NoInput { reason: String },
    /// The capture was started, but without a pipe to write to.
    NoPipe,
    /// The duplicated descriptors, negative where the call failed, and the last error's text.
    Duplicates { stdout: i32, stderr: i32, reason: String },
    Pid { pid: i32 },
}

/// A [`Request`] with its texts as character sequences and its mount flags as a set of bits.
#[verifier::ext_equal]
pub enum RequestView {
    Print { text: Seq<char> },
    PrintError { text: Seq<char> },
    Log { dest: Option<Seq<char>>, text: Seq<char> },
    Info { text: Seq<char> },
    Warn { text: Seq<char> },
    EnableTracing,
    ReadEnv { name: Seq<char> },
    HasEnv { name: Seq<char> },
    SetEnv { name: Seq<char>, value: Seq<char> },
    RemoveEnv { name: Seq<char> },
    ReadFile { path: Seq<char> },
    PathExists { path: Seq<char> },
    CanAppend { path: Seq<char> },
    CreateDirectory { path: Seq<char> },
    Chown { path: Seq<char>, uid: u32, gid: u32 },
    Chmod { path: Seq<char>, mode: u32 },
    Symlink { target: Seq<char>, link: Seq<char>, atomic: bool },
    IsMounted { path: Seq<char> },
    MountOptions { path: Seq<char> },
    Mount {
        source: Option<Seq<char>>,
        target: Seq<char>,
        fstype: Option<Seq<char>>,
        flags: Set<nat>,
        data: Option<Seq<char>>,
    },
    LookupGroup { name: Seq<char> },
    Spawn { program: Seq<char>, args: Seq<Seq<char>>, stdin: Option<Seq<char>> },
    DuplicateStdio,
    StartCapture { command: Seq<char> },
    RedirectStdio,
    RestoreStdio { stdout: i32, stderr: i32 },
    ProcessId,
    Exec { program: Seq<char>, args: Seq<Seq<char>> },
    Exit { code: i32 },
}

/// A [`Reply`] with its texts as character sequences.
#[verifier::ext_equal]
pub enum ReplyView {
    Done,
    Failed { reason: Seq<char> },
    Flag { value: bool },
    Text { content: Option<Seq<char>> },
    Options { list: Option<Seq<Seq<char>>> },
    Group { gid: Option<u32> },
    Exited { success: bool, code: Option<i32>, text: Seq<char> },
    NoInput { reason: Seq<char> },
    NoPipe,
    Duplicates { stdout: i32, stderr: i32, reason: Seq<char> },
    Pid { pid: i32 },
}

impl View for Request {
    type V = RequestView;

    open spec fn view(&self) -> RequestView {
        match *self {
            Request::Print { text } => RequestView::Print { text: text@ },
            Request::PrintError { text } => RequestView::PrintError { text: text@ },
            Request::Log { dest, text } => RequestView::Log {
                dest: dest.deep_view(),
                text: text@,
            },
            Request::Info { text } => RequestView::Info { text: text@ },
            Request::Warn { text } => RequestView::Warn { text: text@ },
            Request::EnableTracing => RequestView::EnableTracing,
            Request::ReadEnv { name } => RequestView::ReadEnv { name: name@ },
            Request::HasEnv { name } => RequestView::HasEnv { name: name@ },
            Request::SetEnv { name, value } => RequestView::SetEnv { name: name@, value: value@ },
            Request::RemoveEnv { name } => RequestView::RemoveEnv { name: name@ },
            Request::ReadFile { path } => RequestView::ReadFile { path: path@ },
            Request::PathExists { path } => RequestView::PathExists { path: path@ },
            Request::CanAppend { path } => RequestView::CanAppend { path: path@ },
            Request::CreateDirectory { path } => RequestView::CreateDirectory { path: path@ },
            Request::Chown { path, uid, gid } => RequestView::Chown { path: path@, uid, gid },
            Request::Chmod { path, mode } => RequestView::Chmod { path: path@, mode },
            Request::Symlink { target, link, atomic } => RequestView::Symlink {
                target: target@,
                link: link@,
                atomic,
            },
            Request::IsMounted { path } => RequestView::IsMounted { path: path@ },
            Request::MountOptions { path } => RequestView::MountOptions { path: path@ },
            Request::Mount { source, target, fstype, flags, data } => RequestView::Mount {
                source: source.deep_view(),
                target: target@,
                fstype: fstype.deep_view(),
                flags: flag_bits(flags),
                data: data.deep_view(),
            },
            Request::LookupGroup { name } => RequestView::LookupGroup { name: name@ },
            Request::Spawn { program, args, stdin } => RequestView::Spawn {
                program: program@,
                args: args.deep_view(),
                stdin: stdin.deep_view(),
            },
            Request::DuplicateStdio => RequestView::DuplicateStdio,
            Request::StartCapture { command } => RequestView::StartCapture { command: command@ },
            Request::RedirectStdio => RequestView::RedirectStdio,
            Request::RestoreStdio { stdout, stderr } => RequestView::RestoreStdio {
                stdout,
                stderr,
            },
            Request::ProcessId => RequestView::ProcessId,
            Request::Exec { program, args } => RequestView::Exec {
                program: program@,
                args: args.deep_view(),
            },
            Request::Exit { code } => RequestView::Exit { code },
        }
    }
}

impl View for Reply {
    type V = ReplyView;

    open spec fn view(&self) -> ReplyView {
        match *self {
            Reply::Done => ReplyView::Done,
            Reply::Failed { reason } => ReplyView::Failed { reason: reason@ },
            Reply::Flag { value } => ReplyView::Flag { value },
            Reply::Text { content } => ReplyView::Text { content: content.deep_view() },
            Reply::Options { list } => ReplyView::Options { list: list.deep_view() },
            Reply::Group { gid } => ReplyView::Group { gid },
            Reply::Exited { success, code, text } => ReplyView::Exited {
                success,
                code,
                text: text@,
            },
            Reply::NoInput { reason } => ReplyView::NoInput { reason: reason@ },
            Reply::NoPipe => ReplyView::NoPipe,
            Reply::Duplicates { stdout, stderr, reason } => ReplyView::Duplicates {
                stdout,
                stderr,
                reason: reason@,
            },
            Reply::Pid { pid } => ReplyView::Pid { pid },
        }
    }
}

impl ReplyView {
    /// A plain yes.
    pub open spec fn is_yes(self) -> bool {
        self == (ReplyView::Flag { value: true })
    }

    /// Why the effect failed, if it did.
    pub open spec fn failure(self) -> Option<Seq<char>> {
        match self {
            ReplyView::Failed { reason } => Some(reason),
            _ => None,
        }
    }
}

impl Reply {
    /// Is this a plain yes?
    pub fn is_yes(&self) -> (r: bool)
        ensures
            r == self@.is_yes(),
    {
        match self {
            Reply::Flag { value } => *value,
            _ => false,
        }
    }

    /// Why the effect failed, if it did.
    pub fn failure(self) -> (r: Option<String>)
        ensures
            r.deep_view() == self@.failure(),
    {
        match self {
            Reply::Failed { reason } => Some(reason),
            _ => None,
        }
    }
}

/// A request is seen as it is: nothing of it is lost or changed on the way into its view.
pub proof fn law_requests_are_seen_as_they_are(request: Request)
    ensures
        request matches Request::Print { text } ==> request@ == (
            RequestView::Print { text: text@ }
        ),
        request matches Request::PrintError { text } ==> request@ == (
            RequestView::PrintError { text: text@ }
        ),
        request matches Request::Log { dest, text } ==> request@ == (
            RequestView::Log { dest: dest.deep_view(), text: text@ }
        ),
        request matches Request::Info { text } ==> request@ == (RequestView::Info { text: text@ }),
        request matches Request::Warn { text } ==> request@ == (RequestView::Warn { text: text@ }),
        request is EnableTracing ==> request@ is EnableTracing,
        request matches Request::ReadEnv { name } ==> request@ == (
            RequestView::ReadEnv { name: name@ }
        ),
        request matches Request::HasEnv { name } ==> request@ == (
            RequestView::HasEnv { name: name@ }
        ),
        request matches Request::SetEnv { name, value } ==> request@ == (
            RequestView::SetEnv { name: name@, value: value@ }
        ),
        request matches Request::RemoveEnv { name } ==> request@ == (
            RequestView::RemoveEnv { name: name@ }
        ),
        request matches Request::ReadFile { path } ==> request@ == (
            RequestView::ReadFile { path: path@ }
        ),
        request matches Request::PathExists { path } ==> request@ == (
            RequestView::PathExists { path: path@ }
        ),
        request matches Request::CanAppend { path } ==> request@ == (
            RequestView::CanAppend { path: path@ }
        ),
        request matches Request::CreateDirectory { path } ==> request@ == (
            RequestView::CreateDirectory { path: path@ }
        ),
        request matches Request::Chown { path, uid, gid } ==> request@ == (
            RequestView::Chown { path: path@, uid, gid }
        ),
        request matches Request::Chmod { path, mode } ==> request@ == (
            RequestView::Chmod { path: path@, mode }
        ),
        request matches Request::Symlink { target, link, atomic } ==> request@ == (
            RequestView::Symlink { target: target@, link: link@, atomic }
        ),
        request matches Request::IsMounted { path } ==> request@ == (
            RequestView::IsMounted { path: path@ }
        ),
        request matches Request::MountOptions { path } ==> request@ == (
            RequestView::MountOptions { path: path@ }
        ),
        request matches Request::Mount { source, target, fstype, flags, data } ==> request@ == (
            RequestView::Mount {
                source: source.deep_view(),
                target: target@,
                fstype: fstype.deep_view(),
                flags: flag_bits(flags),
                data: data.deep_view(),
            }
        ),
        request matches Request::LookupGroup { name } ==> request@ == (
            RequestView::LookupGroup { name: name@ }
        ),
        request matches Request::Spawn { program, args, stdin } ==> request@ == (
            RequestView::Spawn {
                program: program@,
                args: args.deep_view(),
                stdin: stdin.deep_view(),
            }
        ),
        request is DuplicateStdio ==> request@ is DuplicateStdio,
        request matches Request::StartCapture { command } ==> request@ == (
            RequestView::StartCapture { command: command@ }
        ),
        request is RedirectStdio ==> request@ is RedirectStdio,
        request matches Request::RestoreStdio { stdout, stderr } ==> request@ == (
            RequestView::RestoreStdio { stdout, stderr }
        ),
        request is ProcessId ==> request@ is ProcessId,
        request matches Request::Exec { program, args } ==> request@ == (
            RequestView::Exec { program: program@, args: args.deep_view() }
        ),
        request matches Request::Exit { code } ==> request@ == (RequestView::Exit { code }),
{
}

/// A reply is seen as it is: nothing of it is lost or changed on the way into its view.
pub proof fn law_replies_are_seen_as_they_are(reply: Reply)
    ensures
        reply is Done ==> reply@ is Done,
        reply matches Reply::Failed { reason } ==> reply@ == (
            ReplyView::Failed { reason: reason@ }
        ),
        reply matches Reply::Flag { value } ==> reply@ == (ReplyView::Flag { value }),
        reply matches Reply::Text { content } ==> reply@ == (
            ReplyView::Text { content: content.deep_view() }
        ),
        reply matches Reply::Options { list } ==> reply@ == (
            ReplyView::Options { list: list.deep_view() }
        ),
        reply matches Reply::Group { gid } ==> reply@ == (ReplyView::Group { gid }),
        reply matches Reply::Exited { success, code, text } ==> reply@ == (
            ReplyView::Exited { success, code, text: text@ }
        ),
        reply matches Reply::NoInput { reason } ==> reply@ == (
            ReplyView::NoInput { reason: reason@ }
        ),
        reply is NoPipe ==> reply@ is NoPipe,
        reply matches Reply::Duplicates { stdout, stderr, reason } ==> reply@ == (
            ReplyView::Duplicates { stdout, stderr, reason: reason@ }
        ),
        reply matches Reply::Pid { pid } ==> reply@ == (ReplyView::Pid { pid }),
{
}

} // verus!
