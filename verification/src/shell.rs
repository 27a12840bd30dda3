//! Text for the shell: quoted words, the wrapper around the early mount script, trace lines.

use vstd::prelude::*;

use crate::request::{Request, RequestView};
use crate::task::{no_tasks, one_task, tell, told, Session, SessionView, Stage, Task, TaskView};
use crate::text::{cat3, cat4, join};

verus! {

/// `s` for the inside of single quotes: a single quote closes them, is escaped, and opens them
/// again.
pub open spec fn quoted_body(s: Seq<char>) -> Seq<char>
    decreases s.len(),
{
    if s.len() == 0 {
        Seq::empty()
    } else if s.last() == '\'' {
        quoted_body(s.drop_last()) + seq!['\'', '\\', '\'', '\'']
    } else {
        quoted_body(s.drop_last()).push(s.last())
    }
}

/// `s` as a word in single quotes.
pub open spec fn quoted(s: Seq<char>) -> Seq<char> {
    seq!['\''] + quoted_body(s) + seq!['\'']
}

/// Quotes a text so that a shell reads it as one word.
pub fn shell_escape(s: &str) -> (r: String)
    ensures
        r@ == quoted(s@),
{
    let mut out = String::new();
    out.push('\'');
    assert(s@.take(0) =~= Seq::<char>::empty());
    for c in it: s.chars()
        invariant
            it.seq() == s@,
            out@ =~= seq!['\''] + quoted_body(s@.take(it.index())),
    {
        assert(s@.take(it.index() + 1).drop_last() =~= s@.take(it.index()));
        if c == '\'' {
            proof {
                reveal_strlit("'\\''");
            }
            assert("'\\''"@ =~= seq!['\'', '\\', '\'', '\'']);
            out.append("'\\''");
        } else {
            out.push(c);
        }
    }
    assert(s@.take(s@.len() as int) =~= s@);
    out.push('\'');
    out
}

// ---------------------------------------------------------------------------------------------
// How a shell reads a quoted word.
// ---------------------------------------------------------------------------------------------

/// What a POSIX shell makes of a piece of a word that holds only single quotes, what they enclose,
/// and characters escaped with a backslash; `open` says whether a single quote is open at its
/// start.  A character that stands bare could be expanded or could end the word, and so could a
/// quote that is never closed: there the result is `None`.
pub open spec fn shell_reads(s: Seq<char>, open: bool) -> Option<Seq<char>>
    decreases s.len(),
{
    if s.len() == 0 {
        if open {
            None
        } else {
            Some(Seq::empty())
        }
    } else if s[0] == '\'' {
        shell_reads(s.skip(1), !open)
    } else if open {
        match shell_reads(s.skip(1), true) {
            Some(rest) => Some(seq![s[0]] + rest),
            None => None,
        }
    } else if s[0] == '\\' && s.len() > 1 && s[1] != '\n' {
        match shell_reads(s.skip(2), false) {
            Some(rest) => Some(seq![s[1]] + rest),
            None => None,
        }
    } else {
        None
    }
}

/// A quoted body adds its text in front of what follows it, and leaves the quote open.
proof fn lemma_body_reads(s: Seq<char>, rest: Seq<char>)
    ensures
        shell_reads(quoted_body(s) + rest, true) == (match shell_reads(rest, true) {
            Some(t) => Some(s + t),
            None => None,
        }),
    decreases s.len(),
{
    if s.len() == 0 {
        assert(quoted_body(s) + rest =~= rest);
        if let Some(t) = shell_reads(rest, true) {
            assert(s + t =~= t);
        }
    } else {
        let c = s.last();
        let unit = if c == '\'' {
            seq!['\'', '\\', '\'', '\'']
        } else {
            seq![c]
        };
        let tail = unit + rest;
        assert(quoted_body(s) + rest =~= quoted_body(s.drop_last()) + tail);
        lemma_body_reads(s.drop_last(), tail);
        if c == '\'' {
            reveal_with_fuel(shell_reads, 4);
            assert(tail.skip(1)[0] == '\\');
            assert(tail.skip(1)[1] == '\'');
            assert(tail.skip(1).skip(2)[0] == '\'');
            assert(tail.skip(1).skip(2).skip(1) =~= rest);
        } else {
            assert(tail[0] == c);
            assert(tail.skip(1) =~= rest);
        }
        if let Some(t) = shell_reads(rest, true) {
            assert(s.drop_last() + (seq![c] + t) =~= s + t);
        }
    }
}

/// Reading undoes quoting: a shell reads a quoted text as one word, which is that text.
pub proof fn law_quoting_is_undone_by_the_shell(s: Seq<char>)
    ensures
        shell_reads(quoted(s), false) == Some(s),
{
    let close = seq!['\''];
    let q = quoted(s);
    assert(q.skip(1) =~= quoted_body(s) + close);
    lemma_body_reads(s, close);
    reveal_with_fuel(shell_reads, 2);
    assert(close.skip(1) =~= Seq::<char>::empty());
    assert(s + Seq::<char>::empty() =~= s);
}

/// Two texts with the same quoted form are the same text.
pub proof fn law_quoting_keeps_texts_apart(a: Seq<char>, b: Seq<char>)
    requires
        quoted(a) == quoted(b),
    ensures
        a == b,
{
    law_quoting_is_undone_by_the_shell(a);
    law_quoting_is_undone_by_the_shell(b);
}

// ---------------------------------------------------------------------------------------------
// The wrapper around the early mount script.
// ---------------------------------------------------------------------------------------------

/// The shell function that an early mount script calls for each of its file systems.
pub const SPECIAL_MOUNT: &'static str = "
specialMount() {
    local device=\"$1\"
    local mountPoint=\"$2\"
    local options=\"$3\"
    local fsType=\"$4\"
    if [ \"${IN_NIXOS_SYSTEMD_STAGE1:-}\" = \"true\" ] && [ \"$mountPoint\" = \"/run\" ]; then
        return
    fi
    install -m 0755 -d \"$mountPoint\"
    mount -n -t \"$fsType\" -o \"$options\" \"$device\" \"$mountPoint\"
}
. ";

/// The commands that source an early mount script: they stop at the first error, and trace what
/// they run if tracing is on.
pub open spec fn early_mount_commands(script: Seq<char>, tracing: bool) -> Seq<char> {
    let set = if tracing {
        "set -ex"@
    } else {
        "set -e"@
    };
    set + SPECIAL_MOUNT@ + quoted(script) + "\n"@
}

/// The commands that source an early mount script.
pub fn early_mount_wrapper(script: &str, tracing: bool) -> (r: String)
    ensures
        r@ == early_mount_commands(script@, tracing),
{
    let set = if tracing {
        "set -ex"
    } else {
        "set -e"
    };
    let word = shell_escape(script);
    cat4(set, SPECIAL_MOUNT, word.as_str(), "\n")
}

// ---------------------------------------------------------------------------------------------
// Trace lines.
// ---------------------------------------------------------------------------------------------

/// The line that a shell with tracing on prints for a command: `+`, the program, its arguments.
pub open spec fn trace_line(program: Seq<char>, args: Seq<Seq<char>>) -> Seq<char>
    decreases args.len(),
{
    if args.len() == 0 {
        "+ "@ + program
    } else {
        trace_line(program, args.drop_last()) + " "@ + args.last()
    }
}

/// The trace line of a command.
pub fn traced(program: &str, args: &Vec<String>) -> (r: String)
    ensures
        r@ == trace_line(program@, args.deep_view()),
{
    let ghost all = args.deep_view();
    let mut line = "+ ".to_owned();
    line.append(program);
    let mut i: usize = 0;
    while i < args.len()
        invariant
            i <= args.len(),
            all == args.deep_view(),
            line@ == trace_line(program@, all.take(i as int)),
        decreases args.len() - i,
    {
        line = cat3(line.as_str(), " ", args[i].as_str());
        assert(all.take(i + 1).drop_last() =~= all.take(i as int));
        i += 1;
    }
    assert(all.take(all.len() as int) =~= all);
    line
}

/// The trace line of a command, where commands are traced.
pub open spec fn trace_steps(
    stage: Stage,
    session: SessionView,
    program: Seq<char>,
    args: Seq<Seq<char>>,
) -> Seq<TaskView> {
    if session.tracing {
        seq![told(stage, RequestView::PrintError { text: trace_line(program, args) })]
    } else {
        Seq::empty()
    }
}

/// Announces a command on standard error in the manner of a shell, if commands are traced.
pub fn trace_spawn(stage: Stage, session: &Session, program: &str, args: &Vec<String>) -> (r: Vec<
    Task,
>)
    ensures
        r.deep_view() == trace_steps(stage, session@, program@, args.deep_view()),
{
    if session.tracing {
        one_task(tell(stage, Request::PrintError { text: traced(program, args) }))
    } else {
        no_tasks()
    }
}

/// The trace line of a command is a plus sign, the program and the arguments, with a space between
/// each two.
pub proof fn law_trace_lines_name_the_whole_command(program: Seq<char>, args: Seq<Seq<char>>)
    ensures
        trace_line(program, args) == join(seq!["+"@, program] + args, " "@),
    decreases args.len(),
{
    let words = seq!["+"@, program] + args;
    if args.len() == 0 {
        reveal_strlit("+");
        reveal_strlit(" ");
        reveal_strlit("+ ");
        assert("+ "@ =~= "+"@ + " "@);
        assert(words.drop_last() =~= seq!["+"@]);
        assert(words.last() == program);
        reveal_with_fuel(join, 2);
    } else {
        law_trace_lines_name_the_whole_command(program, args.drop_last());
        assert(words.drop_last() =~= seq!["+"@, program] + args.drop_last());
        assert(words.last() == args.last());
    }
}

/// The commands around an early mount script define the helper, stop at the first error, and source
/// a word that a shell reads as the script; they trace themselves exactly if tracing is on.
pub proof fn law_the_wrapper_sources_the_script(script: Seq<char>, tracing: bool)
    ensures
        exists|word: Seq<char>| #[trigger]
            shell_reads(word, false) == Some(script) && early_mount_commands(script, tracing) == (
            if tracing {
                "set -ex"@
            } else {
                "set -e"@
            }) + "
specialMount() {
    local device=\"$1\"
    local mountPoint=\"$2\"
    local options=\"$3\"
    local fsType=\"$4\"
    if [ \"${IN_NIXOS_SYSTEMD_STAGE1:-}\" = \"true\" ] && [ \"$mountPoint\" = \"/run\" ]; then
        return
    fi
    install -m 0755 -d \"$mountPoint\"
    mount -n -t \"$fsType\" -o \"$options\" \"$device\" \"$mountPoint\"
}
. "@ + word + "\n"@,
{
    law_quoting_is_undone_by_the_shell(script);
    assert(shell_reads(quoted(script), false) == Some(script));
}

} // verus!
