//! What each reply leads to, in the words of the requests themselves: which program is run with
//! which arguments and which input, what is mounted where and how, what is written to the log, and
//! what an error says.

use vstd::prelude::*;

use crate::activation::activation_script;
use crate::boot::stages;
use crate::flags::{
    flags_debug, law_remounts_go_by_the_names_of_options, law_store_options_go_by_their_names,
};
use crate::machine::{options_or_empty, session_after, steps_after, MachineView};
use crate::request::{ReplyView, RequestView};
use crate::shell::{
    early_mount_commands, law_the_wrapper_sources_the_script,
    law_trace_lines_name_the_whole_command, shell_reads,
};
use crate::stdio::capture_commands;
use crate::store::{
    law_a_complete_store_is_left_alone, law_other_missing_options_are_passed_on,
    law_wanted_flags_go_by_the_names_of_options, missing_data, missing_flags, option_list,
    store_bound_steps, store_remounted_steps,
};
use crate::task::{
    ArgsView, BootErrorView, HandlerView, SavedStdio, SessionView, SpecialFs, Stage, TaskView,
};
use crate::text::{
    decimal, digits_value, has_word, join, law_decimals_stand_for_their_number, list_debug,
    optional_number,
};

verus! {

/// A step of a stage, with a request and with the handler of its reply.
pub open spec fn st(stage: Stage, request: RequestView, handler: HandlerView) -> TaskView {
    TaskView { stage, request, handler }
}

/// A line for the log, wherever it goes.
pub open spec fn line(stage: Stage, session: SessionView, text: Seq<char>) -> TaskView {
    TaskView {
        stage,
        request: RequestView::Log { dest: session.log_dest, text },
        handler: HandlerView::Ignore,
    }
}

/// A warning.
pub open spec fn warning(stage: Stage, text: Seq<char>) -> TaskView {
    TaskView { stage, request: RequestView::Warn { text }, handler: HandlerView::Ignore }
}

/// The reply leads to these steps, and to no other.
pub open spec fn leads_to(
    handler: HandlerView,
    reply: ReplyView,
    session: SessionView,
    steps: Seq<TaskView>,
) -> bool {
    steps_after(handler, reply, session) matches Ok(found) && found =~~= steps
}

/// The reply is an error that says this.
pub open spec fn is_error(
    handler: HandlerView,
    reply: ReplyView,
    session: SessionView,
    message: Seq<char>,
    cause: Option<Seq<char>>,
) -> bool {
    steps_after(handler, reply, session) matches Err(error) && error.message =~= message
        && error.cause == cause
}

/// The trace line of a command that is about to be run, if commands are traced.
pub open spec fn announcement(
    stage: Stage,
    session: SessionView,
    program: Seq<char>,
    args: Seq<Seq<char>>,
) -> Seq<TaskView> {
    if session.tracing {
        seq![
            TaskView {
                stage,
                request: RequestView::PrintError {
                    text: join(seq!["+"@, program] + args, " "@),
                },
                handler: HandlerView::Ignore,
            },
        ]
    } else {
        Seq::empty()
    }
}

/// The reply lists this option of a mount.
pub open spec fn lists_option(reply: ReplyView, name: Seq<char>) -> bool {
    reply matches ReplyView::Options { list: Some(options) } && options.contains(name)
}

// ---------------------------------------------------------------------------------------------
// Setting up.
// ---------------------------------------------------------------------------------------------

/// Once it is known whether there is a log file, the greeting is printed and logged, the search path
/// is set to what was ordered, and the question about systemd is asked, on behalf of the same orders.
pub proof fn law_a_boot_greets_and_sets_its_path(
    args: ArgsView,
    reply: ReplyView,
    session: SessionView,
)
    ensures
        session_after(HandlerView::LogDirectory { args }, reply, session) == (SessionView {
            log_dest: if reply is Failed {
                None
            } else {
                Some("/run/log/stage-2-init.log"@)
            },
            tracing: session.tracing,
            captured: session.captured,
        }),
        leads_to(
            HandlerView::LogDirectory { args },
            reply,
            session,
            seq![
                st(
                    Stage::Setup,
                    RequestView::Print { text: args.greeting },
                    HandlerView::Ignore,
                ),
                st(
                    Stage::Setup,
                    RequestView::Log {
                        dest: if reply is Failed {
                            None
                        } else {
                            Some("/run/log/stage-2-init.log"@)
                        },
                        text: "stage-2-init: "@ + args.greeting,
                    },
                    HandlerView::Ignore,
                ),
                st(
                    Stage::Setup,
                    RequestView::Info { text: "Setting PATH to: "@ + args.path },
                    HandlerView::Ignore,
                ),
                st(
                    Stage::Setup,
                    RequestView::SetEnv { name: "PATH"@, value: args.path },
                    HandlerView::Ignore,
                ),
                st(
                    Stage::Setup,
                    RequestView::ReadEnv { name: "IN_NIXOS_SYSTEMD_STAGE1"@ },
                    HandlerView::SystemdStage1 { args },
                ),
            ],
        ),
{
}

/// Systemd ran the first stage exactly if the variable holds the word `true`; the kernel command line
/// is looked at either way, on behalf of the same orders.
pub proof fn law_the_variable_tells_of_systemd(
    args: ArgsView,
    reply: ReplyView,
    session: SessionView,
)
    ensures
        session_after(HandlerView::SystemdStage1 { args }, reply, session) == session,
        reply == (ReplyView::Text { content: Some("true"@) }) ==> leads_to(
            HandlerView::SystemdStage1 { args },
            reply,
            session,
            seq![
                line(
                    Stage::Setup,
                    session,
                    "stage-2-init: running in systemd stage 1 mode, skipping early mount setup"@,
                ),
                st(
                    Stage::Setup,
                    RequestView::ReadFile { path: "/proc/cmdline"@ },
                    HandlerView::KernelCommandLine { args, after_systemd: true },
                ),
            ],
        ),
        reply != (ReplyView::Text { content: Some("true"@) }) ==> leads_to(
            HandlerView::SystemdStage1 { args },
            reply,
            session,
            seq![
                st(
                    Stage::Setup,
                    RequestView::ReadFile { path: "/proc/cmdline"@ },
                    HandlerView::KernelCommandLine { args, after_systemd: false },
                ),
            ],
        ),
{
}

/// The word `boot.debugtrace` on the kernel command line, and nothing else there, turns tracing on:
/// for the logger, for every shell that is run, and for the commands of this boot.  The stages of
/// the same orders follow.
pub proof fn law_the_command_line_turns_tracing_on(
    args: ArgsView,
    after_systemd: bool,
    reply: ReplyView,
    session: SessionView,
)
    ensures
        ({
            let handler = HandlerView::KernelCommandLine { args, after_systemd };
            let flagged = reply matches ReplyView::Text { content: Some(text) } && has_word(
                text,
                "boot.debugtrace"@,
            );
            let known = session_after(handler, reply, session);
            &&& known == (SessionView {
                log_dest: session.log_dest,
                tracing: session.tracing || flagged,
                captured: session.captured,
            })
            &&& flagged ==> leads_to(
                handler,
                reply,
                session,
                seq![
                    st(Stage::Setup, RequestView::EnableTracing, HandlerView::Ignore),
                    st(
                        Stage::Setup,
                        RequestView::SetEnv { name: "SHELLOPTS"@, value: "xtrace"@ },
                        HandlerView::Ignore,
                    ),
                    line(
                        Stage::Setup,
                        session,
                        "stage-2-init: boot.debugtrace set; xtrace + subprocess tracing enabled"@,
                    ),
                ] + stages(args, after_systemd, known),
            )
            &&& !flagged ==> leads_to(
                handler,
                reply,
                session,
                stages(args, after_systemd, known),
            )
        }),
{
}

// ---------------------------------------------------------------------------------------------
// Mounts.
// ---------------------------------------------------------------------------------------------

/// The root of a container is left alone; of any other the options are looked at.
pub proof fn law_only_a_container_keeps_its_root_as_it_is(reply: ReplyView, session: SessionView)
    ensures
        reply == (ReplyView::Flag { value: true }) ==> leads_to(
            HandlerView::Container,
            reply,
            session,
            Seq::empty(),
        ),
        reply != (ReplyView::Flag { value: true }) ==> leads_to(
            HandlerView::Container,
            reply,
            session,
            seq![
                st(
                    Stage::RemountRoot,
                    RequestView::MountOptions { path: "/"@ },
                    HandlerView::RootOptions,
                ),
            ],
        ),
{
}

/// The root is remounted in place, never read-only, and with exactly the properties that its options
/// name: each of them if the option is listed, none if the options could not be found.
pub proof fn law_the_root_keeps_its_properties(reply: ReplyView, session: SessionView)
    ensures
        ({
            &&& steps_after(HandlerView::RootOptions, reply, session) matches Ok(steps)
            &&& steps.len() == 2
            &&& steps[0] == line(
                Stage::RemountRoot,
                session,
                "stage-2-init: remounting / read-write"@,
            )
            &&& steps[1].stage == Stage::RemountRoot
            &&& steps[1].handler == HandlerView::RootRemounted
            &&& steps[1].request matches RequestView::Mount { source, target, fstype, flags, data }
            &&& source is None && target == "/"@ && fstype is None && data is None
            &&& flags.contains(5)
            &&& flags.contains(1) <==> lists_option(reply, "nosuid"@)
            &&& flags.contains(2) <==> lists_option(reply, "nodev"@)
            &&& flags.contains(3) <==> lists_option(reply, "noexec"@)
            &&& flags.contains(4) <==> lists_option(reply, "sync"@)
            &&& flags.contains(7) <==> lists_option(reply, "dirsync"@)
            &&& flags.contains(10) <==> lists_option(reply, "noatime"@)
            &&& flags.contains(11) <==> lists_option(reply, "nodiratime"@)
            &&& flags.contains(21) <==> lists_option(reply, "relatime"@)
            &&& flags.contains(24) <==> lists_option(reply, "strictatime"@)
            &&& flags.contains(25) <==> lists_option(reply, "lazytime"@)
            &&& forall|b: nat| #[trigger]
                flags.contains(b) ==> b == 5 || b == 1 || b == 2 || b == 3 || b == 4 || b == 7 || b
                    == 10 || b == 11 || b == 21 || b == 24 || b == 25
        }),
{
    if let ReplyView::Options { list: Some(options) } = reply {
        law_remounts_go_by_the_names_of_options(options);
    }
}

/// Where `/proc` is there nothing is mounted early.  Elsewhere the script is sourced if there is one,
/// in a shell that reads it as one word; without a script each of the special file systems is asked
/// about, in an order in which none comes before the one that it is mounted on.
pub proof fn law_early_mounts_are_made_once(
    script: Option<Seq<char>>,
    reply: ReplyView,
    session: SessionView,
)
    ensures
        reply == (ReplyView::Flag { value: true }) ==> leads_to(
            HandlerView::ProcMounted { early_script: script },
            reply,
            session,
            Seq::empty(),
        ),
        reply != (ReplyView::Flag { value: true }) && script is None ==> leads_to(
            HandlerView::ProcMounted { early_script: script },
            reply,
            session,
            seq![
                line(
                    Stage::EarlyMounts,
                    session,
                    "stage-2-init: warning: no --early-mount-script; only mounting the hardcoded /proc, /dev, /sys, /dev/pts, /dev/shm set. Any additional boot.specialFileSystems entries will be absent."@,
                ),
                line(
                    Stage::SpecialFilesystems,
                    session,
                    "stage-2-init: mounting special filesystems"@,
                ),
                st(
                    Stage::SpecialFilesystems,
                    RequestView::IsMounted { path: "/proc"@ },
                    HandlerView::SpecialMounted { fs: SpecialFs::Proc },
                ),
                st(
                    Stage::SpecialFilesystems,
                    RequestView::IsMounted { path: "/dev"@ },
                    HandlerView::SpecialMounted { fs: SpecialFs::Dev },
                ),
                st(
                    Stage::SpecialFilesystems,
                    RequestView::IsMounted { path: "/sys"@ },
                    HandlerView::SpecialMounted { fs: SpecialFs::Sys },
                ),
                st(
                    Stage::SpecialFilesystems,
                    RequestView::IsMounted { path: "/dev/pts"@ },
                    HandlerView::SpecialMounted { fs: SpecialFs::DevPts },
                ),
                st(
                    Stage::SpecialFilesystems,
                    RequestView::IsMounted { path: "/dev/shm"@ },
                    HandlerView::SpecialMounted { fs: SpecialFs::DevShm },
                ),
            ],
        ),
{
}

/// The commands source a word that a shell reads as the script, after a line that makes them stop at
/// the first error, and that makes them trace themselves exactly if tracing is on.
pub open spec fn sources(commands: Seq<char>, script: Seq<char>, tracing: bool) -> bool {
    exists|word: Seq<char>| #[trigger]
        shell_reads(word, false) == Some(script) && commands == (if tracing {
            "set -ex"@
        } else {
            "set -e"@
        }) + "
specialMount() {
    local device=\"$1\"
    local mountPoint=\"$2\"
    local options=\"$3\"
    local fsType=\"$4\"
    if [ \"${IN_NIXOS_SYSTEMD_STAGE1:-}\" = \"true\" ] && [ \"$mountPoint\" = \"/run\" ]; then
        return
    fi
    install -m 0755 -d \"$mountPoint\"
    mount -n -t \"$fsType\" -o \"$options\" \"$device\" \"$mountPoint\"
}
. "@ + word + "\n"@
}

/// An early mount script is announced in the log, and sourced by `/bin/sh`.
pub proof fn law_an_early_mount_script_is_sourced(
    script: Seq<char>,
    reply: ReplyView,
    session: SessionView,
)
    requires
        reply != (ReplyView::Flag { value: true }),
    ensures
        exists|commands: Seq<char>| #[trigger]
            sources(commands, script, session.tracing) && leads_to(
                HandlerView::ProcMounted { early_script: Some(script) },
                reply,
                session,
                seq![
                    line(
                        Stage::EarlyMountScript,
                        session,
                        "stage-2-init: sourcing early mount script: "@ + script,
                    ),
                ] + announcement(
                    Stage::EarlyMountScript,
                    session,
                    "/bin/sh"@,
                    seq!["-c"@, commands],
                ) + seq![
                    st(
                        Stage::EarlyMountScript,
                        RequestView::Spawn {
                            program: "/bin/sh"@,
                            args: seq!["-c"@, commands],
                            stdin: None,
                        },
                        HandlerView::EarlyScriptRun { script },
                    ),
                ],
            ),
{
    let commands = early_mount_commands(script, session.tracing);
    law_the_wrapper_sources_the_script(script, session.tracing);
    law_trace_lines_name_the_whole_command("/bin/sh"@, seq!["-c"@, commands]);
    assert(sources(commands, script, session.tracing));
}

/// A special file system that is mounted is left alone.  Any other gets its mount point, and is then
/// mounted there under its own type: never with privileges, `/proc` and `/sys` without device nodes
/// and programs, `/dev` and `/dev/pts` without programs, `/dev/shm` without device nodes.
pub proof fn law_special_file_systems_are_mounted(
    fs: SpecialFs,
    reply: ReplyView,
    session: SessionView,
)
    ensures
        ({
            let (target, fstype, flags, data) = match fs {
                SpecialFs::Proc => ("/proc"@, "proc"@, set![1nat, 2nat, 3nat], None),
                SpecialFs::Dev => ("/dev"@, "devtmpfs"@, set![1nat, 3nat], None),
                SpecialFs::Sys => ("/sys"@, "sysfs"@, set![1nat, 2nat, 3nat], None),
                SpecialFs::DevPts => (
                    "/dev/pts"@,
                    "devpts"@,
                    set![1nat, 3nat],
                    Some("mode=620,ptmxmode=0666"@),
                ),
                SpecialFs::DevShm => ("/dev/shm"@, "tmpfs"@, set![1nat, 2nat], Some("mode=1777"@)),
            };
            if reply == (ReplyView::Flag { value: true }) {
                leads_to(HandlerView::SpecialMounted { fs }, reply, session, Seq::empty())
            } else {
                leads_to(
                    HandlerView::SpecialMounted { fs },
                    reply,
                    session,
                    seq![
                        st(
                            Stage::SpecialFilesystems,
                            RequestView::CreateDirectory { path: target },
                            HandlerView::SpecialDirectory,
                        ),
                        st(
                            Stage::SpecialFilesystems,
                            RequestView::Mount {
                                source: Some(fstype),
                                target,
                                fstype: Some(fstype),
                                flags,
                                data,
                            },
                            HandlerView::SpecialMount { fs },
                        ),
                    ],
                )
            }
        }),
{
    match fs {
        SpecialFs::Proc => {
            assert(fs.spec_flags() =~= set![1nat, 2nat, 3nat]);
        },
        SpecialFs::Dev => {
            assert(fs.spec_flags() =~= set![1nat, 3nat]);
        },
        SpecialFs::Sys => {
            assert(fs.spec_flags() =~= set![1nat, 2nat, 3nat]);
        },
        SpecialFs::DevPts => {
            assert(fs.spec_flags() =~= set![1nat, 3nat]);
        },
        SpecialFs::DevShm => {
            assert(fs.spec_flags() =~= set![1nat, 2nat]);
        },
    }
}

// ---------------------------------------------------------------------------------------------
// The store.
// ---------------------------------------------------------------------------------------------

/// A store that exists gets its owner, its permissions, and a look at the options that it is mounted
/// with; one that does not is only noted.
pub proof fn law_a_store_is_set_up_if_it_exists(
    options: Seq<char>,
    reply: ReplyView,
    session: SessionView,
)
    ensures
        reply == (ReplyView::Flag { value: true }) ==> leads_to(
            HandlerView::StoreExists { options },
            reply,
            session,
            seq![
                line(
                    Stage::NixStore,
                    session,
                    "stage-2-init: setting up /nix/store permissions"@,
                ),
                st(
                    Stage::NixStore,
                    RequestView::LookupGroup { name: "nixbld"@ },
                    HandlerView::StoreGroup,
                ),
                st(
                    Stage::NixStore,
                    RequestView::Chmod { path: "/nix/store"@, mode: 0o1775 },
                    HandlerView::StoreMode,
                ),
                st(
                    Stage::NixStore,
                    RequestView::MountOptions { path: "/nix/store"@ },
                    HandlerView::StoreOptions { desired: option_list(options) },
                ),
            ],
        ),
        reply != (ReplyView::Flag { value: true }) ==> leads_to(
            HandlerView::StoreExists { options },
            reply,
            session,
            seq![
                line(
                    Stage::NixStore,
                    session,
                    "stage-2-init: /nix/store does not exist, skipping setup"@,
                ),
            ],
        ),
{
}

/// The store belongs to root and to the group that was found, whatever its number, and to the usual
/// number where none was found.
pub proof fn law_the_store_belongs_to_its_group(reply: ReplyView, session: SessionView)
    ensures
        leads_to(
            HandlerView::StoreGroup,
            reply,
            session,
            seq![
                st(
                    Stage::NixStore,
                    RequestView::Chown {
                        path: "/nix/store"@,
                        uid: 0,
                        gid: match reply {
                            ReplyView::Group { gid: Some(gid) } => gid,
                            _ => 30000u32,
                        },
                    },
                    HandlerView::StoreOwner,
                ),
            ],
        ),
{
}

/// A store that takes neither owner nor permissions is warned of, with the reason, and nothing more.
pub proof fn law_a_stubborn_store_is_warned_of(reply: ReplyView, session: SessionView)
    ensures
        reply matches ReplyView::Failed { reason } ==> {
            &&& leads_to(
                HandlerView::StoreOwner,
                reply,
                session,
                seq![
                    warning(
                        Stage::NixStore,
                        "Failed to chown /nix/store: "@ + reason + " (continuing)"@,
                    ),
                ],
            )
            &&& leads_to(
                HandlerView::StoreMode,
                reply,
                session,
                seq![
                    warning(
                        Stage::NixStore,
                        "Failed to chmod /nix/store: "@ + reason + " (continuing)"@,
                    ),
                ],
            )
        },
        !(reply is Failed) ==> {
            &&& leads_to(HandlerView::StoreOwner, reply, session, Seq::empty())
            &&& leads_to(HandlerView::StoreMode, reply, session, Seq::empty())
        },
{
}

/// A store whose mount lists every wanted option is left alone.  Otherwise all the flags that the
/// wanted options name are on their way to the mount, listed or not, and so is every other wanted
/// option that is not listed.
pub proof fn law_the_store_gets_what_it_lacks(
    desired: Seq<Seq<char>>,
    reply: ReplyView,
    session: SessionView,
)
    ensures
        (forall|opt: Seq<char>| #[trigger] desired.contains(opt) ==> lists_option(reply, opt))
            ==> leads_to(HandlerView::StoreOptions { desired }, reply, session, Seq::empty()),
        !(forall|opt: Seq<char>| #[trigger] desired.contains(opt) ==> lists_option(reply, opt)) ==> {
            &&& steps_after(HandlerView::StoreOptions { desired }, reply, session) matches Ok(steps)
            &&& steps.len() == 2
            &&& steps[1].stage == Stage::NixStore
            &&& steps[1].request == (RequestView::HasEnv { name: "container"@ })
            &&& steps[1].handler matches HandlerView::StoreContainer { flags, data }
            &&& flags.contains(0) <==> desired.contains("ro"@) || desired.contains("rdonly"@)
            &&& flags.contains(1) <==> desired.contains("nosuid"@)
            &&& flags.contains(2) <==> desired.contains("nodev"@)
            &&& flags.contains(3) <==> desired.contains("noexec"@)
            &&& flags.contains(10) <==> desired.contains("noatime"@)
            &&& flags.contains(11) <==> desired.contains("nodiratime"@)
            &&& forall|b: nat| #[trigger]
                flags.contains(b) ==> b == 0 || b == 1 || b == 2 || b == 3 || b == 10 || b == 11
            &&& forall|opt: Seq<char>| #[trigger]
                data.contains(opt) <==> desired.contains(opt) && !lists_option(reply, opt) && opt
                    != "ro"@ && opt != "rdonly"@ && opt != "nosuid"@ && opt != "nodev"@ && opt
                    != "noexec"@ && opt != "noatime"@ && opt != "nodiratime"@
            &&& steps[0] == line(
                Stage::NixStore,
                session,
                "stage-2-init: applying mount options to /nix/store: flags="@ + flags_debug(
                    missing_flags(desired, listed(reply)),
                ) + " data="@ + list_debug(data),
            )
        },
{
    let current = listed(reply);
    assert(options_or_empty(reply) =~= current);
    law_a_complete_store_is_left_alone(desired, current, session);
    assert forall|opt: Seq<char>| true implies #[trigger] lists_option(reply, opt)
        == current.contains(opt) by {}
    if forall|opt: Seq<char>| #[trigger] desired.contains(opt) ==> lists_option(reply, opt) {
        assert forall|opt: Seq<char>| desired.contains(opt) implies #[trigger] current.contains(
            opt,
        ) by {
            assert(lists_option(reply, opt));
        }
        assert(leads_to(HandlerView::StoreOptions { desired }, reply, session, Seq::empty()));
    } else {
        let opt = choose|opt: Seq<char>| #[trigger]
            desired.contains(opt) && !lists_option(reply, opt);
        assert(!current.contains(opt));
        law_wanted_flags_go_by_the_names_of_options(desired);
        let data = missing_data(desired, current);
        assert forall|opt: Seq<char>| #[trigger]
            data.contains(opt) <==> desired.contains(opt) && !lists_option(reply, opt) && opt
                != "ro"@ && opt != "rdonly"@ && opt != "nosuid"@ && opt != "nodev"@ && opt
                != "noexec"@ && opt != "noatime"@ && opt != "nodiratime"@ by {
            law_other_missing_options_are_passed_on(desired, current, opt);
            law_store_options_go_by_their_names(opt);
        }
    }
}

/// The options that a reply lists.
pub open spec fn listed(reply: ReplyView) -> Seq<Seq<char>> {
    match reply {
        ReplyView::Options { list: Some(options) } => options,
        _ => Seq::empty(),
    }
}

/// The store is mounted onto itself, in a container along with the mounts below it, and what is on
/// its way to the mount stays so.
pub proof fn law_the_store_is_bound_to_itself(
    flags: Set<nat>,
    data: Seq<Seq<char>>,
    reply: ReplyView,
    session: SessionView,
)
    ensures
        leads_to(
            HandlerView::StoreContainer { flags, data },
            reply,
            session,
            seq![
                st(
                    Stage::NixStore,
                    RequestView::Mount {
                        source: Some("/nix/store"@),
                        target: "/nix/store"@,
                        fstype: None,
                        flags: if reply == (ReplyView::Flag { value: true }) {
                            set![12nat, 14nat]
                        } else {
                            set![12nat]
                        },
                        data: None,
                    },
                    HandlerView::StoreBound { flags, data },
                ),
            ],
        ),
{
}

/// A store that is mounted onto itself is remounted in place, with every flag and every option that
/// was on its way there, and with nothing else.
pub proof fn law_the_store_is_remounted_with_its_options(
    flags: Set<nat>,
    data: Seq<Seq<char>>,
    reply: ReplyView,
    session: SessionView,
)
    ensures
        !(reply is Failed) ==> leads_to(
            HandlerView::StoreBound { flags, data },
            reply,
            session,
            seq![
                st(
                    Stage::NixStore,
                    RequestView::Mount {
                        source: None,
                        target: "/nix/store"@,
                        fstype: None,
                        flags: set![5nat, 12nat].union(flags),
                        data: if data.len() == 0 {
                            None
                        } else {
                            Some(join(data, ","@))
                        },
                    },
                    HandlerView::StoreRemounted,
                ),
            ],
        ),
        !(reply is Failed) ==> leads_to(HandlerView::StoreRemounted, reply, session, Seq::empty()),
        reply is Failed ==> {
            let warned = seq![
                warning(
                    Stage::NixStore,
                    "Failed to set up /nix/store: "@
                        + "Failed to apply /nix/store mount options"@ + " (continuing)"@,
                ),
            ];
            &&& leads_to(HandlerView::StoreBound { flags, data }, reply, session, warned)
            &&& leads_to(HandlerView::StoreRemounted, reply, session, warned)
        },
{
}

/// The errors of the store's mounts name the mount that failed, and why it did.
pub proof fn law_errors_of_the_store_say_what_failed(
    flags: Set<nat>,
    data: Seq<Seq<char>>,
    reason: Seq<char>,
)
    ensures
        store_bound_steps(flags, data, ReplyView::Failed { reason }) == Err::<
            Seq<TaskView>,
            BootErrorView,
        >(BootErrorView { message: "Failed to bind mount /nix/store"@, cause: Some(reason) }),
        store_remounted_steps(ReplyView::Failed { reason }) == Err::<
            Seq<TaskView>,
            BootErrorView,
        >(BootErrorView { message: "Failed to remount /nix/store"@, cause: Some(reason) }),
{
}

// ---------------------------------------------------------------------------------------------
// The resolver.
// ---------------------------------------------------------------------------------------------

/// A resolver configuration that is there is registered under the name of the host, with the file as
/// the input of the command, whether commands are traced or not.
pub proof fn law_the_host_resolver_is_registered(reply: ReplyView, session: SessionView)
    ensures
        reply == (ReplyView::Flag { value: true }) ==> leads_to(
            HandlerView::ResolvConfExists,
            reply,
            session,
            announcement(
                Stage::ResolvConf,
                session,
                "resolvconf"@,
                seq!["-m"@, "1000"@, "-a"@, "host"@],
            ) + seq![
                st(
                    Stage::ResolvConf,
                    RequestView::Spawn {
                        program: "resolvconf"@,
                        args: seq!["-m"@, "1000"@, "-a"@, "host"@],
                        stdin: Some("/etc/resolv.conf"@),
                    },
                    HandlerView::ResolvConfRun,
                ),
            ],
        ),
        reply != (ReplyView::Flag { value: true }) ==> leads_to(
            HandlerView::ResolvConfExists,
            reply,
            session,
            Seq::empty(),
        ),
{
    law_trace_lines_name_the_whole_command(
        "resolvconf"@,
        seq!["-m"@, "1000"@, "-a"@, "host"@],
    );
}

/// How the registration went is logged, and nothing else comes of it.
pub proof fn law_the_registration_is_logged(reply: ReplyView, session: SessionView)
    ensures
        reply matches ReplyView::Exited { success, text, .. } ==> leads_to(
            HandlerView::ResolvConfRun,
            reply,
            session,
            seq![
                line(
                    Stage::ResolvConf,
                    session,
                    if success {
                        "stage-2-init: registered host resolv.conf via resolvconf"@
                    } else {
                        "stage-2-init: warning: resolvconf exited with "@ + text
                    },
                ),
            ],
        ),
        reply matches ReplyView::Failed { reason } ==> leads_to(
            HandlerView::ResolvConfRun,
            reply,
            session,
            seq![
                line(
                    Stage::ResolvConf,
                    session,
                    "stage-2-init: warning: failed to invoke resolvconf: "@ + reason,
                ),
            ],
        ),
{
}

// ---------------------------------------------------------------------------------------------
// The capture.
// ---------------------------------------------------------------------------------------------

/// The line of the log that says why nothing is captured.
pub open spec fn nothing_captured(session: SessionView, why: Seq<char>) -> TaskView {
    line(
        Stage::CaptureStdio,
        session,
        "stage-2-init: warning: stdio capture unavailable: "@ + why,
    )
}

/// With copies of both descriptors the kernel log is asked about, and both copies are kept, each in
/// its place; without them nothing is captured, and the boot goes on.
pub proof fn law_both_copies_are_kept(reply: ReplyView, session: SessionView)
    ensures
        reply matches ReplyView::Duplicates { stdout, stderr, reason } ==> if stdout < 0 || stderr
            < 0 {
            leads_to(
                HandlerView::StdioDuplicated,
                reply,
                session,
                seq![nothing_captured(session, "dup of stdout/stderr failed: "@ + reason)],
            )
        } else {
            leads_to(
                HandlerView::StdioDuplicated,
                reply,
                session,
                seq![
                    st(
                        Stage::CaptureStdio,
                        RequestView::CanAppend { path: "/dev/kmsg"@ },
                        HandlerView::KernelLog { saved: SavedStdio { stdout, stderr } },
                    ),
                ],
            )
        },
        session_after(HandlerView::StdioDuplicated, reply, session) == session,
{
}

/// The command passes every line on to the descriptor that the digits stand for, and writes it to the
/// kernel log, or else to the log file.
pub open spec fn tees(command: Seq<char>, digits: Seq<char>, kernel_log: bool) -> bool {
    if kernel_log {
        command == "set +x; exec tee -i /proc/self/fd/"@ + digits
            + " | while IFS= read -r line; do if [ -n \"$line\" ]; then printf '<7>stage-2-init: %s\\n' \"$line\" > /dev/kmsg; fi; done"@
    } else {
        command == "set +x; mkdir -p /run/log && exec tee -i /proc/self/fd/"@ + digits
            + " /run/log/stage-2-init.log"@
    }
}

/// These are decimal digits, and they stand for the number.
pub open spec fn are_digits_of(digits: Seq<char>, n: nat) -> bool {
    &&& digits.len() > 0
    &&& forall|i: int| 0 <= i < digits.len() ==> '0' <= #[trigger] digits[i] <= '9'
    &&& digits_value(digits) == n
}

/// The command passes every line on to the descriptor of this number.
pub open spec fn passes_on(command: Seq<char>, descriptor: nat, kernel_log: bool) -> bool {
    exists|digits: Seq<char>| #[trigger]
        are_digits_of(digits, descriptor) && tees(command, digits, kernel_log)
}

/// The console keeps seeing every line: the capture passes it on to the copy of standard output that
/// was made, by its number, and writes it to the kernel log exactly if that can be appended to.
pub proof fn law_the_console_keeps_seeing_every_line(
    saved: SavedStdio,
    reply: ReplyView,
    session: SessionView,
)
    requires
        saved.stdout >= 0,
    ensures
        ({
            &&& steps_after(HandlerView::KernelLog { saved }, reply, session) matches Ok(steps)
            &&& steps.len() == 1
            &&& steps[0].stage == Stage::CaptureStdio
            &&& steps[0].handler matches HandlerView::CaptureStarted { saved: kept, kernel_log }
            &&& kept == saved
            &&& kernel_log <==> reply == (ReplyView::Flag { value: true })
            &&& steps[0].request matches RequestView::StartCapture { command }
            &&& passes_on(command, saved.stdout as nat, kernel_log)
        }),
{
    law_decimals_stand_for_their_number(saved.stdout as nat);
    let kernel_log = reply.is_yes();
    let digits = decimal(saved.stdout as nat);
    let command = capture_commands(saved.stdout, kernel_log);
    let steps = steps_after(HandlerView::KernelLog { saved }, reply, session)->Ok_0;
    assert(steps[0].request == (RequestView::StartCapture { command }));
    assert(tees(command, digits, kernel_log));
    assert(are_digits_of(digits, saved.stdout as nat));
    assert(passes_on(command, saved.stdout as nat, kernel_log));
}

/// Captures that pass their lines on to different descriptors are different commands.
pub proof fn law_captures_of_different_descriptors_differ(a: i32, b: i32, kernel_log: bool)
    requires
        a >= 0,
        b >= 0,
        capture_commands(a, kernel_log) == capture_commands(b, kernel_log),
    ensures
        a == b,
{
    law_decimals_stand_for_their_number(a as nat);
    law_decimals_stand_for_their_number(b as nat);
    let x = decimal(a as nat);
    let y = decimal(b as nat);
    let (pre, post) = if kernel_log {
        (
            "set +x; exec tee -i /proc/self/fd/"@,
            " | while IFS= read -r line; do if [ -n \"$line\" ]; then printf '<7>stage-2-init: %s\\n' \"$line\" > /dev/kmsg; fi; done"@,
        )
    } else {
        (
            "set +x; mkdir -p /run/log && exec tee -i /proc/self/fd/"@,
            " /run/log/stage-2-init.log"@,
        )
    };
    assert(pre + x + post == pre + y + post);
    assert((pre + x + post).len() == (pre + y + post).len());
    assert(x.len() == y.len());
    assert forall|i: int| 0 <= i < x.len() implies x[i] == y[i] by {
        assert((pre + x + post)[pre.len() + i] == x[i]);
        assert((pre + y + post)[pre.len() + i] == y[i]);
    }
    assert(x =~= y);
}

/// Once the capture runs, both descriptors are redirected; if it does not, nothing is captured, and
/// the log says why.
pub proof fn law_a_running_capture_is_used(
    saved: SavedStdio,
    kernel_log: bool,
    reply: ReplyView,
    session: SessionView,
)
    ensures
        reply matches ReplyView::Failed { reason } ==> leads_to(
            HandlerView::CaptureStarted { saved, kernel_log },
            reply,
            session,
            seq![nothing_captured(session, "Failed to spawn stdio capture helper: "@ + reason)],
        ),
        reply is NoPipe ==> leads_to(
            HandlerView::CaptureStarted { saved, kernel_log },
            reply,
            session,
            seq![nothing_captured(session, "capture child missing stdin"@)],
        ),
        !(reply is Failed) && !(reply is NoPipe) ==> leads_to(
            HandlerView::CaptureStarted { saved, kernel_log },
            reply,
            session,
            seq![
                st(
                    Stage::CaptureStdio,
                    RequestView::RedirectStdio,
                    HandlerView::StdioRedirected { saved, kernel_log },
                ),
            ],
        ),
        session_after(HandlerView::CaptureStarted { saved, kernel_log }, reply, session) == session,
{
}

/// Redirected descriptors are noted, to be given back, and the log says where the lines go.  If they
/// could not both be redirected they are given back at once, each from its own copy.
pub proof fn law_redirected_descriptors_are_noted(
    saved: SavedStdio,
    kernel_log: bool,
    reply: ReplyView,
    session: SessionView,
)
    ensures
        !(reply is Failed) ==> {
            &&& session_after(
                HandlerView::StdioRedirected { saved, kernel_log },
                reply,
                session,
            ).captured == Some(saved)
            &&& leads_to(
                HandlerView::StdioRedirected { saved, kernel_log },
                reply,
                session,
                seq![
                    line(
                        Stage::CaptureStdio,
                        session,
                        "stage-2-init: capturing stdio via "@ + if kernel_log {
                            "/dev/kmsg"@
                        } else {
                            "/run/log/stage-2-init.log"@
                        },
                    ),
                ],
            )
        },
        reply matches ReplyView::Failed { reason } ==> {
            &&& session_after(
                HandlerView::StdioRedirected { saved, kernel_log },
                reply,
                session,
            ).captured is None
            &&& leads_to(
                HandlerView::StdioRedirected { saved, kernel_log },
                reply,
                session,
                seq![
                    st(
                        Stage::CaptureStdio,
                        RequestView::RestoreStdio {
                            stdout: saved.stdout,
                            stderr: saved.stderr,
                        },
                        HandlerView::Ignore,
                    ),
                    nothing_captured(session, "dup2 onto stdio failed: "@ + reason),
                ],
            )
        },
{
}

// ---------------------------------------------------------------------------------------------
// Activation, and what comes after.
// ---------------------------------------------------------------------------------------------

/// The activation script of a configuration is the entry `activate` of its directory.
pub open spec fn is_script_of(script: Seq<char>, system_config: Seq<char>) -> bool {
    if system_config.len() == 0 {
        script == "activate"@
    } else if system_config.last() == '/' {
        script == system_config + "activate"@
    } else {
        script == system_config + "/"@ + "activate"@
    }
}

/// A script that is there is looked at once more and then run, without arguments, with the system
/// configuration in its environment; one that is missing is warned of, unless it is an error.
pub proof fn law_activation_runs_the_script(
    system_config: Seq<char>,
    strict: bool,
    reply: ReplyView,
    session: SessionView,
)
    ensures
        reply == (ReplyView::Flag { value: true }) ==> exists|script: Seq<char>| #[trigger]
            is_script_of(script, system_config) && leads_to(
                HandlerView::ActivationExists { system_config, strict },
                reply,
                session,
                seq![
                    st(
                        Stage::Activation,
                        RequestView::PathExists { path: script },
                        HandlerView::ActivationStillExists { system_config },
                    ),
                ],
            ) && leads_to(
                HandlerView::ActivationStillExists { system_config },
                reply,
                session,
                seq![
                    line(
                        Stage::Activation,
                        session,
                        "stage-2-init: running activation script: "@ + script,
                    ),
                    st(
                        Stage::Activation,
                        RequestView::SetEnv {
                            name: "NIXOS_SYSTEM_CONFIG"@,
                            value: system_config,
                        },
                        HandlerView::Ignore,
                    ),
                ] + announcement(Stage::Activation, session, script, Seq::empty()) + seq![
                    st(
                        Stage::Activation,
                        RequestView::Spawn { program: script, args: Seq::empty(), stdin: None },
                        HandlerView::ActivationRun { script },
                    ),
                ],
            ),
        reply != (ReplyView::Flag { value: true }) && !strict ==> leads_to(
            HandlerView::ActivationExists { system_config, strict },
            reply,
            session,
            seq![
                warning(
                    Stage::Activation,
                    "system config at "@ + system_config
                        + " has no activate script; skipping activation"@,
                ),
            ],
        ),
        reply == (ReplyView::Flag { value: true }) ==> leads_to(
            HandlerView::SystemConfigExists { system_config },
            reply,
            session,
            Seq::empty(),
        ),
{
    let script = activation_script(system_config);
    law_trace_lines_name_the_whole_command(script, Seq::empty());
    assert(is_script_of(script, system_config));
}

/// Scripts that ended are not held against the boot: one that failed is reported with its exit code,
/// and one that did not is passed over.
pub proof fn law_scripts_that_end_badly_are_reported(
    script: Seq<char>,
    shell: Seq<char>,
    commands: Seq<char>,
    success: bool,
    code: Option<i32>,
    text: Seq<char>,
    session: SessionView,
)
    ensures
        ({
            let reply = ReplyView::Exited { success, code, text };
            &&& leads_to(
                HandlerView::ActivationRun { script },
                reply,
                session,
                if success {
                    Seq::empty()
                } else {
                    seq![
                        warning(
                            Stage::Activation,
                            "Activation script exited with code "@ + optional_number(code)
                                + " (continuing)"@,
                        ),
                    ]
                },
            )
            &&& leads_to(
                HandlerView::PostBootRun { shell, commands },
                reply,
                session,
                if success {
                    Seq::empty()
                } else {
                    seq![
                        line(
                            Stage::PostBoot,
                            session,
                            "stage-2-init: warning: post-boot commands failed with exit code: "@
                                + optional_number(code),
                        ),
                    ]
                },
            )
            &&& success ==> leads_to(
                HandlerView::EarlyScriptRun { script },
                reply,
                session,
                Seq::empty(),
            )
        }),
{
}

/// Post-boot commands that are there are run by their shell, which gets their file as its last
/// argument, and before that the flag that makes it trace them exactly if commands are traced.
pub proof fn law_post_boot_commands_go_through_the_shell(
    shell: Seq<char>,
    commands: Seq<char>,
    reply: ReplyView,
    session: SessionView,
)
    ensures
        ({
            let args = if session.tracing {
                seq!["-x"@, commands]
            } else {
                seq![commands]
            };
            reply == (ReplyView::Flag { value: true }) ==> leads_to(
                HandlerView::PostBootExists { shell, commands },
                reply,
                session,
                seq![
                    line(
                        Stage::PostBoot,
                        session,
                        "stage-2-init: running post-boot commands: "@ + shell + " "@ + commands,
                    ),
                ] + announcement(Stage::PostBoot, session, shell, args) + seq![
                    st(
                        Stage::PostBoot,
                        RequestView::Spawn { program: shell, args, stdin: None },
                        HandlerView::PostBootRun { shell, commands },
                    ),
                ],
            )
        }),
        reply != (ReplyView::Flag { value: true }) ==> leads_to(
            HandlerView::PostBootExists { shell, commands },
            reply,
            session,
            Seq::empty(),
        ),
{
    let args = if session.tracing {
        seq!["-x"@, commands]
    } else {
        seq![commands]
    };
    law_trace_lines_name_the_whole_command(shell, args);
}

// ---------------------------------------------------------------------------------------------
// Errors.
// ---------------------------------------------------------------------------------------------

/// An effect that failed where that stops the boot is an error that names it, with the reason that
/// the system gave.
pub proof fn law_errors_name_what_failed(
    fs: SpecialFs,
    path: Seq<char>,
    script: Seq<char>,
    shell: Seq<char>,
    reason: Seq<char>,
    session: SessionView,
)
    ensures
        ({
            let reply = ReplyView::Failed { reason };
            let why = Some(reason);
            &&& is_error(
                HandlerView::RootRemounted,
                reply,
                session,
                "mount -o remount,rw / failed"@,
                why,
            )
            &&& is_error(
                HandlerView::EarlyScriptRun { script },
                reply,
                session,
                "Failed to invoke /bin/sh to run "@ + script,
                why,
            )
            &&& is_error(HandlerView::SpecialDirectory, reply, session, reason, None)
            &&& is_error(
                HandlerView::SpecialMount { fs },
                reply,
                session,
                "Failed to mount "@ + match fs {
                    SpecialFs::Proc => "/proc"@,
                    SpecialFs::Dev => "/dev"@,
                    SpecialFs::Sys => "/sys"@,
                    SpecialFs::DevPts => "/dev/pts"@,
                    SpecialFs::DevShm => "/dev/shm"@,
                },
                why,
            )
            &&& is_error(
                HandlerView::DirectoryMade { path },
                reply,
                session,
                "Failed to create directory: "@ + path,
                why,
            )
            &&& is_error(HandlerView::TmpMode, reply, session, "Failed to chmod /tmp"@, why)
            &&& is_error(
                HandlerView::ResolvConfRun,
                ReplyView::NoInput { reason },
                session,
                "Failed to open /etc/resolv.conf for resolvconf"@,
                why,
            )
            &&& is_error(
                HandlerView::ActivationRun { script },
                reply,
                session,
                "Failed to execute activation script: "@ + script,
                why,
            )
            &&& is_error(
                HandlerView::BootRecorded { system_config: path },
                reply,
                session,
                "Failed to create symlink: /run/booted-system -> "@ + path,
                why,
            )
            &&& is_error(
                HandlerView::PostBootRun { shell, commands: path },
                reply,
                session,
                "Failed to execute post-boot commands: "@ + shell + " "@ + path,
                why,
            )
        }),
{
}

/// What is missing, and an early mount script that failed, is an error that names it.
pub proof fn law_errors_name_what_is_missing(
    system_config: Seq<char>,
    script: Seq<char>,
    code: Option<i32>,
    text: Seq<char>,
    reply: ReplyView,
    session: SessionView,
)
    requires
        reply != (ReplyView::Flag { value: true }),
    ensures
        is_error(
            HandlerView::EarlyScriptRun { script },
            ReplyView::Exited { success: false, code, text },
            session,
            "early mount script "@ + script + " exited with status "@ + text,
            None,
        ),
        is_error(
            HandlerView::SystemConfigExists { system_config },
            reply,
            session,
            "System configuration path does not exist: "@ + system_config,
            None,
        ),
        is_error(
            HandlerView::ActivationExists { system_config, strict: true },
            reply,
            session,
            "system config at "@ + system_config + " has no activate script"@,
            None,
        ),
        exists|path: Seq<char>| #[trigger]
            is_script_of(path, system_config) && is_error(
                HandlerView::ActivationStillExists { system_config },
                reply,
                session,
                "Activation script not found: "@ + path,
                None,
            ),
{
    assert(is_script_of(activation_script(system_config), system_config));
}

/// What an error is introduced with tells its stage.
pub proof fn law_errors_are_introduced_by_their_stage(stage: Stage)
    ensures
        stage.spec_context() == (match stage {
            Stage::RemountRoot => Some("Failed to remount / rw"@),
            Stage::EarlyMountScript => Some("Failed to run early mount script"@),
            Stage::SpecialFilesystems => Some("Failed to mount special filesystems"@),
            Stage::Directories => Some("Failed to create required directories"@),
            Stage::ResolvConf => Some("Failed to set up resolv.conf"@),
            Stage::Activation => Some("Activation script failed"@),
            Stage::BootRecord => Some("Failed to record boot configuration"@),
            Stage::PostBoot => Some("Post-boot commands failed"@),
            _ => None,
        }),
{
}

/// A reply that is an error ends the boot there, with the stage of the step and with that error; any
/// other leaves the failure as it was, puts the new steps first, and drops none of those that were
/// left.  Once nothing is left, captured descriptors are given back, each from its own copy, and only
/// once.
pub proof fn law_a_reply_is_followed_up(machine: MachineView, reply: ReplyView)
    requires
        !machine.finished(),
    ensures
        ({
            let task = machine.agenda[0];
            let known = session_after(task.handler, reply, machine.session);
            let now = machine.resumed(reply);
            let left = match steps_after(task.handler, reply, machine.session) {
                Ok(steps) => steps + machine.agenda.skip(1),
                Err(_) => Seq::empty(),
            };
            &&& now.session.log_dest == known.log_dest
            &&& now.session.tracing == known.tracing
            &&& match steps_after(task.handler, reply, machine.session) {
                Ok(_) => now.failure == machine.failure,
                Err(error) => now.failure matches Some(failure) && failure.stage == task.stage
                    && failure.error == error,
            }
            &&& left.len() > 0 ==> now.agenda == left && now.session.captured == known.captured
            &&& left.len() == 0 ==> now.session.captured is None && match known.captured {
                Some(saved) => now.agenda =~~= seq![
                    st(
                        Stage::RestoreStdio,
                        RequestView::RestoreStdio {
                            stdout: saved.stdout,
                            stderr: saved.stderr,
                        },
                        HandlerView::Ignore,
                    ),
                ],
                None => now.agenda == Seq::<TaskView>::empty(),
            }
        }),
        machine.request() == Some(machine.agenda[0].request),
{
}

/// A machine that is at its end stays there, and asks for nothing.
pub proof fn law_the_end_is_the_end(machine: MachineView, reply: ReplyView)
    requires
        machine.agenda.len() == 0,
    ensures
        machine.finished(),
        machine.resumed(reply) == machine,
        machine.request() is None,
{
}

/// Only three replies tell anything of the process: the one about the log, the one with the kernel
/// command line, and the one about the redirection.
pub proof fn law_no_other_reply_changes_the_session(
    handler: HandlerView,
    reply: ReplyView,
    session: SessionView,
)
    requires
        !(handler is LogDirectory),
        !(handler is KernelCommandLine),
        !(handler is StdioRedirected),
    ensures
        session_after(handler, reply, session) == session,
{
}

/// Nothing comes of an effect that took place, nor of one that nobody waits for.
pub proof fn law_nothing_comes_of_what_went_well(
    handler: HandlerView,
    reply: ReplyView,
    session: SessionView,
)
    ensures
        handler is Ignore ==> leads_to(handler, reply, session, Seq::empty()),
        !(reply is Failed) && (handler is RootRemounted || handler is SpecialDirectory
            || handler is SpecialMount || handler is DirectoryMade || handler is TmpMode
            || handler is BootRecorded) ==> leads_to(handler, reply, session, Seq::empty()),
        !(reply is Failed) && !(reply matches ReplyView::Exited { success: false, .. }) && (
        handler is EarlyScriptRun || handler is ActivationRun || handler is PostBootRun)
            ==> leads_to(handler, reply, session, Seq::empty()),
        handler is ResolvConfRun && !(reply is Failed) && !(reply is NoInput) && !(
        reply is Exited) ==> leads_to(handler, reply, session, Seq::empty()),
        handler is StdioDuplicated && !(reply is Duplicates) ==> leads_to(
            handler,
            reply,
            session,
            Seq::empty(),
        ),
        handler is InitPid && !(reply is Pid) ==> leads_to(handler, reply, session, Seq::empty()),
{
}

// ---------------------------------------------------------------------------------------------
// Handing over.
// ---------------------------------------------------------------------------------------------

/// A process that is not the first one is warned of; an init that could not be started is reported,
/// a shell is tried in its place, and after that the process ends.
pub proof fn law_a_shell_is_the_last_resort(
    program: Seq<char>,
    reply: ReplyView,
    session: SessionView,
)
    ensures
        reply matches ReplyView::Pid { pid } ==> leads_to(
            HandlerView::InitPid,
            reply,
            session,
            if pid == 1 {
                Seq::empty()
            } else {
                seq![
                    warning(Stage::Handoff, "Not running as PID 1, but continuing anyway"@),
                ]
            },
        ),
        reply matches ReplyView::Failed { reason } ==> leads_to(
            HandlerView::InitFailed { program },
            reply,
            session,
            seq![
                st(
                    Stage::Handoff,
                    RequestView::PrintError {
                        text: "FATAL: Failed to exec systemd at "@ + program + ": "@ + reason,
                    },
                    HandlerView::Ignore,
                ),
                st(
                    Stage::Handoff,
                    RequestView::Exec { program: "/bin/sh"@, args: Seq::empty() },
                    HandlerView::Ignore,
                ),
                st(Stage::Handoff, RequestView::Exit { code: 1 }, HandlerView::Ignore),
            ],
        ),
{
}

} // verus!
