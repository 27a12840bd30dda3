//! The store: who owns it, and the options that it is mounted with.

use nix::mount::MsFlags;
use vstd::prelude::*;

use crate::flags::{
    attribute_bits, debug_flags, flag_bits, flags_debug, law_store_options_go_by_their_names,
    lemma_attribute_bits_push, opt_to_flag,
    store_attribute, Attribute, Operation,
};
use crate::request::{Reply, ReplyView, Request, RequestView};
use crate::task::{
    add_task, ask, asked, caused, fail_because, log_message, logged, no_tasks, one_task,
    steps_view, tell, told, Handler, HandlerView, Session, SessionView, Stage, Steps, StepsView,
    Task, TaskView,
};
use crate::text::{
    cat3, cat4, debug_list, join, joined, law_splitting_undoes_joining,
    law_trimming_leaves_no_white_space, lemma_split_parts, lemma_split_pieces, list_debug, lists, split, split_on,
    trim, trimmed,
};

verus! {

/// The group that builds into the store has this number where it cannot be looked up.
pub const NIXBLD_GID: u32 = 30000;

/// Write and search permission for the group, and only owners may remove what is theirs.
pub const STORE_MODE: u32 = 0o1775;

// ---------------------------------------------------------------------------------------------
// Reading the options.
// ---------------------------------------------------------------------------------------------

/// The options in a text: what the commas part, without white space around it, where anything is
/// left.
pub open spec fn option_list(text: Seq<char>) -> Seq<Seq<char>> {
    split(text, ',').map_values(|piece: Seq<char>| trim(piece)).filter(
        |opt: Seq<char>| opt.len() > 0,
    )
}

/// Reads a text of options separated by commas.
pub fn store_options(text: &str) -> (r: Vec<String>)
    ensures
        r.deep_view() == option_list(text@),
{
    let pieces = split_on(text, ',');
    let ghost trims = pieces.deep_view().map_values(|piece: Seq<char>| trim(piece));
    let ghost keep = |opt: Seq<char>| opt.len() > 0;
    let mut out: Vec<String> = Vec::new();
    let mut i: usize = 0;
    reveal(Seq::filter);
    assert(out.deep_view() =~= trims.take(0).filter(keep));
    while i < pieces.len()
        invariant
            i <= pieces.len(),
            trims == pieces.deep_view().map_values(|piece: Seq<char>| trim(piece)),
            keep == (|opt: Seq<char>| opt.len() > 0),
            out.deep_view() == trims.take(i as int).filter(keep),
        decreases pieces.len() - i,
    {
        let ghost before = out.deep_view();
        let opt = trimmed(pieces[i].as_str());
        proof {
            reveal(Seq::filter);
            assert(opt@ == trims[i as int]);
            assert(trims.take(i + 1).drop_last() =~= trims.take(i as int));
            assert(trims.take(i + 1).last() == opt@);
        }
        if !opt.as_str().is_empty() {
            let ghost kept = opt@;
            out.push(opt);
            assert(out.deep_view() =~= before.push(kept));
        }
        i += 1;
    }
    assert(trims.take(trims.len() as int) =~= trims);
    out
}

// ---------------------------------------------------------------------------------------------
// Ownership and permissions.
// ---------------------------------------------------------------------------------------------

/// The steps that set up the store, given whether it exists and the options that it is to have.
pub open spec fn nix_store_steps(
    exists_already: bool,
    options: Seq<char>,
    session: SessionView,
) -> Seq<TaskView> {
    if exists_already {
        seq![
            logged(
                Stage::NixStore,
                session,
                "stage-2-init: setting up /nix/store permissions"@,
            ),
            asked(
                Stage::NixStore,
                RequestView::LookupGroup { name: "nixbld"@ },
                HandlerView::StoreGroup,
            ),
            asked(
                Stage::NixStore,
                RequestView::Chmod { path: "/nix/store"@, mode: STORE_MODE },
                HandlerView::StoreMode,
            ),
            asked(
                Stage::NixStore,
                RequestView::MountOptions { path: "/nix/store"@ },
                HandlerView::StoreOptions { desired: option_list(options) },
            ),
        ]
    } else {
        seq![
            logged(
                Stage::NixStore,
                session,
                "stage-2-init: /nix/store does not exist, skipping setup"@,
            ),
        ]
    }
}

/// Sets up the store: its owner, its permissions, and the options that it is mounted with.
pub fn setup_nix_store(exists_already: bool, options: &str, session: &Session) -> (r: Vec<Task>)
    ensures
        r.deep_view() == nix_store_steps(exists_already, options@, session@),
{
    if !exists_already {
        return one_task(
            log_message(
                Stage::NixStore,
                session,
                "stage-2-init: /nix/store does not exist, skipping setup".to_owned(),
            ),
        );
    }
    let mut tasks = one_task(
        log_message(
            Stage::NixStore,
            session,
            "stage-2-init: setting up /nix/store permissions".to_owned(),
        ),
    );
    add_task(
        &mut tasks,
        ask(
            Stage::NixStore,
            Request::LookupGroup { name: "nixbld".to_owned() },
            Handler::StoreGroup,
        ),
    );
    add_task(
        &mut tasks,
        ask(
            Stage::NixStore,
            Request::Chmod { path: "/nix/store".to_owned(), mode: STORE_MODE },
            Handler::StoreMode,
        ),
    );
    add_task(
        &mut tasks,
        ask(
            Stage::NixStore,
            Request::MountOptions { path: "/nix/store".to_owned() },
            Handler::StoreOptions { desired: store_options(options) },
        ),
    );
    assert(tasks.deep_view() =~= nix_store_steps(exists_already, options@, session@));
    tasks
}

/// The step that gives the store to root and to its group.
pub open spec fn store_group_steps(reply: ReplyView) -> Seq<TaskView> {
    let gid = match reply {
        ReplyView::Group { gid: Some(gid) } => gid,
        _ => NIXBLD_GID,
    };
    seq![
        asked(
            Stage::NixStore,
            RequestView::Chown { path: "/nix/store"@, uid: 0, gid },
            HandlerView::StoreOwner,
        ),
    ]
}

/// Gives the store to root and to the group that was looked up, or to the usual number if that
/// failed.
pub fn store_group(reply: Reply) -> (r: Vec<Task>)
    ensures
        r.deep_view() == store_group_steps(reply@),
{
    let gid: u32 = match reply {
        Reply::Group { gid: Some(gid) } => gid,
        _ => NIXBLD_GID,
    };
    one_task(
        ask(
            Stage::NixStore,
            Request::Chown { path: "/nix/store".to_owned(), uid: 0, gid },
            Handler::StoreOwner,
        ),
    )
}

/// The warning about a change to the store that failed; `what` introduces it.
pub open spec fn store_warning_steps(what: Seq<char>, reply: ReplyView) -> Seq<TaskView> {
    match reply.failure() {
        Some(reason) => seq![
            told(Stage::NixStore, RequestView::Warn { text: what + reason + " (continuing)"@ }),
        ],
        None => Seq::empty(),
    }
}

fn store_warning(what: &str, reply: Reply) -> (r: Vec<Task>)
    ensures
        r.deep_view() == store_warning_steps(what@, reply@),
{
    match reply.failure() {
        Some(reason) => one_task(
            tell(
                Stage::NixStore,
                Request::Warn { text: cat3(what, reason.as_str(), " (continuing)") },
            ),
        ),
        None => no_tasks(),
    }
}

/// A store that does not take its owner, such as one on a read-only file system, is warned of and
/// left as it is.
pub fn store_owner(reply: Reply) -> (r: Vec<Task>)
    ensures
        r.deep_view() == store_warning_steps("Failed to chown /nix/store: "@, reply@),
{
    store_warning("Failed to chown /nix/store: ", reply)
}

/// A store that does not take its permissions is warned of and left as it is.
pub fn store_mode(reply: Reply) -> (r: Vec<Task>)
    ensures
        r.deep_view() == store_warning_steps("Failed to chmod /nix/store: "@, reply@),
{
    store_warning("Failed to chmod /nix/store: ", reply)
}

// ---------------------------------------------------------------------------------------------
// Mount options.
// ---------------------------------------------------------------------------------------------

/// The options that are wanted and that the mount does not have.
pub open spec fn missing_options(
    desired: Seq<Seq<char>>,
    current: Seq<Seq<char>>,
) -> Seq<Seq<char>> {
    desired.filter(|opt: Seq<char>| !current.contains(opt))
}

/// The missing options that are flags of a mount, as bits.
pub open spec fn missing_flags(desired: Seq<Seq<char>>, current: Seq<Seq<char>>) -> Set<nat> {
    attribute_bits(
        missing_options(desired, current).map_values(|opt: Seq<char>| store_attribute(opt)),
    )
}

/// The missing options that are left to the file system.
pub open spec fn missing_data(
    desired: Seq<Seq<char>>,
    current: Seq<Seq<char>>,
) -> Seq<Seq<char>> {
    missing_options(desired, current).filter(|opt: Seq<char>| store_attribute(opt) is None)
}

/// The wanted options that are flags of a mount, as bits.
pub open spec fn wanted_flags(desired: Seq<Seq<char>>) -> Set<nat> {
    attribute_bits(desired.map_values(|opt: Seq<char>| store_attribute(opt)))
}

/// The flags that the wanted options stand for.
pub fn find_wanted(desired: &Vec<String>) -> (r: MsFlags)
    ensures
        flag_bits(r) == wanted_flags(desired.deep_view()),
{
    let ghost attributes = desired.deep_view().map_values(
        |opt: Seq<char>| store_attribute(opt),
    );
    let mut flags = MsFlags::empty();
    let mut i: usize = 0;
    assert(attribute_bits(attributes.take(0)) =~= Set::<nat>::empty());
    while i < desired.len()
        invariant
            i <= desired.len(),
            attributes == desired.deep_view().map_values(|opt: Seq<char>| store_attribute(opt)),
            flag_bits(flags) == attribute_bits(attributes.take(i as int)),
        decreases desired.len() - i,
    {
        proof {
            assert(attributes.take(i + 1) =~= attributes.take(i as int).push(
                attributes[i as int],
            ));
            lemma_attribute_bits_push(attributes.take(i as int), attributes[i as int]);
        }
        if let Some(flag) = opt_to_flag(desired[i].as_str()) {
            flags = flags.union(flag);
        }
        i += 1;
    }
    assert(attributes.take(attributes.len() as int) =~= attributes);
    flags
}

/// Parts the missing options into flags and the rest.
fn find_missing(desired: &Vec<String>, current: &Vec<String>) -> (r: (MsFlags, Vec<String>))
    ensures
        flag_bits(r.0) == missing_flags(desired.deep_view(), current.deep_view()),
        r.1.deep_view() == missing_data(desired.deep_view(), current.deep_view()),
{
    let ghost wanted = desired.deep_view();
    let ghost absent = |opt: Seq<char>| !current.deep_view().contains(opt);
    let ghost attribute = |opt: Seq<char>| store_attribute(opt);
    let ghost plain = |opt: Seq<char>| store_attribute(opt) is None;
    let mut flags = MsFlags::empty();
    let mut data: Vec<String> = Vec::new();
    let mut i: usize = 0;
    proof {
        reveal(Seq::filter);
        assert(wanted.take(0).filter(absent) =~= Seq::empty());
        assert(data.deep_view() =~= wanted.take(0).filter(absent).filter(plain));
        assert(attribute_bits(wanted.take(0).filter(absent).map_values(attribute))
            =~= Set::<nat>::empty());
    }
    while i < desired.len()
        invariant
            i <= desired.len(),
            wanted == desired.deep_view(),
            absent == (|opt: Seq<char>| !current.deep_view().contains(opt)),
            attribute == (|opt: Seq<char>| store_attribute(opt)),
            plain == (|opt: Seq<char>| store_attribute(opt) is None),
            flag_bits(flags) == attribute_bits(
                wanted.take(i as int).filter(absent).map_values(attribute),
            ),
            data.deep_view() == wanted.take(i as int).filter(absent).filter(plain),
        decreases desired.len() - i,
    {
        let ghost found = wanted.take(i as int).filter(absent);
        let ghost before = data.deep_view();
        let ghost opt = wanted[i as int];
        proof {
            reveal(Seq::filter);
            assert(wanted.take(i + 1).drop_last() =~= wanted.take(i as int));
            assert(found.push(opt).drop_last() =~= found);
            assert(found.push(opt).map_values(attribute) =~= found.map_values(attribute).push(
                attribute(opt),
            ));
            lemma_attribute_bits_push(found.map_values(attribute), attribute(opt));
        }
        if !lists(current, desired[i].as_str()) {
            assert(absent(opt));
            assert(wanted.take(i + 1).filter(absent) == found.push(opt));
            match opt_to_flag(desired[i].as_str()) {
                Some(flag) => {
                    flags = flags.union(flag);
                },
                None => {
                    data.push(desired[i].clone());
                    assert(data.deep_view() =~= before.push(opt));
                },
            }
        }
        i += 1;
    }
    assert(wanted.take(wanted.len() as int) =~= wanted);
    (flags, data)
}

/// The steps that bring the options of the store's mount to those that are wanted.  The flags of a
/// mount are replaced as a whole, so that those which it has already are asked for again.
pub open spec fn store_options_steps(
    desired: Seq<Seq<char>>,
    current: Seq<Seq<char>>,
    session: SessionView,
) -> Seq<TaskView> {
    let flags = missing_flags(desired, current);
    let data = missing_data(desired, current);
    if flags == Set::<nat>::empty() && data.len() == 0 {
        Seq::empty()
    } else {
        seq![
            logged(
                Stage::NixStore,
                session,
                "stage-2-init: applying mount options to /nix/store: flags="@ + flags_debug(flags)
                    + " data="@ + list_debug(data),
            ),
            asked(
                Stage::NixStore,
                RequestView::HasEnv { name: "container"@ },
                HandlerView::StoreContainer { flags: wanted_flags(desired), data },
            ),
        ]
    }
}

/// Brings the options of the store's mount to those that are wanted, unless it has them all.
pub fn apply_nix_store_mount_opts(
    desired: &Vec<String>,
    current: &Vec<String>,
    session: &Session,
) -> (r: Vec<Task>)
    ensures
        r.deep_view() == store_options_steps(desired.deep_view(), current.deep_view(), session@),
{
    let (flags, data) = find_missing(desired, current);
    if flags.is_empty() && data.is_empty() {
        return no_tasks();
    }
    let mut tasks = one_task(
        log_message(
            Stage::NixStore,
            session,
            cat4(
                "stage-2-init: applying mount options to /nix/store: flags=",
                debug_flags(flags).as_str(),
                " data=",
                debug_list(&data).as_str(),
            ),
        ),
    );
    add_task(
        &mut tasks,
        ask(
            Stage::NixStore,
            Request::HasEnv { name: "container".to_owned() },
            Handler::StoreContainer { flags: find_wanted(desired), data },
        ),
    );
    assert(tasks.deep_view() =~= store_options_steps(
        desired.deep_view(),
        current.deep_view(),
        session@,
    ));
    tasks
}

/// The step that mounts the store onto itself.
pub open spec fn store_container_steps(
    in_container: bool,
    flags: Set<nat>,
    data: Seq<Seq<char>>,
) -> Seq<TaskView> {
    seq![
        asked(
            Stage::NixStore,
            RequestView::Mount {
                source: Some("/nix/store"@),
                target: "/nix/store"@,
                fstype: None,
                flags: if in_container {
                    set![Operation::Bind.bit(), Operation::Recursive.bit()]
                } else {
                    set![Operation::Bind.bit()]
                },
                data: None,
            },
            HandlerView::StoreBound { flags, data },
        ),
    ]
}

/// Mounts the store onto itself; in a container with the mounts below it.
pub fn store_container(in_container: bool, flags: MsFlags, data: Vec<String>) -> (r: Vec<Task>)
    ensures
        r.deep_view() == store_container_steps(in_container, flag_bits(flags), data.deep_view()),
{
    let bind = if in_container {
        Operation::Bind.flag().union(Operation::Recursive.flag())
    } else {
        Operation::Bind.flag()
    };
    assert(flag_bits(bind) =~= if in_container {
        set![Operation::Bind.bit(), Operation::Recursive.bit()]
    } else {
        set![Operation::Bind.bit()]
    });
    one_task(
        ask(
            Stage::NixStore,
            Request::Mount {
                source: Some("/nix/store".to_owned()),
                target: "/nix/store".to_owned(),
                fstype: None,
                flags: bind,
                data: None,
            },
            Handler::StoreBound { flags, data },
        ),
    )
}

/// What the store's mount onto itself leads to.
pub open spec fn store_bound_steps(
    flags: Set<nat>,
    data: Seq<Seq<char>>,
    reply: ReplyView,
) -> StepsView {
    match reply.failure() {
        Some(reason) => caused("Failed to bind mount /nix/store"@, reason),
        None => Ok(
            seq![
                asked(
                    Stage::NixStore,
                    RequestView::Mount {
                        source: None,
                        target: "/nix/store"@,
                        fstype: None,
                        flags: set![Operation::Remount.bit(), Operation::Bind.bit()].union(flags),
                        data: if data.len() == 0 {
                            None
                        } else {
                            Some(join(data, ","@))
                        },
                    },
                    HandlerView::StoreRemounted,
                ),
            ],
        ),
    }
}

/// Gives the new mount of the store its options.  A store that cannot be mounted onto itself is an
/// error, and is not remounted.
pub fn store_bound(flags: MsFlags, data: &Vec<String>, reply: Reply) -> (r: Steps)
    ensures
        steps_view(r) == store_bound_steps(flag_bits(flags), data.deep_view(), reply@),
{
    match reply.failure() {
        Some(reason) => fail_because("Failed to bind mount /nix/store".to_owned(), reason),
        None => {
            let all = Operation::Remount.flag().union(Operation::Bind.flag()).union(flags);
            assert(flag_bits(all) =~= set![Operation::Remount.bit(), Operation::Bind.bit()].union(
                flag_bits(flags),
            ));
            let options = if data.is_empty() {
                None
            } else {
                Some(joined(data, ","))
            };
            Ok(
                one_task(
                    ask(
                        Stage::NixStore,
                        Request::Mount {
                            source: None,
                            target: "/nix/store".to_owned(),
                            fstype: None,
                            flags: all,
                            data: options,
                        },
                        Handler::StoreRemounted,
                    ),
                ),
            )
        },
    }
}

/// What the store's remount leads to.
pub open spec fn store_remounted_steps(reply: ReplyView) -> StepsView {
    match reply.failure() {
        Some(reason) => caused("Failed to remount /nix/store"@, reason),
        None => Ok(Seq::empty()),
    }
}

/// A store that does not take its mount options is an error.
pub fn store_remounted(reply: Reply) -> (r: Steps)
    ensures
        steps_view(r) == store_remounted_steps(reply@),
{
    match reply.failure() {
        Some(reason) => fail_because("Failed to remount /nix/store".to_owned(), reason),
        None => Ok(no_tasks()),
    }
}

/// What introduces an error of the store's mounts.
pub const STORE_CONTEXT: &'static str = "Failed to apply /nix/store mount options";

/// The steps that an attempt at the store's mounts leads to: an error of it only makes a warning,
/// which names what introduces the error.
pub open spec fn despite_store_errors(attempt: StepsView) -> Seq<TaskView> {
    match attempt {
        Ok(steps) => steps,
        Err(_) => seq![
            told(
                Stage::NixStore,
                RequestView::Warn {
                    text: "Failed to set up /nix/store: "@ + STORE_CONTEXT@ + " (continuing)"@,
                },
            ),
        ],
    }
}

/// Goes on despite an error of the store's mounts: the store may be read-only, or on a file system
/// that cannot be mounted onto itself.
pub fn continue_without_store(attempt: Steps) -> (r: Vec<Task>)
    ensures
        r.deep_view() == despite_store_errors(steps_view(attempt)),
{
    match attempt {
        Ok(tasks) => tasks,
        Err(_) => one_task(
            tell(
                Stage::NixStore,
                Request::Warn {
                    text: cat3("Failed to set up /nix/store: ", STORE_CONTEXT, " (continuing)"),
                },
            ),
        ),
    }
}

// ---------------------------------------------------------------------------------------------
// What is applied is what was wanted.
// ---------------------------------------------------------------------------------------------

/// An option is missing exactly if it is wanted and the mount does not have it.
proof fn lemma_missing(desired: Seq<Seq<char>>, current: Seq<Seq<char>>, opt: Seq<char>)
    ensures
        missing_options(desired, current).contains(opt) <==> desired.contains(opt)
            && !current.contains(opt),
{
    let absent = |o: Seq<char>| !current.contains(o);
    let missing = missing_options(desired, current);
    if missing.contains(opt) {
        desired.lemma_filter_contains_rev(absent, opt);
        let i = choose|i: int| 0 <= i < missing.len() && missing[i] == opt;
        desired.lemma_filter_pred(absent, i);
    }
    if desired.contains(opt) && !current.contains(opt) {
        let i = choose|i: int| 0 <= i < desired.len() && desired[i] == opt;
        desired.lemma_filter_contains(absent, i);
    }
}

/// A flag is missing from the store exactly if a missing option stands for it.
proof fn lemma_missing_flags(
    desired: Seq<Seq<char>>,
    current: Seq<Seq<char>>,
    attribute: Attribute,
)
    ensures
        missing_flags(desired, current).contains(attribute.bit()) <==> exists|opt: Seq<char>|
            #[trigger] store_attribute(opt) == Some(attribute) && desired.contains(opt)
                && !current.contains(opt),
{
    let missing = missing_options(desired, current);
    let attributes = missing.map_values(|opt: Seq<char>| store_attribute(opt));
    if missing_flags(desired, current).contains(attribute.bit()) {
        let i = choose|i: int|
            0 <= i < attributes.len() && (#[trigger] attributes[i] matches Some(a) && a.bit()
                == attribute.bit());
        assert(store_attribute(missing[i]) == Some(attribute));
        assert(missing.contains(missing[i]));
        lemma_missing(desired, current, missing[i]);
    }
    if exists|opt: Seq<char>|
        #[trigger] store_attribute(opt) == Some(attribute) && desired.contains(opt)
            && !current.contains(opt) {
        let opt = choose|opt: Seq<char>|
            #[trigger] store_attribute(opt) == Some(attribute) && desired.contains(opt)
                && !current.contains(opt);
        lemma_missing(desired, current, opt);
        let i = choose|i: int| 0 <= i < missing.len() && missing[i] == opt;
        assert(attributes[i] == Some(attribute));
    }
}

/// A flag is applied to the store exactly if a wanted option stands for it, whether the mount has
/// that option already or not.
pub proof fn law_wanted_flags_are_applied(desired: Seq<Seq<char>>, attribute: Attribute)
    ensures
        wanted_flags(desired).contains(attribute.bit()) <==> exists|opt: Seq<char>|
            #[trigger] store_attribute(opt) == Some(attribute) && desired.contains(opt),
{
    let attributes = desired.map_values(|opt: Seq<char>| store_attribute(opt));
    if wanted_flags(desired).contains(attribute.bit()) {
        let i = choose|i: int|
            0 <= i < attributes.len() && (#[trigger] attributes[i] matches Some(a) && a.bit()
                == attribute.bit());
        assert(store_attribute(desired[i]) == Some(attribute));
        assert(desired.contains(desired[i]));
    }
    if exists|opt: Seq<char>|
        #[trigger] store_attribute(opt) == Some(attribute) && desired.contains(opt) {
        let opt = choose|opt: Seq<char>|
            #[trigger] store_attribute(opt) == Some(attribute) && desired.contains(opt);
        let i = choose|i: int| 0 <= i < desired.len() && desired[i] == opt;
        assert(attributes[i] == Some(attribute));
    }
}

/// An option is passed on to the file system exactly if it is missing and stands for no flag.
pub proof fn law_other_missing_options_are_passed_on(
    desired: Seq<Seq<char>>,
    current: Seq<Seq<char>>,
    opt: Seq<char>,
)
    ensures
        missing_data(desired, current).contains(opt) <==> desired.contains(opt)
            && !current.contains(opt) && store_attribute(opt) is None,
{
    let missing = missing_options(desired, current);
    let plain = |o: Seq<char>| store_attribute(o) is None;
    let data = missing_data(desired, current);
    lemma_missing(desired, current, opt);
    if data.contains(opt) {
        missing.lemma_filter_contains_rev(plain, opt);
        let i = choose|i: int| 0 <= i < data.len() && data[i] == opt;
        missing.lemma_filter_pred(plain, i);
    }
    if missing.contains(opt) && store_attribute(opt) is None {
        let i = choose|i: int| 0 <= i < missing.len() && missing[i] == opt;
        missing.lemma_filter_contains(plain, i);
    }
}

/// A store that has all the options that are wanted is left alone, and no other is.
pub proof fn law_a_complete_store_is_left_alone(
    desired: Seq<Seq<char>>,
    current: Seq<Seq<char>>,
    session: SessionView,
)
    ensures
        store_options_steps(desired, current, session).len() == 0 <==> forall|opt: Seq<char>|
            desired.contains(opt) ==> #[trigger] current.contains(opt),
{
    let flags = missing_flags(desired, current);
    let data = missing_data(desired, current);
    if store_options_steps(desired, current, session).len() == 0 {
        assert forall|opt: Seq<char>| desired.contains(opt) implies #[trigger] current.contains(
            opt,
        ) by {
            law_other_missing_options_are_passed_on(desired, current, opt);
            if let Some(a) = store_attribute(opt) {
                lemma_missing_flags(desired, current, a);
                assert(!flags.contains(a.bit()));
            } else {
                assert(!data.contains(opt));
            }
        }
    }
    if forall|opt: Seq<char>| desired.contains(opt) ==> #[trigger] current.contains(opt) {
        let missing = missing_options(desired, current);
        if missing.len() > 0 {
            assert(missing.contains(missing[0]));
            lemma_missing(desired, current, missing[0]);
        }
        missing.lemma_filter_len(|opt: Seq<char>| store_attribute(opt) is None);
        assert(flags =~= Set::<nat>::empty());
    }
}

/// Every option that is read from a text is there for a reason: it is not empty, no comma is part
/// of it, and no white space is around it.
pub proof fn law_options_are_clean(text: Seq<char>, i: int)
    requires
        0 <= i < option_list(text).len(),
    ensures
        option_list(text)[i].len() > 0,
        !option_list(text)[i].contains(','),
        trim(option_list(text)[i]) == option_list(text)[i],
{
    let pieces = split(text, ',');
    let trims = pieces.map_values(|piece: Seq<char>| trim(piece));
    let kept = |opt: Seq<char>| opt.len() > 0;
    let opt = option_list(text)[i];
    trims.lemma_filter_pred(kept, i);
    assert(trims.filter(kept).contains(opt));
    trims.lemma_filter_contains_rev(kept, opt);
    let n = choose|n: int| 0 <= n < trims.len() && trims[n] == opt;
    lemma_split_pieces(text, ',');
    law_trimming_leaves_no_white_space(pieces[n]);
    assert(!pieces[n].contains(','));
}

/// The options that the file system is handed can be read back from their text, each as it was.
pub proof fn law_passed_options_are_read_back(text: Seq<char>, current: Seq<Seq<char>>)
    ensures
        missing_data(option_list(text), current).len() > 0 ==> option_list(
            join(missing_data(option_list(text), current), ","@),
        ) == missing_data(option_list(text), current),
{
    let data = missing_data(option_list(text), current);
    let all = option_list(text);
    let kept = |opt: Seq<char>| opt.len() > 0;
    if data.len() > 0 {
        assert forall|i: int| 0 <= i < data.len() implies !(#[trigger] data[i]).contains(',')
            && trim(data[i]) == data[i] && kept(data[i]) by {
            assert(data.contains(data[i]));
            law_other_missing_options_are_passed_on(all, current, data[i]);
            let n = choose|n: int| 0 <= n < all.len() && all[n] == data[i];
            law_options_are_clean(text, n);
        }
        reveal_strlit(",");
        assert(","@ =~= seq![',']);
        law_splitting_undoes_joining(data, ',');
        assert(data.map_values(|piece: Seq<char>| trim(piece)) =~= data);
        lemma_filter_all(data, kept);
    }
}

/// A filter that everything passes changes nothing.
proof fn lemma_filter_all(list: Seq<Seq<char>>, pred: spec_fn(Seq<char>) -> bool)
    requires
        forall|i: int| 0 <= i < list.len() ==> pred(#[trigger] list[i]),
    ensures
        list.filter(pred) == list,
    decreases list.len(),
{
    reveal(Seq::filter);
    if list.len() > 0 {
        let front = list.drop_last();
        assert forall|i: int| 0 <= i < front.len() implies pred(#[trigger] front[i]) by {
            assert(front[i] == list[i]);
        }
        lemma_filter_all(front, pred);
        assert(front.push(list.last()) =~= list);
    }
}

// ---------------------------------------------------------------------------------------------
// How options are read and parted, by name and piece by piece.
// ---------------------------------------------------------------------------------------------

/// The flags that are wanted are those of the options, by name, and no other.
pub proof fn law_wanted_flags_go_by_the_names_of_options(desired: Seq<Seq<char>>)
    ensures
        wanted_flags(desired).contains(0) <==> desired.contains("ro"@) || desired.contains(
            "rdonly"@,
        ),
        wanted_flags(desired).contains(1) <==> desired.contains("nosuid"@),
        wanted_flags(desired).contains(2) <==> desired.contains("nodev"@),
        wanted_flags(desired).contains(3) <==> desired.contains("noexec"@),
        wanted_flags(desired).contains(10) <==> desired.contains("noatime"@),
        wanted_flags(desired).contains(11) <==> desired.contains("nodiratime"@),
        forall|b: nat| #[trigger] wanted_flags(desired).contains(b) ==> b == 0 || b == 1 || b == 2
            || b == 3 || b == 10 || b == 11,
{
    let attributes = desired.map_values(|opt: Seq<char>| store_attribute(opt));
    law_wanted_flags_are_applied(desired, Attribute::ReadOnly);
    law_wanted_flags_are_applied(desired, Attribute::NoSuid);
    law_wanted_flags_are_applied(desired, Attribute::NoDev);
    law_wanted_flags_are_applied(desired, Attribute::NoExec);
    law_wanted_flags_are_applied(desired, Attribute::NoAtime);
    law_wanted_flags_are_applied(desired, Attribute::NoDirAtime);
    assert forall|opt: Seq<char>| true implies {
        &&& #[trigger] store_attribute(opt) == Some(Attribute::NoSuid) <==> opt == "nosuid"@
        &&& store_attribute(opt) == Some(Attribute::NoExec) <==> opt == "noexec"@
        &&& store_attribute(opt) == Some(Attribute::NoDev) <==> opt == "nodev"@
        &&& store_attribute(opt) == Some(Attribute::NoAtime) <==> opt == "noatime"@
        &&& store_attribute(opt) == Some(Attribute::NoDirAtime) <==> opt == "nodiratime"@
        &&& store_attribute(opt) == Some(Attribute::ReadOnly) <==> opt == "ro"@ || opt == "rdonly"@
    } by {
        law_store_options_go_by_their_names(opt);
    }
    assert(store_attribute("ro"@) == Some(Attribute::ReadOnly));
    assert(store_attribute("rdonly"@) == Some(Attribute::ReadOnly));
    assert(store_attribute("nosuid"@) == Some(Attribute::NoSuid));
    assert(store_attribute("nodev"@) == Some(Attribute::NoDev));
    assert(store_attribute("noexec"@) == Some(Attribute::NoExec));
    assert(store_attribute("noatime"@) == Some(Attribute::NoAtime));
    assert(store_attribute("nodiratime"@) == Some(Attribute::NoDirAtime));
    assert forall|b: nat| #[trigger] wanted_flags(desired).contains(b) implies b == 0 || b == 1 || b
        == 2 || b == 3 || b == 10 || b == 11 by {
        let i = choose|i: int|
            0 <= i < attributes.len() && (#[trigger] attributes[i] matches Some(a) && a.bit() == b);
        assert(attributes[i] == store_attribute(desired[i]));
    }
}

/// A text of options is read piece by piece: what is before a comma gives its options first, then
/// what is after it.
pub proof fn law_commas_part_the_options(a: Seq<char>, b: Seq<char>)
    ensures
        option_list(a + seq![','] + b) == option_list(a) + option_list(b),
{
    let trims = |piece: Seq<char>| trim(piece);
    let kept = |opt: Seq<char>| opt.len() > 0;
    let left = split(a, ',').map_values(trims);
    let right = split(b, ',').map_values(trims);
    lemma_split_parts(a, b, ',');
    assert(split(a + seq![','] + b, ',').map_values(trims) =~= left + right);
    Seq::filter_distributes_over_add(left, right, kept);
}

/// A text without a comma is one option, without the white space around it, or none if nothing else
/// is in it.
pub proof fn law_a_text_without_commas_is_one_option(text: Seq<char>)
    requires
        !text.contains(','),
    ensures
        option_list(text) == (if trim(text).len() == 0 {
            Seq::<Seq<char>>::empty()
        } else {
            seq![trim(text)]
        }),
{
    let trims = |piece: Seq<char>| trim(piece);
    let kept = |opt: Seq<char>| opt.len() > 0;
    law_splitting_undoes_joining(seq![text], ',');
    assert(split(text, ',') == seq![text]);
    let one = split(text, ',').map_values(trims);
    assert(one =~= seq![trim(text)]);
    reveal(Seq::filter);
    assert(one.drop_last() =~= Seq::<Seq<char>>::empty());
    assert(one.drop_last().filter(kept) =~= Seq::<Seq<char>>::empty());
    assert(option_list(text) =~= if trim(text).len() == 0 {
        Seq::<Seq<char>>::empty()
    } else {
        seq![trim(text)]
    });
}

/// The options that are left to the file system are looked for one by one, in their order, and each
/// as often as it is wanted.
pub proof fn law_missing_options_keep_their_order(
    first: Seq<Seq<char>>,
    second: Seq<Seq<char>>,
    current: Seq<Seq<char>>,
)
    ensures
        missing_data(first + second, current) == missing_data(first, current) + missing_data(
            second,
            current,
        ),
        first.len() == 1 && !current.contains(first[0]) && store_attribute(first[0]) is None
            ==> missing_data(first, current) == first,
{
    let absent = |opt: Seq<char>| !current.contains(opt);
    let plain = |opt: Seq<char>| store_attribute(opt) is None;
    Seq::filter_distributes_over_add(first, second, absent);
    Seq::filter_distributes_over_add(first.filter(absent), second.filter(absent), plain);
    if first.len() == 1 && !current.contains(first[0]) && store_attribute(first[0]) is None {
        lemma_filter_all(first, absent);
        lemma_filter_all(first, plain);
    }
}

/// The flags that are missing are those that the missing options stand for; and an option is missing
/// exactly if it is wanted and the mount does not have it.
pub proof fn law_missing_flags_are_those_of_missing_options(
    desired: Seq<Seq<char>>,
    current: Seq<Seq<char>>,
    opt: Seq<char>,
)
    ensures
        missing_flags(desired, current) == wanted_flags(missing_options(desired, current)),
        missing_options(desired, current).contains(opt) <==> desired.contains(opt)
            && !current.contains(opt),
{
    lemma_missing(desired, current, opt);
}

} // verus!
