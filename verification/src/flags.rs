//! Mount flags, and which mount option stands for which of them.

use nix::mount::MsFlags;
use vstd::prelude::*;

use crate::text::same_text;

verus! {

/// `nix::mount::MsFlags`, the flag word of mount(2).
#[verifier::external_type_specification]
#[verifier::external_body]
pub struct ExMsFlags(MsFlags);

/// The positions of the bits that are set in the flag word.
pub uninterp spec fn flag_bits(flags: MsFlags) -> Set<nat>;

/// `MsFlags::empty` sets no bit.
pub assume_specification[ MsFlags::empty ]() -> (r: MsFlags)
    ensures
        flag_bits(r) == Set::<nat>::empty(),
;

/// `MsFlags::union` sets the bits that either word has set.
pub assume_specification[ MsFlags::union ](flags: MsFlags, other: MsFlags) -> (r: MsFlags)
    ensures
        flag_bits(r) == flag_bits(flags).union(flag_bits(other)),
;

/// `MsFlags::is_empty` tells whether no bit is set.
pub assume_specification[ MsFlags::is_empty ](flags: &MsFlags) -> (r: bool)
    ensures
        r == (flag_bits(*flags) == Set::<nat>::empty()),
;

/// How a flag word reads in `{:?}` notation.
pub uninterp spec fn flags_debug(bits: Set<nat>) -> Seq<char>;

/// Formats a flag word with `{:?}`, as `MsFlags` implements `std::fmt::Debug`.  The contract only
/// names the text, as a function of the bits that are set.
#[verifier::external_body]
pub(crate) fn debug_flags(flags: MsFlags) -> (r: String)
    ensures
        r@ == flags_debug(flag_bits(flags)),
{
    format!("{:?}", flags)
}

/// A lasting property of a mount.
#[derive(Clone, Copy, Debug, PartialEq, Eq, Structural)]
pub enum Attribute {
    ReadOnly,
    NoSuid,
    NoDev,
    NoExec,
    Synchronous,
    DirSync,
    NoAtime,
    NoDirAtime,
    RelAtime,
    StrictAtime,
    LazyTime,
}

/// What a call of mount(2) does other than to mount a file system.
#[derive(Clone, Copy, Debug, PartialEq, Eq, Structural)]
pub enum Operation {
    Remount,
    Bind,
    Recursive,
}

impl Attribute {
    /// The bit of the flag word that asks for this property.
    pub open spec fn bit(self) -> nat {
        match self {
            Attribute::ReadOnly => 0,
            Attribute::NoSuid => 1,
            Attribute::NoDev => 2,
            Attribute::NoExec => 3,
            Attribute::Synchronous => 4,
            Attribute::DirSync => 7,
            Attribute::NoAtime => 10,
            Attribute::NoDirAtime => 11,
            Attribute::RelAtime => 21,
            Attribute::StrictAtime => 24,
            Attribute::LazyTime => 25,
        }
    }

    /// The constant of `MsFlags` for this property: on Linux a word with that one bit.
    #[verifier::external_body]
    pub(crate) fn flag(self) -> (r: MsFlags)
        ensures
            flag_bits(r) == set![self.bit()],
    {
        match self {
            Attribute::ReadOnly => MsFlags::MS_RDONLY,
            Attribute::NoSuid => MsFlags::MS_NOSUID,
            Attribute::NoDev => MsFlags::MS_NODEV,
            Attribute::NoExec => MsFlags::MS_NOEXEC,
            Attribute::Synchronous => MsFlags::MS_SYNCHRONOUS,
            Attribute::DirSync => MsFlags::MS_DIRSYNC,
            Attribute::NoAtime => MsFlags::MS_NOATIME,
            Attribute::NoDirAtime => MsFlags::MS_NODIRATIME,
            Attribute::RelAtime => MsFlags::MS_RELATIME,
            Attribute::StrictAtime => MsFlags::MS_STRICTATIME,
            Attribute::LazyTime => MsFlags::MS_LAZYTIME,
        }
    }
}

impl Operation {
    /// The bit of the flag word that asks for this operation.
    pub open spec fn bit(self) -> nat {
        match self {
            Operation::Remount => 5,
            Operation::Bind => 12,
            Operation::Recursive => 14,
        }
    }

    /// The constant of `MsFlags` for this operation: on Linux a word with that one bit.
    #[verifier::external_body]
    pub(crate) fn flag(self) -> (r: MsFlags)
        ensures
            flag_bits(r) == set![self.bit()],
    {
        match self {
            Operation::Remount => MsFlags::MS_REMOUNT,
            Operation::Bind => MsFlags::MS_BIND,
            Operation::Recursive => MsFlags::MS_REC,
        }
    }
}

/// The bits of the properties that occur in `list`.
pub open spec fn attribute_bits(list: Seq<Option<Attribute>>) -> Set<nat> {
    Set::new(
        |b: nat|
            exists|i: int|
                0 <= i < list.len() && (#[trigger] list[i] matches Some(a) && a.bit() == b),
    )
}

/// One more entry adds its bit, if it is a property at all.
pub(crate) proof fn lemma_attribute_bits_push(list: Seq<Option<Attribute>>, x: Option<Attribute>)
    ensures
        attribute_bits(list.push(x)) == (match x {
            Some(a) => attribute_bits(list).union(set![a.bit()]),
            None => attribute_bits(list),
        }),
{
    let longer = list.push(x);
    let bits = match x {
        Some(a) => attribute_bits(list).union(set![a.bit()]),
        None => attribute_bits(list),
    };
    assert forall|b: nat| attribute_bits(longer).contains(b) == bits.contains(b) by {
        if attribute_bits(longer).contains(b) {
            let i = choose|i: int|
                0 <= i < longer.len() && (#[trigger] longer[i] matches Some(a) && a.bit() == b);
            assert(i < list.len() ==> longer[i] == list[i]);
        }
        if attribute_bits(list).contains(b) {
            let i = choose|i: int|
                0 <= i < list.len() && (#[trigger] list[i] matches Some(a) && a.bit() == b);
            assert(longer[i] == list[i]);
        }
        if x is Some && x->0.bit() == b {
            assert(longer[list.len() as int] == x);
        }
    }
    assert(attribute_bits(longer) =~= bits);
}

// ---------------------------------------------------------------------------------------------
// Remounting the root file system.
// ---------------------------------------------------------------------------------------------

/// The property that a mount option of the root file system stands for.  That it is mounted
/// read-only is the one thing that a remount is to change: `ro` stands for nothing.
pub open spec fn remount_attribute(opt: Seq<char>) -> Option<Attribute> {
    if opt == "nosuid"@ {
        Some(Attribute::NoSuid)
    } else if opt == "nodev"@ {
        Some(Attribute::NoDev)
    } else if opt == "noexec"@ {
        Some(Attribute::NoExec)
    } else if opt == "sync"@ {
        Some(Attribute::Synchronous)
    } else if opt == "noatime"@ {
        Some(Attribute::NoAtime)
    } else if opt == "nodiratime"@ {
        Some(Attribute::NoDirAtime)
    } else if opt == "relatime"@ {
        Some(Attribute::RelAtime)
    } else if opt == "strictatime"@ {
        Some(Attribute::StrictAtime)
    } else if opt == "lazytime"@ {
        Some(Attribute::LazyTime)
    } else if opt == "dirsync"@ {
        Some(Attribute::DirSync)
    } else {
        None
    }
}

/// The properties that the options of the root file system stand for, as bits.
pub open spec fn remount_bits(opts: Seq<Seq<char>>) -> Set<nat> {
    attribute_bits(opts.map_values(|opt: Seq<char>| remount_attribute(opt)))
}

fn remount_attribute_of(opt: &str) -> (r: Option<Attribute>)
    ensures
        r == remount_attribute(opt@),
{
    if same_text(opt, "nosuid") {
        Some(Attribute::NoSuid)
    } else if same_text(opt, "nodev") {
        Some(Attribute::NoDev)
    } else if same_text(opt, "noexec") {
        Some(Attribute::NoExec)
    } else if same_text(opt, "sync") {
        Some(Attribute::Synchronous)
    } else if same_text(opt, "noatime") {
        Some(Attribute::NoAtime)
    } else if same_text(opt, "nodiratime") {
        Some(Attribute::NoDirAtime)
    } else if same_text(opt, "relatime") {
        Some(Attribute::RelAtime)
    } else if same_text(opt, "strictatime") {
        Some(Attribute::StrictAtime)
    } else if same_text(opt, "lazytime") {
        Some(Attribute::LazyTime)
    } else if same_text(opt, "dirsync") {
        Some(Attribute::DirSync)
    } else {
        None
    }
}

/// The flags that keep the properties of a mount while it is remounted for writing.
pub fn remount_flags_from_options(opts: &[String]) -> (r: MsFlags)
    ensures
        flag_bits(r) == remount_bits(opts.deep_view()),
{
    let ghost attrs = opts.deep_view().map_values(|opt: Seq<char>| remount_attribute(opt));
    let mut flags = MsFlags::empty();
    let mut i: usize = 0;
    assert(attribute_bits(attrs.take(0)) =~= Set::<nat>::empty());
    while i < opts.len()
        invariant
            i <= opts.len(),
            attrs == opts.deep_view().map_values(|opt: Seq<char>| remount_attribute(opt)),
            flag_bits(flags) == attribute_bits(attrs.take(i as int)),
        decreases opts.len() - i,
    {
        let attribute = remount_attribute_of(opts[i].as_str());
        proof {
            assert(attribute == attrs[i as int]);
            assert(attrs.take(i + 1) =~= attrs.take(i as int).push(attribute));
            lemma_attribute_bits_push(attrs.take(i as int), attribute);
        }
        if let Some(a) = attribute {
            flags = flags.union(a.flag());
        }
        i += 1;
    }
    assert(attrs.take(attrs.len() as int) =~= attrs);
    flags
}

/// A remount never asks for a read-only file system, whatever the options are.
pub proof fn law_a_remount_is_for_writing(opts: Seq<Seq<char>>)
    ensures
        !remount_bits(opts).contains(Attribute::ReadOnly.bit()),
{
    let attrs = opts.map_values(|opt: Seq<char>| remount_attribute(opt));
    assert forall|i: int| 0 <= i < attrs.len() implies !(#[trigger] attrs[i] matches Some(a)
        && a.bit() == Attribute::ReadOnly.bit()) by {
        assert(attrs[i] == remount_attribute(opts[i]));
    }
}

/// A remount keeps a property exactly if one of the options stands for it.
pub proof fn law_a_remount_keeps_the_properties(opts: Seq<Seq<char>>, attribute: Attribute)
    ensures
        remount_bits(opts).contains(attribute.bit()) <==> exists|i: int|
            0 <= i < opts.len() && #[trigger] remount_attribute(opts[i]) == Some(attribute),
{
    let attrs = opts.map_values(|opt: Seq<char>| remount_attribute(opt));
    if remount_bits(opts).contains(attribute.bit()) {
        let i = choose|i: int|
            0 <= i < attrs.len() && (#[trigger] attrs[i] matches Some(a) && a.bit()
                == attribute.bit());
        assert(remount_attribute(opts[i]) == Some(attribute));
    }
    if exists|i: int|
        0 <= i < opts.len() && #[trigger] remount_attribute(opts[i]) == Some(attribute) {
        let i = choose|i: int|
            0 <= i < opts.len() && #[trigger] remount_attribute(opts[i]) == Some(attribute);
        assert(attrs[i] == Some(attribute));
    }
}

/// Which option stands for which property.
proof fn lemma_remount_names(opt: Seq<char>)
    ensures
        remount_attribute(opt) == Some(Attribute::NoSuid) <==> opt == "nosuid"@,
        remount_attribute(opt) == Some(Attribute::NoDev) <==> opt == "nodev"@,
        remount_attribute(opt) == Some(Attribute::NoExec) <==> opt == "noexec"@,
        remount_attribute(opt) == Some(Attribute::Synchronous) <==> opt == "sync"@,
        remount_attribute(opt) == Some(Attribute::DirSync) <==> opt == "dirsync"@,
        remount_attribute(opt) == Some(Attribute::NoAtime) <==> opt == "noatime"@,
        remount_attribute(opt) == Some(Attribute::NoDirAtime) <==> opt == "nodiratime"@,
        remount_attribute(opt) == Some(Attribute::RelAtime) <==> opt == "relatime"@,
        remount_attribute(opt) == Some(Attribute::StrictAtime) <==> opt == "strictatime"@,
        remount_attribute(opt) == Some(Attribute::LazyTime) <==> opt == "lazytime"@,
        remount_attribute(opt) != Some(Attribute::ReadOnly),
{
    reveal_strlit("nosuid");
    assert("nosuid"@.len() == 6);
    reveal_strlit("nodev");
    assert("nodev"@.len() == 5);
    reveal_strlit("noexec");
    assert("noexec"@.len() == 6);
    reveal_strlit("sync");
    assert("sync"@.len() == 4);
    reveal_strlit("dirsync");
    assert("dirsync"@.len() == 7);
    reveal_strlit("noatime");
    assert("noatime"@.len() == 7);
    reveal_strlit("nodiratime");
    assert("nodiratime"@.len() == 10);
    reveal_strlit("relatime");
    assert("relatime"@.len() == 8);
    reveal_strlit("strictatime");
    assert("strictatime"@.len() == 11);
    reveal_strlit("lazytime");
    assert("lazytime"@.len() == 8);
    assert("nosuid"@[2] != "noexec"@[2]);
    assert("dirsync"@[0] != "noatime"@[0]);
    assert("relatime"@[0] != "lazytime"@[0]);
}

/// A remount asks for a property exactly if the option of that name is among the options, and for
/// nothing else; that the file system is mounted for reading or for writing makes no difference.
pub proof fn law_remounts_go_by_the_names_of_options(opts: Seq<Seq<char>>)
    ensures
        remount_bits(opts).contains(1) <==> opts.contains("nosuid"@),
        remount_bits(opts).contains(2) <==> opts.contains("nodev"@),
        remount_bits(opts).contains(3) <==> opts.contains("noexec"@),
        remount_bits(opts).contains(4) <==> opts.contains("sync"@),
        remount_bits(opts).contains(7) <==> opts.contains("dirsync"@),
        remount_bits(opts).contains(10) <==> opts.contains("noatime"@),
        remount_bits(opts).contains(11) <==> opts.contains("nodiratime"@),
        remount_bits(opts).contains(21) <==> opts.contains("relatime"@),
        remount_bits(opts).contains(24) <==> opts.contains("strictatime"@),
        remount_bits(opts).contains(25) <==> opts.contains("lazytime"@),
        forall|b: nat| #[trigger] remount_bits(opts).contains(b) ==> b == 1 || b == 2 || b == 3 || b == 4 || b == 7
            || b == 10 || b == 11 || b == 21 || b == 24 || b == 25,
{
    let attrs = opts.map_values(|opt: Seq<char>| remount_attribute(opt));
    assert forall|opt: Seq<char>| true implies {
        &&& #[trigger] remount_attribute(opt) == Some(Attribute::NoSuid) <==> opt == "nosuid"@
        &&& remount_attribute(opt) == Some(Attribute::NoDev) <==> opt == "nodev"@
        &&& remount_attribute(opt) == Some(Attribute::NoExec) <==> opt == "noexec"@
        &&& remount_attribute(opt) == Some(Attribute::Synchronous) <==> opt == "sync"@
        &&& remount_attribute(opt) == Some(Attribute::DirSync) <==> opt == "dirsync"@
        &&& remount_attribute(opt) == Some(Attribute::NoAtime) <==> opt == "noatime"@
        &&& remount_attribute(opt) == Some(Attribute::NoDirAtime) <==> opt == "nodiratime"@
        &&& remount_attribute(opt) == Some(Attribute::RelAtime) <==> opt == "relatime"@
        &&& remount_attribute(opt) == Some(Attribute::StrictAtime) <==> opt == "strictatime"@
        &&& remount_attribute(opt) == Some(Attribute::LazyTime) <==> opt == "lazytime"@
    } by {
        lemma_remount_names(opt);
    }
    lemma_remounts_by_name(opts, "nosuid"@, Attribute::NoSuid);
    lemma_remounts_by_name(opts, "nodev"@, Attribute::NoDev);
    lemma_remounts_by_name(opts, "noexec"@, Attribute::NoExec);
    lemma_remounts_by_name(opts, "sync"@, Attribute::Synchronous);
    lemma_remounts_by_name(opts, "dirsync"@, Attribute::DirSync);
    lemma_remounts_by_name(opts, "noatime"@, Attribute::NoAtime);
    lemma_remounts_by_name(opts, "nodiratime"@, Attribute::NoDirAtime);
    lemma_remounts_by_name(opts, "relatime"@, Attribute::RelAtime);
    lemma_remounts_by_name(opts, "strictatime"@, Attribute::StrictAtime);
    lemma_remounts_by_name(opts, "lazytime"@, Attribute::LazyTime);
    assert forall|b: nat| #[trigger] remount_bits(opts).contains(b) implies b == 1 || b == 2 || b
        == 3 || b == 4 || b == 7 || b == 10 || b == 11 || b == 21 || b == 24 || b == 25 by {
        let i = choose|i: int|
            0 <= i < attrs.len() && (#[trigger] attrs[i] matches Some(a) && a.bit() == b);
        assert(attrs[i] == remount_attribute(opts[i]));
        lemma_remount_names(opts[i]);
    }
}

proof fn lemma_remounts_by_name(opts: Seq<Seq<char>>, name: Seq<char>, attribute: Attribute)
    requires
        forall|opt: Seq<char>| #[trigger] remount_attribute(opt) == Some(attribute) <==> opt == name,
    ensures
        remount_bits(opts).contains(attribute.bit()) <==> opts.contains(name),
{
    law_a_remount_keeps_the_properties(opts, attribute);
    if opts.contains(name) {
        let i = choose|i: int| 0 <= i < opts.len() && opts[i] == name;
        assert(remount_attribute(opts[i]) == Some(attribute));
    }
}

// ---------------------------------------------------------------------------------------------
// Options for the store.
// ---------------------------------------------------------------------------------------------

/// The property that a mount option for the store stands for; any other option is the file
/// system's own business.
pub open spec fn store_attribute(opt: Seq<char>) -> Option<Attribute> {
    if opt == "nosuid"@ {
        Some(Attribute::NoSuid)
    } else if opt == "noexec"@ {
        Some(Attribute::NoExec)
    } else if opt == "nodev"@ {
        Some(Attribute::NoDev)
    } else if opt == "ro"@ || opt == "rdonly"@ {
        Some(Attribute::ReadOnly)
    } else if opt == "noatime"@ {
        Some(Attribute::NoAtime)
    } else if opt == "nodiratime"@ {
        Some(Attribute::NoDirAtime)
    } else {
        None
    }
}

/// The flag that a mount option for the store stands for, if it stands for one.
pub fn opt_to_flag(opt: &str) -> (r: Option<MsFlags>)
    ensures
        match store_attribute(opt@) {
            Some(a) => r is Some && flag_bits(r->0) == set![a.bit()],
            None => r is None,
        },
{
    if same_text(opt, "nosuid") {
        Some(Attribute::NoSuid.flag())
    } else if same_text(opt, "noexec") {
        Some(Attribute::NoExec.flag())
    } else if same_text(opt, "nodev") {
        Some(Attribute::NoDev.flag())
    } else if same_text(opt, "ro") || same_text(opt, "rdonly") {
        Some(Attribute::ReadOnly.flag())
    } else if same_text(opt, "noatime") {
        Some(Attribute::NoAtime.flag())
    } else if same_text(opt, "nodiratime") {
        Some(Attribute::NoDirAtime.flag())
    } else {
        None
    }
}

/// Which option for the store stands for which property, by name.
pub proof fn law_store_options_go_by_their_names(opt: Seq<char>)
    ensures
        store_attribute(opt) == Some(Attribute::NoSuid) <==> opt == "nosuid"@,
        store_attribute(opt) == Some(Attribute::NoExec) <==> opt == "noexec"@,
        store_attribute(opt) == Some(Attribute::NoDev) <==> opt == "nodev"@,
        store_attribute(opt) == Some(Attribute::NoAtime) <==> opt == "noatime"@,
        store_attribute(opt) == Some(Attribute::NoDirAtime) <==> opt == "nodiratime"@,
        store_attribute(opt) == Some(Attribute::ReadOnly) <==> opt == "ro"@ || opt == "rdonly"@,
        store_attribute(opt) is None <==> opt != "nosuid"@ && opt != "noexec"@ && opt != "nodev"@
            && opt != "ro"@ && opt != "rdonly"@ && opt != "noatime"@ && opt != "nodiratime"@,
{
    reveal_strlit("nosuid");
    assert("nosuid"@.len() == 6);
    reveal_strlit("noexec");
    assert("noexec"@.len() == 6);
    reveal_strlit("nodev");
    assert("nodev"@.len() == 5);
    reveal_strlit("ro");
    assert("ro"@.len() == 2);
    reveal_strlit("rdonly");
    assert("rdonly"@.len() == 6);
    reveal_strlit("noatime");
    assert("noatime"@.len() == 7);
    reveal_strlit("nodiratime");
    assert("nodiratime"@.len() == 10);
    assert("nosuid"@[2] != "noexec"@[2]);
    assert("nosuid"@[0] != "rdonly"@[0]);
    assert("noexec"@[0] != "rdonly"@[0]);
}

/// The bits of the flag word, as mount(2) numbers them.
pub proof fn law_the_bits_are_those_of_mount(attribute: Attribute, operation: Operation)
    ensures
        attribute.bit() == (match attribute {
            Attribute::ReadOnly => 0nat,
            Attribute::NoSuid => 1,
            Attribute::NoDev => 2,
            Attribute::NoExec => 3,
            Attribute::Synchronous => 4,
            Attribute::DirSync => 7,
            Attribute::NoAtime => 10,
            Attribute::NoDirAtime => 11,
            Attribute::RelAtime => 21,
            Attribute::StrictAtime => 24,
            Attribute::LazyTime => 25,
        }),
        operation.bit() == (match operation {
            Operation::Remount => 5nat,
            Operation::Bind => 12,
            Operation::Recursive => 14,
        }),
{
}

} // verus!
