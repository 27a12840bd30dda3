//! Texts, quoting, and mount flags, held against the standard library and against nix.

use nix::mount::MsFlags;
use stage2::boot::has_kernel_cmdline_flag;
use stage2::flags::{opt_to_flag, remount_flags_from_options};
use stage2::shell::{early_mount_wrapper, shell_escape, traced};
use stage2::store::store_options;
use stage2::text::{
    debug_number, find_word, is_white_space, joined, lists, number, same_text, split_on, trimmed,
};

fn strings(list: &[&str]) -> Vec<String> {
    list.iter().map(|s| s.to_string()).collect()
}

const SAMPLES: [&str; 14] = [
    "",
    " ",
    ",",
    "a",
    "a,b",
    ",a,,b,",
    "  a b  ",
    "\ta\u{a0}b\u{3000}",
    "quiet boot.debugtrace splash",
    "boot.debugtrace",
    "boot.debugtrace=1",
    " \n boot.debugtrace\n",
    "x\u{2028}boot.debugtrace\u{85}y",
    "\u{e9}t\u{e9}, \u{4e16}\u{754c}",
];

#[test]
fn white_space_is_what_unicode_says() {
    for n in 0..=0x10ffff {
        if let Some(c) = char::from_u32(n) {
            assert_eq!(is_white_space(c), c.is_whitespace(), "{n:#x}");
        }
    }
}

#[test]
fn trimming_and_splitting() {
    for s in SAMPLES {
        assert_eq!(trimmed(s), s.trim(), "{s:?}");
        assert_eq!(trimmed(&trimmed(s)), trimmed(s), "{s:?}");
        assert_eq!(split_on(s, ','), s.split(',').collect::<Vec<_>>(), "{s:?}");
        assert_eq!(joined(&split_on(s, ','), ","), s, "{s:?}");
    }
}

#[test]
fn splitting_undoes_joining() {
    for list in [vec![""], vec!["a"], vec!["", ""], vec!["a", "", "b c"]] {
        let text = joined(&strings(&list), ",");
        assert_eq!(text, list.join(","));
        assert_eq!(split_on(&text, ','), list);
    }
    assert_eq!(joined(&Vec::new(), ","), "");
}

#[test]
fn words_are_what_white_space_parts() {
    for s in SAMPLES {
        for word in ["boot.debugtrace", "a", "b", "", "a b", "quiet", "boot"] {
            let expected = s.split_whitespace().any(|w| w == word);
            assert_eq!(find_word(s, word), expected, "{s:?} {word:?}");
            assert_eq!(has_kernel_cmdline_flag(&Some(s.to_string()), word), expected);
        }
    }
    assert!(!has_kernel_cmdline_flag(&None, "boot.debugtrace"));
}

#[test]
fn numbers_in_decimal() {
    for n in [0, 1, 9, 10, 11, 99, 100, 12345, -1, -10, i32::MAX, i32::MIN] {
        assert_eq!(number(n), n.to_string());
        assert_eq!(debug_number(Some(n)), format!("{:?}", Some(n)));
    }
    assert_eq!(debug_number(None), "None");
}

#[test]
fn texts_in_a_list() {
    let list = strings(&["ro", "nosuid"]);
    assert!(lists(&list, "ro"));
    assert!(!lists(&list, "no"));
    assert!(!lists(&Vec::new(), ""));
    assert!(same_text("\u{e9}", "\u{e9}"));
    assert!(!same_text("a", "A"));
}

#[test]
fn quoting_is_undone_by_the_shell() {
    assert_eq!(shell_escape(""), "''");
    assert_eq!(shell_escape("/nix/store/x"), "'/nix/store/x'");
    assert_eq!(shell_escape("it's"), "'it'\\''s'");
    assert_eq!(shell_escape("'"), "''\\'''");
    assert_eq!(shell_escape("$a `b` \"c\" \\ \n"), "'$a `b` \"c\" \\ \n'");
    // What a shell makes of it: the quotes go, and an escaped quote stays.
    for s in ["", "a", "it's", "''", "a'b'c", "\\'", "'\n'"] {
        let quoted = shell_escape(s);
        let inside = &quoted[1..quoted.len() - 1];
        assert_eq!(inside.split("'\\''").collect::<Vec<_>>().join("'"), s);
        assert!(!inside.replace("'\\''", "").contains('\''));
    }
}

#[test]
fn the_wrapper_sources_the_script() {
    let body = r#"
specialMount() {
    local device="$1"
    local mountPoint="$2"
    local options="$3"
    local fsType="$4"
    if [ "${IN_NIXOS_SYSTEMD_STAGE1:-}" = "true" ] && [ "$mountPoint" = "/run" ]; then
        return
    fi
    install -m 0755 -d "$mountPoint"
    mount -n -t "$fsType" -o "$options" "$device" "$mountPoint"
}
. '/a b'
"#;
    assert_eq!(early_mount_wrapper("/a b", false), format!("set -e{body}"));
    assert_eq!(early_mount_wrapper("/a b", true), format!("set -ex{body}"));
}

#[test]
fn trace_lines_read_like_those_of_a_shell() {
    assert_eq!(traced("/bin/true", &Vec::new()), "+ /bin/true");
    assert_eq!(traced("sh", &strings(&["-c", "a b"])), "+ sh -c a b");
}

#[test]
fn store_options_are_clean() {
    assert_eq!(store_options("ro,nosuid,nodev"), ["ro", "nosuid", "nodev"]);
    assert_eq!(store_options(" ro , ,, size = 1 ,"), ["ro", "size = 1"]);
    assert!(store_options("").is_empty());
    assert!(store_options(" , ,").is_empty());
    let options = store_options(" discard,, a b ");
    assert_eq!(store_options(&joined(&options, ",")), options);
}

#[test]
fn rw_remount_clears_ro_only() {
    let opts = ["ro", "nosuid", "nodev", "noexec", "relatime", "lazytime"].map(str::to_owned);

    let flags = remount_flags_from_options(&opts);

    assert!(flags.contains(MsFlags::MS_NOSUID));
    assert!(flags.contains(MsFlags::MS_NODEV));
    assert!(flags.contains(MsFlags::MS_NOEXEC));
    assert!(flags.contains(MsFlags::MS_RELATIME));
    assert!(flags.contains(MsFlags::MS_LAZYTIME));
    assert!(!flags.contains(MsFlags::MS_RDONLY));
}

#[test]
fn a_remount_keeps_each_property() {
    let cases = [
        ("nosuid", MsFlags::MS_NOSUID, 1),
        ("nodev", MsFlags::MS_NODEV, 2),
        ("noexec", MsFlags::MS_NOEXEC, 3),
        ("sync", MsFlags::MS_SYNCHRONOUS, 4),
        ("noatime", MsFlags::MS_NOATIME, 10),
        ("nodiratime", MsFlags::MS_NODIRATIME, 11),
        ("relatime", MsFlags::MS_RELATIME, 21),
        ("strictatime", MsFlags::MS_STRICTATIME, 24),
        ("lazytime", MsFlags::MS_LAZYTIME, 25),
        ("dirsync", MsFlags::MS_DIRSYNC, 7),
    ];
    let mut all = MsFlags::empty();
    for (option, flag, bit) in cases {
        let flags = remount_flags_from_options(&strings(&[option]));
        assert_eq!(flags, flag, "{option}");
        assert_eq!(flags.bits(), 1 << bit, "{option}");
        all |= flag;
    }
    let options: Vec<String> = cases.iter().map(|(option, _, _)| option.to_string()).collect();
    assert_eq!(remount_flags_from_options(&options), all);
    for option in ["ro", "rw", "NOSUID", "", "errors=remount-ro"] {
        assert!(remount_flags_from_options(&strings(&[option])).is_empty(), "{option}");
    }
    assert!(remount_flags_from_options(&[]).is_empty());
}

#[test]
fn flags_of_the_store() {
    let cases = [
        ("nosuid", MsFlags::MS_NOSUID),
        ("noexec", MsFlags::MS_NOEXEC),
        ("nodev", MsFlags::MS_NODEV),
        ("ro", MsFlags::MS_RDONLY),
        ("rdonly", MsFlags::MS_RDONLY),
        ("noatime", MsFlags::MS_NOATIME),
        ("nodiratime", MsFlags::MS_NODIRATIME),
    ];
    for (option, flag) in cases {
        assert_eq!(opt_to_flag(option), Some(flag), "{option}");
    }
    assert_eq!(opt_to_flag("ro").unwrap().bits(), 1);
    for option in ["rw", "relatime", "lazytime", "sync", "dirsync", "", "discard"] {
        assert_eq!(opt_to_flag(option), None, "{option}");
    }
}
