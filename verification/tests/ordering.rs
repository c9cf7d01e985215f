use tiffin::MountTable;
use tiffin::MountTarget;
use tiffin::pathspec::depth;
use tiffin::pathspec::join;
use tiffin::pathspec::str_cmp;
use tiffin::pathspec::strip_leading;

fn plain(target: &str) -> MountTarget {
    MountTarget::new(target.to_owned(), None, 0, None)
}

fn targets_of(sorted: &[(String, MountTarget)]) -> Vec<String> {
    let mut out: Vec<String> = Vec::new();
    for pair in sorted {
        out.push(pair.1.target.clone());
    }
    out
}

#[test]
fn depth_counts_components() {
    assert_eq!(depth(""), 0);
    assert_eq!(depth("/"), 0);
    assert_eq!(depth("proc"), 1);
    assert_eq!(depth("/proc"), 1);
    assert_eq!(depth("dev/pts"), 2);
    assert_eq!(depth("//a//b/"), 2);
    assert_eq!(depth("a/b/c"), 3);
}

#[test]
fn strip_leading_separators() {
    assert_eq!(strip_leading("/proc"), "proc");
    assert_eq!(strip_leading("proc"), "proc");
    assert_eq!(strip_leading("///x/y"), "x/y");
    assert_eq!(strip_leading(""), "");
    assert_eq!(strip_leading("///"), "");
}

#[test]
fn join_under_root() {
    assert_eq!(join("/jail", "proc"), "/jail/proc");
    assert_eq!(join("/jail", ""), "/jail");
}

#[test]
fn string_comparison_is_lexicographic() {
    assert_eq!(str_cmp("dev", "sys"), -1);
    assert_eq!(str_cmp("sys", "dev"), 1);
    assert_eq!(str_cmp("dev", "dev"), 0);
    assert_eq!(str_cmp("dev", "dev/pts"), -1);
}

// The worked scenario: targets "sys" (depth 1), "dev" (depth 1) and
// "dev/pts" (depth 2) must apply as dev, sys (lexicographic tie-break at
// equal depth), then dev/pts, and reverse as exactly dev/pts, sys, dev.
#[test]
fn sort_mounts_depth_then_lexicographic() {
    let mut table = MountTable::new();
    table.add_mount(plain("sys"), "/sys".to_owned());
    table.add_mount(plain("dev/pts"), "/dev/pts".to_owned());
    table.add_mount(plain("dev"), "/dev".to_owned());
    let sorted = table.sort_mounts();
    assert_eq!(targets_of(&sorted), vec!["dev", "sys", "dev/pts"]);
    let mut reversed = targets_of(&sorted);
    reversed.reverse();
    assert_eq!(reversed, vec!["dev/pts", "sys", "dev"]);
}

// The root-targeted entry sorts first no matter when it was inserted.
#[test]
fn root_target_applies_first() {
    let mut table = MountTable::new();
    table.add_mount(plain("a/b"), "/src1".to_owned());
    table.add_mount(plain("a"), "/src2".to_owned());
    table.add_mount(plain("/"), "/src3".to_owned());
    let sorted = table.sort_mounts();
    assert_eq!(targets_of(&sorted), vec!["/", "a", "a/b"]);
}

// Across at least three depth levels the apply order visits non-decreasing
// depths, and reversing it reverses the permutation exactly.
#[test]
fn apply_order_depth_is_monotone() {
    let mut table = MountTable::new();
    table.add_mount(plain("x/y/z"), "/s1".to_owned());
    table.add_mount(plain("x"), "/s2".to_owned());
    table.add_mount(plain("b/c"), "/s3".to_owned());
    table.add_mount(plain("a"), "/s4".to_owned());
    let sorted = table.sort_mounts();
    assert_eq!(targets_of(&sorted), vec!["a", "x", "b/c", "x/y/z"]);
    let mut last_depth: usize = 0;
    for pair in &sorted {
        let d = depth(&pair.1.target);
        assert!(d >= last_depth);
        last_depth = d;
    }
}

// Repeated runs over identical input sort identically.
#[test]
fn sort_is_deterministic_across_runs() {
    let build = || {
        let mut table = MountTable::new();
        table.add_mount(plain("one"), "/s1".to_owned());
        table.add_mount(plain("two"), "/s2".to_owned());
        table.add_mount(plain("one/more"), "/s3".to_owned());
        table
    };
    let a = build().sort_mounts();
    let b = build().sort_mounts();
    let c = build().sort_mounts();
    assert_eq!(targets_of(&a), targets_of(&b));
    assert_eq!(targets_of(&b), targets_of(&c));
    let sources_a: Vec<String> = a.iter().map(|p| p.0.clone()).collect();
    let sources_b: Vec<String> = b.iter().map(|p| p.0.clone()).collect();
    assert_eq!(sources_a, sources_b);
}

// Entries with the same target at the same depth are still fully ordered:
// the remaining fields and finally the source break the tie.
#[test]
fn equal_targets_break_ties_by_source() {
    let mut table = MountTable::new();
    table.add_mount(plain("spot"), "/zz".to_owned());
    table.add_mount(plain("spot"), "/aa".to_owned());
    let sorted = table.sort_mounts();
    let sources: Vec<String> = sorted.iter().map(|p| p.0.clone()).collect();
    assert_eq!(sources, vec!["/aa", "/zz"]);
}
