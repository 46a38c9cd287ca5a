use changes::engine::{is_hidden_name, plan_directory, should_prune, ChildEntry};
use changes::hashing::{combine_digests, file_digest};
use changes::matcher::IgnoreChecker;

fn lines(rules: &[&str]) -> Vec<String> {
    rules.iter().map(|r| r.to_string()).collect()
}

#[test]
fn empty_chain_ignores_nothing() {
    let chain = IgnoreChecker::empty();
    assert!(!chain.should_ignore("anything", false));
    assert!(!chain.should_ignore("deep/path", true));
}

#[test]
fn root_rules_ignore_matching_paths() {
    let chain = IgnoreChecker::root_from_lines("", &lines(&["foo"]));
    assert!(chain.should_ignore("foo", false));
    assert!(!chain.should_ignore("bar", false));
}

#[test]
fn missing_rule_file_contributes_no_rules() {
    let chain = IgnoreChecker::root("/nonexistent/dir/rulefile");
    assert!(!chain.should_ignore("anything", false));
}

#[test]
fn child_rules_can_unignore_a_parent_exclusion() {
    let parent = IgnoreChecker::root_from_lines("", &lines(&["*.log"]));
    assert!(parent.should_ignore("keep.log", false));

    let child = IgnoreChecker::child_from_lines(&parent, "", &lines(&["!keep.log"]));
    assert!(!child.should_ignore("keep.log", false));
    assert!(child.should_ignore("other.log", false));
}

#[test]
fn child_without_opinion_defers_to_parent() {
    let parent = IgnoreChecker::root_from_lines("", &lines(&["secret"]));
    let child = IgnoreChecker::child_from_lines(&parent, "", &lines(&["unrelated"]));
    assert!(child.should_ignore("secret", false));
    assert!(child.should_ignore("unrelated", false));
    assert!(!child.should_ignore("plain", false));
}

#[test]
fn extending_without_a_rule_file_shares_the_chain() {
    let parent = IgnoreChecker::root_from_lines("", &lines(&["secret"]));
    let extended = IgnoreChecker::extend(&parent, "unused", false);
    assert!(extended.should_ignore("secret", false));
    assert!(!extended.should_ignore("plain", false));
}

#[test]
fn later_rule_wins_inside_one_rule_set() {
    let chain = IgnoreChecker::root_from_lines("", &lines(&["*.log", "!keep.log"]));
    assert!(chain.should_ignore("other.log", false));
    assert!(!chain.should_ignore("keep.log", false));
}

#[test]
fn hidden_names_are_recognised() {
    assert!(is_hidden_name(b".git"));
    assert!(is_hidden_name(b"."));
    assert!(!is_hidden_name(b"git"));
    assert!(!is_hidden_name(b""));
}

#[test]
fn hidden_entries_are_pruned_even_when_whitelisted() {
    let chain = IgnoreChecker::root_from_lines("", &lines(&["!.secret"]));
    assert!(should_prune(&chain, ".secret", b".secret", false));
}

#[test]
fn plain_entries_are_not_pruned_by_an_empty_chain() {
    let chain = IgnoreChecker::empty();
    assert!(!should_prune(&chain, "src", b"src", true));
}

#[test]
fn planning_keeps_listing_order_and_drops_pruned_entries() {
    let chain = IgnoreChecker::root_from_lines("", &lines(&["b"]));
    let entries = vec![
        ChildEntry { path: "a".to_string(), name: b"a".to_vec(), is_dir: false },
        ChildEntry { path: ".h".to_string(), name: b".h".to_vec(), is_dir: false },
        ChildEntry { path: "b".to_string(), name: b"b".to_vec(), is_dir: false },
        ChildEntry { path: "c".to_string(), name: b"c".to_vec(), is_dir: true },
    ];
    let kept = plan_directory(&chain, entries);
    let names: Vec<&[u8]> = kept.iter().map(|e| e.name.as_slice()).collect();
    assert_eq!(names, vec![b"a".as_slice(), b"c".as_slice()]);
}

#[test]
fn modifying_only_an_ignored_descendant_keeps_the_digest() {
    let chain = IgnoreChecker::root_from_lines("", &lines(&["tmp"]));
    let listing = || {
        vec![
            ChildEntry { path: "a".to_string(), name: b"a".to_vec(), is_dir: false },
            ChildEntry { path: "tmp".to_string(), name: b"tmp".to_vec(), is_dir: false },
        ]
    };
    let digest_with = |tmp_content: &[u8]| {
        let digests: Vec<_> = plan_directory(&chain, listing())
            .iter()
            .map(|e| {
                if e.name == b"tmp".to_vec() {
                    file_digest(&e.name, tmp_content)
                } else {
                    file_digest(&e.name, b"x")
                }
            })
            .collect();
        combine_digests(&digests)
    };
    let before = digest_with(b"old");
    let after = digest_with(b"new");
    assert!(before.equals(&after));
}

#[test]
fn planning_with_no_rules_keeps_everything_visible() {
    let chain = IgnoreChecker::empty();
    let entries = vec![
        ChildEntry { path: "x".to_string(), name: b"x".to_vec(), is_dir: false },
        ChildEntry { path: "y".to_string(), name: b"y".to_vec(), is_dir: false },
    ];
    let kept = plan_directory(&chain, entries);
    assert_eq!(kept.len(), 2);
    assert_eq!(kept[0].name, b"x".to_vec());
    assert_eq!(kept[1].name, b"y".to_vec());
}
