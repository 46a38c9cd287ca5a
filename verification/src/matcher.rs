//! Hierarchical ignore rules: a chain of per-directory rule-sets in which
//! the most specific rule-set is consulted first and the first opinion wins.

use vstd::prelude::*;
use std::sync::Arc;

verus! {

/// What one rule-set says about one path.
#[derive(Clone, Copy, Debug, PartialEq, Eq, Structural)]
pub enum Verdict {
    /// The path matches no rule.
    NoOpinion,
    /// The path should be pruned.
    Ignores,
    /// The path is explicitly kept, overriding less specific rules.
    Allows,
}

#[verifier::external_type_specification]
#[verifier::external_body]
pub struct ExGitignore(ignore::gitignore::Gitignore);

#[verifier::external_type_specification]
#[verifier::external_body]
pub struct ExGitignoreBuilder(ignore::gitignore::GitignoreBuilder);

/// The answer a compiled rule-set's `matched` query gives for one path, as a
/// code: the answer depends only on the rule-set, the path and the flag.
pub uninterp spec fn gitignore_verdict(
    g: ignore::gitignore::Gitignore,
    path: Seq<char>,
    is_dir: bool,
) -> int;

/// The verdict a code stands for: any code outside the two spoken-for values
/// reads as no opinion.
pub open spec fn verdict_of_code(code: int) -> Verdict {
    if code == 1 {
        Verdict::Ignores
    } else if code == 2 {
        Verdict::Allows
    } else {
        Verdict::NoOpinion
    }
}

/// What one compiled rule-set says about one path.
pub open spec fn spec_gitignore_verdict(
    g: ignore::gitignore::Gitignore,
    path: Seq<char>,
    is_dir: bool,
) -> Verdict {
    verdict_of_code(gitignore_verdict(g, path, is_dir))
}

/// Relies on ignore's Gitignore::matched: for one compiled rule-set the
/// answer is a function of the rule-set, the path and the is_dir flag alone.
#[verifier::external_body]
fn matched_verdict(g: &ignore::gitignore::Gitignore, path: &str, is_dir: bool) -> (r: Verdict)
    ensures
        r == verdict_of_code(gitignore_verdict(*g, path@, is_dir)),
{
    match g.matched(path, is_dir) {
        ignore::Match::None => Verdict::NoOpinion,
        ignore::Match::Ignore(_) => Verdict::Ignores,
        ignore::Match::Whitelist(_) => Verdict::Allows,
    }
}

/// Relies on ignore's Gitignore::new: it reads and compiles the ignore-rule
/// file at the given path; I/O and parse errors degrade to an empty rule-set,
/// so nothing is promised about the rules that come back.
#[verifier::external_body]
fn compile_ignore_file(path: &str) -> ignore::gitignore::Gitignore {
    let (git, _err) = ignore::gitignore::Gitignore::new(path);
    git
}

/// Relies on ignore's Gitignore::empty: a rule-set with no globs matches no
/// path at all, so its verdict is never an opinion.
#[verifier::external_body]
fn gitignore_empty() -> (r: ignore::gitignore::Gitignore)
    ensures
        forall|path: Seq<char>, is_dir: bool|
            verdict_of_code(gitignore_verdict(r, path, is_dir)) == Verdict::NoOpinion,
{
    ignore::gitignore::Gitignore::empty()
}

/// Relies on ignore's GitignoreBuilder::new: it makes a builder whose rules
/// will be matched relative to the given root directory.
#[verifier::external_body]
fn builder_new(root: &str) -> ignore::gitignore::GitignoreBuilder {
    ignore::gitignore::GitignoreBuilder::new(root)
}

/// Relies on ignore's GitignoreBuilder::add_line: it adds one ignore-rule
/// line to the builder; a line that is no valid glob is dropped, as an
/// unreadable rule file's lines are.
#[verifier::external_body]
fn builder_add_line(b: &mut ignore::gitignore::GitignoreBuilder, line: &str) {
    let _ = b.add_line(None, line);
}

/// Relies on ignore's GitignoreBuilder::build: it compiles the added lines
/// into a rule-set; nothing is promised about the rules that come back.
#[verifier::external_body]
fn builder_build(b: &ignore::gitignore::GitignoreBuilder) -> Option<
    ignore::gitignore::Gitignore,
> {
    match b.build() {
        Ok(g) => Some(g),
        Err(_) => None,
    }
}

/// One node of an ignore chain: this directory's compiled rule-set, if it
/// has one, and the chain of the directories above it.
pub struct IgnoreChecker {
    /// The rule-set compiled from this directory's ignore file.
    pub git: Option<ignore::gitignore::Gitignore>,
    /// The chain the enclosing directories contributed.
    pub parent: Option<Arc<IgnoreChecker>>,
}

impl IgnoreChecker {
    /// What this node's own rule-set says, before any fallback.
    pub open spec fn own_verdict(self, path: Seq<char>, is_dir: bool) -> Verdict {
        match self.git {
            Some(g) => spec_gitignore_verdict(g, path, is_dir),
            None => Verdict::NoOpinion,
        }
    }

    /// What the whole chain says: the node's own opinion if it has one,
    /// otherwise whatever the parent chain says; no parent means no opinion.
    pub open spec fn chain_verdict(self, path: Seq<char>, is_dir: bool) -> Verdict
        decreases self,
    {
        if self.own_verdict(path, is_dir) != Verdict::NoOpinion {
            self.own_verdict(path, is_dir)
        } else {
            match self.parent {
                Some(p) => p.chain_verdict(path, is_dir),
                None => Verdict::NoOpinion,
            }
        }
    }

    /// A chain with no rule-set at all.
    pub fn empty() -> (r: Arc<IgnoreChecker>)
        ensures
            r.git is None,
            r.parent is None,
    {
        Arc::new(IgnoreChecker { git: None, parent: None })
    }

    /// The chain for a root directory: its ignore-rule file's rules, with
    /// nothing to fall back to.
    pub fn root(path: &str) -> (r: Arc<IgnoreChecker>)
        ensures
            r.git is Some,
            r.parent is None,
    {
        Arc::new(IgnoreChecker { git: Some(compile_ignore_file(path)), parent: None })
    }

    /// The chain for a subdirectory that has its own ignore-rule file: that
    /// file's rules first, the caller's chain as the fallback.
    pub fn child(parent: &Arc<IgnoreChecker>, path: &str) -> (r: Arc<IgnoreChecker>)
        ensures
            r.git is Some,
            r.parent == Some(*parent),
    {
        Arc::new(
            IgnoreChecker {
                git: Some(compile_ignore_file(path)),
                parent: Some(Arc::clone(parent)),
            },
        )
    }

    /// Extend a chain for a subdirectory. With a rule file present the new
    /// node wraps that file's rules and falls back to the caller's chain;
    /// without one the chain is shared unchanged rather than copied.
    pub fn extend(parent: &Arc<IgnoreChecker>, path: &str, has_rule_file: bool) -> (r: Arc<
        IgnoreChecker,
    >)
        ensures
            has_rule_file ==> r.git is Some && r.parent == Some(*parent),
            !has_rule_file ==> r == *parent,
    {
        if has_rule_file {
            IgnoreChecker::child(parent, path)
        } else {
            Arc::clone(parent)
        }
    }

    /// A root chain whose rules are the given lines rather than a file's.
    pub fn root_from_lines(root_dir: &str, lines: &Vec<String>) -> (r: Arc<IgnoreChecker>)
        ensures
            r.git is Some,
            r.parent is None,
    {
        Arc::new(IgnoreChecker { git: Some(compile_lines(root_dir, lines)), parent: None })
    }

    /// A child chain whose rules are the given lines rather than a file's.
    pub fn child_from_lines(
        parent: &Arc<IgnoreChecker>,
        root_dir: &str,
        lines: &Vec<String>,
    ) -> (r: Arc<IgnoreChecker>)
        ensures
            r.git is Some,
            r.parent == Some(*parent),
    {
        Arc::new(
            IgnoreChecker {
                git: Some(compile_lines(root_dir, lines)),
                parent: Some(Arc::clone(parent)),
            },
        )
    }

    /// The chain's full answer for one path.
    pub fn raw_match(&self, path: &str, is_dir: bool) -> (r: Verdict)
        ensures
            r == self.chain_verdict(path@, is_dir),
        decreases *self,
    {
        let own = match &self.git {
            Some(g) => matched_verdict(g, path, is_dir),
            None => Verdict::NoOpinion,
        };
        match own {
            Verdict::NoOpinion => match &self.parent {
                Some(p) => p.raw_match(path, is_dir),
                None => Verdict::NoOpinion,
            },
            decided => decided,
        }
    }

    /// Whether the chain, most specific rule-set first, says to prune the path.
    pub fn should_ignore(&self, path: &str, is_dir: bool) -> (r: bool)
        ensures
            r == (self.chain_verdict(path@, is_dir) == Verdict::Ignores),
    {
        let v = self.raw_match(path, is_dir);
        match v {
            Verdict::Ignores => true,
            _ => false,
        }
    }
}

/// Compile in-memory ignore-rule lines into one rule-set.
fn compile_lines(root_dir: &str, lines: &Vec<String>) -> ignore::gitignore::Gitignore {
    let mut b = builder_new(root_dir);
    let n = lines.len();
    let mut i: usize = 0;
    while i < n
        invariant
            n == lines.len(),
            i <= n,
        decreases n - i,
    {
        builder_add_line(&mut b, lines[i].as_str());
        i = i + 1;
    }
    match builder_build(&b) {
        Some(g) => g,
        None => gitignore_empty(),
    }
}

/// A node that has its own opinion decides; the parent chain is never
/// consulted, so no less specific rule-set overrides it.
pub proof fn lemma_specific_rules_win(node: IgnoreChecker, path: Seq<char>, is_dir: bool)
    requires
        node.own_verdict(path, is_dir) != Verdict::NoOpinion,
    ensures
        node.chain_verdict(path, is_dir) == node.own_verdict(path, is_dir),
{
}

/// A subdirectory's rule-set that explicitly keeps a path un-ignores it,
/// whatever the chains above it say.
pub proof fn lemma_child_can_unignore(node: IgnoreChecker, path: Seq<char>, is_dir: bool)
    requires
        node.own_verdict(path, is_dir) == Verdict::Allows,
    ensures
        node.chain_verdict(path, is_dir) != Verdict::Ignores,
{
}

/// A node with no opinion of its own is transparent: the chain answers
/// exactly as the parent chain does.
pub proof fn lemma_no_opinion_defers(node: IgnoreChecker, path: Seq<char>, is_dir: bool)
    requires
        node.own_verdict(path, is_dir) == Verdict::NoOpinion,
    ensures
        node.chain_verdict(path, is_dir) == match node.parent {
            Some(p) => p.chain_verdict(path, is_dir),
            None => Verdict::NoOpinion,
        },
{
}

/// A chain with no rule-set and no parent never ignores anything.
pub proof fn lemma_bare_chain_ignores_nothing(node: IgnoreChecker, path: Seq<char>, is_dir: bool)
    requires
        node.git is None,
        node.parent is None,
    ensures
        node.chain_verdict(path, is_dir) == Verdict::NoOpinion,
{
}

} // verus!
