//! The traversal policy: which children of a directory take part in its
//! digest, and in what order their digests are combined.

use vstd::prelude::*;
use crate::matcher::IgnoreChecker;
use crate::matcher::Verdict;

verus! {

/// The byte that marks a hidden name.
pub const HIDDEN_MARKER: u8 = 46;

/// A name is hidden when its first byte is the hidden marker `.`.
pub open spec fn spec_hidden_name(name: Seq<u8>) -> bool {
    name.len() > 0 && name[0] == HIDDEN_MARKER
}

/// True when a directory entry's name marks it as hidden: the engine prunes
/// such entries no matter what the ignore rules say.
pub fn is_hidden_name(name: &[u8]) -> (r: bool)
    ensures
        r == spec_hidden_name(name@),
{
    name.len() > 0 && name[0] == HIDDEN_MARKER
}

/// An entry is pruned when its name is hidden or the ignore chain says to
/// ignore its path.
pub open spec fn spec_pruned(
    chain: IgnoreChecker,
    path: Seq<char>,
    name: Seq<u8>,
    is_dir: bool,
) -> bool {
    spec_hidden_name(name) || chain.chain_verdict(path, is_dir) == Verdict::Ignores
}

/// Whether the engine leaves this entry out of the digest.
pub fn should_prune(chain: &IgnoreChecker, path: &str, name: &[u8], is_dir: bool) -> (r: bool)
    ensures
        r == spec_pruned(*chain, path@, name@, is_dir),
{
    if chain.should_ignore(path, is_dir) {
        true
    } else {
        is_hidden_name(name)
    }
}

/// One immediate child of a directory, as the listing reports it.
pub struct ChildEntry {
    /// The child's full path.
    pub path: String,
    /// The child's base name, as raw bytes.
    pub name: Vec<u8>,
    /// Whether the child is itself a directory.
    pub is_dir: bool,
}

/// Whether one entry is pruned, as the engine sees it.
pub open spec fn spec_entry_pruned(chain: IgnoreChecker, e: ChildEntry) -> bool {
    spec_pruned(chain, e.path@, e.name@, e.is_dir)
}

/// The children that take part in a directory's digest: the listed entries,
/// in listing order, with every hidden or ignored one left out.
pub open spec fn spec_plan(chain: IgnoreChecker, entries: Seq<ChildEntry>) -> Seq<ChildEntry>
    decreases entries.len(),
{
    if entries.len() == 0 {
        Seq::empty()
    } else {
        let rest = spec_plan(chain, entries.drop_last());
        if spec_entry_pruned(chain, entries.last()) {
            rest
        } else {
            rest.push(entries.last())
        }
    }
}

/// Keep, in listing order, exactly the children that are neither hidden nor
/// ignored: these are the ones whose digests make up the directory's digest.
pub fn plan_directory(chain: &IgnoreChecker, entries: Vec<ChildEntry>) -> (r: Vec<ChildEntry>)
    ensures
        r@ == spec_plan(*chain, entries@),
{
    let ghost all = entries@;
    let mut rest = entries;
    let mut out: Vec<ChildEntry> = Vec::new();
    let ghost k: int = 0;
    proof {
        assert(rest@ =~= all.skip(0));
        assert(all.take(0) =~= Seq::<ChildEntry>::empty());
    }
    while rest.len() > 0
        invariant
            0 <= k <= all.len(),
            rest@ == all.skip(k),
            out@ == spec_plan(*chain, all.take(k)),
        decreases rest@.len(),
    {
        let e = rest.remove(0);
        proof {
            assert(e == all[k]);
            assert(rest@ =~= all.skip(k + 1));
        }
        let keep = !should_prune(chain, e.path.as_str(), e.name.as_slice(), e.is_dir);
        if keep {
            out.push(e);
        }
        proof {
            let t = all.take(k + 1);
            assert(t.drop_last() =~= all.take(k));
            assert(t.last() == all[k]);
            k = k + 1;
        }
    }
    proof {
        assert(all.take(all.len() as int) =~= all);
    }
    out
}

/// No pruned entry takes part in a directory's digest: whatever an ignored
/// or hidden child holds, the plan leaves it out.
pub proof fn lemma_plan_keeps_only_unpruned(chain: IgnoreChecker, entries: Seq<ChildEntry>, i: int)
    requires
        0 <= i < spec_plan(chain, entries).len(),
    ensures
        !spec_entry_pruned(chain, spec_plan(chain, entries)[i]),
    decreases entries.len(),
{
    let planned = spec_plan(chain, entries);
    let rest = spec_plan(chain, entries.drop_last());
    if spec_entry_pruned(chain, entries.last()) {
        lemma_plan_keeps_only_unpruned(chain, entries.drop_last(), i);
    } else {
        if i < rest.len() {
            lemma_plan_keeps_only_unpruned(chain, entries.drop_last(), i);
        } else {
            assert(planned[i] == entries.last());
        }
    }
}

/// A hidden-named entry never takes part in a directory's digest, whatever
/// the ignore rules say of its path.
pub proof fn lemma_hidden_never_planned(chain: IgnoreChecker, entries: Seq<ChildEntry>, i: int)
    requires
        0 <= i < spec_plan(chain, entries).len(),
    ensures
        !spec_hidden_name(spec_plan(chain, entries)[i].name@),
{
    lemma_plan_keeps_only_unpruned(chain, entries, i);
}

/// A hidden-named entry is pruned whatever the ignore rules say of its path.
pub proof fn lemma_hidden_always_pruned(
    chain: IgnoreChecker,
    path: Seq<char>,
    name: Seq<u8>,
    is_dir: bool,
)
    requires
        spec_hidden_name(name),
    ensures
        spec_pruned(chain, path, name, is_dir),
{
}

} // verus!
