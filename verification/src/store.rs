//! The change store: where a path's last known digest lives, and the decision
//! whether a freshly computed digest counts as a change.

use vstd::prelude::*;
use crate::hashing::Digest;
use crate::hashing::DecodeError;
use crate::hashing::spec_hex;
use crate::hashing::spec_valid_hex;
use crate::hashing::spec_unhex;
use crate::hashing::DIGEST_LEN;

verus! {

/// The path separator byte `/`.
pub const SEP: u8 = 47;

/// The sidecar file's name, and the suffix appended for a file's sidecar:
/// `.changes.hash`.
pub open spec fn store_suffix() -> Seq<u8> {
    seq![46u8, 99u8, 104u8, 97u8, 110u8, 103u8, 101u8, 115u8, 46u8, 104u8, 97u8, 115u8, 104u8]
}

/// The marker put in place of a name when a path has none: `.ERR`.
pub open spec fn err_marker() -> Seq<u8> {
    seq![46u8, 69u8, 82u8, 82u8]
}

/// Where a path's base name starts: right after the last separator, or at
/// the start when the path has no separator.
pub open spec fn last_name_start(p: Seq<u8>) -> int
    decreases p.len(),
{
    if p.len() == 0 {
        0
    } else if p.last() == SEP {
        p.len() as int
    } else {
        last_name_start(p.drop_last())
    }
}

/// The base name starts no earlier than the path and no later than its end.
pub proof fn lemma_last_name_start_bounds(p: Seq<u8>)
    ensures
        0 <= last_name_start(p) <= p.len(),
    decreases p.len(),
{
    if p.len() > 0 && p.last() != SEP {
        lemma_last_name_start_bounds(p.drop_last());
    }
}

/// Whether a base name can carry a sidecar: it is neither empty nor one of
/// the two relative-step names `.` and `..`.
pub open spec fn spec_has_store_name(name: Seq<u8>) -> bool {
    name.len() > 0 && name != seq![46u8] && name != seq![46u8, 46u8]
}

/// The sidecar location for a path. A directory keeps its sidecar inside
/// itself under the fixed name; a file's sidecar is a hidden sibling, the
/// name prefixed with `.` and the fixed suffix appended; a path without a
/// usable name gets the error-marker sidecar beside it.
pub open spec fn spec_store_path(p: Seq<u8>, is_dir: bool) -> Seq<u8> {
    if is_dir {
        if p.len() == 0 {
            store_suffix()
        } else if p.last() == SEP {
            p + store_suffix()
        } else {
            p + seq![SEP] + store_suffix()
        }
    } else {
        let start = last_name_start(p);
        let dir = p.subrange(0, start);
        let name = p.subrange(start, p.len() as int);
        if spec_has_store_name(name) {
            dir + seq![46u8] + name + store_suffix()
        } else {
            dir + err_marker() + store_suffix()
        }
    }
}

fn append_range(v: &mut Vec<u8>, s: &[u8], from: usize, to: usize)
    requires
        from <= to <= s@.len(),
    ensures
        final(v)@ == old(v)@ + s@.subrange(from as int, to as int),
{
    let ghost base = v@;
    let mut i = from;
    assert(v@ =~= base + s@.subrange(from as int, from as int));
    while i < to
        invariant
            from <= i <= to <= s@.len(),
            v@ == base + s@.subrange(from as int, i as int),
        decreases to - i,
    {
        v.push(s[i]);
        proof {
            assert(s@.subrange(from as int, i + 1) =~= s@.subrange(from as int, i as int).push(
                s@[i as int],
            ));
            assert(v@ =~= base + s@.subrange(from as int, i + 1));
        }
        i = i + 1;
    }
}

fn append_store_suffix(v: &mut Vec<u8>)
    ensures
        final(v)@ == old(v)@ + store_suffix(),
{
    let ghost base = v@;
    v.push(46);
    v.push(99);
    v.push(104);
    v.push(97);
    v.push(110);
    v.push(103);
    v.push(101);
    v.push(115);
    v.push(46);
    v.push(104);
    v.push(97);
    v.push(115);
    v.push(104);
    assert(v@ =~= base + store_suffix());
}

fn append_err_marker(v: &mut Vec<u8>)
    ensures
        final(v)@ == old(v)@ + err_marker(),
{
    let ghost base = v@;
    v.push(46);
    v.push(69);
    v.push(82);
    v.push(82);
    assert(v@ =~= base + err_marker());
}

/// Where the base name of the path held in the slice starts.
fn find_name_start(p: &[u8]) -> (r: usize)
    ensures
        r == last_name_start(p@),
        r <= p@.len(),
{
    let mut j = p.len();
    assert(p@.take(j as int) =~= p@);
    while j > 0 && p[j - 1] != SEP
        invariant
            j <= p@.len(),
            last_name_start(p@) == last_name_start(p@.take(j as int)),
        decreases j,
    {
        proof {
            let t = p@.take(j as int);
            assert(t.drop_last() =~= p@.take(j - 1));
            assert(t.last() == p@[j - 1]);
        }
        j = j - 1;
    }
    proof {
        if j > 0 {
            let t = p@.take(j as int);
            assert(t.last() == p@[j - 1]);
            assert(last_name_start(t) == j);
        } else {
            assert(p@.take(0) =~= Seq::<u8>::empty());
        }
        lemma_last_name_start_bounds(p@);
    }
    j
}

/// The sidecar location for a path, as the raw bytes of a sibling or child
/// path. The caller says whether the path is a directory.
pub fn get_store_path(path: &[u8], is_dir: bool) -> (r: Vec<u8>)
    ensures
        r@ == spec_store_path(path@, is_dir),
{
    let mut out: Vec<u8> = Vec::new();
    if is_dir {
        append_range(&mut out, path, 0, path.len());
        assert(out@ =~= path@);
        if path.len() > 0 && path[path.len() - 1] != SEP {
            out.push(SEP);
            assert(out@ =~= path@ + seq![SEP]);
        }
        append_store_suffix(&mut out);
        proof {
            if path@.len() == 0 {
                assert(out@ =~= store_suffix());
            } else if path@.last() == SEP {
                assert(out@ =~= path@ + store_suffix());
            } else {
                assert(out@ =~= path@ + seq![SEP] + store_suffix());
            }
        }
    } else {
        let start = find_name_start(path);
        let has_name = if start == path.len() {
            false
        } else if path.len() - start == 1 && path[start] == 46 {
            false
        } else if path.len() - start == 2 && path[start] == 46 && path[start + 1] == 46 {
            false
        } else {
            true
        };
        proof {
            let name = path@.subrange(start as int, path@.len() as int);
            if start == path@.len() {
                assert(name.len() == 0);
            } else if path@.len() - start == 1 && path@[start as int] == 46 {
                assert(name =~= seq![46u8]);
            } else if path@.len() - start == 2 && path@[start as int] == 46 && path@[
                start as int + 1
            ] == 46 {
                assert(name =~= seq![46u8, 46u8]);
            } else {
                assert(name.len() > 0);
                if name.len() == 1 {
                    assert(name != seq![46u8]) by {
                        assert(name[0] == path@[start as int]);
                    }
                }
                if name.len() == 2 {
                    assert(name != seq![46u8, 46u8]) by {
                        assert(name[0] == path@[start as int]);
                        assert(name[1] == path@[start as int + 1]);
                    }
                }
            }
            assert(has_name == spec_has_store_name(name));
        }
        append_range(&mut out, path, 0, start);
        if has_name {
            out.push(46);
            append_range(&mut out, path, start, path.len());
            append_store_suffix(&mut out);
            assert(out@ =~= path@.subrange(0, start as int) + seq![46u8] + path@.subrange(
                start as int,
                path@.len() as int,
            ) + store_suffix());
        } else {
            append_err_marker(&mut out);
            append_store_suffix(&mut out);
            assert(out@ =~= path@.subrange(0, start as int) + err_marker() + store_suffix());
        }
    }
    out
}

/// What a change check decided.
#[derive(Debug)]
pub struct ChangeCheck {
    /// Whether the path counts as changed.
    pub changed: bool,
    /// The text to write back into the sidecar, when the stored digest is
    /// missing or out of date.
    pub write_back: Option<Vec<u8>>,
}

/// Decide, from the freshly computed digest and the sidecar's content if a
/// sidecar exists, whether the path has changed and what to store. A missing
/// sidecar counts as changed; a sidecar that does not decode is an error,
/// never silently a change or a non-change; otherwise the path has changed
/// exactly when the stored digest differs from the current one, and only
/// then is the sidecar rewritten.
pub fn evaluate_change(current: &Digest, stored: Option<&Vec<u8>>) -> (r: Result<
    ChangeCheck,
    DecodeError,
>)
    requires
        current.wf(),
    ensures
        match stored {
            None => (r matches Ok(c) && c.changed && (c.write_back matches Some(w) && w@
                == spec_hex(current@))),
            Some(s) => {
                if s@.len() != 2 * DIGEST_LEN {
                    r == Err::<ChangeCheck, DecodeError>(DecodeError::BadLength)
                } else if !spec_valid_hex(s@) {
                    r == Err::<ChangeCheck, DecodeError>(DecodeError::BadDigit)
                } else if spec_unhex(s@) == current@ {
                    r matches Ok(c) && !c.changed && c.write_back is None
                } else {
                    r matches Ok(c) && c.changed && (c.write_back matches Some(w) && w@
                        == spec_hex(current@))
                }
            },
        },
{
    match stored {
        None => Ok(ChangeCheck { changed: true, write_back: Some(current.to_hex()) }),
        Some(s) => {
            let prior = Digest::from_hex(s.as_slice())?;
            if prior.equals(current) {
                Ok(ChangeCheck { changed: false, write_back: None })
            } else {
                Ok(ChangeCheck { changed: true, write_back: Some(current.to_hex()) })
            }
        },
    }
}

} // verus!
