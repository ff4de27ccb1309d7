//! Pure path arithmetic on request-relative segment lists.
//!
//! A served location is modelled as the sequence of path segments under the
//! serving root; the root itself is the empty sequence.  Joining never probes
//! the filesystem: existence and type checks belong to callers.

use vstd::prelude::*;
use vstd::string::StringExecFns;

verus! {

/// Copies a segment list; the copy denotes the same path.
pub fn clone_segments(p: &Vec<String>) -> (r: Vec<String>)
    ensures
        r@ == p@,
{
    let mut r: Vec<String> = Vec::new();
    let mut i: usize = 0;
    while i < p.len()
        invariant
            i <= p@.len(),
            r@ == p@.take(i as int),
        decreases p@.len() - i,
    {
        r.push(p[i].clone());
        proof {
            assert(r@ =~= p@.take(i as int + 1));
        }
        i += 1;
    }
    proof {
        assert(p@.take(p@.len() as int) =~= p@);
    }
    r
}

/// Joins a relative path onto a base path: plain concatenation of segment
/// lists.
pub fn resolve(base: &Vec<String>, relative: &Vec<String>) -> (r: Vec<String>)
    ensures
        r@ == base@ + relative@,
{
    let mut r = clone_segments(base);
    let mut i: usize = 0;
    proof {
        assert(r@ =~= base@ + relative@.take(0));
    }
    while i < relative.len()
        invariant
            i <= relative@.len(),
            r@ == base@ + relative@.take(i as int),
        decreases relative@.len() - i,
    {
        r.push(relative[i].clone());
        proof {
            assert(r@ =~= base@ + relative@.take(i as int + 1));
        }
        i += 1;
    }
    proof {
        assert(base@ + relative@.take(relative@.len() as int) =~= base@ + relative@);
    }
    r
}

/// Appends one further segment (a file name) to a directory path.
pub fn resolve_child(dir: &Vec<String>, name: String) -> (r: Vec<String>)
    ensures
        r@ == dir@.push(name),
{
    let mut r = clone_segments(dir);
    r.push(name);
    r
}

/// The parent of a non-root path: the same path without its last segment.
pub fn parent_of(p: &Vec<String>) -> (r: Vec<String>)
    requires
        p@.len() > 0,
    ensures
        r@ == p@.drop_last(),
{
    let mut r: Vec<String> = Vec::new();
    let mut i: usize = 0;
    while i < p.len() - 1
        invariant
            p@.len() > 0,
            i <= p@.len() - 1,
            r@ == p@.take(i as int),
        decreases p@.len() - 1 - i,
    {
        r.push(p[i].clone());
        proof {
            assert(r@ =~= p@.take(i as int + 1));
        }
        i += 1;
    }
    proof {
        assert(p@.take(p@.len() - 1) =~= p@.drop_last());
    }
    r
}

/// The segments of a path joined with `/` separators, no leading slash.
pub open spec fn joined_segments(path: Seq<String>) -> Seq<char>
    decreases path.len(),
{
    if path.len() == 0 {
        Seq::empty()
    } else if path.len() == 1 {
        path[0]@
    } else {
        joined_segments(path.drop_last()) + "/"@ + path.last()@
    }
}

/// The link target for a path: `/` followed by its slash-joined segments, so
/// the browser resolves it against the serving root.
pub open spec fn href_seq(path: Seq<String>) -> Seq<char> {
    "/"@ + joined_segments(path)
}

/// Renders the link target of a path.
pub fn href_of(path: &Vec<String>) -> (r: String)
    ensures
        r@ == href_seq(path@),
{
    let mut s = String::from_str("/");
    let mut i: usize = 0;
    proof {
        assert(s@ =~= "/"@ + joined_segments(path@.take(0)));
    }
    while i < path.len()
        invariant
            i <= path@.len(),
            s@ == "/"@ + joined_segments(path@.take(i as int)),
        decreases path@.len() - i,
    {
        if i > 0 {
            s.append("/");
        }
        s.append(path[i].as_str());
        proof {
            assert(path@.take(i as int + 1).drop_last() =~= path@.take(i as int));
            assert(s@ =~= "/"@ + joined_segments(path@.take(i as int + 1)));
        }
        i += 1;
    }
    proof {
        assert(path@.take(path@.len() as int) =~= path@);
    }
    s
}

} // verus!
