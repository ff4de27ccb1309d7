//! Ordered directory listings and the GET handler's decision.
//!
//! A listing body is: the parent link (unless the listed directory is the
//! root), then the subdirectories, then the files, each group in ascending
//! ordinal order of names, rendered to fragments and joined with nothing in
//! between.

use vstd::prelude::*;
use vstd::relations::sorted_by;
use vstd::string::StringExecFns;
use crate::entry::EntryDetail;
use crate::entry::EntryType;
use crate::entry::fragment_of;
use crate::paths::parent_of;
use crate::text::lemma_lex_le_total;
use crate::text::lemma_lex_le_trans;
use crate::text::lex_le;
use crate::text::str_le;

verus! {

/// The sort order on entries: ordinal order of their display names.
pub open spec fn entry_le(a: EntryDetail, b: EntryDetail) -> bool {
    lex_le(a.name@, b.name@)
}

/// The order handed to `sorted_by`.
pub open spec fn entry_order() -> spec_fn(EntryDetail, EntryDetail) -> bool {
    |a: EntryDetail, b: EntryDetail| entry_le(a, b)
}

/// Whether an entry displays as a directory.
pub open spec fn displays_as_dir(e: EntryDetail) -> bool {
    e.entry_type == EntryType::Directory
}

/// The subdirectory group of a listing.
pub open spec fn dir_pred() -> spec_fn(EntryDetail) -> bool {
    |e: EntryDetail| displays_as_dir(e)
}

/// The file group of a listing.
pub open spec fn file_pred() -> spec_fn(EntryDetail) -> bool {
    |e: EntryDetail| !displays_as_dir(e)
}

/// Splits entries into subdirectories and files, both in input order.
pub fn partition_entries(entries: Vec<EntryDetail>) -> (r: (Vec<EntryDetail>, Vec<EntryDetail>))
    ensures
        r.0@ == entries@.filter(dir_pred()),
        r.1@ == entries@.filter(file_pred()),
{
    let ghost orig = entries@;
    let mut rest = entries;
    let mut dirs: Vec<EntryDetail> = Vec::new();
    let mut files: Vec<EntryDetail> = Vec::new();
    let ghost mut k: int = 0;
    proof {
        reveal(Seq::filter);
        assert(rest@ =~= orig.skip(0));
        assert(dirs@ =~= orig.take(0).filter(dir_pred()));
        assert(files@ =~= orig.take(0).filter(file_pred()));
    }
    while rest.len() > 0
        invariant
            0 <= k <= orig.len(),
            rest@ == orig.skip(k),
            dirs@ == orig.take(k).filter(dir_pred()),
            files@ == orig.take(k).filter(file_pred()),
        decreases rest@.len(),
    {
        let x = rest.remove(0);
        proof {
            assert(x == orig[k]);
            assert(rest@ =~= orig.skip(k + 1));
        }
        let is_dir = x.entry_type == EntryType::Directory;
        if is_dir {
            dirs.push(x);
        } else {
            files.push(x);
        }
        proof {
            reveal(Seq::filter);
            assert(orig.take(k + 1).drop_last() =~= orig.take(k));
            assert(orig.take(k + 1).last() == orig[k]);
            assert(dirs@ =~= orig.take(k + 1).filter(dir_pred()));
            assert(files@ =~= orig.take(k + 1).filter(file_pred()));
            k = k + 1;
        }
    }
    proof {
        assert(orig.take(orig.len() as int) =~= orig);
    }
    (dirs, files)
}

fn min_index(v: &Vec<EntryDetail>) -> (r: usize)
    requires
        v@.len() > 0,
    ensures
        r < v@.len(),
        forall|j: int| 0 <= j < v@.len() ==> entry_le(v@[r as int], v@[j]),
{
    let mut best: usize = 0;
    let mut i: usize = 1;
    proof {
        lemma_lex_le_total(v@[0].name@, v@[0].name@);
    }
    while i < v.len()
        invariant
            best < i <= v@.len(),
            forall|j: int| 0 <= j < i ==> entry_le(v@[best as int], v@[j]),
        decreases v@.len() - i,
    {
        if str_le(v[i].name.as_str(), v[best].name.as_str()) {
            proof {
                lemma_lex_le_total(v@[i as int].name@, v@[i as int].name@);
                assert forall|j: int| 0 <= j < i + 1 implies entry_le(v@[i as int], v@[j]) by {
                    if j < i {
                        lemma_lex_le_trans(v@[i as int].name@, v@[best as int].name@, v@[j].name@);
                    }
                }
            }
            best = i;
        } else {
            proof {
                lemma_lex_le_total(v@[best as int].name@, v@[i as int].name@);
            }
        }
        i += 1;
    }
    best
}

/// Reorders entries into ascending ordinal order of names, keeping exactly
/// the given entries.
pub fn sort_entries(v: Vec<EntryDetail>) -> (r: Vec<EntryDetail>)
    ensures
        r@.to_multiset() == v@.to_multiset(),
        sorted_by(r@, entry_order()),
{
    let ghost orig = v@;
    let mut rest = v;
    let mut out: Vec<EntryDetail> = Vec::new();
    proof {
        broadcast use vstd::seq_lib::group_to_multiset_ensures;
        broadcast use vstd::multiset::group_multiset_axioms;

        assert(out@.to_multiset().add(rest@.to_multiset()) =~= orig.to_multiset());
    }
    while rest.len() > 0
        invariant
            out@.to_multiset().add(rest@.to_multiset()) == orig.to_multiset(),
            sorted_by(out@, entry_order()),
            forall|i: int, j: int|
                0 <= i < out@.len() && 0 <= j < rest@.len() ==> entry_le(out@[i], rest@[j]),
        decreases rest@.len(),
    {
        let m = min_index(&rest);
        let ghost old_out = out@;
        let ghost old_rest = rest@;
        let x = rest.remove(m);
        out.push(x);
        proof {
            broadcast use vstd::seq_lib::group_to_multiset_ensures;
            broadcast use vstd::multiset::group_multiset_axioms;

            assert(old_rest.contains(x));
            assert(rest@.to_multiset() == old_rest.to_multiset().remove(x));
            assert(out@.to_multiset() == old_out.to_multiset().insert(x));
            assert(out@.to_multiset().add(rest@.to_multiset()) =~= orig.to_multiset());
            assert forall|i: int, j: int|
                0 <= i < j < out@.len() implies entry_order()(out@[i], out@[j]) by {
                if j < out@.len() - 1 {
                    assert(entry_order()(old_out[i], old_out[j]));
                } else {
                    assert(entry_le(old_out[i], old_rest[m as int]));
                }
                assert(entry_le(out@[i], out@[j]));
            }
            assert forall|i: int, j: int|
                0 <= i < out@.len() && 0 <= j < rest@.len() implies entry_le(
                out@[i],
                rest@[j],
            ) by {
                if j < m {
                    assert(rest@[j] == old_rest[j]);
                } else {
                    assert(rest@[j] == old_rest[j + 1]);
                }
            }
        }
    }
    proof {
        broadcast use vstd::seq_lib::group_to_multiset_ensures;
        broadcast use vstd::multiset::group_multiset_axioms;

        assert(out@.to_multiset() =~= orig.to_multiset());
    }
    out
}

/// The rendered fragments of a run of entries, joined with no separator.
pub open spec fn fragments_of(s: Seq<EntryDetail>) -> Seq<char>
    decreases s.len(),
{
    if s.len() == 0 {
        Seq::empty()
    } else {
        fragments_of(s.drop_last()) + fragment_of(s.last())
    }
}

/// Rendering distributes over concatenation of entry runs.
pub proof fn lemma_fragments_of_concat(a: Seq<EntryDetail>, b: Seq<EntryDetail>)
    ensures
        fragments_of(a + b) == fragments_of(a) + fragments_of(b),
    decreases b.len(),
{
    if b.len() == 0 {
        assert(a + b =~= a);
        assert(fragments_of(a) + fragments_of(b) =~= fragments_of(a));
    } else {
        lemma_fragments_of_concat(a, b.drop_last());
        assert((a + b).drop_last() =~= a + b.drop_last());
        assert((a + b).last() == b.last());
        assert(fragments_of(a) + fragments_of(b.drop_last()) + fragment_of(b.last())
            =~= fragments_of(a) + fragments_of(b));
    }
}

fn render_entries(entries: &Vec<EntryDetail>, out: &mut String)
    ensures
        final(out)@ == old(out)@ + fragments_of(entries@),
{
    let mut i: usize = 0;
    proof {
        assert(out@ =~= old(out)@ + fragments_of(entries@.take(0)));
    }
    while i < entries.len()
        invariant
            i <= entries@.len(),
            out@ == old(out)@ + fragments_of(entries@.take(i as int)),
        decreases entries@.len() - i,
    {
        let frag = entries[i].to_html();
        out.append(frag.as_str());
        proof {
            assert(entries@.take(i as int + 1).drop_last() =~= entries@.take(i as int));
            assert(entries@.take(i as int + 1).last() == entries@[i as int]);
            assert(out@ =~= old(out)@ + fragments_of(entries@.take(i as int + 1)));
        }
        i += 1;
    }
    proof {
        assert(entries@.take(entries@.len() as int) =~= entries@);
    }
}

/// What a correct listing body looks like, split into its three runs.
pub open spec fn arranged_parts(
    dir: Seq<String>,
    input: Seq<EntryDetail>,
    r: Seq<char>,
    pre: Seq<EntryDetail>,
    ds: Seq<EntryDetail>,
    fs: Seq<EntryDetail>,
) -> bool {
    &&& r == fragments_of(pre + ds + fs)
    &&& if dir.len() == 0 {
        pre == Seq::<EntryDetail>::empty()
    } else {
        &&& pre.len() == 1
        &&& pre[0].name@ == ".."@
        &&& pre[0].path@ == dir.drop_last()
        &&& pre[0].entry_type == EntryType::Directory
        &&& pre[0].size is None
        &&& pre[0].date is None
    }
    &&& ds.to_multiset() == input.filter(dir_pred()).to_multiset()
    &&& sorted_by(ds, entry_order())
    &&& fs.to_multiset() == input.filter(file_pred()).to_multiset()
    &&& sorted_by(fs, entry_order())
}

/// The listing contract: the body is the parent link (absent exactly at the
/// root), then the subdirectories of the input sorted ascending by name,
/// then its files sorted ascending by name, never interleaved, each rendered
/// to its fragment.
pub open spec fn arranged_listing(dir: Seq<String>, input: Seq<EntryDetail>, r: Seq<char>) -> bool {
    exists|pre: Seq<EntryDetail>, ds: Seq<EntryDetail>, fs: Seq<EntryDetail>|
        arranged_parts(dir, input, r, pre, ds, fs)
}

/// Produces the listing body for the directory at `dir` (relative to the
/// root; empty means the root itself) whose readable children are `entries`.
pub fn list_directory(dir: &Vec<String>, entries: Vec<EntryDetail>) -> (r: String)
    ensures
        arranged_listing(dir@, entries@, r@),
{
    let (dvec, fvec) = partition_entries(entries);
    let ds = sort_entries(dvec);
    let fs = sort_entries(fvec);
    let mut s = String::new();
    let ghost mut pre: Seq<EntryDetail> = Seq::empty();
    if dir.len() > 0 {
        let parent = EntryDetail::new(
            String::from_str(".."),
            parent_of(dir),
            EntryType::Directory,
            Option::None,
            Option::None,
        );
        let frag = parent.to_html();
        s.append(frag.as_str());
        proof {
            pre = seq![parent];
            assert(pre.drop_last() =~= Seq::<EntryDetail>::empty());
            assert(fragments_of(Seq::<EntryDetail>::empty()) =~= Seq::<char>::empty());
            assert(pre.last() == parent);
            assert(s@ =~= fragments_of(pre));
        }
    } else {
        proof {
            assert(s@ =~= fragments_of(pre));
        }
    }
    render_entries(&ds, &mut s);
    render_entries(&fs, &mut s);
    proof {
        lemma_fragments_of_concat(pre, ds@);
        lemma_fragments_of_concat(pre + ds@, fs@);
        assert(s@ =~= fragments_of(pre + ds@ + fs@));
        assert(arranged_parts(dir@, entries@, s@, pre, ds@, fs@));
    }
    s
}

/// The three-way outcome of the GET handler: a listing body to wrap and
/// return, an explicit decline that lets a later route serve the path as a
/// file, or a server fault.
pub enum ListingOutcome {
    Handled(String),
    Declined,
    Failed(String),
}

/// The GET handler's decision for the path `dir`: a non-directory is always
/// declined, never an error; a directory whose children could not be read is
/// a fault carrying the reader's detail; a readable directory is handled
/// with its listing body.
pub fn handle_get(dir: &Vec<String>, is_dir: bool, read: Result<Vec<EntryDetail>, String>) -> (r:
    ListingOutcome)
    ensures
        !is_dir ==> r == ListingOutcome::Declined,
        is_dir && read is Err ==> r == ListingOutcome::Failed(read->Err_0),
        is_dir && read is Ok ==> (r matches ListingOutcome::Handled(body) && arranged_listing(
            dir@,
            read->Ok_0@,
            body@,
        )),
{
    if !is_dir {
        ListingOutcome::Declined
    } else {
        match read {
            Result::Err(e) => ListingOutcome::Failed(e),
            Result::Ok(entries) => ListingOutcome::Handled(list_directory(dir, entries)),
        }
    }
}

/// A listing of an empty directory that is not the root is exactly one
/// fragment: the parent link.
pub proof fn lemma_empty_listing(dir: Seq<String>, r: Seq<char>)
    requires
        dir.len() > 0,
        arranged_listing(dir, Seq::empty(), r),
    ensures
        exists|p: EntryDetail|
            {
                &&& p.name@ == ".."@
                &&& p.path@ == dir.drop_last()
                &&& p.entry_type == EntryType::Directory
                &&& p.size is None
                &&& p.date is None
                &&& r == fragment_of(p)
            },
{
    broadcast use vstd::seq_lib::group_to_multiset_ensures;

    let (pre, ds, fs): (Seq<EntryDetail>, Seq<EntryDetail>, Seq<EntryDetail>) = choose|
        pre: Seq<EntryDetail>,
        ds: Seq<EntryDetail>,
        fs: Seq<EntryDetail>,
    | arranged_parts(dir, Seq::empty(), r, pre, ds, fs);
    reveal(Seq::filter);
    assert(Seq::<EntryDetail>::empty().filter(dir_pred()) =~= Seq::<EntryDetail>::empty());
    assert(Seq::<EntryDetail>::empty().filter(file_pred()) =~= Seq::<EntryDetail>::empty());
    assert(ds.len() == ds.to_multiset().len());
    assert(fs.len() == fs.to_multiset().len());
    assert(ds =~= Seq::<EntryDetail>::empty());
    assert(fs =~= Seq::<EntryDetail>::empty());
    assert(pre + ds + fs =~= pre);
    let p = pre[0];
    assert(pre.drop_last() =~= Seq::<EntryDetail>::empty());
    assert(fragments_of(Seq::<EntryDetail>::empty()) =~= Seq::<char>::empty());
    assert(pre.last() == p);
    assert(r =~= fragment_of(p));
}

} // verus!
