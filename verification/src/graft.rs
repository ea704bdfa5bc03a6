//! Grafting: wholesale replacement of the linting-tool subdirectory inside
//! the upstream source tree with the change's working copy.
//!
//! A tree's files are modeled as a list of entries, each a relative path
//! and its contents, both as bytes.  The graft removes every entry under
//! the tool subdirectory prefix and appends the source working copy's
//! entries re-rooted under that prefix — a remove-then-copy, not a merge:
//! files of the old subdirectory absent from the new contents are gone.
//! The unverified shell mirrors this on disk with directory removal and a
//! recursive copy.

use vstd::prelude::*;

verus! {

/// One file of a modeled tree: a relative path and the file's contents.
#[derive(Debug)]
pub struct FileEntry {
    pub path: Vec<u8>,
    pub data: Vec<u8>,
}

/// The mathematical value of a file entry: its path and contents as byte
/// sequences.
pub open spec fn entry_view(e: FileEntry) -> (Seq<u8>, Seq<u8>) {
    (e.path@, e.data@)
}

/// Whether `prefix` is a prefix of `path`.
pub open spec fn is_prefix(path: Seq<u8>, prefix: Seq<u8>) -> bool {
    prefix.len() <= path.len() && path.take(prefix.len() as int) == prefix
}

/// The views of the entries of `files` whose path does not lie under
/// `prefix`, in order.
pub open spec fn keep_outside(files: Seq<FileEntry>, prefix: Seq<u8>) -> Seq<(Seq<u8>, Seq<u8>)>
    decreases files.len(),
{
    if files.len() == 0 {
        Seq::empty()
    } else {
        keep_outside(files.drop_last(), prefix) + if is_prefix(files.last().path@, prefix) {
            Seq::empty()
        } else {
            seq![entry_view(files.last())]
        }
    }
}

/// The views of the entries of `files`, each re-rooted under `prefix`, in
/// order.
pub open spec fn prefixed_views(files: Seq<FileEntry>, prefix: Seq<u8>) -> Seq<(Seq<u8>, Seq<u8>)>
    decreases files.len(),
{
    if files.len() == 0 {
        Seq::empty()
    } else {
        prefixed_views(files.drop_last(), prefix) + seq![
            (prefix + files.last().path@, files.last().data@),
        ]
    }
}

/// The views of the entries of `files` whose path lies under `prefix`, in
/// order: the contents of the subdirectory named by `prefix`.
pub open spec fn subdir_views(views: Seq<(Seq<u8>, Seq<u8>)>, prefix: Seq<u8>) -> Seq<
    (Seq<u8>, Seq<u8>),
>
    decreases views.len(),
{
    if views.len() == 0 {
        Seq::empty()
    } else {
        subdir_views(views.drop_last(), prefix) + if is_prefix(views.last().0, prefix) {
            seq![views.last()]
        } else {
            Seq::empty()
        }
    }
}

/// The views among `views` whose path does not lie under `prefix`, in
/// order: the contents of the tree outside the subdirectory named by
/// `prefix`.
pub open spec fn outside_views(views: Seq<(Seq<u8>, Seq<u8>)>, prefix: Seq<u8>) -> Seq<
    (Seq<u8>, Seq<u8>),
>
    decreases views.len(),
{
    if views.len() == 0 {
        Seq::empty()
    } else {
        outside_views(views.drop_last(), prefix) + if is_prefix(views.last().0, prefix) {
            Seq::empty()
        } else {
            seq![views.last()]
        }
    }
}

/// The views of `files` in order.
pub open spec fn views_of(files: Seq<FileEntry>) -> Seq<(Seq<u8>, Seq<u8>)>
    decreases files.len(),
{
    if files.len() == 0 {
        Seq::empty()
    } else {
        views_of(files.drop_last()) + seq![entry_view(files.last())]
    }
}

/// Whether `prefix` is a prefix of `path`, decided byte by byte.
pub fn starts_with(path: &Vec<u8>, prefix: &Vec<u8>) -> (r: bool)
    ensures
        r == is_prefix(path@, prefix@),
{
    if prefix.len() > path.len() {
        proof {
            assert(!is_prefix(path@, prefix@));
        }
        return false;
    }
    let mut i: usize = 0;
    while i < prefix.len()
        invariant
            0 <= i <= prefix@.len() <= path@.len(),
            forall|j: int| 0 <= j < i ==> path@[j] == prefix@[j],
        decreases prefix@.len() - i,
    {
        if path[i] != prefix[i] {
            proof {
                assert(path@.take(prefix@.len() as int)[i as int] == path@[i as int]);
            }
            return false;
        }
        i = i + 1;
    }
    proof {
        assert(path@.take(prefix@.len() as int) =~= prefix@);
    }
    true
}

/// A copy of a byte vector with the same contents.
pub fn copy_bytes(v: &Vec<u8>) -> (r: Vec<u8>)
    ensures
        r@ == v@,
{
    let mut r: Vec<u8> = Vec::new();
    let mut i: usize = 0;
    while i < v.len()
        invariant
            0 <= i <= v@.len(),
            r@ == v@.take(i as int),
        decreases v@.len() - i,
    {
        r.push(v[i]);
        proof {
            assert(v@.take(i + 1) =~= v@.take(i as int).push(v@[i as int]));
        }
        i = i + 1;
    }
    proof {
        assert(v@.take(v@.len() as int) =~= v@);
    }
    r
}

/// Replaces the contents of the subdirectory named by `prefix` inside
/// `upstream` with the entries of `source` re-rooted under `prefix`: every
/// old entry under the prefix is removed, every entry outside it is kept
/// unchanged, and the source working copy's entries are appended.
pub fn graft(upstream: &mut Vec<FileEntry>, source: &Vec<FileEntry>, prefix: &Vec<u8>)
    ensures
        views_of(final(upstream)@) == keep_outside(old(upstream)@, prefix@) + prefixed_views(
            source@,
            prefix@,
        ),
{
    let mut result: Vec<FileEntry> = Vec::new();
    let mut i: usize = 0;
    while i < upstream.len()
        invariant
            0 <= i <= upstream@.len(),
            views_of(result@) == keep_outside(upstream@.take(i as int), prefix@),
        decreases upstream@.len() - i,
    {
        let ghost result_before = result@;
        if !starts_with(&upstream[i].path, prefix) {
            let entry = FileEntry {
                path: copy_bytes(&upstream[i].path),
                data: copy_bytes(&upstream[i].data),
            };
            proof {
                assert(entry_view(entry) == entry_view(upstream@[i as int]));
            }
            result.push(entry);
            proof {
                assert(result@.drop_last() =~= result_before);
                assert(result@.last() == result@[result@.len() - 1]);
            }
        }
        proof {
            assert(upstream@.take(i + 1).drop_last() =~= upstream@.take(i as int));
            assert(upstream@.take(i + 1).last() == upstream@[i as int]);
        }
        i = i + 1;
    }
    proof {
        assert(upstream@.take(upstream@.len() as int) =~= upstream@);
    }
    let mut k: usize = 0;
    while k < source.len()
        invariant
            0 <= k <= source@.len(),
            views_of(result@) == keep_outside(old(upstream)@, prefix@) + prefixed_views(
                source@.take(k as int),
                prefix@,
            ),
        decreases source@.len() - k,
    {
        let ghost result_before = result@;
        let mut path = copy_bytes(prefix);
        let rest = copy_bytes(&source[k].path);
        path.extend_from_slice(rest.as_slice());
        proof {
            assert(path@ =~= prefix@ + source@[k as int].path@) by {
                assert(forall|j: int|
                    0 <= j < path@.len() && j >= prefix@.len() ==> path@[j] == rest@[j
                        - prefix@.len()] && cloned::<u8>(rest@[j - prefix@.len()], path@[j]));
            }
        }
        let entry = FileEntry { path: path, data: copy_bytes(&source[k].data) };
        result.push(entry);
        proof {
            assert(result@.drop_last() =~= result_before);
            assert(source@.take(k + 1).drop_last() =~= source@.take(k as int));
            assert(source@.take(k + 1).last() == source@[k as int]);
        }
        k = k + 1;
    }
    proof {
        assert(source@.take(source@.len() as int) =~= source@);
    }
    *upstream = result;
}

/// Within a concatenation, the subdirectory filter distributes over the
/// two halves.
proof fn lemma_subdir_views_add(a: Seq<(Seq<u8>, Seq<u8>)>, b: Seq<(Seq<u8>, Seq<u8>)>, prefix: Seq<u8>)
    ensures
        subdir_views(a + b, prefix) == subdir_views(a, prefix) + subdir_views(b, prefix),
    decreases b.len(),
{
    if b.len() == 0 {
        assert(a + b =~= a);
        assert(subdir_views(b, prefix) =~= Seq::empty());
        assert(subdir_views(a, prefix) + Seq::empty() =~= subdir_views(a, prefix));
    } else {
        lemma_subdir_views_add(a, b.drop_last(), prefix);
        assert((a + b).drop_last() =~= a + b.drop_last());
        assert((a + b).last() == b.last());
        assert(subdir_views(a, prefix) + subdir_views(b.drop_last(), prefix) + (
        if is_prefix(b.last().0, prefix) {
            seq![b.last()]
        } else {
            Seq::<(Seq<u8>, Seq<u8>)>::empty()
        }) =~= subdir_views(a, prefix) + subdir_views(b, prefix));
    }
}

/// The subdirectory filter on a single view keeps or drops it according
/// to its path alone.
proof fn lemma_subdir_views_singleton(v: (Seq<u8>, Seq<u8>), prefix: Seq<u8>)
    ensures
        is_prefix(v.0, prefix) ==> subdir_views(seq![v], prefix) == seq![v],
        !is_prefix(v.0, prefix) ==> subdir_views(seq![v], prefix) == Seq::<(Seq<u8>, Seq<u8>)>::empty(),
{
    let s = seq![v];
    assert(s.drop_last() =~= Seq::<(Seq<u8>, Seq<u8>)>::empty());
    assert(subdir_views(s.drop_last(), prefix) == Seq::<(Seq<u8>, Seq<u8>)>::empty());
    assert(s.last() == v);
    if is_prefix(v.0, prefix) {
        assert(subdir_views(s, prefix) =~= s);
    } else {
        assert(subdir_views(s, prefix) =~= Seq::<(Seq<u8>, Seq<u8>)>::empty());
    }
}

/// Nothing that [`keep_outside`] kept lies under the prefix.
proof fn lemma_keep_outside_has_no_subdir(files: Seq<FileEntry>, prefix: Seq<u8>)
    ensures
        subdir_views(keep_outside(files, prefix), prefix) == Seq::<(Seq<u8>, Seq<u8>)>::empty(),
    decreases files.len(),
{
    if files.len() == 0 {
    } else {
        lemma_keep_outside_has_no_subdir(files.drop_last(), prefix);
        let kept = keep_outside(files.drop_last(), prefix);
        if is_prefix(files.last().path@, prefix) {
            assert(keep_outside(files, prefix) =~= kept);
        } else {
            lemma_subdir_views_add(kept, seq![entry_view(files.last())], prefix);
            lemma_subdir_views_singleton(entry_view(files.last()), prefix);
            assert(subdir_views(keep_outside(files, prefix), prefix) =~= Seq::empty());
        }
    }
}

/// Every re-rooted source entry lies under the prefix, so the subdirectory
/// filter keeps all of them, in order.
proof fn lemma_prefixed_views_all_in_subdir(files: Seq<FileEntry>, prefix: Seq<u8>)
    ensures
        subdir_views(prefixed_views(files, prefix), prefix) == prefixed_views(files, prefix),
    decreases files.len(),
{
    if files.len() == 0 {
    } else {
        lemma_prefixed_views_all_in_subdir(files.drop_last(), prefix);
        let v = (prefix + files.last().path@, files.last().data@);
        assert(is_prefix(v.0, prefix)) by {
            assert(v.0.take(prefix.len() as int) =~= prefix);
        }
        lemma_subdir_views_add(prefixed_views(files.drop_last(), prefix), seq![v], prefix);
        lemma_subdir_views_singleton(v, prefix);
    }
}

/// Within a concatenation, the outside filter distributes over the two
/// halves.
proof fn lemma_outside_views_add(
    a: Seq<(Seq<u8>, Seq<u8>)>,
    b: Seq<(Seq<u8>, Seq<u8>)>,
    prefix: Seq<u8>,
)
    ensures
        outside_views(a + b, prefix) == outside_views(a, prefix) + outside_views(b, prefix),
    decreases b.len(),
{
    if b.len() == 0 {
        assert(a + b =~= a);
        assert(outside_views(b, prefix) =~= Seq::empty());
        assert(outside_views(a, prefix) + Seq::empty() =~= outside_views(a, prefix));
    } else {
        lemma_outside_views_add(a, b.drop_last(), prefix);
        assert((a + b).drop_last() =~= a + b.drop_last());
        assert((a + b).last() == b.last());
        assert(outside_views(a, prefix) + outside_views(b.drop_last(), prefix) + (
        if is_prefix(b.last().0, prefix) {
            Seq::<(Seq<u8>, Seq<u8>)>::empty()
        } else {
            seq![b.last()]
        }) =~= outside_views(a, prefix) + outside_views(b, prefix));
    }
}

/// The outside filter on a single view keeps or drops it according to its
/// path alone.
proof fn lemma_outside_views_singleton(v: (Seq<u8>, Seq<u8>), prefix: Seq<u8>)
    ensures
        !is_prefix(v.0, prefix) ==> outside_views(seq![v], prefix) == seq![v],
        is_prefix(v.0, prefix) ==> outside_views(seq![v], prefix) == Seq::<(Seq<u8>, Seq<u8>)>::empty(),
{
    let s = seq![v];
    assert(s.drop_last() =~= Seq::<(Seq<u8>, Seq<u8>)>::empty());
    assert(outside_views(s.drop_last(), prefix) == Seq::<(Seq<u8>, Seq<u8>)>::empty());
    assert(s.last() == v);
    if is_prefix(v.0, prefix) {
        assert(outside_views(s, prefix) =~= Seq::<(Seq<u8>, Seq<u8>)>::empty());
    } else {
        assert(outside_views(s, prefix) =~= s);
    }
}

/// Everything [`keep_outside`] kept survives the outside filter, in order.
proof fn lemma_keep_outside_all_outside(files: Seq<FileEntry>, prefix: Seq<u8>)
    ensures
        outside_views(keep_outside(files, prefix), prefix) == keep_outside(files, prefix),
    decreases files.len(),
{
    if files.len() == 0 {
    } else {
        lemma_keep_outside_all_outside(files.drop_last(), prefix);
        let kept = keep_outside(files.drop_last(), prefix);
        if is_prefix(files.last().path@, prefix) {
            assert(keep_outside(files, prefix) =~= kept);
        } else {
            lemma_outside_views_add(kept, seq![entry_view(files.last())], prefix);
            lemma_outside_views_singleton(entry_view(files.last()), prefix);
        }
    }
}

/// No re-rooted source entry survives the outside filter.
proof fn lemma_prefixed_views_none_outside(files: Seq<FileEntry>, prefix: Seq<u8>)
    ensures
        outside_views(prefixed_views(files, prefix), prefix) == Seq::<(Seq<u8>, Seq<u8>)>::empty(),
    decreases files.len(),
{
    if files.len() == 0 {
    } else {
        lemma_prefixed_views_none_outside(files.drop_last(), prefix);
        let v = (prefix + files.last().path@, files.last().data@);
        assert(is_prefix(v.0, prefix)) by {
            assert(v.0.take(prefix.len() as int) =~= prefix);
        }
        lemma_outside_views_add(prefixed_views(files.drop_last(), prefix), seq![v], prefix);
        lemma_outside_views_singleton(v, prefix);
        assert(outside_views(prefixed_views(files, prefix), prefix) =~= Seq::empty());
    }
}

/// The graft replaces the tool subdirectory exactly: in the grafted tree,
/// the contents of the subdirectory named by `prefix` are precisely the
/// source working copy's entries re-rooted under the prefix — no file of
/// the pre-graft subdirectory survives — and the entries outside the
/// prefix are exactly those of the pre-graft tree.
pub proof fn lemma_graft_replaces_exactly(
    upstream: Seq<FileEntry>,
    source: Seq<FileEntry>,
    prefix: Seq<u8>,
)
    ensures
        subdir_views(keep_outside(upstream, prefix) + prefixed_views(source, prefix), prefix)
            == prefixed_views(source, prefix),
        outside_views(keep_outside(upstream, prefix) + prefixed_views(source, prefix), prefix)
            == keep_outside(upstream, prefix),
{
    lemma_subdir_views_add(keep_outside(upstream, prefix), prefixed_views(source, prefix), prefix);
    lemma_keep_outside_has_no_subdir(upstream, prefix);
    lemma_prefixed_views_all_in_subdir(source, prefix);
    assert(Seq::<(Seq<u8>, Seq<u8>)>::empty() + prefixed_views(source, prefix) =~= prefixed_views(
        source,
        prefix,
    ));
    lemma_outside_views_add(keep_outside(upstream, prefix), prefixed_views(source, prefix), prefix);
    lemma_keep_outside_all_outside(upstream, prefix);
    lemma_prefixed_views_none_outside(source, prefix);
    assert(keep_outside(upstream, prefix) + Seq::<(Seq<u8>, Seq<u8>)>::empty() =~= keep_outside(
        upstream,
        prefix,
    ));
}

} // verus!
