//! The identity of an indexed snapshot of a worktree.
use crate::chunking::types::lit;
use crate::sorted::{insert_sorted, lemma_sorted_insert, lemma_strictly_sorted_unique, sorted_insert, strictly_sorted};
use crate::text::{join, join_strings, push_str, trim, trim_str, views};
use vstd::prelude::*;

verus! {

/// What a snapshot was built from: the repository and worktree roots, the
/// commit, the target triple, the enabled features and the profile.
#[derive(Debug, Clone, PartialEq, Eq)]
pub struct SnapshotKey {
    pub repo_root: String,
    pub worktree_root: String,
    pub git_sha: String,
    pub cargo_target: String,
    pub feature_set: Vec<String>,
    pub cfg_profile: String,
}

pub open spec fn str_views(s: Seq<&str>) -> Seq<Seq<char>> {
    s.map_values(|x: &str| x@)
}

/// The features named by a list: each one trimmed, empty names left out.
pub open spec fn feature_names(fs: Seq<Seq<char>>) -> Set<Seq<char>> {
    Set::new(|t: Seq<char>| t.len() > 0 && exists|i: int| 0 <= i < fs.len() && trim(#[trigger] fs[i]) == t)
}

/// The normalized form of the first `k` names of a list: each trimmed,
/// empty ones left out, the rest kept in increasing order without repeats.
pub open spec fn normalized_upto(fs: Seq<Seq<char>>, k: int) -> Seq<Seq<char>>
    decreases k,
{
    if k <= 0 || k > fs.len() {
        seq![]
    } else {
        let t = trim(fs[k - 1]);
        if t.len() > 0 {
            sorted_insert(normalized_upto(fs, k - 1), t)
        } else {
            normalized_upto(fs, k - 1)
        }
    }
}

pub open spec fn normalized_features(fs: Seq<Seq<char>>) -> Seq<Seq<char>> {
    normalized_upto(fs, fs.len() as int)
}

/// A snapshot key as plain values.
pub struct SnapshotKeyView {
    pub repo_root: Seq<char>,
    pub worktree_root: Seq<char>,
    pub git_sha: Seq<char>,
    pub cargo_target: Seq<char>,
    pub feature_set: Seq<Seq<char>>,
    pub cfg_profile: Seq<char>,
}

impl View for SnapshotKey {
    type V = SnapshotKeyView;

    open spec fn view(&self) -> SnapshotKeyView {
        SnapshotKeyView {
            repo_root: self.repo_root@,
            worktree_root: self.worktree_root@,
            git_sha: self.git_sha@,
            cargo_target: self.cargo_target@,
            feature_set: views(self.feature_set@),
            cfg_profile: self.cfg_profile@,
        }
    }
}

/// `repo|worktree|sha|target|f1,f2,...|profile`.
pub open spec fn key_id(k: SnapshotKey) -> Seq<char> {
    k.repo_root@ + "|"@ + k.worktree_root@ + "|"@ + k.git_sha@ + "|"@ + k.cargo_target@ + "|"@
        + join(views(k.feature_set@), ","@) + "|"@ + k.cfg_profile@
}

/// The features of a list, trimmed, without empty names and repeats, in
/// increasing order.
pub fn normalize_feature_set(feature_set: &[&str]) -> (r: Vec<String>)
    ensures
        views(r@) == normalized_features(str_views(feature_set@)),
        strictly_sorted(views(r@)),
        views(r@).to_set() == feature_names(str_views(feature_set@)),
{
    let ghost fs = str_views(feature_set@);
    let mut v: Vec<String> = Vec::new();
    let mut i: usize = 0;
    assert(views(v@).to_set() =~= feature_names(fs.take(0)));
    while i < feature_set.len()
        invariant
            0 <= i <= feature_set@.len(),
            fs == str_views(feature_set@),
            strictly_sorted(views(v@)),
            views(v@).to_set() == feature_names(fs.take(i as int)),
            views(v@) == normalized_upto(fs, i as int),
        decreases feature_set.len() - i,
    {
        let t = trim_str(feature_set[i]);
        let ghost tv = t@;
        assert(fs[i as int] == feature_set@[i as int]@);
        let tc = crate::text::chars_of(t.as_str());
        if tc.len() > 0 {
            insert_sorted(&mut v, t);
            assert(feature_names(fs.take(i + 1)) =~= feature_names(fs.take(i as int)).insert(tv)) by {
                assert(fs.take(i + 1)[i as int] == fs[i as int]);
                assert forall|e: Seq<char>| feature_names(fs.take(i + 1)).contains(e) implies feature_names(fs.take(i as int)).insert(tv).contains(e) by {
                    let k = choose|k: int| 0 <= k < fs.take(i + 1).len() && trim(#[trigger] fs.take(i + 1)[k]) == e;
                    if k < i {
                        assert(fs.take(i as int)[k] == fs.take(i + 1)[k]);
                    }
                }
                assert forall|e: Seq<char>| feature_names(fs.take(i as int)).insert(tv).contains(e) implies feature_names(fs.take(i + 1)).contains(e) by {
                    if e != tv {
                        let k = choose|k: int| 0 <= k < fs.take(i as int).len() && trim(#[trigger] fs.take(i as int)[k]) == e;
                        assert(fs.take(i + 1)[k] == fs.take(i as int)[k]);
                    }
                }
            }
        } else {
            assert(feature_names(fs.take(i + 1)) =~= feature_names(fs.take(i as int))) by {
                assert(fs.take(i + 1)[i as int] == fs[i as int]);
                assert forall|e: Seq<char>| feature_names(fs.take(i + 1)).contains(e) implies feature_names(fs.take(i as int)).contains(e) by {
                    let k = choose|k: int| 0 <= k < fs.take(i + 1).len() && trim(#[trigger] fs.take(i + 1)[k]) == e;
                    if k < i {
                        assert(fs.take(i as int)[k] == fs.take(i + 1)[k]);
                    }
                }
                assert forall|e: Seq<char>| feature_names(fs.take(i as int)).contains(e) implies feature_names(fs.take(i + 1)).contains(e) by {
                    let k = choose|k: int| 0 <= k < fs.take(i as int).len() && trim(#[trigger] fs.take(i as int)[k]) == e;
                    assert(fs.take(i + 1)[k] == fs.take(i as int)[k]);
                }
            }
        }
        i = i + 1;
    }
    assert(fs.take(feature_set@.len() as int) =~= fs);
    v
}

impl SnapshotKey {
    /// A key whose feature set is normalized (see
    /// [`normalize_feature_set`]).
    pub fn new(
        repo_root: &str,
        worktree_root: &str,
        git_sha: &str,
        cargo_target: &str,
        feature_set: &[&str],
        cfg_profile: &str,
    ) -> (r: Self)
        ensures
            r.repo_root@ == repo_root@,
            r.worktree_root@ == worktree_root@,
            r.git_sha@ == git_sha@,
            r.cargo_target@ == cargo_target@,
            views(r.feature_set@) == normalized_features(str_views(feature_set@)),
            strictly_sorted(views(r.feature_set@)),
            views(r.feature_set@).to_set() == feature_names(str_views(feature_set@)),
            r.cfg_profile@ == cfg_profile@,
    {
        SnapshotKey {
            repo_root: lit(repo_root),
            worktree_root: lit(worktree_root),
            git_sha: lit(git_sha),
            cargo_target: lit(cargo_target),
            feature_set: normalize_feature_set(feature_set),
            cfg_profile: lit(cfg_profile),
        }
    }

    /// The snapshot id: the key's fields joined by `|`, the features by `,`.
    pub fn id(&self) -> (r: String)
        ensures
            r@ == key_id(*self),
    {
        let mut r = self.repo_root.clone();
        push_str(&mut r, "|");
        push_str(&mut r, self.worktree_root.as_str());
        push_str(&mut r, "|");
        push_str(&mut r, self.git_sha.as_str());
        push_str(&mut r, "|");
        push_str(&mut r, self.cargo_target.as_str());
        push_str(&mut r, "|");
        let f = join_strings(self.feature_set.as_slice(), ",");
        push_str(&mut r, f.as_str());
        push_str(&mut r, "|");
        push_str(&mut r, self.cfg_profile.as_str());
        r
    }
}

/// Keys that differ only in their worktree root have different ids: a
/// snapshot's identity changes when its worktree changes.
pub proof fn lemma_id_changes_with_worktree_root(a: SnapshotKey, b: SnapshotKey)
    requires
        a.repo_root@ == b.repo_root@,
        a.git_sha@ == b.git_sha@,
        a.cargo_target@ == b.cargo_target@,
        views(a.feature_set@) == views(b.feature_set@),
        a.cfg_profile@ == b.cfg_profile@,
        a.worktree_root@ != b.worktree_root@,
    ensures
        key_id(a) != key_id(b),
{
    let p = a.repo_root@ + "|"@;
    let t = "|"@ + a.git_sha@ + "|"@ + a.cargo_target@ + "|"@ + join(views(a.feature_set@), ","@)
        + "|"@ + a.cfg_profile@;
    assert(key_id(a) =~= p + a.worktree_root@ + t);
    assert(key_id(b) =~= p + b.worktree_root@ + t);
    if key_id(a) == key_id(b) {
        let wa = a.worktree_root@;
        let wb = b.worktree_root@;
        assert((p + wa + t).len() == (p + wb + t).len());
        assert(wa.len() == wb.len());
        assert((p + wa + t).subrange(p.len() as int, (p.len() + wa.len()) as int) =~= wa);
        assert((p + wb + t).subrange(p.len() as int, (p.len() + wb.len()) as int) =~= wb);
    }
}

/// The first `k` names normalize to a strictly increasing listing of the
/// features they name.
pub proof fn lemma_normalized_upto(fs: Seq<Seq<char>>, k: int)
    requires
        0 <= k <= fs.len(),
    ensures
        strictly_sorted(normalized_upto(fs, k)),
        normalized_upto(fs, k).to_set() == feature_names(fs.take(k)),
    decreases k,
{
    if k == 0 {
        assert(normalized_upto(fs, 0).to_set() =~= feature_names(fs.take(0)));
    } else {
        lemma_normalized_upto(fs, k - 1);
        let prev = normalized_upto(fs, k - 1);
        let t = trim(fs[k - 1]);
        assert(fs.take(k)[k - 1] == fs[k - 1]);
        if t.len() > 0 {
            lemma_sorted_insert(prev, t);
            assert(feature_names(fs.take(k)) =~= feature_names(fs.take(k - 1)).insert(t)) by {
                assert forall|e: Seq<char>| feature_names(fs.take(k)).contains(e) implies feature_names(fs.take(k - 1)).insert(t).contains(e) by {
                    let i = choose|i: int| 0 <= i < fs.take(k).len() && trim(#[trigger] fs.take(k)[i]) == e;
                    if i < k - 1 {
                        assert(fs.take(k - 1)[i] == fs.take(k)[i]);
                    }
                }
                assert forall|e: Seq<char>| feature_names(fs.take(k - 1)).insert(t).contains(e) implies feature_names(fs.take(k)).contains(e) by {
                    if e != t {
                        let i = choose|i: int| 0 <= i < fs.take(k - 1).len() && trim(#[trigger] fs.take(k - 1)[i]) == e;
                        assert(fs.take(k)[i] == fs.take(k - 1)[i]);
                    }
                }
            }
        } else {
            assert(feature_names(fs.take(k)) =~= feature_names(fs.take(k - 1))) by {
                assert forall|e: Seq<char>| feature_names(fs.take(k)).contains(e) implies feature_names(fs.take(k - 1)).contains(e) by {
                    let i = choose|i: int| 0 <= i < fs.take(k).len() && trim(#[trigger] fs.take(k)[i]) == e;
                    if i < k - 1 {
                        assert(fs.take(k - 1)[i] == fs.take(k)[i]);
                    }
                }
                assert forall|e: Seq<char>| feature_names(fs.take(k - 1)).contains(e) implies feature_names(fs.take(k)).contains(e) by {
                    let i = choose|i: int| 0 <= i < fs.take(k - 1).len() && trim(#[trigger] fs.take(k - 1)[i]) == e;
                    assert(fs.take(k)[i] == fs.take(k - 1)[i]);
                }
            }
        }
    }
}

/// A feature list normalizes by the features it names alone: lists naming
/// the same features, in any order, with repeats or surrounding blanks,
/// normalize to the same set, so one build world has one snapshot key.
pub proof fn lemma_features_normalize_by_names(a: Seq<Seq<char>>, b: Seq<Seq<char>>)
    requires
        feature_names(a) == feature_names(b),
    ensures
        normalized_features(a) == normalized_features(b),
{
    lemma_normalized_upto(a, a.len() as int);
    lemma_normalized_upto(b, b.len() as int);
    assert(a.take(a.len() as int) =~= a);
    assert(b.take(b.len() as int) =~= b);
    lemma_strictly_sorted_unique(normalized_features(a), normalized_features(b));
}

} // verus!
