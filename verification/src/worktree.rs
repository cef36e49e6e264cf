//! The paths a worktree has changed, as a set of normalized paths.
use crate::sorted::{insert_sorted, strictly_sorted};
use crate::text::{chars_of, push_char, views};
use vstd::prelude::*;

verus! {

/// A path with backslashes turned into slashes.
pub open spec fn normalize_path_spec(p: Seq<char>) -> Seq<char> {
    p.map_values(|c: char| if c == '\\' { '/' } else { c })
}

/// Normalizing a normalized path changes nothing, so every changed path
/// matches itself.
pub proof fn lemma_normalize_idempotent(p: Seq<char>)
    ensures
        normalize_path_spec(normalize_path_spec(p)) == normalize_path_spec(p),
{
    assert(normalize_path_spec(normalize_path_spec(p)) =~= normalize_path_spec(p));
}

/// `s` ends with `t`.
pub open spec fn ends_with(s: Seq<char>, t: Seq<char>) -> bool {
    t.len() <= s.len() && s.skip(s.len() - t.len()) =~= t
}

pub fn normalize_string_path(path: &str) -> (r: String)
    ensures
        r@ == normalize_path_spec(path@),
{
    let cs = chars_of(path);
    let mut r = String::new();
    let mut i: usize = 0;
    while i < cs.len()
        invariant
            0 <= i <= cs@.len(),
            cs@ == path@,
            r@ == normalize_path_spec(path@.take(i as int)),
        decreases cs.len() - i,
    {
        let c = cs[i];
        push_char(&mut r, if c == '\\' { '/' } else { c });
        assert(normalize_path_spec(path@.take(i + 1)) =~= normalize_path_spec(path@.take(i as int)).push(
            if c == '\\' { '/' } else { c },
        ));
        i = i + 1;
    }
    assert(path@.take(cs@.len() as int) =~= path@);
    r
}

/// The set of changed paths, kept in increasing order without repeats.
#[derive(Debug, PartialEq, Eq)]
pub struct WorktreeChanges {
    changed_paths: Vec<String>,
}

impl WorktreeChanges {
    #[verifier::type_invariant]
    spec fn sorted_paths(&self) -> bool {
        strictly_sorted(views(self.changed_paths@))
    }

    /// The changed paths, in increasing order.
    pub closed spec fn changed(&self) -> Seq<Seq<char>> {
        views(self.changed_paths@)
    }

    /// No changes.
    pub fn empty() -> (r: Self)
        ensures
            r.changed().len() == 0,
    {
        let v: Vec<String> = Vec::new();
        assert(views(v@) =~= Seq::<Seq<char>>::empty());
        WorktreeChanges { changed_paths: v }
    }

    /// The set of the given paths, normalized.
    pub fn from_paths(paths: &[String]) -> (r: Self)
        ensures
            strictly_sorted(r.changed()),
            r.changed().to_set() == views(paths@).map_values(|p: Seq<char>| normalize_path_spec(p)).to_set(),
    {
        let mut v: Vec<String> = Vec::new();
        let ghost f = |p: Seq<char>| normalize_path_spec(p);
        let mut i: usize = 0;
        assert(views(v@).to_set() =~= views(paths@.take(0)).map_values(f).to_set());
        while i < paths.len()
            invariant
                0 <= i <= paths@.len(),
                f == (|p: Seq<char>| normalize_path_spec(p)),
                strictly_sorted(views(v@)),
                views(v@).to_set() == views(paths@.take(i as int)).map_values(f).to_set(),
            decreases paths.len() - i,
        {
            let n = normalize_string_path(paths[i].as_str());
            let ghost nv = n@;
            insert_sorted(&mut v, n);
            assert(views(paths@.take(i + 1)).map_values(f) =~= views(paths@.take(i as int)).map_values(f).push(nv));
            assert(views(paths@.take(i + 1)).map_values(f).to_set() =~= views(paths@.take(i as int)).map_values(f).to_set().insert(nv)) by {
                let s = views(paths@.take(i as int)).map_values(f);
                assert(s.push(nv).to_set() =~= s.to_set().insert(nv)) by {
                    assert forall|e: Seq<char>| s.push(nv).to_set().contains(e) implies s.to_set().insert(nv).contains(e) by {
                        let k = choose|k: int| 0 <= k < s.push(nv).len() && s.push(nv)[k] == e;
                        if k < s.len() {
                            assert(s[k] == e);
                        }
                    }
                    assert forall|e: Seq<char>| s.to_set().insert(nv).contains(e) implies s.push(nv).to_set().contains(e) by {
                        if e == nv {
                            assert(s.push(nv)[s.len() as int] == e);
                        } else {
                            let k = choose|k: int| 0 <= k < s.len() && s[k] == e;
                            assert(s.push(nv)[k] == e);
                        }
                    }
                }
            }
            i = i + 1;
        }
        assert(paths@.take(paths@.len() as int) =~= paths@);
        WorktreeChanges { changed_paths: v }
    }

    /// A file is changed when its normalized path is one of the changed
    /// paths or ends with `/` followed by one of them.
    pub open spec fn touches(&self, file_path: Seq<char>) -> bool {
        exists|i: int|
            0 <= i < self.changed().len() && (normalize_path_spec(file_path) == #[trigger] self.changed()[i]
                || ends_with(normalize_path_spec(file_path), seq!['/'] + self.changed()[i]))
    }

    /// Whether the file is changed (see [`WorktreeChanges::touches`]).
    pub fn matches(&self, file_path: &str) -> (r: bool)
        ensures
            r == self.touches(file_path@),
    {
        let fp = normalize_string_path(file_path);
        let fc = chars_of(fp.as_str());
        let mut i: usize = 0;
        while i < self.changed_paths.len()
            invariant
                0 <= i <= self.changed_paths@.len(),
                fc@ == normalize_path_spec(file_path@),
                forall|k: int|
                    0 <= k < i ==> !(fc@ == #[trigger] views(self.changed_paths@)[k] || ends_with(
                        fc@,
                        seq!['/'] + views(self.changed_paths@)[k],
                    )),
            decreases self.changed_paths.len() - i,
        {
            let cc = chars_of(self.changed_paths[i].as_str());
            let ghost c = views(self.changed_paths@)[i as int];
            assert(cc@ == c);
            assert(self.changed()[i as int] == c);
            if crate::text::chars_equal(fc.as_slice(), cc.as_slice()) {
                return true;
            }
            let n = fc.len();
            let m = cc.len();
            if m < n && fc[n - m - 1] == '/' {
                let mut k: usize = 0;
                let mut same = true;
                while k < m
                    invariant
                        0 <= k <= m,
                        m + 1 <= n,
                        n == fc@.len(),
                        m == cc@.len(),
                        same == (forall|q: int| 0 <= q < k ==> fc@[n - m + q] == cc@[q]),
                    decreases m - k,
                {
                    if fc[n - m + k] != cc[k] {
                        same = false;
                    }
                    k = k + 1;
                }
                if same {
                    assert(fc@.skip(n - m - 1) =~= seq!['/'] + c);
                    return true;
                }
                assert(!ends_with(fc@, seq!['/'] + c)) by {
                    if ends_with(fc@, seq!['/'] + c) {
                        let q = choose|q: int| 0 <= q < m && fc@[n - m + q] != cc@[q];
                        assert(fc@.skip(n - m - 1)[q + 1] == (seq!['/'] + c)[q + 1]);
                    }
                }
            } else {
                assert(!ends_with(fc@, seq!['/'] + c)) by {
                    if ends_with(fc@, seq!['/'] + c) {
                        assert(fc@.skip(n - m - 1)[0] == (seq!['/'] + c)[0]);
                    }
                }
            }
            i = i + 1;
        }
        false
    }

    pub fn is_empty(&self) -> (r: bool)
        ensures
            r == (self.changed().len() == 0),
    {
        self.changed_paths.len() == 0
    }

    /// A copy of the set.
    pub fn copy(&self) -> (r: Self)
        ensures
            r.changed() == self.changed(),
            strictly_sorted(r.changed()),
    {
        proof {
            use_type_invariant(self);
        }
        WorktreeChanges { changed_paths: crate::chunking::types::clone_strings(&self.changed_paths) }
    }

    /// The changed paths, in strictly increasing order.
    pub fn paths(&self) -> (r: Vec<String>)
        ensures
            views(r@) == self.changed(),
            strictly_sorted(views(r@)),
    {
        proof {
            use_type_invariant(self);
        }
        crate::chunking::types::clone_strings(&self.changed_paths)
    }
}

} // verus!
