//! Reading the history of a path out of `git log --name-status` lines.
use crate::chunking::types::{clone_opt, lit, opt_view};
use crate::metadata::{HistoryNodeRecord, LineageEdgeRecord, LineageEdgeView};
use crate::text::{contains_seq, push_str, str_contains, as_int_pairs, chars_of, split, split_chars, split_ranges, string_from_range, views};
use vstd::prelude::*;

verus! {

/// One change of a `--name-status` listing.
#[derive(Debug, Clone, PartialEq, Eq)]
pub struct GitChangeSummary {
    pub status: String,
    pub from_path: Option<String>,
    pub to_path: Option<String>,
}

/// One listing line: a rename (`R<score>\tfrom\tto`) extends the chain when
/// it renames the chain's last path; the first rename starts the chain.
pub open spec fn rename_step(chain: Seq<Seq<char>>, line: Seq<char>) -> Seq<Seq<char>> {
    let parts = split(line, seq!['\t']);
    if parts.len() < 3 || parts[0].len() == 0 || parts[0][0] != 'R' {
        chain
    } else {
        let from = parts[1];
        let to = parts[2];
        let started = if chain.len() == 0 {
            seq![from]
        } else {
            chain
        };
        if started.last() == from {
            started.push(to)
        } else {
            started
        }
    }
}

pub open spec fn rename_chain(ls: Seq<Seq<char>>, n: int) -> Seq<Seq<char>>
    decreases n,
{
    if n <= 0 || n > ls.len() {
        seq![]
    } else {
        rename_step(rename_chain(ls, n - 1), ls[n - 1])
    }
}

/// The successive paths of a file renamed across the listed changes.
pub fn parse_name_status_rename_chain(lines: &[String]) -> (r: Vec<String>)
    ensures
        views(r@) == rename_chain(views(lines@), lines@.len() as int),
{
    let ghost ls = views(lines@);
    let tab: Vec<char> = vec!['\t'];
    assert(tab@ =~= seq!['\t']);
    let mut chain: Vec<String> = Vec::new();
    let mut i: usize = 0;
    assert(views(chain@) =~= rename_chain(ls, 0));
    while i < lines.len()
        invariant
            0 <= i <= lines@.len(),
            ls == views(lines@),
            tab@ == seq!['\t'],
            views(chain@) == rename_chain(ls, i as int),
        decreases lines.len() - i,
    {
        let cs = chars_of(lines[i].as_str());
        let ghost line = ls[i as int];
        assert(cs@ == line);
        let parts = split_chars(cs.as_slice(), tab.as_slice());
        let ghost sp = split(line, seq!['\t']);
        assert(sp.len() == parts@.len());
        if parts.len() >= 3 {
            let (s0, e0) = parts[0];
            let (s1, e1) = parts[1];
            let (s2, e2) = parts[2];
            assert(as_int_pairs(parts@)[0] == (s0 as int, e0 as int));
            assert(as_int_pairs(parts@)[1] == (s1 as int, e1 as int));
            assert(as_int_pairs(parts@)[2] == (s2 as int, e2 as int));
            assert(sp[0] == cs@.subrange(s0 as int, e0 as int));
            assert(sp[1] == cs@.subrange(s1 as int, e1 as int));
            assert(sp[2] == cs@.subrange(s2 as int, e2 as int));
            if e0 > s0 && cs[s0] == 'R' {
                let from = string_from_range(cs.as_slice(), s1, e1);
                let to = string_from_range(cs.as_slice(), s2, e2);
                if chain.len() == 0 {
                    chain.push(from.clone());
                    assert(views(chain@) =~= seq![from@]);
                }
                let ghost started = views(chain@);
                let last_matches = crate::text::str_equal(chain[chain.len() - 1].as_str(), from.as_str());
                assert(started.last() == chain@[chain@.len() - 1]@);
                if last_matches {
                    chain.push(to);
                    assert(views(chain@) =~= started.push(sp[2]));
                }
            }
        }
        i = i + 1;
    }
    chain
}

/// `str::to_lowercase`: the Unicode lowercase mapping of a text.
pub uninterp spec fn lowercase(s: Seq<char>) -> Seq<char>;

/// `str::to_lowercase` (std). Its result is named, not spelled out: the
/// lowercase mapping follows Unicode's tables and depends on nothing but
/// the text.
#[verifier::external_body]
fn to_lowercase(s: &str) -> (r: String)
    ensures
        r@ == lowercase(s@),
{
    s.to_lowercase()
}

pub open spec fn lineage_views(v: Seq<LineageEdgeRecord>) -> Seq<LineageEdgeView> {
    v.map_values(|l: LineageEdgeRecord| l@)
}

/// The links between consecutive nodes `k` and `k + 1`, given the
/// lowercased summaries: `fixes` when the two summaries together mention
/// `fix` or `bug`, and `followed_by` when both nodes have a subject.
pub open spec fn pair_links(snapshot_id: Seq<char>, nodes: Seq<HistoryNodeRecord>, lowered: Seq<Seq<char>>, k: int) -> Seq<LineageEdgeView> {
    let l = nodes[k];
    let r = nodes[k + 1];
    let text = lowered[k] + " "@ + lowered[k + 1];
    let fixes = if contains_seq(text, "fix"@) || contains_seq(text, "bug"@) {
        seq![LineageEdgeView {
            edge_id: "lineage:"@ + l.node_id@ + ":"@ + r.node_id@,
            snapshot_id,
            from_node_id: l.node_id@,
            to_node_id: r.node_id@,
            edge_kind: "fixes"@,
            evidence: Some("heuristic message keyword"@),
            confidence_milli: 550,
        }]
    } else {
        seq![]
    };
    let followed = if l.subject is Some && r.subject is Some {
        seq![LineageEdgeView {
            edge_id: "lineage-followed:"@ + l.node_id@ + ":"@ + r.node_id@,
            snapshot_id,
            from_node_id: l.node_id@,
            to_node_id: r.node_id@,
            edge_kind: "followed_by"@,
            evidence: Some("commit sequence"@),
            confidence_milli: 800,
        }]
    } else {
        seq![]
    };
    fixes + followed
}

pub open spec fn links_upto(snapshot_id: Seq<char>, nodes: Seq<HistoryNodeRecord>, lowered: Seq<Seq<char>>, n: int) -> Seq<LineageEdgeView>
    decreases n,
{
    if n <= 0 || n + 1 > nodes.len() {
        seq![]
    } else {
        links_upto(snapshot_id, nodes, lowered, n - 1) + pair_links(snapshot_id, nodes, lowered, n - 1)
    }
}

pub open spec fn all_links(snapshot_id: Seq<char>, nodes: Seq<HistoryNodeRecord>, lowered: Seq<Seq<char>>) -> Seq<LineageEdgeView> {
    if nodes.len() < 2 {
        seq![]
    } else {
        links_upto(snapshot_id, nodes, lowered, nodes.len() - 1)
    }
}

fn push_link(v: &mut Vec<LineageEdgeRecord>, l: LineageEdgeRecord)
    ensures
        lineage_views(final(v)@) == lineage_views(old(v)@).push(l@),
{
    v.push(l);
    assert(lineage_views(v@) =~= lineage_views(old(v)@).push(l@));
}

fn concat3(a: &str, b: &str, c: &str, d: &str) -> (r: String)
    ensures
        r@ == a@ + b@ + c@ + d@,
{
    let mut r = lit(a);
    push_str(&mut r, b);
    push_str(&mut r, c);
    push_str(&mut r, d);
    r
}

/// The lineage edges of a history whose summaries, lowercased, are
/// `lowered` (one per node).
pub fn lineage_edges_from_lowered(snapshot_id: &str, nodes: &[HistoryNodeRecord], lowered: &[String]) -> (r: Vec<LineageEdgeRecord>)
    requires
        lowered@.len() == nodes@.len(),
    ensures
        lineage_views(r@) == all_links(snapshot_id@, nodes@, views(lowered@)),
{
    let ghost lw = views(lowered@);
    let mut out: Vec<LineageEdgeRecord> = Vec::new();
    if nodes.len() < 2 {
        assert(lineage_views(out@) =~= Seq::<LineageEdgeView>::empty());
        return out;
    }
    let mut k: usize = 0;
    assert(lineage_views(out@) =~= links_upto(snapshot_id@, nodes@, lw, 0));
    while k + 1 < nodes.len()
        invariant
            0 <= k < nodes@.len(),
            nodes@.len() >= 2,
            lowered@.len() == nodes@.len(),
            lw == views(lowered@),
            lineage_views(out@) == links_upto(snapshot_id@, nodes@, lw, k as int),
        decreases nodes.len() - k,
    {
        let l = &nodes[k];
        let r = &nodes[k + 1];
        let ghost before = lineage_views(out@);
        let mut text = lowered[k].clone();
        push_str(&mut text, " ");
        push_str(&mut text, lowered[k + 1].as_str());
        assert(lw[k as int] == lowered@[k as int]@);
        assert(lw[k + 1] == lowered@[k + 1]@);
        assert(text@ =~= lw[k as int] + " "@ + lw[k + 1]);
        if str_contains(text.as_str(), "fix") || str_contains(text.as_str(), "bug") {
            push_link(&mut out, LineageEdgeRecord {
                edge_id: concat3("lineage:", l.node_id.as_str(), ":", r.node_id.as_str()),
                snapshot_id: lit(snapshot_id),
                from_node_id: l.node_id.clone(),
                to_node_id: r.node_id.clone(),
                edge_kind: lit("fixes"),
                evidence: Some(lit("heuristic message keyword")),
                confidence_milli: 550,
            });
        }
        if l.subject.is_some() && r.subject.is_some() {
            push_link(&mut out, LineageEdgeRecord {
                edge_id: concat3("lineage-followed:", l.node_id.as_str(), ":", r.node_id.as_str()),
                snapshot_id: lit(snapshot_id),
                from_node_id: l.node_id.clone(),
                to_node_id: r.node_id.clone(),
                edge_kind: lit("followed_by"),
                evidence: Some(lit("commit sequence")),
                confidence_milli: 800,
            });
        }
        assert(lineage_views(out@) =~= before + pair_links(snapshot_id@, nodes@, lw, k as int));
        k = k + 1;
    }
    out
}

/// The lineage edges of a history: each node's summary is lowercased and
/// consecutive nodes are linked as [`pair_links`] says.
pub fn derive_lineage_edges(snapshot_id: &str, nodes: &[HistoryNodeRecord]) -> (r: Vec<LineageEdgeRecord>)
    ensures
        lineage_views(r@) == all_links(
            snapshot_id@,
            nodes@,
            nodes@.map_values(|n: HistoryNodeRecord| lowercase(n.summary@)),
        ),
{
    let mut lowered: Vec<String> = Vec::new();
    let mut i: usize = 0;
    while i < nodes.len()
        invariant
            0 <= i <= nodes@.len(),
            views(lowered@) == nodes@.take(i as int).map_values(|n: HistoryNodeRecord| lowercase(n.summary@)),
        decreases nodes.len() - i,
    {
        let ghost before = views(lowered@);
        lowered.push(to_lowercase(nodes[i].summary.as_str()));
        assert(views(lowered@) =~= before.push(lowercase(nodes@[i as int].summary@)));
        assert(nodes@.take(i + 1) =~= nodes@.take(i as int).push(nodes@[i as int]));
        assert(views(lowered@) =~= nodes@.take(i + 1).map_values(|n: HistoryNodeRecord| lowercase(n.summary@)));
        i = i + 1;
    }
    assert(nodes@.take(nodes@.len() as int) =~= nodes@);
    lineage_edges_from_lowered(snapshot_id, nodes, lowered.as_slice())
}

} // verus!
