//! The items of a Rust source file, as read by the `ra_ap_syntax` parser.
//!
//! The parser's syntax tree is opaque to the verifier; it is read through a
//! few small accessors and turned into a plain [`SourceItem`] tree whose
//! offsets are character positions in the source.
use crate::text::{byte_at, byte_len, byte_offsets, char_index_of_byte, chars_of, lemma_byte_at_mono};
use ra_ap_syntax::ast::HasAttrs;
use ra_ap_syntax::ast::HasModuleItem;
use ra_ap_syntax::ast::HasName;
use ra_ap_syntax::AstNode;
use vstd::prelude::*;

verus! {

#[verifier::external_type_specification]
#[verifier::external_body]
pub struct ExSyntaxItem(ra_ap_syntax::ast::Item);

/// The kinds of item that the chunker tells apart.
#[derive(Debug, Clone, Copy, PartialEq, Eq, Structural)]
pub enum SourceItemKind {
    Function,
    Struct,
    Module,
    Enum,
    Trait,
    Impl,
    Other,
}

/// One item of a Rust file. `start..end` is the item's text and `body` the
/// text of a function's block, both as character positions in the source;
/// `items` holds the items of an inline module.
pub struct SourceItem {
    pub kind: SourceItemKind,
    pub name: Option<String>,
    pub start: usize,
    pub end: usize,
    pub body: Option<(usize, usize)>,
    pub is_test: bool,
    pub items: Vec<SourceItem>,
}

/// The positions of `it` and of every nested item lie inside a source of
/// `n` characters, and a body lies inside its item.
pub open spec fn item_wf(it: SourceItem, n: int) -> bool
    decreases it,
{
    &&& it.start <= it.end <= n
    &&& match it.body {
        Some(b) => it.start <= b.0 <= b.1 <= it.end,
        None => true,
    }
    &&& seq_wf(it.items@, n)
}

/// Every item of `s` is well formed.
pub open spec fn seq_wf(s: Seq<SourceItem>, n: int) -> bool
    decreases s,
{
    if s.len() == 0 {
        true
    } else {
        seq_wf(s.subrange(0, s.len() - 1), n) && item_wf(s[s.len() - 1], n)
    }
}

pub proof fn lemma_seq_wf(s: Seq<SourceItem>, n: int)
    ensures
        seq_wf(s, n) <==> (forall|i: int| 0 <= i < s.len() ==> #[trigger] item_wf(s[i], n)),
    decreases s.len(),
{
    if s.len() > 0 {
        let p = s.subrange(0, s.len() - 1);
        lemma_seq_wf(p, n);
        assert(seq_wf(s, n) == (seq_wf(p, n) && item_wf(s[s.len() - 1], n)));
        if seq_wf(s, n) {
            assert forall|i: int| 0 <= i < s.len() implies #[trigger] item_wf(s[i], n) by {
                if i < s.len() - 1 {
                    assert(p[i] == s[i]);
                }
            }
        }
        if forall|i: int| 0 <= i < s.len() ==> #[trigger] item_wf(s[i], n) {
            assert forall|i: int| 0 <= i < p.len() implies #[trigger] item_wf(p[i], n) by {
                assert(p[i] == s[i]);
                assert(item_wf(s[i], n));
            }
        }
    }
}

/// `it` lies within characters `lo..hi`; a module with a non-empty text
/// holds items lying strictly after its first character and within it,
/// and any other item holds none.
pub open spec fn item_within(it: SourceItem, lo: int, hi: int) -> bool
    decreases it,
{
    &&& lo <= it.start <= it.end <= hi
    &&& if it.kind == SourceItemKind::Module && it.start < it.end {
        seq_within(it.items@, it.start + 1, it.end as int)
    } else {
        it.items@.len() == 0
    }
}

/// Every item of `s` lies within characters `lo..hi`.
pub open spec fn seq_within(s: Seq<SourceItem>, lo: int, hi: int) -> bool
    decreases s,
{
    if s.len() == 0 {
        true
    } else {
        seq_within(s.subrange(0, s.len() - 1), lo, hi) && item_within(s[s.len() - 1], lo, hi)
    }
}

pub proof fn lemma_seq_within(s: Seq<SourceItem>, lo: int, hi: int)
    ensures
        seq_within(s, lo, hi) <==> (forall|i: int| 0 <= i < s.len() ==> #[trigger] item_within(s[i], lo, hi)),
    decreases s.len(),
{
    if s.len() > 0 {
        let p = s.subrange(0, s.len() - 1);
        lemma_seq_within(p, lo, hi);
        assert(seq_within(s, lo, hi) == (seq_within(p, lo, hi) && item_within(s[s.len() - 1], lo, hi)));
        if seq_within(s, lo, hi) {
            assert forall|i: int| 0 <= i < s.len() implies #[trigger] item_within(s[i], lo, hi) by {
                if i < s.len() - 1 {
                    assert(p[i] == s[i]);
                }
            }
        }
        if forall|i: int| 0 <= i < s.len() ==> #[trigger] item_within(s[i], lo, hi) {
            assert forall|i: int| 0 <= i < p.len() implies #[trigger] item_within(p[i], lo, hi) by {
                assert(p[i] == s[i]);
                assert(item_within(s[i], lo, hi));
            }
        }
    }
}

pub open spec fn items_wf(items: Seq<SourceItem>, n: int) -> bool {
    forall|i: int| 0 <= i < items.len() ==> #[trigger] item_wf(items[i], n)
}

/// One item of a parsed file as plain values: its kind, its name, its byte
/// range, the byte range of a function's block, whether it is a `#[test]`
/// function, and the items of an inline module.
pub struct ParsedItem {
    pub kind: SourceItemKind,
    pub name: Option<String>,
    pub start: u32,
    pub end: u32,
    pub body: Option<(u32, u32)>,
    pub is_test: bool,
    pub items: Vec<ParsedItem>,
}

/// The top-level items of `SourceFile::parse(source, Edition::CURRENT)`, in
/// source order, each read by [`read_item`]. The parse depends on the
/// source text alone.
pub uninterp spec fn parsed_items(source: Seq<char>) -> Seq<ParsedItem>;

/// `SourceFile::parse(source, Edition::CURRENT)` and `HasModuleItem::items`
/// of its tree, each item read as plain values. Its result is named, not
/// spelled out: it is what the parser makes of the source. The parser keeps
/// offsets as `u32`, so the source must fit in `u32::MAX` bytes.
#[verifier::external_body]
fn parse_items(source: &str) -> (r: Vec<ParsedItem>)
    requires
        byte_len(source@) <= u32::MAX,
    ensures
        r@ == parsed_items(source@),
{
    let depth = source.len();
    ra_ap_syntax::SourceFile::parse(source, ra_ap_syntax::Edition::CURRENT).tree().items().map(
        |item| read_item(&item, depth),
    ).collect()
}

/// Reads a parsed item and, up to `depth` levels of inline modules, its
/// nested items. (Nested modules lie strictly inside their parent, so a
/// source of `n` bytes has fewer than `n` levels.)
fn read_item(item: &ra_ap_syntax::ast::Item, depth: usize) -> (r: ParsedItem)
    ensures
        r.start <= r.end,
    decreases depth,
{
    let range = item_range(item);
    let mut items: Vec<ParsedItem> = Vec::new();
    if depth > 0 {
        let children = module_items(item);
        let mut i: usize = 0;
        while i < children.len()
            invariant
                depth > 0,
            decreases children.len() - i,
        {
            items.push(read_item(&children[i], depth - 1));
            i = i + 1;
        }
    }
    ParsedItem {
        kind: item_kind(item),
        name: item_name(item),
        start: range.0,
        end: range.1,
        body: fn_body_range(item),
        is_test: fn_has_test_attr(item),
        items,
    }
}

/// The variant of an `ast::Item`.
#[verifier::external_body]
fn item_kind(item: &ra_ap_syntax::ast::Item) -> SourceItemKind {
    match item {
        ra_ap_syntax::ast::Item::Fn(_) => SourceItemKind::Function,
        ra_ap_syntax::ast::Item::Struct(_) => SourceItemKind::Struct,
        ra_ap_syntax::ast::Item::Module(_) => SourceItemKind::Module,
        ra_ap_syntax::ast::Item::Enum(_) => SourceItemKind::Enum,
        ra_ap_syntax::ast::Item::Trait(_) => SourceItemKind::Trait,
        ra_ap_syntax::ast::Item::Impl(_) => SourceItemKind::Impl,
        _ => SourceItemKind::Other,
    }
}

/// `HasName::name` of a function, struct, module, enum or trait, as text;
/// none for other items or when the parser found no name.
#[verifier::external_body]
fn item_name(item: &ra_ap_syntax::ast::Item) -> Option<String> {
    let name = match item {
        ra_ap_syntax::ast::Item::Fn(x) => x.name(),
        ra_ap_syntax::ast::Item::Struct(x) => x.name(),
        ra_ap_syntax::ast::Item::Module(x) => x.name(),
        ra_ap_syntax::ast::Item::Enum(x) => x.name(),
        ra_ap_syntax::ast::Item::Trait(x) => x.name(),
        _ => None,
    };
    name.map(|n| n.text().to_string())
}

/// The item's `text_range()` as byte offsets; a `TextRange` never ends
/// before it starts.
#[verifier::external_body]
fn item_range(item: &ra_ap_syntax::ast::Item) -> (r: (u32, u32))
    ensures
        r.0 <= r.1,
{
    let range = item.syntax().text_range();
    (u32::from(range.start()), u32::from(range.end()))
}

/// The byte range of a function's block (`Fn::body`), if it has one.
#[verifier::external_body]
fn fn_body_range(item: &ra_ap_syntax::ast::Item) -> Option<(u32, u32)> {
    match item {
        ra_ap_syntax::ast::Item::Fn(f) => match f.body() {
            Some(b) => Some((u32::from(b.syntax().text_range().start()), u32::from(
                b.syntax().text_range().end(),
            ))),
            None => None,
        },
        _ => None,
    }
}

/// `HasAttrs::has_atom_attr("test")` on a function.
#[verifier::external_body]
fn fn_has_test_attr(item: &ra_ap_syntax::ast::Item) -> bool {
    match item {
        ra_ap_syntax::ast::Item::Fn(f) => f.has_atom_attr("test"),
        _ => false,
    }
}

/// The items of an inline module's item list, in order (none for `mod m;`
/// and for other items).
#[verifier::external_body]
fn module_items(item: &ra_ap_syntax::ast::Item) -> Vec<ra_ap_syntax::ast::Item> {
    match item {
        ra_ap_syntax::ast::Item::Module(m) => match m.item_list() {
            Some(list) => list.items().collect(),
            None => Vec::new(),
        },
        _ => Vec::new(),
    }
}

/// The character position whose byte offset in `s` is `b`, if `b` is a
/// character boundary.
pub open spec fn char_of_byte(s: Seq<char>, b: int) -> Option<int> {
    if exists|k: int| 0 <= k <= s.len() && byte_at(s, k) == b {
        Some(choose|k: int| 0 <= k <= s.len() && byte_at(s, k) == b)
    } else {
        None
    }
}

/// A boundary has one character position.
proof fn lemma_char_of_byte(s: Seq<char>, k: int)
    requires
        0 <= k <= s.len(),
    ensures
        char_of_byte(s, byte_at(s, k)) == Some(k),
{
    let b = byte_at(s, k);
    assert(0 <= k <= s.len() && byte_at(s, k) == b);
    let j = choose|j: int| 0 <= j <= s.len() && byte_at(s, j) == b;
    if j < k {
        lemma_byte_at_mono(s, j, k);
    } else if k < j {
        lemma_byte_at_mono(s, k, j);
    }
}

/// Character position of byte offset `b`, when `b` is a character boundary.
fn char_pos(s: Ghost<Seq<char>>, off: &Vec<usize>, b: u32) -> (r: Option<usize>)
    requires
        off@.len() == s@.len() + 1,
        forall|k: int| 0 <= k <= s@.len() ==> #[trigger] off@[k] as int == byte_at(s@, k),
    ensures
        match r {
            Some(k) => k <= s@.len() && byte_at(s@, k as int) == b && char_of_byte(s@, b as int) == Some(
                k as int,
            ),
            None => (forall|k: int| 0 <= k <= s@.len() ==> byte_at(s@, k) != b) && char_of_byte(
                s@,
                b as int,
            ) is None,
        },
{
    let r = char_index_of_byte(s, off, b as usize);
    proof {
        if let Some(k) = r {
            lemma_char_of_byte(s@, k as int);
        }
    }
    r
}

/// The character range of a parsed item's byte range, when both ends are
/// boundaries.
pub open spec fn char_range(p: ParsedItem, s: Seq<char>) -> Option<(int, int)> {
    match (char_of_byte(s, p.start as int), char_of_byte(s, p.end as int)) {
        (Some(a), Some(b)) => Some((a, b)),
        _ => None,
    }
}

/// A parsed item is kept in window `lo..hi` when its character range lies
/// inside it.
pub open spec fn kept_in(p: ParsedItem, s: Seq<char>, lo: int, hi: int) -> bool {
    match char_range(p, s) {
        Some((a, b)) => lo <= a <= b <= hi,
        None => false,
    }
}

/// A function's block in characters, kept when it lies inside the item's
/// characters `start..end`.
pub open spec fn body_chars(p: ParsedItem, s: Seq<char>, start: int, end: int) -> Option<(usize, usize)> {
    match p.body {
        Some(bb) => match (char_of_byte(s, bb.0 as int), char_of_byte(s, bb.1 as int)) {
            (Some(a), Some(b)) => if start <= a <= b <= end {
                Some((a as usize, b as usize))
            } else {
                None
            },
            _ => None,
        },
        None => None,
    }
}

/// `r` is the conversion of the kept parsed item `p` in window `lo..hi`:
/// the same kind, name and test flag, character positions for its range
/// and block, and, for a module with text, the conversion of its items in
/// the window inside it.
pub open spec fn item_conv(r: SourceItem, p: ParsedItem, s: Seq<char>, lo: int, hi: int) -> bool
    decreases hi - lo, 0int,
{
    match char_range(p, s) {
        Some((a, b)) => {
            &&& lo <= a <= b <= hi
            &&& r.kind == p.kind
            &&& r.name == p.name
            &&& r.start == a
            &&& r.end == b
            &&& r.body == body_chars(p, s, a, b)
            &&& r.is_test == p.is_test
            &&& if p.kind == SourceItemKind::Module && a < b {
                items_conv(r.items@, p.items@, s, a + 1, b)
            } else {
                r.items@.len() == 0
            }
        },
        None => false,
    }
}

/// `rs` is the conversion, in order, of the parsed items of `ps` kept in
/// window `lo..hi`; the others are left out.
pub open spec fn items_conv(rs: Seq<SourceItem>, ps: Seq<ParsedItem>, s: Seq<char>, lo: int, hi: int) -> bool
    decreases hi - lo, ps.len() as int,
{
    if ps.len() == 0 {
        rs.len() == 0
    } else {
        let p = ps[ps.len() - 1];
        let pre = ps.subrange(0, ps.len() - 1);
        if kept_in(p, s, lo, hi) {
            &&& rs.len() > 0
            &&& items_conv(rs.subrange(0, rs.len() - 1), pre, s, lo, hi)
            &&& item_conv(rs[rs.len() - 1], p, s, lo, hi)
        } else {
            items_conv(rs, pre, s, lo, hi)
        }
    }
}

/// Two items agree in every field, their nested items included.
pub open spec fn item_same(a: SourceItem, b: SourceItem) -> bool
    decreases a,
{
    &&& a.kind == b.kind
    &&& a.name == b.name
    &&& a.start == b.start
    &&& a.end == b.end
    &&& a.body == b.body
    &&& a.is_test == b.is_test
    &&& seq_same(a.items@, b.items@)
}

/// Two item lists agree item by item.
pub open spec fn seq_same(a: Seq<SourceItem>, b: Seq<SourceItem>) -> bool
    decreases a,
{
    &&& a.len() == b.len()
    &&& a.len() > 0 ==> seq_same(a.subrange(0, a.len() - 1), b.subrange(0, b.len() - 1)) && item_same(
        a[a.len() - 1],
        b[b.len() - 1],
    )
}

/// The conversion of a parsed item is unique up to agreement.
pub proof fn lemma_item_conv_unique(x: SourceItem, y: SourceItem, p: ParsedItem, s: Seq<char>, lo: int, hi: int)
    requires
        item_conv(x, p, s, lo, hi),
        item_conv(y, p, s, lo, hi),
    ensures
        item_same(x, y),
    decreases hi - lo, 0int,
{
    let (a, b) = char_range(p, s)->Some_0;
    if p.kind == SourceItemKind::Module && a < b {
        lemma_items_conv_unique(x.items@, y.items@, p.items@, s, a + 1, b);
    } else {
        assert(x.items@.len() == 0 && y.items@.len() == 0);
    }
}

/// The conversion of a list of parsed items is unique up to agreement.
pub proof fn lemma_items_conv_unique(
    a: Seq<SourceItem>,
    b: Seq<SourceItem>,
    ps: Seq<ParsedItem>,
    s: Seq<char>,
    lo: int,
    hi: int,
)
    requires
        items_conv(a, ps, s, lo, hi),
        items_conv(b, ps, s, lo, hi),
    ensures
        seq_same(a, b),
    decreases hi - lo, ps.len() as int,
{
    if ps.len() > 0 {
        let p = ps[ps.len() - 1];
        let pre = ps.subrange(0, ps.len() - 1);
        if kept_in(p, s, lo, hi) {
            lemma_items_conv_unique(a.subrange(0, a.len() - 1), b.subrange(0, b.len() - 1), pre, s, lo, hi);
            lemma_item_conv_unique(a[a.len() - 1], b[b.len() - 1], p, s, lo, hi);
        } else {
            lemma_items_conv_unique(a, b, pre, s, lo, hi);
        }
    }
}

/// A converted item lies inside the source, its block inside it, and so
/// do its nested items.
pub proof fn lemma_item_conv_wf(r: SourceItem, p: ParsedItem, s: Seq<char>, lo: int, hi: int)
    requires
        item_conv(r, p, s, lo, hi),
        0 <= lo,
        hi <= s.len(),
    ensures
        item_wf(r, s.len() as int),
    decreases hi - lo, 0int,
{
    let (a, b) = char_range(p, s)->Some_0;
    if p.kind == SourceItemKind::Module && a < b {
        lemma_items_conv_wf(r.items@, p.items@, s, a + 1, b);
    }
}

/// Converted items lie inside the source.
pub proof fn lemma_items_conv_wf(rs: Seq<SourceItem>, ps: Seq<ParsedItem>, s: Seq<char>, lo: int, hi: int)
    requires
        items_conv(rs, ps, s, lo, hi),
        0 <= lo,
        hi <= s.len(),
    ensures
        seq_wf(rs, s.len() as int),
    decreases hi - lo, ps.len() as int,
{
    if ps.len() > 0 {
        let p = ps[ps.len() - 1];
        let pre = ps.subrange(0, ps.len() - 1);
        if kept_in(p, s, lo, hi) {
            lemma_items_conv_wf(rs.subrange(0, rs.len() - 1), pre, s, lo, hi);
            lemma_item_conv_wf(rs[rs.len() - 1], p, s, lo, hi);
        } else {
            lemma_items_conv_wf(rs, pre, s, lo, hi);
        }
    } else {
        assert(rs.len() == 0);
    }
}

/// Converts the parsed items that lie within characters `lo..hi`, in
/// order. An item whose offsets are not character boundaries inside that
/// window cannot come from the parser and is left out; the window shrinks
/// at each nested module, which bounds the recursion.
fn convert_items(
    items: Vec<ParsedItem>,
    s: Ghost<Seq<char>>,
    off: &Vec<usize>,
    lo: usize,
    hi: usize,
) -> (r: Vec<SourceItem>)
    requires
        off@.len() == s@.len() + 1,
        forall|k: int| 0 <= k <= s@.len() ==> #[trigger] off@[k] as int == byte_at(s@, k),
        lo <= hi <= s@.len(),
    ensures
        items_conv(r@, items@, s@, lo as int, hi as int),
        items_wf(r@, s@.len() as int),
        forall|i: int| 0 <= i < r@.len() ==> #[trigger] item_within(r@[i], lo as int, hi as int),
    decreases hi - lo,
{
    let ghost ps = items@;
    let mut rest = items;
    let mut out: Vec<SourceItem> = Vec::new();
    let ghost mut n: int = 0;
    assert(ps.take(0) =~= Seq::<ParsedItem>::empty());
    while rest.len() > 0
        invariant
            off@.len() == s@.len() + 1,
            forall|k: int| 0 <= k <= s@.len() ==> #[trigger] off@[k] as int == byte_at(s@, k),
            lo <= hi <= s@.len(),
            0 <= n <= ps.len(),
            rest@ == ps.skip(n),
            items_conv(out@, ps.take(n), s@, lo as int, hi as int),
            items_wf(out@, s@.len() as int),
            forall|j: int| 0 <= j < out@.len() ==> #[trigger] item_within(out@[j], lo as int, hi as int),
        decreases rest.len(),
    {
        let item = rest.remove(0);
        let ghost p = ps[n];
        assert(item == p);
        let ghost pre = ps.take(n);
        proof {
            n = n + 1;
            assert(rest@ =~= ps.skip(n));
            assert(ps.take(n).subrange(0, ps.take(n).len() - 1) =~= pre);
            assert(ps.take(n)[ps.take(n).len() - 1] == p);
        }
        let start = match char_pos(s, off, item.start) {
            Some(k) => k,
            None => {
                assert(!kept_in(p, s@, lo as int, hi as int));
                continue;
            },
        };
        let end = match char_pos(s, off, item.end) {
            Some(k) => k,
            None => {
                assert(!kept_in(p, s@, lo as int, hi as int));
                continue;
            },
        };
        if !(lo <= start && start <= end && end <= hi) {
            assert(!kept_in(p, s@, lo as int, hi as int));
            continue;
        }
        assert(kept_in(p, s@, lo as int, hi as int));
        let body = match item.body {
            Some((x, y)) => match (char_pos(s, off, x), char_pos(s, off, y)) {
                (Some(a), Some(b)) => if start <= a && a <= b && b <= end {
                    Some((a, b))
                } else {
                    None
                },
                _ => None,
            },
            None => None,
        };
        assert(body == body_chars(p, s@, start as int, end as int));
        let kind = item.kind;
        let nested = if kind == SourceItemKind::Module && start < end {
            convert_items(item.items, s, off, start + 1, end)
        } else {
            Vec::new()
        };
        assert(items_wf(nested@, s@.len() as int));
        let it = SourceItem {
            kind,
            name: item.name,
            start,
            end,
            body,
            is_test: item.is_test,
            items: nested,
        };
        assert(item_conv(it, p, s@, lo as int, hi as int));
        assert(it.start <= it.end <= s@.len());
        assert(match it.body {
            Some(b) => it.start <= b.0 <= b.1 <= it.end,
            None => true,
        });
        proof {
            lemma_seq_wf(it.items@, s@.len() as int);
            lemma_seq_within(it.items@, it.start + 1, it.end as int);
        }
        assert(item_wf(it, s@.len() as int));
        assert(item_within(it, lo as int, hi as int));
        let ghost before = out@;
        out.push(it);
        assert(out@ =~= before.push(it));
        assert(out@.subrange(0, out@.len() - 1) =~= before);
        assert forall|j: int| 0 <= j < out@.len() implies #[trigger] item_wf(
            out@[j],
            s@.len() as int,
        ) by {
            if j < before.len() {
                assert(out@[j] == before[j]);
            }
        }
        assert forall|j: int| 0 <= j < out@.len() implies #[trigger] item_within(
            out@[j],
            lo as int,
            hi as int,
        ) by {
            if j < before.len() {
                assert(out@[j] == before[j]);
            }
        }
    }
    assert(ps.take(n) =~= ps);
    out
}

/// The items of a Rust source file, parsed by `ra_ap_syntax`, with
/// character positions inside `source`: the conversion of
/// [`parsed_items`] of the source.
pub fn source_items(source: &str) -> (r: Vec<SourceItem>)
    requires
        byte_len(source@) <= u32::MAX,
    ensures
        items_conv(r@, parsed_items(source@), source@, 0, source@.len() as int),
        items_wf(r@, source@.len() as int),
        forall|i: int| 0 <= i < r@.len() ==> #[trigger] item_within(r@[i], 0, source@.len() as int),
{
    let cs = chars_of(source);
    let off = byte_offsets(&cs);
    let top = parse_items(source);
    convert_items(top, Ghost(source@), &off, 0, cs.len())
}

} // verus!
