use crate::chunking::csv::conversion_error;
use crate::chunking::types::lit;
use crate::text::{
    as_int_pairs, chars_of, decimal, is_blank, is_blank_str, join, lemma_skip_ws_bounds,
    lemma_trim_empty_iff_blank, line_bounds, line_ranges, lines, push_char, push_decimal,
    push_range, push_str, skip_ws_from, trim, trim_bounds, trim_start, views,
};
use vstd::prelude::*;

verus! {

/// One section of a Markdown document: the lines from a heading (or the top
/// of the file) up to the next heading.
#[derive(Debug, Clone, PartialEq, Eq)]
pub struct MarkdownChunk {
    pub id: String,
    pub file_path: String,
    pub document_kind: String,
    pub heading_path: Vec<String>,
    pub start_line: u32,
    pub end_line: u32,
    pub text: String,
}

pub struct MarkdownChunkView {
    pub id: Seq<char>,
    pub file_path: Seq<char>,
    pub document_kind: Seq<char>,
    pub heading_path: Seq<Seq<char>>,
    pub start_line: int,
    pub end_line: int,
    pub text: Seq<char>,
}

impl View for MarkdownChunk {
    type V = MarkdownChunkView;

    open spec fn view(&self) -> MarkdownChunkView {
        MarkdownChunkView {
            id: self.id@,
            file_path: self.file_path@,
            document_kind: self.document_kind@,
            heading_path: views(self.heading_path@),
            start_line: self.start_line as int,
            end_line: self.end_line as int,
            text: self.text@,
        }
    }
}

pub open spec fn md_views(v: Seq<MarkdownChunk>) -> Seq<MarkdownChunkView> {
    v.map_values(|c: MarkdownChunk| c@)
}

/// Number of leading `#` characters of `t` from position `i`.
pub open spec fn leading_hashes(t: Seq<char>, i: int) -> int
    decreases t.len() - i,
{
    if 0 <= i < t.len() && t[i] == '#' {
        1 + leading_hashes(t, i + 1)
    } else {
        0
    }
}

/// Heading depth of a line: its leading `#`s (after indentation), at most 6.
pub open spec fn heading_level(line: Seq<char>) -> int {
    let n = leading_hashes(trim_start(line), 0);
    if n < 6 {
        n
    } else {
        6
    }
}

/// The title of a heading line: the line after its indentation and first
/// `#`, trimmed; none when the line is not a heading or the title is empty.
pub open spec fn heading_title(line: Seq<char>) -> Option<Seq<char>> {
    let t = trim_start(line);
    if t.len() > 0 && t[0] == '#' && trim(t.drop_first()).len() > 0 {
        Some(trim(t.drop_first()))
    } else {
        None
    }
}

pub struct MdState {
    pub chunks: Seq<MarkdownChunkView>,
    pub stack: Seq<(int, Seq<char>)>,
    pub start: int,
    pub heading: Seq<char>,
    pub failed: bool,
}

pub open spec fn md_initial() -> MdState {
    MdState { chunks: seq![], stack: seq![], start: 1, heading: seq![], failed: false }
}

pub open spec fn titles(stack: Seq<(int, Seq<char>)>) -> Seq<Seq<char>> {
    stack.map_values(|e: (int, Seq<char>)| e.1)
}

/// Lines `start..=end` (1-based) joined by newlines.
pub open spec fn section_text(ls: Seq<Seq<char>>, start: int, end: int) -> Seq<char> {
    join(ls.subrange(start - 1, end), "\n"@)
}

pub open spec fn section_label(stack: Seq<(int, Seq<char>)>) -> Seq<char> {
    if stack.len() == 0 {
        "root"@
    } else {
        join(titles(stack), " > "@)
    }
}

pub open spec fn section_view(
    path: Seq<char>,
    kind: Seq<char>,
    ls: Seq<Seq<char>>,
    st: MdState,
    end: int,
) -> MarkdownChunkView {
    MarkdownChunkView {
        id: path + "#"@ + section_label(st.stack) + ":"@ + decimal(st.start as nat) + "-"@
            + decimal(end as nat),
        file_path: path,
        document_kind: kind,
        heading_path: if st.stack.len() == 0 && st.heading.len() > 0 {
            seq![st.heading]
        } else {
            titles(st.stack)
        },
        start_line: st.start,
        end_line: end,
        text: section_text(ls, st.start, end),
    }
}

/// Closes the current section at line `end`.
pub open spec fn md_flush(
    path: Seq<char>,
    kind: Seq<char>,
    ls: Seq<Seq<char>>,
    st: MdState,
    end: int,
) -> MdState {
    if st.failed || st.start > end || end == 0 || is_blank(section_text(ls, st.start, end)) {
        st
    } else if end > u32::MAX {
        MdState { failed: true, ..st }
    } else {
        MdState { chunks: st.chunks.push(section_view(path, kind, ls, st, end)), ..st }
    }
}

/// Drops the open headings at `level` or deeper.
pub open spec fn md_pop(stack: Seq<(int, Seq<char>)>, level: int) -> Seq<(int, Seq<char>)>
    decreases stack.len(),
{
    if stack.len() > 0 && stack.last().0 >= level {
        md_pop(stack.drop_last(), level)
    } else {
        stack
    }
}

/// Processes line `idx` (0-based).
pub open spec fn md_line(
    path: Seq<char>,
    kind: Seq<char>,
    ls: Seq<Seq<char>>,
    st: MdState,
    idx: int,
) -> MdState {
    match heading_title(ls[idx]) {
        None => st,
        Some(t) => {
            let st1 = md_flush(path, kind, ls, st, idx);
            if st1.failed {
                st1
            } else {
                MdState {
                    chunks: st1.chunks,
                    stack: md_pop(st1.stack, heading_level(ls[idx])).push(
                        (heading_level(ls[idx]), t),
                    ),
                    start: idx + 1,
                    heading: t,
                    failed: false,
                }
            }
        },
    }
}

/// State after the first `n` lines.
pub open spec fn md_run(path: Seq<char>, kind: Seq<char>, ls: Seq<Seq<char>>, n: int) -> MdState
    decreases n,
{
    if n <= 0 {
        md_initial()
    } else {
        let st = md_run(path, kind, ls, n - 1);
        if st.failed {
            st
        } else {
            md_line(path, kind, ls, st, n - 1)
        }
    }
}

/// Final state: every line processed and the last section closed.
pub open spec fn md_final(path: Seq<char>, kind: Seq<char>, ls: Seq<Seq<char>>) -> MdState {
    md_flush(path, kind, ls, md_run(path, kind, ls, ls.len() as int), ls.len() as int)
}

pub proof fn lemma_md_failed_sticks(
    path: Seq<char>,
    kind: Seq<char>,
    ls: Seq<Seq<char>>,
    k: int,
    m: int,
)
    requires
        0 <= k <= m,
        md_run(path, kind, ls, k).failed,
    ensures
        md_run(path, kind, ls, m).failed,
        md_flush(path, kind, ls, md_run(path, kind, ls, m), ls.len() as int).failed,
    decreases m - k,
{
    if k < m {
        lemma_md_failed_sticks(path, kind, ls, k + 1, m);
    }
}

/// Count of leading `#` in `cs[from..to]`.
fn count_hashes(cs: &[char], from: usize, to: usize) -> (n: usize)
    requires
        from <= to <= cs@.len(),
    ensures
        n as int == leading_hashes(cs@.subrange(from as int, to as int), 0),
        from + n <= to,
        (n > 0) == (from < to && cs@[from as int] == '#'),
{
    let ghost t = cs@.subrange(from as int, to as int);
    let mut i = from;
    while i < to && cs[i] == '#'
        invariant
            from <= i <= to <= cs@.len(),
            t == cs@.subrange(from as int, to as int),
            forall|k: int| from <= k < i ==> cs@[k] == '#',
            i > from ==> cs@[from as int] == '#',
            leading_hashes(t, 0) == (i - from) + leading_hashes(t, i - from),
        decreases to - i,
    {
        assert(t[i - from] == '#');
        i = i + 1;
    }
    (i - from) as usize
}

struct Section {
    stack: Vec<(usize, String)>,
    start: usize,
    heading: String,
}

spec fn stack_view(v: Seq<(usize, String)>) -> Seq<(int, Seq<char>)> {
    v.map_values(|e: (usize, String)| (e.0 as int, e.1@))
}

fn clone_titles(stack: &Vec<(usize, String)>) -> (r: Vec<String>)
    ensures
        views(r@) == titles(stack_view(stack@)),
{
    let mut out: Vec<String> = Vec::new();
    let mut i: usize = 0;
    while i < stack.len()
        invariant
            0 <= i <= stack@.len(),
            views(out@) == titles(stack_view(stack@.take(i as int))),
        decreases stack.len() - i,
    {
        out.push(stack[i].1.clone());
        assert(titles(stack_view(stack@.take(i + 1))) =~= titles(stack_view(stack@.take(i as int))).push(stack@[i as int].1@));
        assert(views(out@) =~= titles(stack_view(stack@.take(i + 1))));
        i = i + 1;
    }
    assert(stack@.take(stack@.len() as int) =~= stack@);
    out
}

fn section_text_exec(
    cs: &[char],
    bounds: &Vec<(usize, usize)>,
    start: usize,
    end: usize,
    Ghost(ls): Ghost<Seq<Seq<char>>>,
) -> (r: String)
    requires
        1 <= start <= end <= bounds@.len(),
        ls.len() == bounds@.len(),
        forall|j: int|
            0 <= j < bounds@.len() ==> (#[trigger] bounds@[j]).0 <= bounds@[j].1 <= cs@.len()
                && ls[j] == cs@.subrange(bounds@[j].0 as int, bounds@[j].1 as int),
    ensures
        r@ == section_text(ls, start as int, end as int),
{
    let mut out = String::new();
    let mut k = start - 1;
    while k < end
        invariant
            1 <= start <= end <= bounds@.len(),
            start - 1 <= k <= end,
            ls.len() == bounds@.len(),
            forall|j: int|
                0 <= j < bounds@.len() ==> (#[trigger] bounds@[j]).0 <= bounds@[j].1 <= cs@.len()
                    && ls[j] == cs@.subrange(bounds@[j].0 as int, bounds@[j].1 as int),
            out@ == join(ls.subrange(start - 1, k as int), "\n"@),
        decreases end - k,
    {
        if k > start - 1 {
            push_str(&mut out, "\n");
        }
        let (a, b) = bounds[k];
        push_range(&mut out, cs, a, b);
        assert(ls.subrange(start - 1, k + 1).drop_last() =~= ls.subrange(start - 1, k as int));
        assert(ls.subrange(start - 1, k + 1).last() == ls[k as int]);
        k = k + 1;
    }
    out
}

/// Splits a Markdown document into sections at heading lines. Each
/// section with non-blank text becomes a chunk identified by
/// `<path>#<heading path or "root">:<first line>-<last line>`, carrying the
/// titles of the headings open when it ends.
pub fn chunk_markdown(file_path: &str, body: &str, document_kind: &str) -> (r: Result<
    Vec<MarkdownChunk>,
    String,
>)
    ensures
        ({
            let ls = lines(body@);
            let fin = md_final(file_path@, document_kind@, ls);
            match r {
                Ok(v) => !fin.failed && md_views(v@) == fin.chunks,
                Err(e) => fin.failed && e@ == conversion_error(),
            }
        }),
{
    let cs = chars_of(body);
    let bounds = line_bounds(&cs);
    let ghost ls = lines(body@);
    let ghost path = file_path@;
    let ghost kind = document_kind@;
    assert(ls.len() == bounds@.len());
    assert forall|j: int| 0 <= j < bounds@.len() implies (#[trigger] bounds@[j]).0 <= bounds@[j].1
        <= cs@.len() && ls[j] == cs@.subrange(bounds@[j].0 as int, bounds@[j].1 as int) by {
        assert(as_int_pairs(bounds@)[j] == (bounds@[j].0 as int, bounds@[j].1 as int));
    }
    let mut chunks: Vec<MarkdownChunk> = Vec::new();
    let mut stack: Vec<(usize, String)> = Vec::new();
    let mut start: usize = 1;
    let mut heading = String::new();
    let n = bounds.len();
    let mut idx: usize = 0;
    assert(md_views(chunks@) =~= Seq::<MarkdownChunkView>::empty());
    assert(stack_view(stack@) =~= Seq::<(int, Seq<char>)>::empty());
    assert(heading@ =~= Seq::<char>::empty());
    while idx <= n
        invariant
            0 <= idx <= n,
            n == bounds@.len(),
            cs@ == body@,
            ls == lines(body@),
            path == file_path@,
            kind == document_kind@,
            ls.len() == n,
            forall|j: int|
                0 <= j < bounds@.len() ==> (#[trigger] bounds@[j]).0 <= bounds@[j].1 <= cs@.len()
                    && ls[j] == cs@.subrange(bounds@[j].0 as int, bounds@[j].1 as int),
            1 <= start <= idx + 1,
            forall|j: int| 0 <= j < stack@.len() ==> 1 <= (#[trigger] stack@[j]).0 <= 6,
            md_run(path, kind, ls, idx as int) == (MdState {
                chunks: md_views(chunks@),
                stack: stack_view(stack@),
                start: start as int,
                heading: heading@,
                failed: false,
            }),
        decreases n + 1 - idx,
    {
        // `idx == n` is the final flush of the last section.
        let mut end: usize = 0;
        let mut title: Option<String> = None;
        let mut level: usize = 0;
        if idx < n {
            let (a, b) = bounds[idx];
            let (ta, tb) = trim_bounds(&cs, a, b);
            proof {
                lemma_skip_ws_bounds(ls[idx as int], 0);
            }
            let h = count_hashes(&cs, ta, b);
            let ghost tline = trim_start(ls[idx as int]);
            assert(cs@.subrange(ta as int, b as int) == tline);
            assert(h > 0 <==> (tline.len() > 0 && tline[0] == '#'));
            level = if h < 6 { h } else { 6 };
            if h > 0 {
                let tt = crate::text::trimmed_string(&cs, ta + 1, b);
                assert(cs@.subrange(ta + 1, b as int) =~= trim_start(ls[idx as int]).drop_first());
                let cc = chars_of(tt.as_str());
                proof {
                    lemma_trim_empty_iff_blank(trim_start(ls[idx as int]).drop_first());
                }
                if cc.len() > 0 {
                    title = Some(tt);
                }
            }
            if title.is_none() {
                assert(heading_title(ls[idx as int]) is None) by {
                    if h > 0 {
                        assert(tline.len() > 0 && tline[0] == '#');
                        assert(trim(tline.drop_first()).len() == 0);
                    }
                }
                idx = idx + 1;
                continue;
            }
            end = idx;
        } else {
            end = n;
        }
        // close the section [start, end]
        let ghost st = MdState {
            chunks: md_views(chunks@),
            stack: stack_view(stack@),
            start: start as int,
            heading: heading@,
            failed: false,
        };
        if start <= end && end > 0 {
            let text = section_text_exec(&cs, &bounds, start, end, Ghost(ls));
            if !is_blank_str(text.as_str()) {
                if end > 4294967295 {
                    assert(md_flush(path, kind, ls, st, end as int).failed);
                    proof {
                        if idx < n {
                            assert(md_run(path, kind, ls, idx + 1).failed);
                            lemma_md_failed_sticks(path, kind, ls, idx + 1, n as int);
                        }
                    }
                    return Err(lit("out of range integral type conversion attempted"));
                }
                let heading_path = clone_titles(&stack);
                let mut id = String::new();
                push_str(&mut id, file_path);
                push_str(&mut id, "#");
                if stack.len() == 0 {
                    push_str(&mut id, "root");
                } else {
                    let label = crate::text::join_strings(&heading_path, " > ");
                    push_str(&mut id, label.as_str());
                }
                push_str(&mut id, ":");
                push_decimal(&mut id, start as u64);
                push_str(&mut id, "-");
                push_decimal(&mut id, end as u64);
                let hp = if stack.len() == 0 && heading.as_str().unicode_len() > 0 {
                    let mut one: Vec<String> = Vec::new();
                    one.push(heading.clone());
                    assert(views(one@) =~= seq![heading@]);
                    one
                } else {
                    heading_path
                };
                let ghost before = md_views(chunks@);
                chunks.push(
                    MarkdownChunk {
                        id,
                        file_path: lit(file_path),
                        document_kind: lit(document_kind),
                        heading_path: hp,
                        start_line: start as u32,
                        end_line: end as u32,
                        text,
                    },
                );
                assert(md_views(chunks@) =~= before.push(section_view(path, kind, ls, st, end as int)));
            }
        }
        assert(md_flush(path, kind, ls, st, end as int) == (MdState {
            chunks: md_views(chunks@),
            ..st
        }));
        if idx == n {
            assert(md_final(path, kind, ls).chunks == md_views(chunks@));
            return Ok(chunks);
        }
        // open the new heading
        let t = match title {
            Some(t) => t,
            None => String::new(),
        };
        while stack.len() > 0 && stack[stack.len() - 1].0 >= level
            invariant
                forall|j: int| 0 <= j < stack@.len() ==> 1 <= (#[trigger] stack@[j]).0 <= 6,
                md_pop(stack_view(stack@), level as int) == md_pop(st.stack, level as int),
            decreases stack.len(),
        {
            let ghost sv = stack_view(stack@);
            stack.pop();
            assert(stack_view(stack@) =~= sv.drop_last());
        }
        let ghost popped = stack_view(stack@);
        assert(md_pop(popped, level as int) == popped);
        heading = t.clone();
        stack.push((level, t));
        assert(stack_view(stack@) =~= popped.push((level as int, heading@)));
        start = idx + 1;
        idx = idx + 1;
    }
    Ok(chunks)
}


/// A heading line has a level between 1 and 6.
proof fn lemma_heading_level_range(line: Seq<char>)
    requires
        heading_title(line) is Some,
    ensures
        1 <= heading_level(line) <= 6,
{
    let t = trim_start(line);
    assert(leading_hashes(t, 0) == 1 + leading_hashes(t, 1));
    lemma_leading_hashes_nonneg(t, 1);
}

proof fn lemma_leading_hashes_nonneg(t: Seq<char>, i: int)
    ensures
        leading_hashes(t, i) >= 0,
    decreases t.len() - i,
{
    if 0 <= i < t.len() && t[i] == '#' {
        lemma_leading_hashes_nonneg(t, i + 1);
    }
}

/// Levels from 1 to 6, strictly increasing from the outermost heading in.
pub open spec fn nested_levels(stack: Seq<(int, Seq<char>)>) -> bool {
    &&& forall|j: int| 0 <= j < stack.len() ==> 1 <= #[trigger] stack[j].0 <= 6
    &&& forall|i: int, j: int| 0 <= i < j < stack.len() ==> #[trigger] stack[i].0 < #[trigger] stack[j].0
}

/// Closing the headings at `level` or deeper keeps a prefix of the open
/// headings, all shallower than `level`.
proof fn lemma_md_pop(stack: Seq<(int, Seq<char>)>, level: int)
    requires
        nested_levels(stack),
    ensures
        md_pop(stack, level).len() <= stack.len(),
        md_pop(stack, level) == stack.take(md_pop(stack, level).len() as int),
        forall|j: int| 0 <= j < md_pop(stack, level).len() ==> #[trigger] md_pop(stack, level)[j].0 < level,
    decreases stack.len(),
{
    if stack.len() > 0 && stack.last().0 >= level {
        let p = stack.drop_last();
        assert(nested_levels(p)) by {
            assert forall|i: int, j: int| 0 <= i < j < p.len() implies #[trigger] p[i].0 < #[trigger] p[j].0 by {
                assert(p[i] == stack[i] && p[j] == stack[j]);
            }
            assert forall|j: int| 0 <= j < p.len() implies 1 <= #[trigger] p[j].0 <= 6 by {
                assert(p[j] == stack[j]);
            }
        }
        lemma_md_pop(p, level);
        let r = md_pop(p, level);
        assert(r == p.take(r.len() as int));
        assert(stack.take(r.len() as int) =~= p.take(r.len() as int));
    } else {
        assert(stack.take(stack.len() as int) =~= stack);
        if stack.len() > 0 {
            assert forall|j: int| 0 <= j < stack.len() implies #[trigger] stack[j].0 < level by {
                if j < stack.len() - 1 {
                    assert(stack[j].0 < stack[stack.len() - 1].0);
                }
            }
        }
    }
}

/// What holds of a chunk produced by the chunker from the first `n` lines:
/// it spans lines inside the document, and the section of a top-level
/// heading (`# T`) is labelled by that heading alone.
pub open spec fn top_level_ok(path: Seq<char>, ls: Seq<Seq<char>>, c: MarkdownChunkView) -> bool {
    &&& 1 <= c.start_line <= c.end_line <= ls.len()
    &&& (heading_title(ls[c.start_line - 1]) is Some && heading_level(ls[c.start_line - 1]) == 1) ==> {
        let t = heading_title(ls[c.start_line - 1])->Some_0;
        &&& c.heading_path == seq![t]
        &&& c.id == path + "#"@ + t + ":"@ + decimal(c.start_line as nat) + "-"@ + decimal(c.end_line as nat)
    }
}

pub open spec fn md_inv(path: Seq<char>, ls: Seq<Seq<char>>, st: MdState, n: int) -> bool {
    &&& nested_levels(st.stack)
    &&& 1 <= st.start <= n + 1
    &&& (st.start <= n && heading_title(ls[st.start - 1]) is Some) ==> {
        &&& st.stack.len() > 0
        &&& st.stack.last() == (heading_level(ls[st.start - 1]), heading_title(ls[st.start - 1])->Some_0)
    }
    &&& forall|k: int| 0 <= k < st.chunks.len() ==> top_level_ok(path, ls, #[trigger] st.chunks[k])
}

/// Closing a section keeps the invariant.
proof fn lemma_md_flush_inv(path: Seq<char>, kind: Seq<char>, ls: Seq<Seq<char>>, st: MdState, n: int, end: int)
    requires
        !st.failed,
        md_inv(path, ls, st, n),
        n <= ls.len(),
        end == n,
    ensures
        !md_flush(path, kind, ls, st, end).failed ==> forall|k: int|
            0 <= k < md_flush(path, kind, ls, st, end).chunks.len() ==> top_level_ok(
                path,
                ls,
                #[trigger] md_flush(path, kind, ls, st, end).chunks[k],
            ),
        md_flush(path, kind, ls, st, end).stack == st.stack,
        md_flush(path, kind, ls, st, end).start == st.start,
{
    let f = md_flush(path, kind, ls, st, end);
    if !(st.failed || st.start > end || end == 0 || is_blank(section_text(ls, st.start, end))) && end <= u32::MAX {
        let c = section_view(path, kind, ls, st, end);
        assert(f.chunks == st.chunks.push(c));
        if heading_title(ls[c.start_line - 1]) is Some && heading_level(ls[c.start_line - 1]) == 1 {
            let t = heading_title(ls[st.start - 1])->Some_0;
            assert(st.stack.last() == (1int, t));
            assert(st.stack.len() == 1) by {
                if st.stack.len() > 1 {
                    assert(st.stack[0].0 < st.stack[st.stack.len() - 1].0);
                    assert(1 <= st.stack[0].0);
                }
            }
            assert(titles(st.stack) =~= seq![t]);
        }
        assert forall|k: int| 0 <= k < f.chunks.len() implies top_level_ok(path, ls, #[trigger] f.chunks[k]) by {
            if k < st.chunks.len() {
                assert(f.chunks[k] == st.chunks[k]);
            }
        }
    }
}

proof fn lemma_md_run_inv(path: Seq<char>, kind: Seq<char>, ls: Seq<Seq<char>>, n: int)
    requires
        0 <= n <= ls.len(),
    ensures
        !md_run(path, kind, ls, n).failed ==> md_inv(path, ls, md_run(path, kind, ls, n), n),
    decreases n,
{
    if n > 0 {
        lemma_md_run_inv(path, kind, ls, n - 1);
        let st = md_run(path, kind, ls, n - 1);
        if !st.failed {
            let idx = n - 1;
            match heading_title(ls[idx]) {
                None => {},
                Some(t) => {
                    lemma_md_flush_inv(path, kind, ls, st, idx, idx);
                    let st1 = md_flush(path, kind, ls, st, idx);
                    if !st1.failed {
                        let level = heading_level(ls[idx]);
                        lemma_heading_level_range(ls[idx]);
                        lemma_md_pop(st1.stack, level);
                        let p = md_pop(st1.stack, level);
                        let ns = p.push((level, t));
                        assert(nested_levels(ns)) by {
                            assert forall|j: int| 0 <= j < ns.len() implies 1 <= #[trigger] ns[j].0 <= 6 by {
                                if j < p.len() {
                                    assert(p[j] == st1.stack[j]);
                                }
                            }
                            assert forall|i: int, j: int| 0 <= i < j < ns.len() implies #[trigger] ns[i].0 < #[trigger] ns[j].0 by {
                                assert(ns[i] == p[i]);
                                if j < p.len() {
                                    assert(p[i] == st1.stack[i] && p[j] == st1.stack[j]);
                                }
                            }
                        }
                        let st2 = md_run(path, kind, ls, n);
                        assert(st2.stack == ns);
                        assert(st2.start == n);
                    }
                },
            }
        }
    } else {
        assert(md_run(path, kind, ls, 0) == md_initial());
    }
}

/// Opening a heading of level `L` first closes every open heading of level
/// `L` or deeper, so the open headings always nest: their levels strictly
/// increase from the outermost one in.
pub proof fn lemma_open_headings_nest(path: Seq<char>, kind: Seq<char>, body: Seq<char>, n: int)
    requires
        0 <= n <= lines(body).len(),
        !md_run(path, kind, lines(body), n).failed,
    ensures
        forall|i: int, j: int|
            0 <= i < j < md_run(path, kind, lines(body), n).stack.len() ==> #[trigger] md_run(
                path,
                kind,
                lines(body),
                n,
            ).stack[i].0 < #[trigger] md_run(path, kind, lines(body), n).stack[j].0,
{
    lemma_md_run_inv(path, kind, lines(body), n);
}

/// Every section of a Markdown document spans lines of the document, and
/// the section of a top-level heading `# T` closes every heading open
/// before it: its heading path is `[T]` and its id is
/// `<path>#T:<first line>-<last line>`, whatever headings came earlier.
pub proof fn lemma_top_level_heading_sections(path: Seq<char>, kind: Seq<char>, body: Seq<char>, k: int)
    requires
        !md_final(path, kind, lines(body)).failed,
        0 <= k < md_final(path, kind, lines(body)).chunks.len(),
    ensures
        ({
            let ls = lines(body);
            let c = md_final(path, kind, ls).chunks[k];
            &&& 1 <= c.start_line <= c.end_line <= ls.len()
            &&& heading_title(ls[c.start_line - 1]) is Some && heading_level(ls[c.start_line - 1]) == 1
                ==> c.heading_path == seq![heading_title(ls[c.start_line - 1])->Some_0] && c.id == path
                + "#"@ + heading_title(ls[c.start_line - 1])->Some_0 + ":"@ + decimal(c.start_line as nat)
                + "-"@ + decimal(c.end_line as nat)
        }),
{
    let ls = lines(body);
    let n = ls.len() as int;
    let st = md_run(path, kind, ls, n);
    if st.failed {
        lemma_md_failed_sticks(path, kind, ls, n, n);
    }
    lemma_md_run_inv(path, kind, ls, n);
    lemma_md_flush_inv(path, kind, ls, st, n, n);
    assert(top_level_ok(path, ls, md_final(path, kind, ls).chunks[k]));
}

} // verus!
