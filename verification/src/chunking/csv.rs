use crate::chunking::types::lit;
use crate::text::{
    as_int_pairs, chars_of, decimal, is_blank, is_blank_str, join, lemma_trim_empty_iff_blank,
    line_bounds, line_ranges, lines, push_char, push_decimal, push_str, trim, trim_bounds,
    trimmed_string, views,
};
use vstd::prelude::*;

verus! {

/// One data row of a CSV document, rendered as `header: value` pairs.
#[derive(Debug, Clone, PartialEq, Eq)]
pub struct CsvRowChunk {
    pub id: String,
    pub file_path: String,
    pub document_kind: String,
    pub row_number: u32,
    pub text: String,
}

pub struct CsvRowView {
    pub id: Seq<char>,
    pub file_path: Seq<char>,
    pub document_kind: Seq<char>,
    pub row_number: int,
    pub text: Seq<char>,
}

impl View for CsvRowChunk {
    type V = CsvRowView;

    open spec fn view(&self) -> CsvRowView {
        CsvRowView {
            id: self.id@,
            file_path: self.file_path@,
            document_kind: self.document_kind@,
            row_number: self.row_number as int,
            text: self.text@,
        }
    }
}

/// Scanner state of the field splitter: fields are separated by commas
/// outside double quotes; quote characters are dropped and each field is
/// trimmed.
pub open spec fn csv_scan(
    line: Seq<char>,
    i: int,
    in_quotes: bool,
    current: Seq<char>,
    out: Seq<Seq<char>>,
) -> Seq<Seq<char>>
    decreases line.len() - i,
{
    if i < 0 || i >= line.len() {
        out.push(trim(current))
    } else if line[i] == '"' {
        csv_scan(line, i + 1, !in_quotes, current, out)
    } else if line[i] == ',' && !in_quotes {
        csv_scan(line, i + 1, in_quotes, seq![], out.push(trim(current)))
    } else {
        csv_scan(line, i + 1, in_quotes, current.push(line[i]), out)
    }
}

/// The fields of one CSV line.
pub open spec fn csv_fields(line: Seq<char>) -> Seq<Seq<char>> {
    csv_scan(line, 0, false, seq![], seq![])
}

pub proof fn lemma_csv_scan_nonempty(
    line: Seq<char>,
    i: int,
    q: bool,
    cur: Seq<char>,
    out: Seq<Seq<char>>,
)
    ensures
        csv_scan(line, i, q, cur, out).len() > out.len(),
    decreases line.len() - i,
{
    if i < 0 || i >= line.len() {
    } else if line[i] == '"' {
        lemma_csv_scan_nonempty(line, i + 1, !q, cur, out);
    } else if line[i] == ',' && !q {
        lemma_csv_scan_nonempty(line, i + 1, q, seq![], out.push(trim(cur)));
    } else {
        lemma_csv_scan_nonempty(line, i + 1, q, cur.push(line[i]), out);
    }
}

/// Splits `cs[from..to]` into trimmed CSV fields.
fn parse_csv_line(cs: &[char], from: usize, to: usize) -> (r: Vec<String>)
    requires
        from <= to <= cs@.len(),
    ensures
        views(r@) == csv_fields(cs@.subrange(from as int, to as int)),
        r@.len() > 0,
{
    let ghost line = cs@.subrange(from as int, to as int);
    let mut out: Vec<String> = Vec::new();
    let mut current = String::new();
    let mut in_quotes = false;
    let mut i = from;
    assert(views(out@) =~= Seq::<Seq<char>>::empty());
    while i < to
        invariant
            from <= i <= to <= cs@.len(),
            line == cs@.subrange(from as int, to as int),
            csv_fields(line) == csv_scan(line, i - from, in_quotes, current@, views(out@)),
        decreases to - i,
    {
        let ch = cs[i];
        assert(line[i - from] == ch);
        if ch == '"' {
            in_quotes = !in_quotes;
        } else if ch == ',' && !in_quotes {
            let cc = chars_of(current.as_str());
            let field = trimmed_string(&cc, 0, cc.len());
            assert(cc@.subrange(0, cc@.len() as int) =~= current@);
            let ghost before = views(out@);
            out.push(field);
            assert(views(out@) =~= before.push(trim(current@)));
            current = String::new();
            assert(current@ =~= Seq::<char>::empty());
        } else {
            push_char(&mut current, ch);
        }
        i = i + 1;
    }
    let cc = chars_of(current.as_str());
    let field = trimmed_string(&cc, 0, cc.len());
    assert(cc@.subrange(0, cc@.len() as int) =~= current@);
    let ghost before = views(out@);
    out.push(field);
    assert(views(out@) =~= before.push(trim(current@)));
    proof {
        lemma_csv_scan_nonempty(line, 0, false, seq![], seq![]);
    }
    out
}

/// The value under column `j`, or empty when the row is short.
pub open spec fn field_or_empty(values: Seq<Seq<char>>, j: int) -> Seq<char> {
    if j < values.len() {
        values[j]
    } else {
        seq![]
    }
}

/// `header: value` for column `j`.
pub open spec fn csv_pair(headers: Seq<Seq<char>>, values: Seq<Seq<char>>, j: int) -> Seq<char> {
    headers[j] + ": "@ + field_or_empty(values, j)
}

/// The text of a row: all `header: value` pairs joined by ` | `.
pub open spec fn csv_row_text(headers: Seq<Seq<char>>, values: Seq<Seq<char>>) -> Seq<char> {
    join(Seq::new(headers.len(), |j: int| csv_pair(headers, values, j)), " | "@)
}

/// A row is kept unless it is blank or all of its fields are blank.
pub open spec fn csv_row_kept(line: Seq<char>) -> bool {
    &&& !is_blank(line)
    &&& exists|j: int|
        0 <= j < csv_fields(line).len() && !is_blank(#[trigger] csv_fields(line)[j])
}

pub open spec fn csv_row_view(
    path: Seq<char>,
    kind: Seq<char>,
    headers: Seq<Seq<char>>,
    line: Seq<char>,
    row_number: int,
) -> CsvRowView {
    CsvRowView {
        id: path + "#row-"@ + decimal(row_number as nat),
        file_path: path,
        document_kind: kind,
        row_number,
        text: csv_row_text(headers, csv_fields(line)),
    }
}

/// The row chunks of the first `k` lines (line 0 is the header; line `k`
/// has row number `k + 1`).
pub open spec fn csv_rows_upto(
    path: Seq<char>,
    kind: Seq<char>,
    ls: Seq<Seq<char>>,
    k: int,
) -> Seq<CsvRowView>
    decreases k,
{
    if k <= 1 {
        seq![]
    } else {
        let before = csv_rows_upto(path, kind, ls, k - 1);
        if csv_row_kept(ls[k - 1]) {
            before.push(csv_row_view(path, kind, csv_fields(ls[0]), ls[k - 1], k))
        } else {
            before
        }
    }
}

/// Every kept row before line `k` has a row number that fits in `u32`.
pub open spec fn csv_rows_fit(ls: Seq<Seq<char>>, k: int) -> bool {
    forall|j: int| 1 <= j < k && csv_row_kept(#[trigger] ls[j]) ==> j + 1 <= u32::MAX
}

pub open spec fn csv_views(v: Seq<CsvRowChunk>) -> Seq<CsvRowView> {
    v.map_values(|c: CsvRowChunk| c@)
}

/// The message of a failed integer conversion.
pub open spec fn conversion_error() -> Seq<char> {
    "out of range integral type conversion attempted"@
}

fn row_text(headers: &Vec<String>, values: &Vec<String>) -> (r: String)
    ensures
        r@ == csv_row_text(views(headers@), views(values@)),
{
    let ghost pairs = Seq::new(
        headers@.len(),
        |j: int| csv_pair(views(headers@), views(values@), j),
    );
    let mut out = String::new();
    let mut j: usize = 0;
    while j < headers.len()
        invariant
            0 <= j <= headers@.len(),
            pairs == Seq::new(
                headers@.len(),
                |j: int| csv_pair(views(headers@), views(values@), j),
            ),
            out@ == join(pairs.take(j as int), " | "@),
        decreases headers.len() - j,
    {
        if j > 0 {
            push_str(&mut out, " | ");
        }
        push_str(&mut out, headers[j].as_str());
        push_str(&mut out, ": ");
        if j < values.len() {
            push_str(&mut out, values[j].as_str());
        }
        assert(pairs.take(j + 1).drop_last() =~= pairs.take(j as int));
        assert(pairs[j as int] =~= csv_pair(views(headers@), views(values@), j as int));
        if j >= values.len() {
            assert(field_or_empty(views(values@), j as int) =~= Seq::<char>::empty());
        }
        j = j + 1;
    }
    assert(pairs.take(headers@.len() as int) =~= pairs);
    out
}

/// True when some field is not blank.
fn any_field_present(values: &Vec<String>) -> (r: bool)
    ensures
        r == exists|j: int| 0 <= j < values@.len() && !is_blank(#[trigger] views(values@)[j]),
{
    let mut j: usize = 0;
    while j < values.len()
        invariant
            0 <= j <= values@.len(),
            forall|k: int| 0 <= k < j ==> is_blank(#[trigger] views(values@)[k]),
        decreases values.len() - j,
    {
        if !is_blank_str(values[j].as_str()) {
            assert(!is_blank(views(values@)[j as int]));
            return true;
        }
        j = j + 1;
    }
    false
}

/// Splits a CSV document into one chunk per non-empty data row. The first
/// line is the header; each kept row `k` (counting the header as line 1)
/// becomes `<path>#row-<k>` with text `h1: v1 | h2: v2 | ...`.
pub fn chunk_csv_rows(file_path: &str, body: &str, document_kind: &str) -> (r: Result<
    Vec<CsvRowChunk>,
    String,
>)
    ensures
        ({
            let ls = lines(body@);
            match r {
                Ok(v) => csv_views(v@) == (if ls.len() == 0 {
                    seq![]
                } else {
                    csv_rows_upto(file_path@, document_kind@, ls, ls.len() as int)
                }) && (ls.len() == 0 || csv_rows_fit(ls, ls.len() as int)),
                Err(e) => ls.len() > 0 && !csv_rows_fit(ls, ls.len() as int) && e@
                    == conversion_error(),
            }
        }),
{
    let cs = chars_of(body);
    let bounds = line_bounds(&cs);
    let ghost ls = lines(body@);
    assert(ls.len() == bounds@.len());
    if bounds.len() == 0 {
        return Ok(Vec::new());
    }
    let (h0, h1) = bounds[0];
    assert(ls[0] == cs@.subrange(h0 as int, h1 as int));
    let headers = parse_csv_line(&cs, h0, h1);
    let mut chunks: Vec<CsvRowChunk> = Vec::new();
    let mut k: usize = 1;
    while k < bounds.len()
        invariant
            1 <= k <= bounds@.len(),
            cs@ == body@,
            ls == lines(body@),
            ls.len() == bounds@.len(),
            as_int_pairs(bounds@) == line_ranges(cs@),
            forall|j: int|
                0 <= j < bounds@.len() ==> (#[trigger] bounds@[j]).0 <= bounds@[j].1 <= cs@.len(),
            views(headers@) == csv_fields(ls[0]),
            csv_views(chunks@) == csv_rows_upto(file_path@, document_kind@, ls, k as int),
            csv_rows_fit(ls, k as int),
        decreases bounds.len() - k,
    {
        let (a, b) = bounds[k];
        assert(as_int_pairs(bounds@)[k as int] == (a as int, b as int));
        assert(ls[k as int] == cs@.subrange(a as int, b as int));
        let (ta, tb) = trim_bounds(&cs, a, b);
        proof {
            lemma_trim_empty_iff_blank(ls[k as int]);
        }
        let mut keep = ta < tb;
        let mut values: Vec<String> = Vec::new();
        if keep {
            values = parse_csv_line(&cs, a, b);
            keep = any_field_present(&values);
        }
        if keep {
            if k > 4294967294 {
                assert(!csv_rows_fit(ls, ls.len() as int)) by {
                    assert(csv_row_kept(ls[k as int]));
                }
                return Err(lit("out of range integral type conversion attempted"));
            }
            let row_number = (k + 1) as u32;
            let mut id = String::new();
            push_str(&mut id, file_path);
            push_str(&mut id, "#row-");
            push_decimal(&mut id, row_number as u64);
            let text = row_text(&headers, &values);
            let ghost before = csv_views(chunks@);
            chunks.push(
                CsvRowChunk {
                    id,
                    file_path: lit(file_path),
                    document_kind: lit(document_kind),
                    row_number,
                    text,
                },
            );
            assert(csv_views(chunks@) =~= before.push(
                csv_row_view(file_path@, document_kind@, csv_fields(ls[0]), ls[k as int], k + 1),
            ));
        }
        assert(csv_rows_fit(ls, k + 1));
        k = k + 1;
    }
    Ok(chunks)
}


/// A stretch without double quotes (and, outside quotes, without commas)
/// is added to the current field as it stands.
proof fn lemma_csv_scan_plain(
    line: Seq<char>,
    i: int,
    j: int,
    q: bool,
    cur: Seq<char>,
    out: Seq<Seq<char>>,
)
    requires
        0 <= i <= j <= line.len(),
        forall|k: int| i <= k < j ==> line[k] != '"' && (q || line[k] != ','),
    ensures
        csv_scan(line, i, q, cur, out) == csv_scan(line, j, q, cur + line.subrange(i, j), out),
    decreases j - i,
{
    if i < j {
        lemma_csv_scan_plain(line, i + 1, j, q, cur.push(line[i]), out);
        assert(cur.push(line[i]) + line.subrange(i + 1, j) =~= cur + line.subrange(i, j));
    } else {
        assert(cur + line.subrange(i, j) =~= cur);
    }
}

/// A comma inside double quotes does not end a field: a line made of a
/// plain field `u`, a comma and a quoted value `"v"` (which may hold
/// commas) has exactly two fields, `u` and `v`, trimmed and without the
/// quotes.
pub proof fn lemma_quoted_comma_stays_in_field(u: Seq<char>, v: Seq<char>)
    requires
        forall|k: int| 0 <= k < u.len() ==> u[k] != '"' && u[k] != ',',
        forall|k: int| 0 <= k < v.len() ==> v[k] != '"',
    ensures
        csv_fields(u + seq![','] + seq!['"'] + v + seq!['"']) == seq![trim(u), trim(v)],
{
    let line = u + seq![','] + seq!['"'] + v + seq!['"'];
    let a = u.len() as int;
    let b = a + 2 + v.len();
    assert(line.subrange(0, a) =~= u);
    assert(line.subrange(a + 2, b) =~= v);
    assert(line[a] == ',');
    assert(line[a + 1] == '"');
    assert(line[b] == '"');
    assert forall|k: int| 0 <= k < a implies line[k] != '"' && (false || line[k] != ',') by {
        assert(line[k] == u[k]);
    }
    lemma_csv_scan_plain(line, 0, a, false, seq![], seq![]);
    assert(seq![] + u =~= u);
    assert forall|k: int| a + 2 <= k < b implies line[k] != '"' && (true || line[k] != ',') by {
        assert(line[k] == v[k - a - 2]);
    }
    lemma_csv_scan_plain(line, a + 2, b, true, seq![], seq![trim(u)]);
    assert(seq![] + v =~= v);
    assert(seq![].push(trim(u)) =~= seq![trim(u)]);
    assert(csv_scan(line, a, false, u, seq![]) == csv_scan(line, a + 1, false, seq![], seq![trim(u)]));
    assert(csv_scan(line, a + 1, false, seq![], seq![trim(u)]) == csv_scan(line, a + 2, true, seq![], seq![trim(u)]));
    assert(csv_scan(line, b, true, v, seq![trim(u)]) == csv_scan(line, b + 1, false, v, seq![trim(u)]));
    assert(seq![trim(u)].push(trim(v)) =~= seq![trim(u), trim(v)]);
}

} // verus!
