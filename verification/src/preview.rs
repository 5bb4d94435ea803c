use vstd::prelude::*;
use vstd::string::*;
use crate::SearchMode;
use crate::pattern::{
    line_matches, regex_compiles, regex_match, regex_split, regex_valid, split_first_match,
};
use crate::highlight::{
    assets_syntax_set, highlight_line_pieces, load_highlight_assets, new_highlighter, pieces_text,
    syntax_for_extension, syntax_for_first_line, theme_by_name,
};
use crate::text::{
    chars_eq, chars_of, extension_chars, file_name_chars, fmt_line_no, lowercase, spec_line_no,
    spec_lines, split_lines, string_from_chars,
};

verus! {

/// Files larger than this take the reduced, unhighlighted preview path.
pub const MAX_FILE_SIZE: u64 = 1024 * 512;

/// At most this many lines are rendered per preview.
pub const MAX_LINES_TO_FORMAT: usize = 1000;

/// A span's foreground color: none, the line-number gray, the warning
/// yellow, or a syntax color from the highlighter.
#[derive(Clone, Copy, Debug, PartialEq, Eq, Structural)]
pub enum SpanColor {
    Default,
    DarkGray,
    Yellow,
    Rgb(u8, u8, u8),
}

/// One styled stretch of a preview line; `highlighted` marks a content-match
/// emphasis (distinct background and strong weight).
pub struct PreviewSpan {
    pub text: String,
    pub fg: SpanColor,
    pub highlighted: bool,
}

/// The mathematical image of a span.
pub ghost struct SpanModel {
    pub text: Seq<char>,
    pub fg: SpanColor,
    pub highlighted: bool,
}

impl View for PreviewSpan {
    type V = SpanModel;

    open spec fn view(&self) -> SpanModel {
        SpanModel { text: self.text@, fg: self.fg, highlighted: self.highlighted }
    }
}

impl DeepView for PreviewSpan {
    type V = SpanModel;

    open spec fn deep_view(&self) -> SpanModel {
        self@
    }
}

/// One rendered preview line.
pub struct PreviewLine {
    pub spans: Vec<PreviewSpan>,
}

impl View for PreviewLine {
    type V = Seq<SpanModel>;

    open spec fn view(&self) -> Seq<SpanModel> {
        self.spans.deep_view()
    }
}

/// A built preview: styled lines, and an optional 1-based line number the
/// pane should scroll toward (the first content match).
pub struct PreviewResult {
    pub lines: Vec<PreviewLine>,
    pub scroll_target: Option<usize>,
}

/// What reading the selected file produced: nothing readable, the whole
/// text of a small file, or the leading lines of a large one.
pub enum FileInput {
    Unreadable,
    Text { content: String },
    Large { lines: Vec<String> },
}

// ---------------------------------------------------------------------------
// Span models used by the contracts.
// ---------------------------------------------------------------------------

pub open spec fn plain_span(t: Seq<char>, fg: SpanColor) -> SpanModel {
    SpanModel { text: t, fg, highlighted: false }
}

/// The line-number prefix span.
pub open spec fn num_span(n: nat) -> SpanModel {
    plain_span(spec_line_no(n), SpanColor::DarkGray)
}

pub open spec fn placeholder_text() -> Seq<char> {
    "Unable to read file"@
}

pub open spec fn truncation_text() -> Seq<char> {
    "File truncated - showing first 1000 lines only"@
}

pub open spec fn large_warning_text() -> Seq<char> {
    "Large file detected - showing plain text without syntax highlighting"@
}

/// The single-line result returned whenever the file cannot be read.
pub open spec fn is_placeholder(r: PreviewResult) -> bool {
    &&& r.scroll_target is None
    &&& r.lines@.len() == 1
    &&& r.lines@[0]@ == seq![plain_span(placeholder_text(), SpanColor::Default)]
}

/// Whether the query drives content matching: contents mode, a non-empty
/// query, and a query that compiles.
pub open spec fn search_active(q: Seq<char>, mode: SearchMode) -> bool {
    mode is Contents && q.len() > 0 && regex_valid(q)
}

// ---------------------------------------------------------------------------
// The first matching line (the scroll target).
// ---------------------------------------------------------------------------

pub open spec fn first_match_from(q: Seq<char>, ls: Seq<Seq<char>>, i: int) -> Option<int>
    decreases ls.len() - i,
{
    if i < 0 || i >= ls.len() {
        None
    } else if regex_match(q, ls[i]) {
        Some(i + 1)
    } else {
        first_match_from(q, ls, i + 1)
    }
}

/// The 1-based number of the first line the query matches.
pub open spec fn spec_first_match(q: Seq<char>, ls: Seq<Seq<char>>) -> Option<int> {
    first_match_from(q, ls, 0)
}

proof fn lemma_first_match_at(q: Seq<char>, ls: Seq<Seq<char>>, i: int, j: int)
    requires
        0 <= i <= j <= ls.len(),
        forall|k: int| i <= k < j ==> !regex_match(q, #[trigger] ls[k]),
        j == ls.len() || regex_match(q, ls[j]),
    ensures
        first_match_from(q, ls, i) == (if j < ls.len() {
            Some(j + 1)
        } else {
            None::<int>
        }),
    decreases j - i,
{
    if i < j {
        lemma_first_match_at(q, ls, i + 1, j);
    }
}

/// Scan the first `bound` lines in order for the first one the query
/// matches; `None` as well whenever the query does not compile.
fn first_match_upto(query: &String, lines: &Vec<String>, bound: usize) -> (r: Option<usize>)
    requires
        bound <= lines@.len(),
    ensures
        regex_valid(query@) ==> ((r is Some) == (spec_first_match(
            query@,
            lines.deep_view().take(bound as int),
        ) is Some) && (r matches Some(n) ==> spec_first_match(
            query@,
            lines.deep_view().take(bound as int),
        ) == Some(n as int))),
        !regex_valid(query@) ==> r is None,
{
    let ghost ls = lines.deep_view().take(bound as int);
    let mut i: usize = 0;
    while i < bound
        invariant
            bound <= lines@.len(),
            ls == lines.deep_view().take(bound as int),
            i <= bound,
            forall|k: int|
                0 <= k < i ==> !(regex_valid(query@) && regex_match(query@, #[trigger] ls[k])),
        decreases bound - i,
    {
        if line_matches(query.as_str(), lines[i].as_str()) {
            proof {
                assert(ls[i as int] == lines.deep_view()[i as int]);
                lemma_first_match_at(query@, ls, 0, i as int);
            }
            return Some(i + 1);
        }
        proof {
            assert(ls[i as int] == lines.deep_view()[i as int]);
        }
        i += 1;
    }
    proof {
        if regex_valid(query@) {
            lemma_first_match_at(query@, ls, 0, ls.len() as int);
        }
    }
    None
}

// ---------------------------------------------------------------------------
// The large-file path: no grammar work, plain spans, whole-line emphasis on
// the first-match semantics.
// ---------------------------------------------------------------------------

/// A rendered large-file line: the number prefix, then the whole line in one
/// span, emphasized exactly when an active query matches it.
pub open spec fn spec_large_line(n: nat, line: Seq<char>, q: Seq<char>, active: bool) -> Seq<
    SpanModel,
> {
    seq![num_span(n)] + (if active && regex_match(q, line) {
        seq![SpanModel { text: line, fg: SpanColor::Default, highlighted: true }]
    } else {
        seq![plain_span(line, SpanColor::Default)]
    })
}

/// No span of a large-file line carries a syntax color.
pub proof fn lemma_large_line_no_syntax(n: nat, line: Seq<char>, q: Seq<char>, active: bool)
    ensures
        forall|j: int|
            0 <= j < spec_large_line(n, line, q, active).len() ==> !((#[trigger] spec_large_line(
                n,
                line,
                q,
                active,
            )[j]).fg is Rgb),
{
}

pub open spec fn large_preview_ok(
    r: PreviewResult,
    lines: Seq<Seq<char>>,
    q: Seq<char>,
    mode: SearchMode,
) -> bool {
    let active = search_active(q, mode);
    let shown = if lines.len() <= 1000 {
        lines.len() as int
    } else {
        1000int
    };
    &&& r.lines@.len() == 1 + shown
    &&& r.lines@[0]@ == seq![plain_span(large_warning_text(), SpanColor::Yellow)]
    &&& (forall|i: int|
        0 <= i < shown ==> #[trigger] r.lines@[i + 1]@ == spec_large_line(
            (i + 1) as nat,
            lines[i],
            q,
            active,
        ))
    &&& (r.scroll_target is Some) == (active && spec_first_match(q, lines.take(shown)) is Some)
    &&& (r.scroll_target matches Some(n) ==> spec_first_match(q, lines.take(shown)) == Some(
        n as int,
    ))
}

fn decide_active(query: &String, mode: SearchMode) -> (r: bool)
    ensures
        r == search_active(query@, mode),
{
    match mode {
        SearchMode::Contents => !query.as_str().is_empty() && regex_compiles(query.as_str()),
        SearchMode::Filename => false,
    }
}

/// Build the reduced preview of a file over the size threshold from its
/// leading lines: a warning banner, numbered plain lines, and whole-line
/// emphasis plus scroll target at the first active-query match.
pub fn get_large_file_preview(lines: &Vec<String>, query: &String, mode: SearchMode) -> (r:
    PreviewResult)
    ensures
        large_preview_ok(r, lines.deep_view(), query@, mode),
{
    let active = decide_active(query, mode);
    let shown: usize = if lines.len() <= MAX_LINES_TO_FORMAT {
        lines.len()
    } else {
        MAX_LINES_TO_FORMAT
    };
    let scroll: Option<usize> = if active {
        first_match_upto(query, lines, shown)
    } else {
        None
    };
    let mut out: Vec<PreviewLine> = Vec::new();
    let mut warn_spans: Vec<PreviewSpan> = Vec::new();
    warn_spans.push(
        PreviewSpan {
            text: String::from_str("Large file detected - showing plain text without syntax highlighting"),
            fg: SpanColor::Yellow,
            highlighted: false,
        },
    );
    let warning = PreviewLine { spans: warn_spans };
    proof {
        assert(warning@ =~= seq![plain_span(large_warning_text(), SpanColor::Yellow)]);
    }
    out.push(warning);
    let mut j: usize = 0;
    while j < shown
        invariant
            shown <= lines@.len(),
            j <= shown,
            active == search_active(query@, mode),
            out@.len() == 1 + j,
            out@[0]@ == seq![plain_span(large_warning_text(), SpanColor::Yellow)],
            forall|k: int|
                0 <= k < j ==> #[trigger] out@[k + 1]@ == spec_large_line(
                    (k + 1) as nat,
                    lines.deep_view()[k],
                    query@,
                    search_active(query@, mode),
                ),
        decreases shown - j,
    {
        let mut spans: Vec<PreviewSpan> = Vec::new();
        spans.push(
            PreviewSpan { text: fmt_line_no(j + 1), fg: SpanColor::DarkGray, highlighted: false },
        );
        let matched = if active {
            line_matches(query.as_str(), lines[j].as_str())
        } else {
            false
        };
        spans.push(
            PreviewSpan { text: lines[j].clone(), fg: SpanColor::Default, highlighted: matched },
        );
        let pl = PreviewLine { spans };
        proof {
            assert(pl@ =~= spec_large_line(
                (j + 1) as nat,
                lines.deep_view()[j as int],
                query@,
                search_active(query@, mode),
            ));
        }
        out.push(pl);
        j += 1;
    }
    PreviewResult { lines: out, scroll_target: scroll }
}

// ---------------------------------------------------------------------------
// The normal path: syntax-highlighted pieces, with the match overlay.
// ---------------------------------------------------------------------------

/// One colored stretch of a source line, as the highlighter produced it.
pub struct Piece {
    pub fg: SpanColor,
    pub text: String,
}

/// The mathematical image of a piece.
pub ghost struct PieceModel {
    pub fg: SpanColor,
    pub text: Seq<char>,
}

impl View for Piece {
    type V = PieceModel;

    open spec fn view(&self) -> PieceModel {
        PieceModel { fg: self.fg, text: self.text@ }
    }
}

impl DeepView for Piece {
    type V = PieceModel;

    open spec fn deep_view(&self) -> PieceModel {
        self@
    }
}

/// The text carried by a sequence of pieces, in order.
pub open spec fn pieces_model_text(ps: Seq<PieceModel>) -> Seq<char>
    decreases ps.len(),
{
    if ps.len() == 0 {
        Seq::<char>::empty()
    } else {
        pieces_model_text(ps.drop_last()) + ps.last().text
    }
}

/// The text carried by a sequence of spans, in order.
pub open spec fn spans_text(ss: Seq<SpanModel>) -> Seq<char>
    decreases ss.len(),
{
    if ss.len() == 0 {
        Seq::<char>::empty()
    } else {
        spans_text(ss.drop_last()) + ss.last().text
    }
}

proof fn lemma_spans_text_concat(x: Seq<SpanModel>, y: Seq<SpanModel>)
    ensures
        spans_text(x + y) == spans_text(x) + spans_text(y),
    decreases y.len(),
{
    if y.len() == 0 {
        assert(x + y =~= x);
        assert(spans_text(x) + spans_text(y) =~= spans_text(x));
    } else {
        assert((x + y).drop_last() =~= x + y.drop_last());
        lemma_spans_text_concat(x, y.drop_last());
        assert((x + y).last() == y.last());
        assert(spans_text(x) + spans_text(y.drop_last()) + y.last().text =~= spans_text(x) + (
        spans_text(y.drop_last()) + y.last().text));
    }
}

proof fn lemma_spans_text_singleton(s: SpanModel)
    ensures
        spans_text(seq![s]) == s.text,
{
    assert(seq![s].drop_last() =~= Seq::<SpanModel>::empty());
    assert(seq![s].len() == 1);
    assert(spans_text(seq![s]) == spans_text(seq![s].drop_last()) + seq![s].last().text);
    assert(spans_text(Seq::<SpanModel>::empty()) == Seq::<char>::empty());
    assert(seq![s].last() == s);
    assert(Seq::<char>::empty() + s.text =~= s.text);
}

/// The spans a piece renders to: split around the first match of an active
/// query when that split exists and its matched part is non-empty (the
/// matched part emphasized, empty outer parts dropped); one plain span
/// otherwise.
pub open spec fn piece_spans(p: PieceModel, q: Seq<char>, active: bool) -> Seq<SpanModel> {
    if active && regex_valid(q) {
        match regex_split(q, p.text) {
            Some(s) => if s.1.len() > 0 {
                (if s.0.len() > 0 {
                    seq![SpanModel { text: s.0, fg: p.fg, highlighted: false }]
                } else {
                    Seq::<SpanModel>::empty()
                }) + seq![SpanModel { text: s.1, fg: p.fg, highlighted: true }] + (if s.2.len()
                    > 0 {
                    seq![SpanModel { text: s.2, fg: p.fg, highlighted: false }]
                } else {
                    Seq::<SpanModel>::empty()
                })
            } else {
                seq![SpanModel { text: p.text, fg: p.fg, highlighted: false }]
            },
            None => seq![SpanModel { text: p.text, fg: p.fg, highlighted: false }],
        }
    } else {
        seq![SpanModel { text: p.text, fg: p.fg, highlighted: false }]
    }
}

/// Rendering a piece keeps its text: the sub-spans' texts concatenate to
/// the piece's.
proof fn lemma_piece_spans_text(p: PieceModel, q: Seq<char>, active: bool)
    requires
        (active && regex_valid(q) && regex_split(q, p.text) is Some) ==> (match regex_split(
            q,
            p.text,
        ) {
            Some(s) => s.0 + s.1 + s.2 == p.text,
            None => true,
        }),
    ensures
        spans_text(piece_spans(p, q, active)) == p.text,
{
    if active && regex_valid(q) {
        match regex_split(q, p.text) {
            Some(s) => {
                if s.1.len() > 0 {
                    let a = if s.0.len() > 0 {
                        seq![SpanModel { text: s.0, fg: p.fg, highlighted: false }]
                    } else {
                        Seq::<SpanModel>::empty()
                    };
                    let m = seq![SpanModel { text: s.1, fg: p.fg, highlighted: true }];
                    let c = if s.2.len() > 0 {
                        seq![SpanModel { text: s.2, fg: p.fg, highlighted: false }]
                    } else {
                        Seq::<SpanModel>::empty()
                    };
                    lemma_spans_text_concat(a + m, c);
                    lemma_spans_text_concat(a, m);
                    lemma_spans_text_singleton(SpanModel { text: s.1, fg: p.fg, highlighted: true });
                    if s.0.len() > 0 {
                        lemma_spans_text_singleton(
                            SpanModel { text: s.0, fg: p.fg, highlighted: false },
                        );
                    } else {
                        assert(spans_text(a) =~= s.0);
                    }
                    if s.2.len() > 0 {
                        lemma_spans_text_singleton(
                            SpanModel { text: s.2, fg: p.fg, highlighted: false },
                        );
                    } else {
                        assert(spans_text(c) =~= s.2);
                    }
                    assert(spans_text(piece_spans(p, q, active)) =~= p.text);
                } else {
                    lemma_spans_text_singleton(
                        SpanModel { text: p.text, fg: p.fg, highlighted: false },
                    );
                }
            },
            None => {
                lemma_spans_text_singleton(SpanModel { text: p.text, fg: p.fg, highlighted: false });
            },
        }
    } else {
        lemma_spans_text_singleton(SpanModel { text: p.text, fg: p.fg, highlighted: false });
    }
}

/// The spans of a whole sequence of pieces, in order.
pub open spec fn render_pieces(ps: Seq<PieceModel>, q: Seq<char>, active: bool) -> Seq<SpanModel>
    decreases ps.len(),
{
    if ps.len() == 0 {
        Seq::<SpanModel>::empty()
    } else {
        render_pieces(ps.drop_last(), q, active) + piece_spans(ps.last(), q, active)
    }
}

/// A rendered normal-path line: the number prefix, then the pieces' spans.
pub open spec fn render_line_model(n: nat, ps: Seq<PieceModel>, q: Seq<char>, active: bool) -> Seq<
    SpanModel,
> {
    seq![num_span(n)] + render_pieces(ps, q, active)
}

/// Render one source line: the number prefix, then each piece, split around
/// the first match of an active query.
pub fn render_line(line_no: usize, pieces: &Vec<Piece>, query: &String, active: bool) -> (r:
    PreviewLine)
    ensures
        r@ == render_line_model(line_no as nat, pieces.deep_view(), query@, active),
        spans_text(r@.skip(1)) == pieces_model_text(pieces.deep_view()),
        r@.len() >= 1 && r@[0] == num_span(line_no as nat),
{
    let mut spans: Vec<PreviewSpan> = Vec::new();
    spans.push(
        PreviewSpan { text: fmt_line_no(line_no), fg: SpanColor::DarkGray, highlighted: false },
    );
    proof {
        assert(spans.deep_view() =~= seq![num_span(line_no as nat)]);
        assert(pieces.deep_view().take(0) =~= Seq::<PieceModel>::empty());
        assert(spans.deep_view() =~= seq![num_span(line_no as nat)] + render_pieces(
            pieces.deep_view().take(0),
            query@,
            active,
        ));
        assert(spans.deep_view().skip(1) =~= Seq::<SpanModel>::empty());
        assert(spans_text(spans.deep_view().skip(1)) =~= pieces_model_text(
            pieces.deep_view().take(0),
        ));
    }
    let mut i: usize = 0;
    while i < pieces.len()
        invariant
            i <= pieces@.len(),
            spans.deep_view() == seq![num_span(line_no as nat)] + render_pieces(
                pieces.deep_view().take(i as int),
                query@,
                active,
            ),
            spans_text(spans.deep_view().skip(1)) == pieces_model_text(
                pieces.deep_view().take(i as int),
            ),
            spans@.len() >= 1,
        decreases pieces@.len() - i,
    {
        let p = &pieces[i];
        let ghost pm = pieces.deep_view()[i as int];
        let mut po: Vec<PreviewSpan> = Vec::new();
        let mut done = false;
        if active {
            match split_first_match(query.as_str(), p.text.as_str()) {
                Some(parts) => {
                    let (a, b, c) = parts;
                    if !b.as_str().is_empty() {
                        if !a.as_str().is_empty() {
                            po.push(PreviewSpan { text: a, fg: p.fg, highlighted: false });
                        }
                        po.push(PreviewSpan { text: b, fg: p.fg, highlighted: true });
                        if !c.as_str().is_empty() {
                            po.push(PreviewSpan { text: c, fg: p.fg, highlighted: false });
                        }
                        done = true;
                    }
                },
                None => {},
            }
        }
        if !done {
            po.push(PreviewSpan { text: p.text.clone(), fg: p.fg, highlighted: false });
        }
        proof {
            assert(po.deep_view() =~= piece_spans(pm, query@, active));
            lemma_piece_spans_text(pm, query@, active);
            assert(spans_text(po.deep_view()) == pm.text);
            assert(pieces.deep_view().take(i + 1).drop_last() =~= pieces.deep_view().take(i as int));
            assert(pieces.deep_view().take(i + 1).last() == pm);
        }
        let ghost old_spans = spans.deep_view();
        spans.append(&mut po);
        proof {
            assert(spans.deep_view() =~= old_spans + piece_spans(pm, query@, active));
            assert(spans.deep_view() =~= seq![num_span(line_no as nat)] + render_pieces(
                pieces.deep_view().take(i + 1),
                query@,
                active,
            ));
            assert(spans.deep_view().skip(1) =~= old_spans.skip(1) + piece_spans(
                pm,
                query@,
                active,
            ));
            lemma_spans_text_concat(old_spans.skip(1), piece_spans(pm, query@, active));
            assert(spans_text(spans.deep_view().skip(1)) =~= pieces_model_text(
                pieces.deep_view().take(i + 1),
            ));
        }
        i += 1;
    }
    proof {
        assert(pieces.deep_view().take(pieces.deep_view().len() as int) =~= pieces.deep_view());
    }
    PreviewLine { spans }
}

proof fn lemma_pieces_text_push(x: Seq<PieceModel>, y: PieceModel)
    ensures
        pieces_model_text(x.push(y)) == pieces_model_text(x) + y.text,
{
    assert(x.push(y).drop_last() =~= x);
    assert(x.push(y).last() == y);
    assert(pieces_model_text(x.push(y)) == pieces_model_text(x.push(y).drop_last()) + x.push(
        y,
    ).last().text);
}

proof fn lemma_pieces_text_singleton(y: PieceModel)
    ensures
        pieces_model_text(seq![y]) == y.text,
{
    assert(Seq::<PieceModel>::empty().push(y) =~= seq![y]);
    lemma_pieces_text_push(Seq::<PieceModel>::empty(), y);
    assert(Seq::<char>::empty() + y.text =~= y.text);
}

/// One plain piece per line, used whenever no grammar work is possible.
fn plain_rows(ls: &Vec<String>, shown: usize) -> (r: Vec<Vec<Piece>>)
    requires
        shown <= ls@.len(),
    ensures
        r@.len() == shown,
        forall|i: int|
            0 <= i < shown ==> pieces_model_text((#[trigger] r@[i]).deep_view())
                == ls.deep_view()[i],
{
    let mut rows: Vec<Vec<Piece>> = Vec::new();
    let mut i: usize = 0;
    while i < shown
        invariant
            shown <= ls@.len(),
            i <= shown,
            rows@.len() == i,
            forall|k: int|
                0 <= k < i ==> pieces_model_text((#[trigger] rows@[k]).deep_view())
                    == ls.deep_view()[k],
        decreases shown - i,
    {
        let mut row: Vec<Piece> = Vec::new();
        row.push(Piece { fg: SpanColor::Default, text: ls[i].clone() });
        proof {
            assert(row.deep_view() =~= seq![
                PieceModel { fg: SpanColor::Default, text: ls.deep_view()[i as int] },
            ]);
            lemma_pieces_text_singleton(
                PieceModel { fg: SpanColor::Default, text: ls.deep_view()[i as int] },
            );
        }
        rows.push(row);
        i += 1;
    }
    rows
}

/// Run the stateful highlighter over the shown lines; each line whose
/// highlighting fails falls back to one plain piece, so every row's text is
/// its line's text.
fn highlighted_rows(
    ls: &Vec<String>,
    shown: usize,
    syntax: &syntect::parsing::SyntaxReference,
    theme: &syntect::highlighting::Theme,
    ss: &syntect::parsing::SyntaxSet,
) -> (r: Vec<Vec<Piece>>)
    requires
        shown <= ls@.len(),
    ensures
        r@.len() == shown,
        forall|i: int|
            0 <= i < shown ==> pieces_model_text((#[trigger] r@[i]).deep_view())
                == ls.deep_view()[i],
{
    let mut h = new_highlighter(syntax, theme);
    let mut rows: Vec<Vec<Piece>> = Vec::new();
    let mut i: usize = 0;
    while i < shown
        invariant
            shown <= ls@.len(),
            i <= shown,
            rows@.len() == i,
            forall|k: int|
                0 <= k < i ==> pieces_model_text((#[trigger] rows@[k]).deep_view())
                    == ls.deep_view()[k],
        decreases shown - i,
    {
        let mut row: Vec<Piece> = Vec::new();
        match highlight_line_pieces(&mut h, ls[i].as_str(), ss) {
            Some(v) => {
                let mut j: usize = 0;
                while j < v.len()
                    invariant
                        j <= v@.len(),
                        pieces_model_text(row.deep_view()) == pieces_text(v@.take(j as int)),
                    decreases v@.len() - j,
                {
                    let t = &v[j];
                    let ghost old_row = row.deep_view();
                    row.push(Piece { fg: SpanColor::Rgb(t.0, t.1, t.2), text: t.3.clone() });
                    proof {
                        let pm = PieceModel {
                            fg: SpanColor::Rgb(v@[j as int].0, v@[j as int].1, v@[j as int].2),
                            text: v@[j as int].3@,
                        };
                        assert(row.deep_view() =~= old_row.push(pm));
                        lemma_pieces_text_push(old_row, pm);
                        assert(v@.take(j + 1).drop_last() =~= v@.take(j as int));
                        assert(v@.take(j + 1).last() == v@[j as int]);
                        assert(pieces_model_text(row.deep_view()) == pieces_text(v@.take(j + 1)));
                    }
                    j += 1;
                }
                proof {
                    assert(v@.take(v@.len() as int) =~= v@);
                    assert(pieces_model_text(row.deep_view()) == ls.deep_view()[i as int]);
                }
            },
            None => {
                row.push(Piece { fg: SpanColor::Default, text: ls[i].clone() });
                proof {
                    assert(row.deep_view() =~= seq![
                        PieceModel { fg: SpanColor::Default, text: ls.deep_view()[i as int] },
                    ]);
                    lemma_pieces_text_singleton(
                        PieceModel { fg: SpanColor::Default, text: ls.deep_view()[i as int] },
                    );
                }
            },
        }
        rows.push(row);
        i += 1;
    }
    rows
}

/// Resolve a grammar for the file and produce the colored pieces of each
/// shown line: by extension first, then the extension aliases of ecosystems
/// whose grammar name differs, then first-line sniffing, then plain text.
fn highlight_rows(path: &String, ls: &Vec<String>, shown: usize) -> (r: Vec<Vec<Piece>>)
    requires
        shown <= ls@.len(),
    ensures
        r@.len() == shown,
        forall|i: int|
            0 <= i < shown ==> pieces_model_text((#[trigger] r@[i]).deep_view())
                == ls.deep_view()[i],
{
    let assets = load_highlight_assets();
    let theme_opt = theme_by_name("base16-ocean.dark");
    let ss_opt = assets_syntax_set(&assets);
    match ss_opt {
        Some(ss) => match theme_opt {
            Some(theme) => {
                let path_chars = chars_of(path.as_str());
                let name = file_name_chars(&path_chars);
                let extv = extension_chars(&name);
                let ext_string = string_from_chars(&extv);
                let ext_low = lowercase(ext_string.as_str());
                let ext_low_chars = chars_of(ext_low.as_str());
                let mut syn = syntax_for_extension(ss, ext_low.as_str());
                if syn.is_none() {
                    let ts = chars_of("ts");
                    let tsx = chars_of("tsx");
                    let js = chars_of("js");
                    let jsx = chars_of("jsx");
                    if chars_eq(&ext_low_chars, &ts) || chars_eq(&ext_low_chars, &tsx) {
                        syn = syntax_for_extension(ss, "typescript");
                    } else if chars_eq(&ext_low_chars, &js) || chars_eq(&ext_low_chars, &jsx) {
                        syn = syntax_for_extension(ss, "javascript");
                    }
                }
                if syn.is_none() && ls.len() > 0 {
                    syn = syntax_for_first_line(ss, ls[0].as_str());
                }
                if syn.is_none() {
                    syn = syntax_for_extension(ss, "txt");
                }
                match syn {
                    Some(sy) => highlighted_rows(ls, shown, sy, &theme, ss),
                    None => plain_rows(ls, shown),
                }
            },
            None => plain_rows(ls, shown),
        },
        None => plain_rows(ls, shown),
    }
}

// ---------------------------------------------------------------------------
// The whole preview builder.
// ---------------------------------------------------------------------------

fn placeholder_result() -> (r: PreviewResult)
    ensures
        is_placeholder(r),
{
    let mut spans: Vec<PreviewSpan> = Vec::new();
    spans.push(
        PreviewSpan {
            text: String::from_str("Unable to read file"),
            fg: SpanColor::Default,
            highlighted: false,
        },
    );
    let line = PreviewLine { spans };
    let mut lines: Vec<PreviewLine> = Vec::new();
    lines.push(line);
    proof {
        assert(lines@[0]@ =~= seq![plain_span(placeholder_text(), SpanColor::Default)]);
    }
    PreviewResult { lines, scroll_target: None }
}

/// The line arises from some sequence of colored pieces carrying exactly
/// the source text, rendered with the number prefix and the match overlay.
pub open spec fn line_renders_ok(
    ln: PreviewLine,
    n: int,
    q: Seq<char>,
    active: bool,
    src: Seq<char>,
) -> bool {
    exists|ps: Seq<PieceModel>|
        ln@ == render_line_model(n as nat, ps, q, active) && #[trigger] pieces_model_text(ps)
            == src
}

/// What the normal path promises: the scroll target is the first matching
/// line of the whole text; at most 1000 lines are rendered, each opening
/// with its number span and carrying exactly its source text across the
/// remaining spans, those spans arising from some colored split of the line
/// with the match overlay applied; a final notice line marks truncation.
pub open spec fn text_preview_ok(
    r: PreviewResult,
    content: Seq<char>,
    q: Seq<char>,
    mode: SearchMode,
) -> bool {
    let ls = spec_lines(content);
    let active = search_active(q, mode);
    let shown = if ls.len() <= 1000 {
        ls.len() as int
    } else {
        1000int
    };
    &&& (r.scroll_target is Some) == (active && spec_first_match(q, ls) is Some)
    &&& (r.scroll_target matches Some(n) ==> active && spec_first_match(q, ls) == Some(n as int))
    &&& r.lines@.len() == shown + (if ls.len() > 1000 {
        1int
    } else {
        0int
    })
    &&& (forall|i: int|
        0 <= i < shown ==> line_renders_ok(#[trigger] r.lines@[i], i + 1, q, active, ls[i]))
    &&& (forall|i: int|
        0 <= i < shown ==> ((#[trigger] r.lines@[i])@.len() >= 1 && r.lines@[i]@[0] == num_span(
            (i + 1) as nat,
        ) && spans_text(r.lines@[i]@.skip(1)) == ls[i]))
    &&& (ls.len() > 1000 ==> r.lines@[shown]@ == seq![
        plain_span(truncation_text(), SpanColor::Yellow),
    ])
}

/// Build the preview of the selected file from what reading it produced.
/// An unreadable file gives the fixed placeholder; a large file takes the
/// reduced path; otherwise the text is split into lines, highlighted, and
/// overlaid with the first content match.
pub fn get_file_preview(path: &String, input: &FileInput, query: &String, mode: SearchMode) -> (r:
    PreviewResult)
    ensures
        input is Unreadable ==> is_placeholder(r),
        input matches FileInput::Text { content } ==> text_preview_ok(r, content@, query@, mode),
        input matches FileInput::Large { lines } ==> large_preview_ok(
            r,
            lines.deep_view(),
            query@,
            mode,
        ),
{
    match input {
        FileInput::Unreadable => placeholder_result(),
        FileInput::Large { lines } => get_large_file_preview(lines, query, mode),
        FileInput::Text { content } => {
            let ls = split_lines(content.as_str());
            let active = decide_active(query, mode);
            let total = ls.len();
            let scroll: Option<usize> = if active {
                first_match_upto(query, &ls, total)
            } else {
                None
            };
            proof {
                assert(ls.deep_view().take(total as int) =~= ls.deep_view());
            }
            let shown: usize = if total <= MAX_LINES_TO_FORMAT {
                total
            } else {
                MAX_LINES_TO_FORMAT
            };
            let rows = highlight_rows(path, &ls, shown);
            let mut out: Vec<PreviewLine> = Vec::new();
            let mut i: usize = 0;
            while i < shown
                invariant
                    shown <= ls@.len(),
                    shown <= rows@.len(),
                    i <= shown,
                    active == search_active(query@, mode),
                    out@.len() == i,
                    forall|k: int|
                        0 <= k < shown ==> pieces_model_text((#[trigger] rows@[k]).deep_view())
                            == ls.deep_view()[k],
                    forall|k: int|
                        0 <= k < i ==> (#[trigger] out@[k])@ == render_line_model(
                            (k + 1) as nat,
                            rows@[k].deep_view(),
                            query@,
                            search_active(query@, mode),
                        ),
                    forall|k: int|
                        0 <= k < i ==> ((#[trigger] out@[k])@.len() >= 1 && out@[k]@[0] == num_span(
                            (k + 1) as nat,
                        ) && spans_text(out@[k]@.skip(1)) == ls.deep_view()[k]),
                decreases shown - i,
            {
                let pl = render_line(i + 1, &rows[i], query, active);
                out.push(pl);
                i += 1;
            }
            if total > MAX_LINES_TO_FORMAT {
                let mut nspans: Vec<PreviewSpan> = Vec::new();
                nspans.push(
                    PreviewSpan {
                        text: String::from_str("File truncated - showing first 1000 lines only"),
                        fg: SpanColor::Yellow,
                        highlighted: false,
                    },
                );
                let notice = PreviewLine { spans: nspans };
                proof {
                    assert(notice@ =~= seq![plain_span(truncation_text(), SpanColor::Yellow)]);
                }
                out.push(notice);
            }
            let r = PreviewResult { lines: out, scroll_target: scroll };
            proof {
                assert(ls.deep_view() == spec_lines(content@));
                assert forall|i2: int|
                    0 <= i2 < (if spec_lines(content@).len() <= 1000 {
                        spec_lines(content@).len() as int
                    } else {
                        1000int
                    }) implies line_renders_ok(
                    #[trigger] r.lines@[i2],
                    i2 + 1,
                    query@,
                    search_active(query@, mode),
                    spec_lines(content@)[i2],
                ) by {
                    let ps = rows@[i2].deep_view();
                    assert(r.lines@[i2]@ == render_line_model(
                        (i2 + 1) as nat,
                        ps,
                        query@,
                        search_active(query@, mode),
                    ) && pieces_model_text(ps) == spec_lines(content@)[i2]);
                }
                assert(text_preview_ok(r, content@, query@, mode));
            }
            r
        },
    }
}

} // verus!
