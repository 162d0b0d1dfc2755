//! The live view's layout: each line of the screen as a list of styled pieces of text.
use vstd::prelude::*;
use vstd::string::*;
use crate::cli::{
    lemma_decimal_printable, lemma_padded_cols_one_col, lemma_printable_concat, one_col_each, padded_cols,
    printable_ascii, approves, cards_left_pad, cards_per_row, count_states, gap_state_label, handle_key, merge_gap_order,
    merged_order, padded, pad_truncate, snapshot_names, state_counts, state_label, AttentionKind, Key,
    Reply, CARD_INNER, CARD_TOTAL,
};
use crate::moss::types::{evidence_total, first_state, BlackboardSnapshot, Gap, GapState};
use crate::moss::artifact_guard::utf8_len;
use crate::text::{chars_of, decimal, push_char, push_decimal, string_of, sub_vec, texts, trim};

verus! {

/// A colour role of the interface's palette.
#[derive(Clone, Copy, PartialEq, Eq, Structural, Debug)]
pub enum Tone {
    /// The terminal's default style.
    Plain,
    Border,
    Title,
    Section,
    Label,
    Value,
    Done,
    Running,
    Ready,
    Blocked,
    Warn,
    Footer,
}

/// A run of text drawn in one tone, bold or not.
pub struct Piece {
    pub text: String,
    pub tone: Tone,
    pub bold: bool,
}

pub struct PieceView {
    pub text: Seq<char>,
    pub tone: Tone,
    pub bold: bool,
}

impl View for Piece {
    type V = PieceView;

    open spec fn view(&self) -> PieceView {
        PieceView { text: self.text@, tone: self.tone, bold: self.bold }
    }
}

/// A plain-weight piece.
pub open spec fn pc(text: Seq<char>, tone: Tone) -> PieceView {
    PieceView { text, tone, bold: false }
}

/// A bold piece.
pub open spec fn strong(text: Seq<char>, tone: Tone) -> PieceView {
    PieceView { text, tone, bold: true }
}

/// A screen line's pieces.
pub open spec fn line_view(v: Seq<Piece>) -> Seq<PieceView> {
    v.map_values(|p: Piece| p@)
}

/// The screen lines' pieces.
pub open spec fn lines_view(v: Seq<Vec<Piece>>) -> Seq<Seq<PieceView>> {
    v.map_values(|l: Vec<Piece>| line_view(l@))
}

/// The number of terminal columns a line takes (one per character).
pub open spec fn width(v: Seq<PieceView>) -> nat
    decreases v.len(),
{
    if v.len() == 0 {
        0
    } else {
        width(v.drop_last()) + v.last().text.len()
    }
}

/// `k` copies of `c`.
pub open spec fn rule(c: char, k: nat) -> Seq<char> {
    Seq::new(k, |i: int| c)
}

/// `a - b`, or 0 when `b` is larger.
pub open spec fn sat(a: nat, b: nat) -> nat {
    if a >= b {
        (a - b) as nat
    } else {
        0
    }
}

/// `s` followed by spaces up to `w` characters; never cut.
pub open spec fn left_aligned(s: Seq<char>, w: nat) -> Seq<char> {
    if s.len() >= w {
        s
    } else {
        s + rule(' ', (w - s.len()) as nat)
    }
}

/// The width of two lines put together is the sum of their widths.
pub proof fn lemma_width_concat(a: Seq<PieceView>, b: Seq<PieceView>)
    ensures
        width(a + b) == width(a) + width(b),
    decreases b.len(),
{
    if b.len() > 0 {
        lemma_width_concat(a, b.drop_last());
        assert((a + b).drop_last() =~= a + b.drop_last());
    }
}

proof fn lemma_line_view_concat(a: Seq<Piece>, b: Seq<Piece>)
    ensures
        line_view(a + b) == line_view(a) + line_view(b),
{
    assert(line_view(a + b) =~= line_view(a) + line_view(b));
}

// ── Building pieces ───────────────────────────────────────────────────────────

/// Appends `k` copies of `c` to `s`.
fn push_rule(s: &mut String, c: char, k: usize)
    ensures
        final(s)@ == old(s)@ + rule(c, k as nat),
{
    let ghost s0 = s@;
    let mut i: usize = 0;
    while i < k
        invariant
            i <= k,
            s@ == s0 + rule(c, i as nat),
        decreases k - i,
    {
        push_char(s, c);
        assert(s0 + rule(c, (i + 1) as nat) =~= (s0 + rule(c, i as nat)).push(c));
        i = i + 1;
    }
}

/// `s` padded with spaces to at least `w` characters.
fn left_align(s: &str, w: usize) -> (r: String)
    ensures
        r@ == left_aligned(s@, w as nat),
{
    let n = chars_of(s).len();
    let mut r = String::from_str(s);
    if n < w {
        push_rule(&mut r, ' ', w - n);
    }
    r
}

fn piece(text: String, tone: Tone, bold: bool) -> (p: Piece)
    ensures
        p@ == (PieceView { text: text@, tone, bold }),
{
    Piece { text, tone, bold }
}

/// A piece of one character.
fn glyph(c: char, tone: Tone) -> (p: Piece)
    ensures
        p@ == pc(seq![c], tone),
{
    let mut t = String::new();
    push_char(&mut t, c);
    assert(t@ =~= seq![c]);
    piece(t, tone, false)
}

/// A border piece: `open`, `k` copies of `fill`, then `close`.
fn ruled(open: Option<char>, fill: char, k: usize, close: char) -> (p: Piece)
    ensures
        p@ == pc(
            match open {
                Some(c) => seq![c],
                None => Seq::empty(),
            } + rule(fill, k as nat) + seq![close],
            Tone::Border,
        ),
{
    let mut t = String::new();
    match open {
        Some(c) => push_char(&mut t, c),
        None => {},
    }
    push_rule(&mut t, fill, k);
    push_char(&mut t, close);
    proof {
        let o = match open {
            Some(c) => seq![c],
            None => Seq::<char>::empty(),
        };
        assert(t@ =~= o + rule(fill, k as nat) + seq![close]);
    }
    piece(t, Tone::Border, false)
}

fn sat_sub(a: usize, b: usize) -> (r: usize)
    ensures
        r == sat(a as nat, b as nat),
{
    if a >= b {
        a - b
    } else {
        0
    }
}

/// The width inside the box's two side borders.
pub open spec fn inner_of(w: nat) -> nat {
    sat(w, 2)
}

// ── Box lines ─────────────────────────────────────────────────────────────────

/// The box's top border, with the label and the query as its title.
pub open spec fn top_line(w: nat, label: Seq<char>, query: Seq<char>) -> Seq<PieceView> {
    let dashes = sat(inner_of(w), 4 + utf8_len(label) + query.len());
    seq![
        pc(seq!['╭'], Tone::Border),
        strong(seq![' '] + label, Tone::Title),
        pc(seq!['—', ' '], Tone::Border),
        pc(query, Tone::Value),
        pc(seq![' '], Tone::Border),
        pc(rule('─', dashes) + seq!['╮'], Tone::Border),
    ]
}

/// The box's top border, with the label and the query as its title.
pub fn box_top(w: usize, label: &str, query: &str) -> (r: Vec<Piece>)
    ensures
        line_view(r@) == top_line(w as nat, label@, query@),
{
    let inner = sat_sub(w, 2);
    let q = chars_of(query).len();
    let a = sat_sub(inner, 4);
    let b = sat_sub(a, label.len());
    let dashes = sat_sub(b, q);
    let mut title = String::new();
    push_char(&mut title, ' ');
    title.append(label);
    let mut dash = String::new();
    push_char(&mut dash, '—');
    push_char(&mut dash, ' ');
    let mut r: Vec<Piece> = Vec::new();
    r.push(glyph('╭', Tone::Border));
    r.push(piece(title, Tone::Title, true));
    r.push(piece(dash, Tone::Border, false));
    r.push(piece(String::from_str(query), Tone::Value, false));
    r.push(glyph(' ', Tone::Border));
    r.push(ruled(None, '─', dashes, '╮'));
    assert(r@[1]@.text =~= seq![' '] + label@);
    assert(r@[2]@.text =~= seq!['—', ' ']);
    assert(line_view(r@) =~= top_line(w as nat, label@, query@));
    r
}

/// A section separator with a bold title.
pub open spec fn sep_line(w: nat, title: Seq<char>, tone: Tone) -> Seq<PieceView> {
    seq![
        pc(seq!['├'], Tone::Border),
        strong(title, tone),
        pc(rule('─', sat(inner_of(w), title.len())) + seq!['┤'], Tone::Border),
    ]
}

/// A section separator with a bold title; as wide as the box when the title fits.
pub fn box_sep(w: usize, title: &str, tone: Tone) -> (r: Vec<Piece>)
    ensures
        line_view(r@) == sep_line(w as nat, title@, tone),
        w >= 2 && title@.len() <= w - 2 ==> width(line_view(r@)) == w,
{
    let inner = sat_sub(w, 2);
    let right = sat_sub(inner, chars_of(title).len());
    let mut r: Vec<Piece> = Vec::new();
    r.push(glyph('├', Tone::Border));
    r.push(piece(String::from_str(title), tone, true));
    r.push(ruled(None, '─', right, '┤'));
    assert(line_view(r@) =~= sep_line(w as nat, title@, tone));
    proof {
        reveal_with_fuel(width, 4);
    }
    r
}

/// A key and its value, the value cut or padded to fill the row.
pub open spec fn kv_line(w: nat, key: Seq<char>, value: Seq<char>) -> Seq<PieceView> {
    let prefix = seq![' '] + left_aligned(key, 8) + seq![' '];
    seq![
        pc(seq!['│'], Tone::Border),
        pc(prefix, Tone::Label),
        pc(padded_cols(value, sat(inner_of(w), utf8_len(prefix))), Tone::Value),
        pc(seq!['│'], Tone::Border),
    ]
}

/// A key and its value; as wide as the box for an ASCII key of at most 8 characters when the
/// box is at least 12 columns wide and the value takes one column per character.
pub fn row_kv(w: usize, key: &str, value: &str) -> (r: Vec<Piece>)
    ensures
        line_view(r@) == kv_line(w as nat, key@, value@),
        one_col_each(value@) && vstd::utf8::is_ascii_chars(key@) && key@.len() <= 8 && w >= 12 ==> width(
            line_view(r@),
        ) == w,
{
    let mut prefix = String::new();
    push_char(&mut prefix, ' ');
    let k = left_align(key, 8);
    prefix.append(k.as_str());
    push_char(&mut prefix, ' ');
    let val_len = sat_sub(sat_sub(w, 2), prefix.as_str().len());
    let mut r: Vec<Piece> = Vec::new();
    r.push(glyph('│', Tone::Border));
    r.push(piece(prefix, Tone::Label, false));
    r.push(piece(crate::cli::pad_truncate(value, val_len), Tone::Value, false));
    r.push(glyph('│', Tone::Border));
    assert(r@[1]@.text =~= seq![' '] + left_aligned(key@, 8) + seq![' ']);
    assert(line_view(r@) =~= kv_line(w as nat, key@, value@));
    proof {
        if one_col_each(value@) && vstd::utf8::is_ascii_chars(key@) && key@.len() <= 8 && w >= 12 {
            lemma_kv_width(w as nat, key@, value@);
        }
    }
    r
}

/// A row of text in one tone, cut or padded to fill the row.
pub open spec fn text_line(w: nat, content: Seq<char>, tone: Tone) -> Seq<PieceView> {
    seq![
        pc(seq!['│'], Tone::Border),
        pc(padded_cols(seq![' '] + content, inner_of(w)), tone),
        pc(seq!['│'], Tone::Border),
    ]
}

/// A row of text in one tone; as wide as the box when the text, after its leading space, takes
/// one column per character.
pub fn row_text(w: usize, content: &str, tone: Tone) -> (r: Vec<Piece>)
    ensures
        line_view(r@) == text_line(w as nat, content@, tone),
        one_col_each(seq![' '] + content@) && w >= 2 ==> width(line_view(r@)) == w,
{
    let mut t = String::new();
    push_char(&mut t, ' ');
    t.append(content);
    let mut r: Vec<Piece> = Vec::new();
    r.push(glyph('│', Tone::Border));
    r.push(piece(crate::cli::pad_truncate(t.as_str(), sat_sub(w, 2)), tone, false));
    r.push(glyph('│', Tone::Border));
    assert(line_view(r@) =~= text_line(w as nat, content@, tone));
    proof {
        if one_col_each(seq![' '] + content@) && w >= 2 {
            lemma_text_width(w as nat, content@, tone);
        }
    }
    r
}

/// The line where the human types: the prompt, then the typed text and a cursor.
pub open spec fn input_line(w: nat, prompt: Seq<char>, buf: Seq<char>) -> Seq<PieceView> {
    let prefix = seq![' ', ' ', ' '] + prompt + seq![':', ' '];
    seq![
        pc(seq!['│'], Tone::Border),
        pc(prefix, Tone::Label),
        pc(padded_cols(buf.push('_'), sat(inner_of(w), utf8_len(prefix))), Tone::Value),
        pc(seq!['│'], Tone::Border),
    ]
}

/// The line where the human types; as wide as the box for an ASCII prompt that fits, when the
/// typed text and cursor take one column per character.
pub fn row_input(w: usize, prompt: &str, buf: &str) -> (r: Vec<Piece>)
    ensures
        line_view(r@) == input_line(w as nat, prompt@, buf@),
        one_col_each(buf@.push('_')) && vstd::utf8::is_ascii_chars(prompt@) && prompt@.len() <= 64
            && prompt@.len() + 7 <= w ==> width(
            line_view(r@),
        ) == w,
{
    let mut prefix = String::new();
    push_char(&mut prefix, ' ');
    push_char(&mut prefix, ' ');
    push_char(&mut prefix, ' ');
    prefix.append(prompt);
    push_char(&mut prefix, ':');
    push_char(&mut prefix, ' ');
    let mut input = String::from_str(buf);
    push_char(&mut input, '_');
    let val_len = sat_sub(sat_sub(w, 2), prefix.as_str().len());
    let mut r: Vec<Piece> = Vec::new();
    r.push(glyph('│', Tone::Border));
    r.push(piece(prefix, Tone::Label, false));
    r.push(piece(crate::cli::pad_truncate(input.as_str(), val_len), Tone::Value, false));
    r.push(glyph('│', Tone::Border));
    assert(r@[1]@.text =~= seq![' ', ' ', ' '] + prompt@ + seq![':', ' ']);
    assert(input@ =~= buf@.push('_'));
    assert(line_view(r@) =~= input_line(w as nat, prompt@, buf@));
    proof {
        if one_col_each(buf@.push('_')) && vstd::utf8::is_ascii_chars(prompt@) && prompt@.len() <= 64
            && prompt@.len() + 7 <= w {
            lemma_input_width(w as nat, prompt@, buf@);
        }
    }
    r
}

/// `pieces` between the two side borders, padded with spaces to the inner width.
pub open spec fn framed(inner: nat, pieces: Seq<PieceView>) -> Seq<PieceView> {
    seq![pc(seq!['│'], Tone::Border)] + pieces + seq![
        pc(rule(' ', sat(inner, width(pieces))), Tone::Plain),
        pc(seq!['│'], Tone::Border),
    ]
}

/// `pieces` between the side borders; the row is `inner + 2` wide when the pieces fit.
pub fn box_row(inner: usize, pieces: Vec<Piece>) -> (r: Vec<Piece>)
    ensures
        line_view(r@) == framed(inner as nat, line_view(pieces@)),
        width(line_view(pieces@)) <= inner ==> width(line_view(r@)) == inner + 2,
{
    let ghost pv = line_view(pieces@);
    let mut used: usize = 0;
    let mut over = false;
    let n = pieces.len();
    for i in 0..n
        invariant
            n == pieces@.len(),
            pv == line_view(pieces@),
            !over ==> used == width(pv.take(i as int)),
            over ==> width(pv.take(i as int)) > inner,
            used <= inner,
    {
        assert(pv.take(i + 1).drop_last() == pv.take(i as int));
        let c = chars_of(pieces[i].text.as_str()).len();
        if !over {
            if c > inner - used {
                over = true;
            } else {
                used = used + c;
            }
        } else {
            proof {
                lemma_width_concat(pv.take(i as int), seq![pv[i as int]]);
                assert(pv.take(i + 1) =~= pv.take(i as int) + seq![pv[i as int]]);
            }
        }
    }
    assert(pv.take(n as int) == pv);
    let pad = if over { 0 } else { inner - used };
    let mut r: Vec<Piece> = Vec::new();
    r.push(glyph('│', Tone::Border));
    let mut body = pieces;
    r.append(&mut body);
    let mut sp = String::new();
    push_rule(&mut sp, ' ', pad);
    r.push(piece(sp, Tone::Plain, false));
    r.push(glyph('│', Tone::Border));
    assert(line_view(r@) =~= framed(inner as nat, pv));
    proof {
        if width(pv) <= inner {
            lemma_framed_width(inner as nat, pv);
        }
    }
    r
}

/// An empty row.
pub open spec fn empty_line(w: nat) -> Seq<PieceView> {
    seq![
        pc(seq!['│'], Tone::Border),
        pc(rule(' ', inner_of(w)), Tone::Plain),
        pc(seq!['│'], Tone::Border),
    ]
}

/// An empty row; as wide as the box.
pub fn box_row_empty(w: usize) -> (r: Vec<Piece>)
    ensures
        line_view(r@) == empty_line(w as nat),
        w >= 2 ==> width(line_view(r@)) == w,
{
    let mut sp = String::new();
    push_rule(&mut sp, ' ', sat_sub(w, 2));
    let mut r: Vec<Piece> = Vec::new();
    r.push(glyph('│', Tone::Border));
    r.push(piece(sp, Tone::Plain, false));
    r.push(glyph('│', Tone::Border));
    assert(line_view(r@) =~= empty_line(w as nat));
    proof {
        reveal_with_fuel(width, 4);
    }
    r
}

/// The box's bottom border.
pub open spec fn bottom_line(w: nat) -> Seq<PieceView> {
    seq![pc(seq!['╰'] + rule('─', inner_of(w)) + seq!['╯'], Tone::Border)]
}

/// The box's bottom border; as wide as the box.
pub fn box_bottom(w: usize) -> (r: Vec<Piece>)
    ensures
        line_view(r@) == bottom_line(w as nat),
        w >= 2 ==> width(line_view(r@)) == w,
{
    let mut r: Vec<Piece> = Vec::new();
    r.push(ruled(Some('╰'), '─', sat_sub(w, 2), '╯'));
    assert(line_view(r@) =~= bottom_line(w as nat));
    proof {
        reveal_with_fuel(width, 2);
    }
    r
}

/// The box's bottom border with a message in it.
pub open spec fn bottom_msg_line(w: nat, msg: Seq<char>) -> Seq<PieceView> {
    seq![
        pc(seq!['╰'], Tone::Border),
        pc(msg, Tone::Footer),
        pc(rule('─', sat(inner_of(w), msg.len())) + seq!['╯'], Tone::Border),
    ]
}

/// The box's bottom border with a message; as wide as the box when the message fits.
pub fn box_bottom_msg(w: usize, msg: &str) -> (r: Vec<Piece>)
    ensures
        line_view(r@) == bottom_msg_line(w as nat, msg@),
        w >= 2 && msg@.len() <= w - 2 ==> width(line_view(r@)) == w,
{
    let right = sat_sub(sat_sub(w, 2), chars_of(msg).len());
    let mut r: Vec<Piece> = Vec::new();
    r.push(glyph('╰', Tone::Border));
    r.push(piece(String::from_str(msg), Tone::Footer, false));
    r.push(ruled(None, '─', right, '╯'));
    assert(line_view(r@) =~= bottom_msg_line(w as nat, msg@));
    proof {
        reveal_with_fuel(width, 4);
    }
    r
}

// ── Gap states ────────────────────────────────────────────────────────────────

/// The tone a gap state is shown in.
pub open spec fn state_tone(s: GapState) -> Tone {
    match s {
        GapState::Blocked => Tone::Blocked,
        GapState::Ready => Tone::Ready,
        GapState::Assigned => Tone::Running,
        GapState::Closed => Tone::Done,
    }
}

/// The tone a gap state is shown in.
pub fn gap_state_tone(s: &GapState) -> (t: Tone)
    ensures
        t == state_tone(*s),
{
    match s {
        GapState::Blocked => Tone::Blocked,
        GapState::Ready => Tone::Ready,
        GapState::Assigned => Tone::Running,
        GapState::Closed => Tone::Done,
    }
}

/// A count and what it counts.
pub open spec fn count_part(n: nat, label: Seq<char>, tone: Tone) -> Seq<PieceView> {
    seq![strong(decimal(n), tone), pc(seq![' '] + label, Tone::Label)]
}

/// The summary of gap states: blocked, ready, running and done counts.
pub open spec fn states_content(c: (nat, nat, nat, nat)) -> Seq<PieceView> {
    let bar = seq![pc(seq![' ', '│', ' '], Tone::Border)];
    seq![pc(" states   "@, Tone::Label)] + count_part(c.0, "blocked"@, Tone::Blocked) + bar
        + count_part(c.1, "ready"@, Tone::Ready) + bar + count_part(c.2, "running"@, Tone::Running)
        + bar + count_part(c.3, "done"@, Tone::Done)
}

fn push_count(v: &mut Vec<Piece>, n: usize, label: &str, tone: Tone)
    ensures
        line_view(final(v)@) == line_view(old(v)@) + count_part(n as nat, label@, tone),
{
    let mut num = String::new();
    push_decimal(&mut num, n as u64);
    let mut t = String::new();
    push_char(&mut t, ' ');
    t.append(label);
    let ghost before = v@;
    v.push(piece(num, tone, true));
    v.push(piece(t, Tone::Label, false));
    assert(v@[before.len() + 1int]@.text =~= seq![' '] + label@);
    assert(line_view(v@) =~= line_view(before) + count_part(n as nat, label@, tone));
}

fn push_bar(v: &mut Vec<Piece>)
    ensures
        line_view(final(v)@) == line_view(old(v)@) + seq![pc(seq![' ', '│', ' '], Tone::Border)],
{
    let mut t = String::new();
    push_char(&mut t, ' ');
    push_char(&mut t, '│');
    push_char(&mut t, ' ');
    let ghost before = v@;
    v.push(piece(t, Tone::Border, false));
    assert(v@[before.len() as int]@.text =~= seq![' ', '│', ' ']);
    assert(line_view(v@) =~= line_view(before) + seq![pc(seq![' ', '│', ' '], Tone::Border)]);
}

/// The row of gap-state counts.
pub fn row_states(w: usize, counts: (usize, usize, usize, usize)) -> (r: Vec<Piece>)
    ensures
        line_view(r@) == framed(
            inner_of(w as nat),
            states_content((counts.0 as nat, counts.1 as nat, counts.2 as nat, counts.3 as nat)),
        ),
        width(states_content((counts.0 as nat, counts.1 as nat, counts.2 as nat, counts.3 as nat)))
            <= inner_of(w as nat) ==> width(line_view(r@)) == w,
{
    let mut v: Vec<Piece> = Vec::new();
    v.push(piece(String::from_str(" states   "), Tone::Label, false));
    assert(line_view(v@) =~= seq![pc(" states   "@, Tone::Label)]);
    push_count(&mut v, counts.0, "blocked", Tone::Blocked);
    push_bar(&mut v);
    push_count(&mut v, counts.1, "ready", Tone::Ready);
    push_bar(&mut v);
    push_count(&mut v, counts.2, "running", Tone::Running);
    push_bar(&mut v);
    push_count(&mut v, counts.3, "done", Tone::Done);
    box_row(sat_sub(w, 2), v)
}

// ── Gap cards ─────────────────────────────────────────────────────────────────

/// How one solver is getting on, as last reported.
pub struct ProgressEntry {
    pub iteration: u32,
    pub max_iterations: u32,
    pub step: String,
    pub last_result: Option<String>,
}

/// The gap names the progress entries are kept under, in order.
pub open spec fn progress_keys(ps: Seq<(String, ProgressEntry)>) -> Seq<Seq<char>> {
    ps.map_values(|p: (String, ProgressEntry)| p.0@)
}

/// The progress recorded for the gap named `name` (the first entry of that name).
pub open spec fn progress_of(ps: Seq<(String, ProgressEntry)>, name: Seq<char>) -> Option<ProgressEntry>
    decreases ps.len(),
{
    if ps.len() == 0 {
        None
    } else if ps[0].0@ == name {
        Some(ps[0].1)
    } else {
        progress_of(ps.drop_first(), name)
    }
}

/// The progress recorded for the gap named `name`.
pub fn find_progress<'a>(ps: &'a Vec<(String, ProgressEntry)>, name: &str) -> (r: Option<
    &'a ProgressEntry,
>)
    ensures
        match r {
            Some(p) => progress_of(ps@, name@) == Some(*p),
            None => progress_of(ps@, name@) is None,
        },
{
    let n = ps.len();
    assert(ps@.skip(0) =~= ps@);
    for i in 0..n
        invariant
            n == ps@.len(),
            progress_of(ps@, name@) == progress_of(ps@.skip(i as int), name@),
    {
        assert(ps@.skip(i as int)[0] == ps@[i as int]);
        if ps[i].0.eq(&String::from_str(name)) {
            return Some(&ps[i].1);
        }
        assert(ps@.skip(i as int).drop_first() =~= ps@.skip(i + 1));
    }
    None
}

/// A card's title: the gap name, cut to fit, with a space on each side.
pub open spec fn card_title(name: Seq<char>) -> Seq<char> {
    let max = (CARD_INNER - 2) as nat;
    seq![' '] + (if name.len() <= max {
        name
    } else {
        name.take(max as int)
    }) + seq![' ']
}

pub open spec fn shown_state(st: Option<GapState>) -> Seq<char> {
    match st {
        Some(s) => state_label(s),
        None => seq!['-'],
    }
}

pub open spec fn shown_tone(st: Option<GapState>) -> Tone {
    match st {
        Some(s) => state_tone(s),
        None => Tone::Label,
    }
}

pub open spec fn iter_text(p: Option<ProgressEntry>) -> Seq<char> {
    match p {
        Some(e) => decimal(e.iteration as nat) + seq!['/'] + decimal(e.max_iterations as nat),
        None => seq!['-'],
    }
}

pub open spec fn step_text(p: Option<ProgressEntry>) -> Seq<char> {
    match p {
        Some(e) => e.step@,
        None => seq!['-'],
    }
}

pub open spec fn last_text(p: Option<ProgressEntry>) -> Seq<char> {
    match p {
        Some(e) => match e.last_result {
            Some(t) => t@,
            None => seq!['-'],
        },
        None => seq!['-'],
    }
}

/// One labelled field line of a card.
pub open spec fn field_row(spacer: Seq<char>, label: Seq<char>, value: Seq<char>, tone: Tone) -> Seq<
    PieceView,
> {
    seq![
        pc(spacer, Tone::Plain),
        pc(seq!['│'], Tone::Border),
        pc(seq![' '] + left_aligned(label, 6) + seq![' ', ' '], Tone::Label),
        pc(padded_cols(value, (CARD_INNER - 9) as nat), tone),
        pc(seq!['│'], Tone::Border),
    ]
}

/// Row `r` (0 to 5) of the card of gap `name`, after `spacer`: the titled top border, the
/// status, iteration, step and last-output fields, and the bottom border.
pub open spec fn card_row(
    r: int,
    spacer: Seq<char>,
    name: Seq<char>,
    st: Option<GapState>,
    p: Option<ProgressEntry>,
) -> Seq<PieceView> {
    if r == 0 {
        seq![
            pc(spacer, Tone::Plain),
            pc(seq!['╭'], Tone::Border),
            strong(card_title(name), shown_tone(st)),
            pc(rule('─', sat(CARD_INNER as nat, card_title(name).len())) + seq!['╮'], Tone::Border),
        ]
    } else if r == 1 {
        field_row(spacer, "status"@, shown_state(st), shown_tone(st))
    } else if r == 2 {
        field_row(spacer, "iter"@, iter_text(p), Tone::Value)
    } else if r == 3 {
        field_row(spacer, "step"@, step_text(p), Tone::Value)
    } else if r == 4 {
        field_row(spacer, "last"@, last_text(p), Tone::Label)
    } else {
        seq![
            pc(spacer, Tone::Plain),
            pc(seq!['╰'] + rule('─', CARD_INNER as nat) + seq!['╯'], Tone::Border),
        ]
    }
}

/// What goes before card `i`: the centring pad before the first, one space between cards.
pub open spec fn card_spacer(i: int, left_pad: nat) -> Seq<char> {
    if i == 0 {
        rule(' ', left_pad)
    } else {
        seq![' ']
    }
}

/// Row `r` of a row of cards, before the side borders.
pub open spec fn chunk_row(
    r: int,
    names: Seq<Seq<char>>,
    gaps: Seq<(u128, Gap)>,
    ps: Seq<(String, ProgressEntry)>,
    left_pad: nat,
) -> Seq<PieceView>
    decreases names.len(),
{
    if names.len() == 0 {
        Seq::empty()
    } else {
        let k = names.len() - 1;
        chunk_row(r, names.drop_last(), gaps, ps, left_pad) + card_row(
            r,
            card_spacer(k, left_pad),
            names[k],
            first_state(gaps, names[k]),
            progress_of(ps, names[k]),
        )
    }
}

/// The centring pad of a row of `n` cards.
pub open spec fn chunk_pad(n: nat, inner: nat) -> nat {
    sat(inner, n * (CARD_TOTAL as nat) + sat(n, 1)) / 2
}

/// The six lines of a row of cards for the gaps `names`.
pub open spec fn chunk_lines(
    names: Seq<Seq<char>>,
    gaps: Seq<(u128, Gap)>,
    ps: Seq<(String, ProgressEntry)>,
    inner: nat,
) -> Seq<Seq<PieceView>> {
    Seq::new(
        6,
        |r: int| framed(inner, chunk_row(r, names, gaps, ps, chunk_pad(names.len(), inner))),
    )
}

/// The gaps of an optional snapshot.
pub open spec fn snapshot_gaps(snap: Option<BlackboardSnapshot>) -> Seq<(u128, Gap)> {
    match snap {
        Some(s) => s.gaps@,
        None => Seq::empty(),
    }
}

/// The free-text fields of a card, its step and last output, take one column per character.
pub open spec fn card_texts_one_col(p: Option<ProgressEntry>) -> bool {
    one_col_each(step_text(p)) && one_col_each(last_text(p))
}

/// Every recorded progress entry's free-text fields take one column per character.
pub open spec fn progress_one_col(ps: Seq<(String, ProgressEntry)>) -> bool {
    forall|i: int| 0 <= i < ps.len() ==> card_texts_one_col(Some(#[trigger] ps[i].1))
}

proof fn lemma_iter_text_printable(p: Option<ProgressEntry>)
    ensures
        printable_ascii(iter_text(p)),
{
    if let Some(e) = p {
        lemma_decimal_printable(e.iteration as nat);
        lemma_decimal_printable(e.max_iterations as nat);
        lemma_printable_concat(decimal(e.iteration as nat), seq!['/']);
        lemma_printable_concat(decimal(e.iteration as nat) + seq!['/'], decimal(e.max_iterations as nat));
    } else {
        assert(printable_ascii(seq!['-']));
    }
}

proof fn lemma_shown_state_printable(st: Option<GapState>)
    ensures
        printable_ascii(shown_state(st)),
{
    reveal_strlit("blocked");
    reveal_strlit("ready");
    reveal_strlit("running");
    reveal_strlit("done");
    assert(printable_ascii(seq!['-']));
}

proof fn lemma_progress_one_col(ps: Seq<(String, ProgressEntry)>, name: Seq<char>)
    requires
        progress_one_col(ps),
    ensures
        card_texts_one_col(progress_of(ps, name)),
    decreases ps.len(),
{
    if ps.len() == 0 {
        assert(printable_ascii(seq!['-']));
    } else if ps[0].0@ != name {
        assert forall|i: int| 0 <= i < ps.drop_first().len() implies card_texts_one_col(
            Some(#[trigger] ps.drop_first()[i].1),
        ) by {
            assert(ps.drop_first()[i] == ps[i + 1]);
        }
        lemma_progress_one_col(ps.drop_first(), name);
    } else {
        assert(card_texts_one_col(Some(ps[0].1)));
    }
}

/// Every card row is 27 columns wide after its spacer.
pub proof fn lemma_card_row_width(
    r: int,
    spacer: Seq<char>,
    name: Seq<char>,
    st: Option<GapState>,
    p: Option<ProgressEntry>,
)
    requires
        card_texts_one_col(p),
        0 <= r < 6,
    ensures
        width(card_row(r, spacer, name, st, p)) == spacer.len() + CARD_TOTAL,
{
    reveal_with_fuel(width, 6);
    reveal_strlit("status");
    reveal_strlit("iter");
    reveal_strlit("step");
    reveal_strlit("last");
    lemma_iter_text_printable(p);
    lemma_shown_state_printable(st);
    lemma_padded_cols_one_col(iter_text(p), (CARD_INNER - 9) as nat);
    lemma_padded_cols_one_col(step_text(p), (CARD_INNER - 9) as nat);
    lemma_padded_cols_one_col(last_text(p), (CARD_INNER - 9) as nat);
    lemma_padded_cols_one_col(shown_state(st), (CARD_INNER - 9) as nat);
    crate::cli::law_padded_width(iter_text(p), (CARD_INNER - 9) as nat);
    crate::cli::law_padded_width(step_text(p), (CARD_INNER - 9) as nat);
    crate::cli::law_padded_width(last_text(p), (CARD_INNER - 9) as nat);
    crate::cli::law_padded_width(shown_state(st), (CARD_INNER - 9) as nat);
}

/// A row of `n >= 1` cards is `28 * n - 1` columns wide after its centring pad.
pub proof fn lemma_chunk_row_width(
    r: int,
    names: Seq<Seq<char>>,
    gaps: Seq<(u128, Gap)>,
    ps: Seq<(String, ProgressEntry)>,
    left_pad: nat,
)
    requires
        progress_one_col(ps),
        0 <= r < 6,
        names.len() >= 1,
    ensures
        width(chunk_row(r, names, gaps, ps, left_pad)) == left_pad + (CARD_TOTAL + 1) * names.len()
            - 1,
    decreases names.len(),
{
    let k = names.len() - 1;
    let prev = chunk_row(r, names.drop_last(), gaps, ps, left_pad);
    let card = card_row(
        r,
        card_spacer(k, left_pad),
        names[k],
        first_state(gaps, names[k]),
        progress_of(ps, names[k]),
    );
    lemma_width_concat(prev, card);
    lemma_progress_one_col(ps, names[k]);
    lemma_card_row_width(r, card_spacer(k, left_pad), names[k], first_state(gaps, names[k]), progress_of(ps, names[k]));
    if names.len() > 1 {
        lemma_chunk_row_width(r, names.drop_last(), gaps, ps, left_pad);
    }
}

fn card_top(spacer: &String, name: &str, st: Option<GapState>) -> (r: Vec<Piece>)
    ensures
        line_view(r@) == card_row(0, spacer@, name@, st, None),
{
    let v = chars_of(name);
    let max: usize = CARD_INNER - 2;
    let m = if v.len() <= max {
        v.len()
    } else {
        max
    };
    let mut title = String::new();
    push_char(&mut title, ' ');
    let cut = string_of(&sub_vec(&v, 0, m));
    title.append(cut.as_str());
    push_char(&mut title, ' ');
    proof {
        if name@.len() <= max {
            assert(v@.subrange(0, m as int) =~= name@);
        } else {
            assert(v@.subrange(0, m as int) =~= name@.take(max as int));
        }
        assert(title@ =~= card_title(name@));
    }
    let tone = match st {
        Some(s) => gap_state_tone(&s),
        None => Tone::Label,
    };
    let dashes = sat_sub(CARD_INNER, m + 2);
    let mut r: Vec<Piece> = Vec::new();
    r.push(piece(spacer.clone(), Tone::Plain, false));
    r.push(glyph('╭', Tone::Border));
    r.push(piece(title, tone, true));
    r.push(ruled(None, '─', dashes, '╮'));
    assert(line_view(r@) =~= card_row(0, spacer@, name@, st, None));
    r
}

fn card_field(spacer: &String, label: &str, value: &str, tone: Tone) -> (r: Vec<Piece>)
    ensures
        line_view(r@) == field_row(spacer@, label@, value@, tone),
{
    let mut l = String::new();
    push_char(&mut l, ' ');
    let a = left_align(label, 6);
    l.append(a.as_str());
    push_char(&mut l, ' ');
    push_char(&mut l, ' ');
    let mut r: Vec<Piece> = Vec::new();
    r.push(piece(spacer.clone(), Tone::Plain, false));
    r.push(glyph('│', Tone::Border));
    r.push(piece(l, Tone::Label, false));
    r.push(piece(pad_truncate(value, CARD_INNER - 9), tone, false));
    r.push(glyph('│', Tone::Border));
    assert(r@[2]@.text =~= seq![' '] + left_aligned(label@, 6) + seq![' ', ' ']);
    assert(line_view(r@) =~= field_row(spacer@, label@, value@, tone));
    r
}

fn card_bottom(spacer: &String) -> (r: Vec<Piece>)
    ensures
        line_view(r@) == seq![
            pc(spacer@, Tone::Plain),
            pc(seq!['╰'] + rule('─', CARD_INNER as nat) + seq!['╯'], Tone::Border),
        ],
{
    let mut r: Vec<Piece> = Vec::new();
    r.push(piece(spacer.clone(), Tone::Plain, false));
    r.push(ruled(Some('╰'), '─', CARD_INNER, '╯'));
    assert(line_view(r@) =~= seq![
        pc(spacer@, Tone::Plain),
        pc(seq!['╰'] + rule('─', CARD_INNER as nat) + seq!['╯'], Tone::Border),
    ]);
    r
}

fn iter_string(p: Option<&ProgressEntry>) -> (r: String)
    ensures
        r@ == iter_text(match p {
            Some(e) => Some(*e),
            None => None,
        }),
{
    let mut t = String::new();
    match p {
        Some(e) => {
            push_decimal(&mut t, e.iteration as u64);
            push_char(&mut t, '/');
            push_decimal(&mut t, e.max_iterations as u64);
            assert(t@ =~= decimal(e.iteration as nat) + seq!['/'] + decimal(e.max_iterations as nat));
        },
        None => {
            push_char(&mut t, '-');
            assert(t@ =~= seq!['-']);
        },
    }
    t
}

fn dash() -> (r: String)
    ensures
        r@ == seq!['-'],
{
    let mut t = String::new();
    push_char(&mut t, '-');
    assert(t@ =~= seq!['-']);
    t
}

/// Appends `more` to `row`.
fn extend(row: &mut Vec<Piece>, more: Vec<Piece>)
    ensures
        line_view(final(row)@) == line_view(old(row)@) + line_view(more@),
{
    let ghost before = row@;
    let mut m = more;
    let ghost mv = m@;
    row.append(&mut m);
    proof {
        lemma_line_view_concat(before, mv);
    }
}

pub open spec fn opt_entry(p: Option<&ProgressEntry>) -> Option<ProgressEntry> {
    match p {
        Some(e) => Some(*e),
        None => None,
    }
}

/// The six lines of the row of cards for the gaps `order[from..to]`, centred in the inner
/// width; each line is exactly as wide as the box when the cards fit and the recorded steps and
/// outputs take one column per character.
pub fn card_chunk_lines(
    order: &Vec<String>,
    from: usize,
    to: usize,
    snap: &Option<BlackboardSnapshot>,
    progress: &Vec<(String, ProgressEntry)>,
    inner: usize,
) -> (r: Vec<Vec<Piece>>)
    requires
        from <= to <= order@.len(),
        (to - from) * (CARD_TOTAL + 1) <= usize::MAX,
    ensures
        lines_view(r@) == chunk_lines(
            texts(order@).subrange(from as int, to as int),
            snapshot_gaps(*snap),
            progress@,
            inner as nat,
        ),
        progress_one_col(progress@) && to > from && (to - from) * (CARD_TOTAL + 1) <= inner + 1 ==> forall|k: int|
            0 <= k < 6 ==> width(#[trigger] lines_view(r@)[k]) == inner + 2,
{
    let n = to - from;
    assert(n * CARD_TOTAL + n == n * (CARD_TOTAL + 1)) by (nonlinear_arith);
    let left_pad = cards_left_pad(n, inner);
    let ghost names = texts(order@).subrange(from as int, to as int);
    let ghost gaps = snapshot_gaps(*snap);
    let ghost ps = progress@;
    let ghost lp = left_pad as nat;
    let mut r0: Vec<Piece> = Vec::new();
    let mut r1: Vec<Piece> = Vec::new();
    let mut r2: Vec<Piece> = Vec::new();
    let mut r3: Vec<Piece> = Vec::new();
    let mut r4: Vec<Piece> = Vec::new();
    let mut r5: Vec<Piece> = Vec::new();
    assert(names.take(0) =~= Seq::<Seq<char>>::empty());
    let mut i = from;
    while i < to
        invariant
            from <= i <= to <= order@.len(),
            names == texts(order@).subrange(from as int, to as int),
            gaps == snapshot_gaps(*snap),
            ps == progress@,
            lp == left_pad,
            line_view(r0@) == chunk_row(0, names.take(i - from), gaps, ps, lp),
            line_view(r1@) == chunk_row(1, names.take(i - from), gaps, ps, lp),
            line_view(r2@) == chunk_row(2, names.take(i - from), gaps, ps, lp),
            line_view(r3@) == chunk_row(3, names.take(i - from), gaps, ps, lp),
            line_view(r4@) == chunk_row(4, names.take(i - from), gaps, ps, lp),
            line_view(r5@) == chunk_row(5, names.take(i - from), gaps, ps, lp),
        decreases to - i,
    {
        let name = order[i].as_str();
        let j: usize = i - from;
        let ghost nm = names[j as int];
        assert(nm == name@);
        let st = match snap {
            Some(s) => s.gap_state(name),
            None => None,
        };
        assert(st == first_state(gaps, nm));
        let p = find_progress(progress, name);
        assert(opt_entry(p) == progress_of(ps, nm));
        let mut spacer = String::new();
        if j == 0 {
            push_rule(&mut spacer, ' ', left_pad);
        } else {
            push_char(&mut spacer, ' ');
            assert(spacer@ =~= seq![' ']);
        }
        assert(spacer@ == card_spacer(j as int, lp));
        let label = match st {
            Some(s) => gap_state_label(&s),
            None => "-",
        };
        let tone = match st {
            Some(s) => gap_state_tone(&s),
            None => Tone::Label,
        };
        let status = match st {
            Some(s) => String::from_str(label),
            None => dash(),
        };
        assert(status@ == shown_state(st));
        let it = iter_string(p);
        let step = match p {
            Some(e) => e.step.clone(),
            None => dash(),
        };
        assert(step@ == step_text(opt_entry(p)));
        let last = match p {
            Some(e) => match &e.last_result {
                Some(t) => t.clone(),
                None => dash(),
            },
            None => dash(),
        };
        assert(last@ == last_text(opt_entry(p)));
        proof {
            let t = names.take(j + 1);
            assert(t.drop_last() =~= names.take(j as int));
            assert(t[j as int] == nm);
        }
        extend(&mut r0, card_top(&spacer, name, st));
        extend(&mut r1, card_field(&spacer, "status", status.as_str(), tone));
        extend(&mut r2, card_field(&spacer, "iter", it.as_str(), Tone::Value));
        extend(&mut r3, card_field(&spacer, "step", step.as_str(), Tone::Value));
        extend(&mut r4, card_field(&spacer, "last", last.as_str(), Tone::Label));
        extend(&mut r5, card_bottom(&spacer));
        i = i + 1;
    }
    assert(names.take(n as int) =~= names);
    assert(left_pad == chunk_pad(n as nat, inner as nat));
    let mut r: Vec<Vec<Piece>> = Vec::new();
    r.push(box_row(inner, r0));
    r.push(box_row(inner, r1));
    r.push(box_row(inner, r2));
    r.push(box_row(inner, r3));
    r.push(box_row(inner, r4));
    r.push(box_row(inner, r5));
    assert(lines_view(r@) =~= chunk_lines(names, gaps, ps, inner as nat));
    proof {
        if progress_one_col(ps) && n > 0 && n * (CARD_TOTAL + 1) <= inner + 1 {
            assert((CARD_TOTAL + 1) * n == n * (CARD_TOTAL + 1)) by (nonlinear_arith);
            assert(lp + (CARD_TOTAL + 1) * n - 1 <= inner);
            assert forall|k: int| 0 <= k < 6 implies width(#[trigger] lines_view(r@)[k]) == inner + 2 by {
                lemma_chunk_row_width(k, names, gaps, ps, lp);
                assert(lines_view(r@)[k] == line_view(r@[k]@));
            }
        }
    }
    r
}

// ── The view's state ──────────────────────────────────────────────────────────

/// What the human is being asked, and by which gap: the reason for an approval, or a question.
pub struct Asking {
    pub kind: AttentionKind,
    pub gap_name: String,
    pub text: String,
}

/// Everything the live view shows while one query runs.
pub struct UiState {
    pub query: String,
    pub snapshot: Option<BlackboardSnapshot>,
    /// Gap names in the order they first appeared.
    pub gap_order: Vec<String>,
    /// The latest progress of each gap, by gap name.
    pub progress: Vec<(String, ProgressEntry)>,
    pub evidence_count: usize,
    /// The pending requests, in arrival order.
    pub asking: Vec<Asking>,
    /// The index of the request the human is looking at.
    pub selected: usize,
    pub input_buf: String,
}

proof fn lemma_progress_replace(
    ps: Seq<(String, ProgressEntry)>,
    i: int,
    x: (String, ProgressEntry),
    n: Seq<char>,
)
    requires
        0 <= i < ps.len(),
        ps[i].0@ == x.0@,
        forall|j: int| 0 <= j < i ==> (#[trigger] ps[j]).0@ != x.0@,
    ensures
        progress_of(ps.update(i, x), n) == if n == x.0@ {
            Some(x.1)
        } else {
            progress_of(ps, n)
        },
    decreases i,
{
    if i > 0 {
        assert(ps.update(i, x).drop_first() =~= ps.drop_first().update(i - 1, x));
        assert forall|j: int| 0 <= j < i - 1 implies (#[trigger] ps.drop_first()[j]).0@ != x.0@ by {
            assert(ps.drop_first()[j] == ps[j + 1]);
        }
        lemma_progress_replace(ps.drop_first(), i - 1, x, n);
        assert(ps[0].0@ != x.0@);
        assert(ps.update(i, x)[0] == ps[0]);
    } else {
        assert(ps.update(i, x).drop_first() =~= ps.drop_first());
    }
}

proof fn lemma_progress_append(ps: Seq<(String, ProgressEntry)>, x: (String, ProgressEntry), n: Seq<char>)
    requires
        forall|j: int| 0 <= j < ps.len() ==> (#[trigger] ps[j]).0@ != x.0@,
    ensures
        progress_of(ps.push(x), n) == if n == x.0@ {
            Some(x.1)
        } else {
            progress_of(ps, n)
        },
    decreases ps.len(),
{
    if ps.len() > 0 {
        assert(ps.push(x).drop_first() =~= ps.drop_first().push(x));
        assert forall|j: int| 0 <= j < ps.drop_first().len() implies (#[trigger] ps.drop_first()[j]).0@ != x.0@ by {
            assert(ps.drop_first()[j] == ps[j + 1]);
        }
        lemma_progress_append(ps.drop_first(), x, n);
    } else {
        assert(ps.push(x).drop_first() =~= ps);
    }
}

impl UiState {
    /// The view at the start of query `query`: nothing known yet.
    pub fn new(query: String) -> (s: UiState)
        ensures
            s.query@ == query@,
            s.snapshot is None,
            s.gap_order@.len() == 0,
            s.progress@.len() == 0,
            s.evidence_count == 0,
            s.asking@.len() == 0,
            s.selected == 0,
            s.input_buf@.len() == 0,
    {
        UiState {
            query,
            snapshot: None,
            gap_order: Vec::new(),
            progress: Vec::new(),
            evidence_count: 0,
            asking: Vec::new(),
            selected: 0,
            input_buf: String::new(),
        }
    }

    /// Takes in a new board snapshot: lists its new gap names after the known ones and counts
    /// its evidence.
    pub fn apply_snapshot(&mut self, snap: BlackboardSnapshot)
        requires
            evidence_total(snap.evidences@) <= usize::MAX,
        ensures
            texts(final(self).gap_order@) == merged_order(
                texts(old(self).gap_order@),
                snapshot_names(snap),
            ),
            final(self).evidence_count == evidence_total(snap.evidences@),
            final(self).snapshot == Some(snap),
            final(self).query == old(self).query,
            final(self).progress == old(self).progress,
            final(self).asking == old(self).asking,
            final(self).selected == old(self).selected,
            final(self).input_buf == old(self).input_buf,
    {
        merge_gap_order(&mut self.gap_order, &snap);
        self.evidence_count = snap.evidence_count();
        self.snapshot = Some(snap);
    }

    /// Records the latest progress of gap `name`, replacing what was recorded for it.
    pub fn record_progress(&mut self, name: String, entry: ProgressEntry)
        ensures
            forall|n: Seq<char>|
                #[trigger] progress_of(final(self).progress@, n) == if n == name@ {
                    Some(entry)
                } else {
                    progress_of(old(self).progress@, n)
                },
            progress_keys(old(self).progress@).no_duplicates() ==> progress_keys(
                final(self).progress@,
            ).no_duplicates(),
            final(self).query == old(self).query,
            final(self).snapshot == old(self).snapshot,
            final(self).gap_order == old(self).gap_order,
            final(self).evidence_count == old(self).evidence_count,
            final(self).asking == old(self).asking,
            final(self).selected == old(self).selected,
            final(self).input_buf == old(self).input_buf,
    {
        let ghost ps = self.progress@;
        let n = self.progress.len();
        let mut found: Option<usize> = None;
        for i in 0..n
            invariant
                n == self.progress@.len(),
                ps == self.progress@,
                found is None ==> forall|j: int| 0 <= j < i ==> (#[trigger] ps[j]).0@ != name@,
                found matches Some(k) ==> k < n && ps[k as int].0@ == name@ && forall|j: int|
                    0 <= j < k ==> (#[trigger] ps[j]).0@ != name@,
        {
            if found.is_none() && self.progress[i].0.eq(&name) {
                found = Some(i);
            }
        }
        let ghost x = (name, entry);
        match found {
            Some(k) => {
                self.progress.set(k, (name, entry));
                proof {
                    assert(progress_keys(self.progress@) =~= progress_keys(ps));
                    assert forall|m: Seq<char>|
                        #[trigger] progress_of(self.progress@, m) == if m == x.0@ {
                            Some(x.1)
                        } else {
                            progress_of(ps, m)
                        } by {
                        lemma_progress_replace(ps, k as int, x, m);
                    }
                }
            },
            None => {
                self.progress.push((name, entry));
                proof {
                    assert(progress_keys(self.progress@) =~= progress_keys(ps).push(x.0@));
                    assert forall|j: int| 0 <= j < progress_keys(ps).len() implies progress_keys(ps)[j]
                        != x.0@ by {
                        assert(progress_keys(ps)[j] == ps[j].0@);
                    }
                    assert forall|m: Seq<char>|
                        #[trigger] progress_of(self.progress@, m) == if m == x.0@ {
                            Some(x.1)
                        } else {
                            progress_of(ps, m)
                        } by {
                        lemma_progress_append(ps, x, m);
                    }
                }
            },
        }
    }

    /// A gap asks the human something: the request joins the end of the queue of pending
    /// requests; the selection stays, and the input line starts empty when it is the only one.
    pub fn ask(&mut self, kind: AttentionKind, gap_name: String, text: String)
        ensures
            final(self).asking@.len() == old(self).asking@.len() + 1,
            final(self).asking@.drop_last() == old(self).asking@,
            final(self).asking@.last().kind == kind,
            final(self).asking@.last().gap_name@ == gap_name@,
            final(self).asking@.last().text@ == text@,
            final(self).selected == old(self).selected,
            old(self).asking@.len() == 0 ==> final(self).input_buf@.len() == 0,
            old(self).asking@.len() > 0 ==> final(self).input_buf == old(self).input_buf,
            final(self).query == old(self).query,
            final(self).snapshot == old(self).snapshot,
            final(self).gap_order == old(self).gap_order,
            final(self).progress == old(self).progress,
            final(self).evidence_count == old(self).evidence_count,
    {
        if self.asking.len() == 0 {
            self.input_buf = String::new();
        }
        self.asking.push(Asking { kind, gap_name, text });
    }

    /// A key press while the view runs, with requests pending: Up and Down move the selection
    /// within the queue, editing keys change the typed text, and Enter answers the selected
    /// request, which leaves the queue; the reply comes back with that request's position.
    /// Nothing happens while no request is pending.
    pub fn press(&mut self, key: Key) -> (r: Option<(usize, Reply)>)
        ensures
            old(self).asking@.len() == 0 ==> r is None && final(self).input_buf == old(self).input_buf
                && final(self).asking == old(self).asking && final(self).selected == old(self).selected,
            old(self).asking@.len() > 0 ==> {
                let i = current(*old(self));
                let a = old(self).asking@[i];
                let n = old(self).asking@.len();
                match key {
                    Key::Up => r is None && final(self).asking == old(self).asking
                        && final(self).input_buf == old(self).input_buf
                        && final(self).selected == (if i > 0 { i - 1 } else { i }),
                    Key::Down => r is None && final(self).asking == old(self).asking
                        && final(self).input_buf == old(self).input_buf
                        && final(self).selected == (if i + 1 < n { i + 1 } else { i }),
                    Key::Backspace => r is None && final(self).asking == old(self).asking
                        && final(self).selected == i && final(self).input_buf@ == (if old(self).input_buf@.len() > 0 {
                        old(self).input_buf@.drop_last()
                    } else {
                        old(self).input_buf@
                    }),
                    Key::Char(c) => r is None && final(self).asking == old(self).asking
                        && final(self).selected == i && final(self).input_buf@ == old(self).input_buf@.push(c),
                    Key::Enter => final(self).asking@ == old(self).asking@.remove(i)
                        && final(self).input_buf@.len() == 0
                        && final(self).selected == (if i < n - 1 { i } else if n > 1 { n - 2 } else { 0 })
                        && match a.kind {
                        AttentionKind::Approval => r matches Some((k, Reply::Approval(b))) && k == i
                            && b == approves(old(self).input_buf@),
                        AttentionKind::Question => r matches Some((k, Reply::Answer(t))) && k == i
                            && t@ == trim(old(self).input_buf@),
                    },
                    Key::Other => r is None && final(self).asking == old(self).asking
                        && final(self).selected == i && final(self).input_buf@ == old(self).input_buf@,
                }
            },
            final(self).query == old(self).query,
            final(self).snapshot == old(self).snapshot,
            final(self).gap_order == old(self).gap_order,
            final(self).progress == old(self).progress,
            final(self).evidence_count == old(self).evidence_count,
    {
        let n = self.asking.len();
        if n == 0 {
            return None;
        }
        let i = if self.selected < n {
            self.selected
        } else {
            n - 1
        };
        match key {
            Key::Up => {
                self.selected = if i > 0 {
                    i - 1
                } else {
                    i
                };
                None
            },
            Key::Down => {
                self.selected = if i + 1 < n {
                    i + 1
                } else {
                    i
                };
                None
            },
            _ => {
                self.selected = i;
                let kind = self.asking[i].kind;
                let r = handle_key(&mut self.input_buf, Some(kind), key);
                match r {
                    Some(reply) => {
                        let _answered = self.asking.remove(i);
                        self.selected = if i < n - 1 {
                            i
                        } else if n > 1 {
                            n - 2
                        } else {
                            0
                        };
                        Some((i, reply))
                    },
                    None => None,
                }
            },
        }
    }
}

/// The request the human is looking at (the last one when the selection is past the end).
pub open spec fn current(st: UiState) -> int {
    if st.selected < st.asking@.len() {
        st.selected as int
    } else {
        st.asking@.len() - 1
    }
}

// ── The whole view ────────────────────────────────────────────────────────────

/// The intent line's text.
pub open spec fn shown_intent_text(snap: Option<BlackboardSnapshot>) -> Seq<char> {
    match snap {
        Some(s) => match s.intent {
            Some(i) => i@,
            None => "(pending)"@,
        },
        None => "(pending)"@,
    }
}

/// The gap-state counts shown: those of the snapshot, or none.
pub open spec fn counts_of(snap: Option<BlackboardSnapshot>) -> (nat, nat, nat, nat) {
    match snap {
        Some(s) => state_counts(s.gaps@),
        None => (0, 0, 0, 0),
    }
}

/// How many pending requests are of this kind.
pub open spec fn asking_count(qs: Seq<Asking>, kind: AttentionKind) -> nat
    decreases qs.len(),
{
    if qs.len() == 0 {
        0
    } else {
        asking_count(qs.drop_last(), kind) + if qs.last().kind == kind {
            1nat
        } else {
            0nat
        }
    }
}

/// The pending line's text: approvals, questions and evidence.
pub open spec fn pending_text(approvals: nat, questions: nat, evidence: nat) -> Seq<char> {
    decimal(approvals) + " approvals | "@ + decimal(questions) + " questions | "@ + decimal(evidence)
        + " evidence"@
}

/// Cards per row for an inner width (at least one).
pub open spec fn per_row(inner: nat) -> nat {
    if (inner + 1) / (CARD_TOTAL as nat + 1) >= 1 {
        (inner + 1) / (CARD_TOTAL as nat + 1)
    } else {
        1
    }
}

/// The rows of cards for `names[start..]`, `per` to a row, each row followed by an empty line.
pub open spec fn cards_section(
    names: Seq<Seq<char>>,
    gaps: Seq<(u128, Gap)>,
    ps: Seq<(String, ProgressEntry)>,
    w: nat,
    per: nat,
    start: nat,
) -> Seq<Seq<PieceView>>
    decreases names.len() - start,
{
    if start >= names.len() || per == 0 {
        Seq::empty()
    } else {
        let end: nat = if start + per <= names.len() {
            start + per
        } else {
            names.len()
        };
        chunk_lines(names.subrange(start as int, end as int), gaps, ps, inner_of(w)) + seq![
            empty_line(w),
        ] + cards_section(names, gaps, ps, w, per, end)
    }
}

/// The gaps section: a waiting note, or the rows of cards.
pub open spec fn gaps_section(st: UiState, w: nat) -> Seq<Seq<PieceView>> {
    let names = texts(st.gap_order@);
    if names.len() == 0 {
        seq![text_line(w, waiting_text(), Tone::Label)]
    } else {
        cards_section(names, snapshot_gaps(st.snapshot), st.progress@, w, per_row(inner_of(w)), 0)
    }
}

/// The line shown while no gap exists yet.
pub open spec fn waiting_text() -> Seq<char> {
    "(waiting for gaps\u{2026})"@
}

/// How to move between the pending requests and answer one.
pub open spec fn help_text() -> Seq<char> {
    "↑/↓ to switch | Enter to submit"@
}

/// What a request is, in the menu.
pub open spec fn kind_word(k: AttentionKind) -> Seq<char> {
    match k {
        AttentionKind::Approval => "approval"@,
        AttentionKind::Question => "question"@,
    }
}

/// The menu entry of the request at position `i` (numbered from 1), marked when selected.
pub open spec fn menu_text(a: Asking, i: nat, selected: bool) -> Seq<char> {
    (if selected {
        "► "@
    } else {
        "  "@
    }) + "["@ + decimal(i + 1) + "] "@ + a.gap_name@ + " — "@ + kind_word(a.kind)
}

/// The numbered menu of the pending requests.
pub open spec fn menu_lines(st: UiState, w: nat) -> Seq<Seq<PieceView>> {
    Seq::new(
        st.asking@.len(),
        |i: int| text_line(w, menu_text(st.asking@[i], i as nat, i == current(st)), Tone::Warn),
    )
}

/// The details of the selected request and the line where the human answers it.
pub open spec fn request_lines(a: Asking, buf: Seq<char>, w: nat) -> Seq<Seq<PieceView>> {
    match a.kind {
        AttentionKind::Approval => seq![
            kv_line(w, "reason"@, a.text@),
            input_line(w, "approve? [y/N]"@, buf),
        ],
        AttentionKind::Question => seq![
            text_line(w, a.gap_name@ + " asks: "@ + a.text@, Tone::Warn),
            input_line(w, "answer"@, buf),
        ],
    }
}

/// The attention section, shown while requests are pending: the menu of all of them, the
/// selected one's details and answer line, and how to switch and submit.
pub open spec fn attention_section(st: UiState, w: nat) -> Seq<Seq<PieceView>> {
    if st.asking@.len() == 0 {
        Seq::empty()
    } else {
        seq![sep_line(w, " Attention "@, Tone::Warn)] + menu_lines(st, w) + request_lines(
            st.asking@[current(st)],
            st.input_buf@,
            w,
        ) + seq![text_line(w, help_text(), Tone::Label)]
    }
}

/// The texts of the selected request's lines that are cut to the terminal's columns, and the
/// typed answer with its cursor, take one column per character.
pub open spec fn request_one_col(a: Asking, buf: Seq<char>) -> bool {
    &&& one_col_each(buf.push('_'))
    &&& match a.kind {
        AttentionKind::Approval => one_col_each(a.text@),
        AttentionKind::Question => one_col_each(seq![' '] + (a.gap_name@ + " asks: "@ + a.text@)),
    }
}

/// The menu entries, the selected request's lines and the help line take one column per
/// character.
pub open spec fn attention_one_col(st: UiState) -> bool {
    &&& forall|i: int|
        0 <= i < st.asking@.len() ==> one_col_each(
            seq![' '] + menu_text(#[trigger] st.asking@[i], i as nat, i == current(st)),
        )
    &&& request_one_col(st.asking@[current(st)], st.input_buf@)
    &&& one_col_each(seq![' '] + help_text())
}

/// Every text of the view that is cut to the terminal's columns takes one column per
/// character: the intent, the gaps' recorded steps and outputs, the waiting line while there
/// is no gap, and the lines of the pending requests while there are some. Printable ASCII
/// text always does.
pub open spec fn view_one_col(st: UiState) -> bool {
    &&& one_col_each(shown_intent_text(st.snapshot))
    &&& progress_one_col(st.progress@)
    &&& st.gap_order@.len() == 0 ==> one_col_each(seq![' '] + waiting_text())
    &&& st.asking@.len() > 0 ==> attention_one_col(st)
}

/// Every line of the live view for a terminal `w` columns wide: the titled top border, the
/// board summary, the gap cards, what the human is asked, and the bottom border (with the
/// footer message, if any).
pub open spec fn screen_lines(st: UiState, w: nat, footer: Option<Seq<char>>) -> Seq<Seq<PieceView>> {
    seq![
        top_line(w, " Moss "@, st.query@),
        kv_line(w, "intent"@, shown_intent_text(st.snapshot)),
        kv_line(w, "gaps"@, decimal(st.gap_order@.len()) + " total"@),
        framed(inner_of(w), states_content(counts_of(st.snapshot))),
        kv_line(
            w,
            "pending"@,
            pending_text(
                asking_count(st.asking@, AttentionKind::Approval),
                asking_count(st.asking@, AttentionKind::Question),
                st.evidence_count as nat,
            ),
        ),
        sep_line(w, " Gaps "@, Tone::Section),
    ] + gaps_section(st, w) + attention_section(st, w) + seq![
        match footer {
            Some(m) => bottom_msg_line(w, m),
            None => bottom_line(w),
        },
    ]
}

/// Appends the lines `more` to `out`.
fn extend_lines(out: &mut Vec<Vec<Piece>>, more: Vec<Vec<Piece>>)
    ensures
        lines_view(final(out)@) == lines_view(old(out)@) + lines_view(more@),
{
    let ghost before = out@;
    let mut m = more;
    let ghost mv = m@;
    out.append(&mut m);
    assert(lines_view(before + mv) =~= lines_view(before) + lines_view(mv));
}

proof fn lemma_chunk_fits(len: nat, per: nat, inner: nat)
    requires
        len <= per,
        per == per_row(inner),
        inner < usize::MAX,
    ensures
        len * (CARD_TOTAL + 1) <= usize::MAX,
{
    let k = (CARD_TOTAL + 1) as nat;
    if (inner + 1) / k >= 1 {
        assert(((inner + 1) / k) * k <= inner + 1) by (nonlinear_arith)
            requires
                k > 0,
        ;
    }
    assert(len * k <= per * k) by (nonlinear_arith)
        requires
            len <= per,
    ;
}

/// Counts the pending requests of one kind.
fn count_asking(qs: &Vec<Asking>, kind: AttentionKind) -> (c: usize)
    ensures
        c == asking_count(qs@, kind),
{
    let mut c: usize = 0;
    let n = qs.len();
    for i in 0..n
        invariant
            n == qs@.len(),
            c == asking_count(qs@.take(i as int), kind),
            c <= i,
    {
        assert(qs@.take(i + 1).drop_last() =~= qs@.take(i as int));
        if qs[i].kind == kind {
            c = c + 1;
        }
    }
    assert(qs@.take(n as int) =~= qs@);
    c
}

/// The menu entry of request `a` at position `i`.
fn menu_entry(a: &Asking, i: usize, selected: bool) -> (t: String)
    requires
        i < usize::MAX,
    ensures
        t@ == menu_text(*a, i as nat, selected),
{
    let mut t = if selected {
        String::from_str("► ")
    } else {
        String::from_str("  ")
    };
    t.append("[");
    push_decimal(&mut t, (i + 1) as u64);
    t.append("] ");
    t.append(a.gap_name.as_str());
    t.append(" — ");
    match a.kind {
        AttentionKind::Approval => t.append("approval"),
        AttentionKind::Question => t.append("question"),
    }
    t
}

impl UiState {
    /// The attention section's lines.
    fn attention_rows(&self, w: usize) -> (r: Vec<Vec<Piece>>)
        ensures
            lines_view(r@) == attention_section(*self, w as nat),
    {
        let mut out: Vec<Vec<Piece>> = Vec::new();
        let ghost mid = lines_view(out@);
        if self.asking.len() > 0 {
            out.push(box_sep(w, " Attention ", Tone::Warn));
            let ghost before_menu = lines_view(out@);
            let n = self.asking.len();
            let cur = if self.selected < n {
                self.selected
            } else {
                n - 1
            };
            for i in 0..n
                invariant
                    n == self.asking@.len(),
                    cur == current(*self),
                    lines_view(out@) == before_menu + menu_lines(*self, w as nat).take(i as int),
            {
                let t = menu_entry(&self.asking[i], i, i == cur);
                let ghost prev = lines_view(out@);
                out.push(row_text(w, t.as_str(), Tone::Warn));
                assert(menu_lines(*self, w as nat).take(i + 1) =~= menu_lines(*self, w as nat).take(
                    i as int,
                ).push(menu_lines(*self, w as nat)[i as int]));
                assert(lines_view(out@) =~= prev.push(text_line(w as nat, t@, Tone::Warn)));
            }
            assert(menu_lines(*self, w as nat).take(n as int) =~= menu_lines(*self, w as nat));
            let ghost after_menu = lines_view(out@);
            let a = &self.asking[cur];
            match a.kind {
                AttentionKind::Approval => {
                    out.push(row_kv(w, "reason", a.text.as_str()));
                    out.push(row_input(w, "approve? [y/N]", self.input_buf.as_str()));
                },
                AttentionKind::Question => {
                    let mut t = a.gap_name.clone();
                    t.append(" asks: ");
                    t.append(a.text.as_str());
                    out.push(row_text(w, t.as_str(), Tone::Warn));
                    out.push(row_input(w, "answer", self.input_buf.as_str()));
                },
            }
            proof {
                let req = request_lines(*a, self.input_buf@, w as nat);
                assert(lines_view(out@) =~= after_menu + req);
            }
            let ghost after_req = lines_view(out@);
            out.push(row_text(w, "↑/↓ to switch | Enter to submit", Tone::Label));
            proof {
                let help = seq![text_line(w as nat, help_text(), Tone::Label)];
                let sep = seq![sep_line(w as nat, " Attention "@, Tone::Warn)];
                assert(lines_view(out@) =~= after_req + help);
                assert(before_menu =~= mid + sep);
                assert(attention_section(*self, w as nat) == sep + menu_lines(*self, w as nat)
                    + request_lines(self.asking@[current(*self)], self.input_buf@, w as nat) + help);
                assert(lines_view(out@) =~= mid + attention_section(*self, w as nat));
            }
        } else {
            assert(lines_view(out@) =~= mid + attention_section(*self, w as nat));
        }
        assert(lines_view(out@) =~= attention_section(*self, w as nat));
        out
    }

    /// The lines of the live view for a terminal `w` columns wide, with `footer` in the bottom
    /// border when given.
    pub fn build_lines(&self, w: usize, footer: Option<&str>) -> (r: Vec<Vec<Piece>>)
        ensures
            lines_view(r@) == screen_lines(
                *self,
                w as nat,
                match footer {
                    Some(m) => Some(m@),
                    None => None,
                },
            ),
    {
        let inner = sat_sub(w, 2);
        let mut out: Vec<Vec<Piece>> = Vec::new();
        out.push(box_top(w, " Moss ", self.query.as_str()));
        let intent: &str = match &self.snapshot {
            Some(s) => match s.intent() {
                Some(i) => i,
                None => "(pending)",
            },
            None => "(pending)",
        };
        out.push(row_kv(w, "intent", intent));
        let mut g = String::new();
        push_decimal(&mut g, self.gap_order.len() as u64);
        g.append(" total");
        out.push(row_kv(w, "gaps", g.as_str()));
        let counts = match &self.snapshot {
            Some(s) => count_states(s),
            None => (0, 0, 0, 0),
        };
        out.push(row_states(w, counts));
        let pa = count_asking(&self.asking, AttentionKind::Approval);
        let pq = count_asking(&self.asking, AttentionKind::Question);
        let mut pt = String::new();
        push_decimal(&mut pt, pa as u64);
        pt.append(" approvals | ");
        push_decimal(&mut pt, pq as u64);
        pt.append(" questions | ");
        push_decimal(&mut pt, self.evidence_count as u64);
        pt.append(" evidence");
        out.push(row_kv(w, "pending", pt.as_str()));
        out.push(box_sep(w, " Gaps ", Tone::Section));
        let ghost fv = match footer {
            Some(m) => Some(m@),
            None => None,
        };
        let ghost head = lines_view(out@);
        assert(head =~= seq![
            top_line(w as nat, " Moss "@, self.query@),
            kv_line(w as nat, "intent"@, shown_intent_text(self.snapshot)),
            kv_line(w as nat, "gaps"@, decimal(self.gap_order@.len()) + " total"@),
            framed(inner_of(w as nat), states_content(counts_of(self.snapshot))),
            kv_line(
                w as nat,
                "pending"@,
                pending_text(
                    asking_count(self.asking@, AttentionKind::Approval),
                    asking_count(self.asking@, AttentionKind::Question),
                    self.evidence_count as nat,
                ),
            ),
            sep_line(w as nat, " Gaps "@, Tone::Section),
        ]);
        let len = self.gap_order.len();
        if len == 0 {
            out.push(row_text(w, "(waiting for gaps\u{2026})", Tone::Label));
            assert(lines_view(out@) =~= head + gaps_section(*self, w as nat));
        } else {
            let per = cards_per_row(inner);
            let ghost names = texts(self.gap_order@);
            let ghost gaps = snapshot_gaps(self.snapshot);
            let ghost total = head + gaps_section(*self, w as nat);
            assert(lines_view(out@) + cards_section(names, gaps, self.progress@, w as nat, per as nat, 0)
                =~= total);
            let mut start: usize = 0;
            while start < len
                invariant
                    start <= len,
                    len == self.gap_order@.len(),
                    names == texts(self.gap_order@),
                    gaps == snapshot_gaps(self.snapshot),
                    per == per_row(inner as nat),
                    inner == inner_of(w as nat),
                    inner < usize::MAX,
                    lines_view(out@) + cards_section(names, gaps, self.progress@, w as nat, per as nat, start as nat)
                        == total,
                decreases len - start,
            {
                let end = if per <= len - start {
                    start + per
                } else {
                    len
                };
                proof {
                    lemma_chunk_fits((end - start) as nat, per as nat, inner as nat);
                }
                let chunk = card_chunk_lines(&self.gap_order, start, end, &self.snapshot, &self.progress, inner);
                let ghost before = lines_view(out@);
                let ghost ch = lines_view(chunk@);
                extend_lines(&mut out, chunk);
                out.push(box_row_empty(w));
                proof {
                    let rest = cards_section(names, gaps, self.progress@, w as nat, per as nat, end as nat);
                    assert(cards_section(names, gaps, self.progress@, w as nat, per as nat, start as nat)
                        == ch + seq![empty_line(w as nat)] + rest);
                    assert(lines_view(out@) =~= before + ch + seq![empty_line(w as nat)]);
                    assert(lines_view(out@) + rest =~= before + (ch + seq![empty_line(w as nat)] + rest));
                }
                start = end;
            }
            assert(lines_view(out@) =~= total);
        }
        let ghost mid = lines_view(out@);
        extend_lines(&mut out, self.attention_rows(w));
        assert(lines_view(out@) =~= mid + attention_section(*self, w as nat));
        let ghost before_footer = lines_view(out@);
        match footer {
            Some(m) => out.push(box_bottom_msg(w, m)),
            None => out.push(box_bottom(w)),
        }
        assert(lines_view(out@) =~= before_footer + seq![
            match fv {
                Some(m) => bottom_msg_line(w as nat, m),
                None => bottom_line(w as nat),
            },
        ]);
        assert(lines_view(out@) =~= screen_lines(*self, w as nat, fv));
        out
    }
}

// ── Welcome banner ────────────────────────────────────────────────────────────

/// Width of the welcome banner.
pub const BANNER_WIDTH: usize = 80;

/// The logo's lines.
pub open spec fn logo() -> Seq<Seq<char>> {
    seq![
        "  ███╗   ███╗ "@,
        "  ████╗ ████║ "@,
        "  ██╔████╔██║ "@,
        "  ██║╚██╔╝██║ "@,
        "  ██║ ╚═╝ ██║ "@,
        "  ╚═╝     ╚═╝ "@,
    ]
}

fn logo_lines() -> (v: Vec<&'static str>)
    ensures
        v@.len() == logo().len(),
        forall|i: int| 0 <= i < v@.len() ==> #[trigger] v@[i]@ == logo()[i],
{
    vec![
        "  ███╗   ███╗ ",
        "  ████╗ ████║ ",
        "  ██╔████╔██║ ",
        "  ██║╚██╔╝██║ ",
        "  ██║ ╚═╝ ██║ ",
        "  ╚═╝     ╚═╝ ",
    ]
}

/// One logo line between the banner's side borders.
pub open spec fn logo_row(l: Seq<char>) -> Seq<PieceView> {
    seq![
        pc(seq!['│'], Tone::Border),
        strong(l, Tone::Done),
        pc(rule(' ', sat((BANNER_WIDTH - 2) as nat, l.len())) + seq!['│'], Tone::Border),
    ]
}

/// The tagline under the logo.
pub open spec fn tagline() -> Seq<char> {
    "  Local-first AI Operating System"@
}

/// The banner printed when the program starts: a blank line, the titled top border, the logo,
/// the tagline, an empty row, the bottom border and a blank line.
pub open spec fn welcome() -> Seq<Seq<PieceView>> {
    let inner = (BANNER_WIDTH - 2) as nat;
    seq![
        Seq::empty(),
        seq![
            pc("╭───"@, Tone::Border),
            strong(" Moss v0.1.0 "@, Tone::Title),
            pc(rule('─', (BANNER_WIDTH - 17) as nat) + seq!['╮'], Tone::Border),
        ],
    ] + logo().map_values(|l: Seq<char>| logo_row(l)) + seq![
        seq![
            pc(seq!['│'], Tone::Border),
            pc(tagline(), Tone::Footer),
            pc(rule(' ', sat(inner, utf8_len(tagline()))) + seq!['│'], Tone::Border),
        ],
        seq![pc(seq!['│'] + rule(' ', inner) + seq!['│'], Tone::Border)],
        seq![pc(seq!['╰'] + rule('─', inner) + seq!['╯'], Tone::Border)],
        Seq::empty(),
    ]
}

/// The welcome banner's lines.
pub fn welcome_lines() -> (r: Vec<Vec<Piece>>)
    ensures
        lines_view(r@) == welcome(),
{
    let inner: usize = BANNER_WIDTH - 2;
    let mut out: Vec<Vec<Piece>> = Vec::new();
    out.push(Vec::new());
    let mut top: Vec<Piece> = Vec::new();
    top.push(piece(String::from_str("╭───"), Tone::Border, false));
    top.push(piece(String::from_str(" Moss v0.1.0 "), Tone::Title, true));
    top.push(ruled(None, '─', BANNER_WIDTH - 17, '╮'));
    out.push(top);
    assert(line_view(out@[0]@) =~= Seq::<PieceView>::empty());
    let logo_v = logo_lines();
    let ghost head = lines_view(out@);
    let ghost rows = logo().map_values(|l: Seq<char>| logo_row(l));
    for i in 0..logo_v.len()
        invariant
            inner == BANNER_WIDTH - 2,
            logo_v@.len() == logo().len(),
            forall|k: int| 0 <= k < logo_v@.len() ==> #[trigger] logo_v@[k]@ == logo()[k],
            rows == logo().map_values(|l: Seq<char>| logo_row(l)),
            lines_view(out@) == head + rows.take(i as int),
    {
        let l = logo_v[i];
        let mut row: Vec<Piece> = Vec::new();
        row.push(glyph('│', Tone::Border));
        row.push(piece(String::from_str(l), Tone::Done, true));
        row.push(ruled(None, ' ', sat_sub(inner, chars_of(l).len()), '│'));
        let ghost before = lines_view(out@);
        assert(row@[0]@ == pc(seq!['│'], Tone::Border));
        assert(row@[1]@ == strong(l@, Tone::Done));
        assert(row@[2]@.text =~= rule(' ', sat((BANNER_WIDTH - 2) as nat, l@.len())) + seq!['│']);
        assert(line_view(row@) =~= logo_row(logo()[i as int]));
        out.push(row);
        assert(rows.take(i + 1) =~= rows.take(i as int).push(rows[i as int]));
        assert(lines_view(out@) =~= before.push(line_view(row@)));
    }
    assert(rows.take(logo_v@.len() as int) =~= rows);
    let ghost mid = lines_view(out@);
    assert(mid == head + rows);
    let tag = "  Local-first AI Operating System";
    let mut t: Vec<Piece> = Vec::new();
    t.push(glyph('│', Tone::Border));
    t.push(piece(String::from_str(tag), Tone::Footer, false));
    t.push(ruled(None, ' ', sat_sub(inner, tag.len()), '│'));
    out.push(t);
    let mut e: Vec<Piece> = Vec::new();
    e.push(ruled(Some('│'), ' ', inner, '│'));
    out.push(e);
    let mut b: Vec<Piece> = Vec::new();
    b.push(ruled(Some('╰'), '─', inner, '╯'));
    out.push(b);
    let ghost tail = seq![line_view(out@[8]@), line_view(out@[9]@), line_view(out@[10]@)];
    out.push(Vec::new());
    let ghost v = lines_view(out@);
    assert(v =~= mid + tail + seq![Seq::<PieceView>::empty()]) by {
        assert(v.len() == 12);
    }
    let ghost wv = welcome();
    assert(v.len() == wv.len());
    assert forall|k: int| 0 <= k < v.len() implies #[trigger] v[k] =~= wv[k] by {
        if k < 2 {
            assert(v[k] == mid[k]);
            assert(mid[k] == head[k]);
        } else if k < 8 {
            assert(v[k] == mid[k]);
            assert(mid[k] == rows[k - 2]);
        }
    }
    assert(v =~= wv);
    out
}

proof fn lemma_logo_widths()
    ensures
        logo().len() == 6,
        forall|k: int| 0 <= k < 6 ==> (#[trigger] logo()[k]).len() == 14,
{
    reveal_strlit("  ███╗   ███╗ ");
    reveal_strlit("  ████╗ ████║ ");
    reveal_strlit("  ██╔████╔██║ ");
    reveal_strlit("  ██║╚██╔╝██║ ");
    reveal_strlit("  ██║ ╚═╝ ██║ ");
    reveal_strlit("  ╚═╝     ╚═╝ ");
    let l = logo();
    assert(l[0] == "  ███╗   ███╗ "@);
    assert(l[1] == "  ████╗ ████║ "@);
    assert(l[2] == "  ██╔████╔██║ "@);
    assert(l[3] == "  ██║╚██╔╝██║ "@);
    assert(l[4] == "  ██║ ╚═╝ ██║ "@);
    assert(l[5] == "  ╚═╝     ╚═╝ "@);
}

/// The banner's logo, tagline, empty and bottom rows are exactly `BANNER_WIDTH` wide; its top
/// border is one column wider.
pub proof fn law_banner_width()
    ensures
        welcome().len() == 12,
        width(welcome()[1]) == BANNER_WIDTH + 1,
        forall|i: int| 2 <= i < 11 ==> width(#[trigger] welcome()[i]) == BANNER_WIDTH,
{
    reveal_with_fuel(width, 4);
    reveal_strlit("╭───");
    reveal_strlit(" Moss v0.1.0 ");
    reveal_strlit("  Local-first AI Operating System");
    lemma_logo_widths();
    assert(vstd::utf8::is_ascii_chars(tagline()));
    vstd::utf8::is_ascii_chars_encode_utf8(tagline());
    let w = welcome();
    let m = logo().map_values(|l: Seq<char>| logo_row(l));
    assert(m.len() == 6);
    assert(width(w[1]) == BANNER_WIDTH + 1);
    assert forall|i: int| 2 <= i < 11 implies width(#[trigger] w[i]) == BANNER_WIDTH by {
        if 2 <= i < 8 {
            assert(w[i] == m[i - 2]);
            assert(m[i - 2] == logo_row(logo()[i - 2]));
            assert(logo()[i - 2].len() == 14);
        }
    }
}

// ── Widths of the view's lines ────────────────────────────────────────────────

/// Every line is exactly `w` columns wide.
pub open spec fn all_width(lines: Seq<Seq<PieceView>>, w: nat) -> bool {
    forall|i: int| 0 <= i < lines.len() ==> width(#[trigger] lines[i]) == w
}

proof fn lemma_all_width_concat(a: Seq<Seq<PieceView>>, b: Seq<Seq<PieceView>>, w: nat)
    requires
        all_width(a, w),
        all_width(b, w),
    ensures
        all_width(a + b, w),
{
    assert forall|i: int| 0 <= i < (a + b).len() implies width(#[trigger] (a + b)[i]) == w by {
        if i < a.len() {
            assert((a + b)[i] == a[i]);
        } else {
            assert((a + b)[i] == b[i - a.len()]);
        }
    }
}

proof fn lemma_ascii_len(s: Seq<char>)
    requires
        vstd::utf8::is_ascii_chars(s),
        s.len() <= u32::MAX,
    ensures
        utf8_len(s) == s.len(),
{
    vstd::utf8::is_ascii_chars_encode_utf8(s);
}

proof fn lemma_kv_width(w: nat, key: Seq<char>, value: Seq<char>)
    requires
        one_col_each(value),
        vstd::utf8::is_ascii_chars(key),
        key.len() <= 8,
        w >= 12,
    ensures
        width(kv_line(w, key, value)) == w,
{
    reveal_with_fuel(width, 5);
    let p = seq![' '] + left_aligned(key, 8) + seq![' '];
    assert(vstd::utf8::is_ascii_chars(p));
    lemma_ascii_len(p);
    lemma_padded_cols_one_col(value, sat(inner_of(w), utf8_len(p)));
    crate::cli::law_padded_width(value, sat(inner_of(w), utf8_len(p)));
}

proof fn lemma_input_width(w: nat, prompt: Seq<char>, buf: Seq<char>)
    requires
        one_col_each(buf.push('_')),
        vstd::utf8::is_ascii_chars(prompt),
        prompt.len() <= 64,
        prompt.len() + 7 <= w,
    ensures
        width(input_line(w, prompt, buf)) == w,
{
    reveal_with_fuel(width, 5);
    let p = seq![' ', ' ', ' '] + prompt + seq![':', ' '];
    assert(vstd::utf8::is_ascii_chars(p));
    lemma_ascii_len(p);
    lemma_padded_cols_one_col(buf.push('_'), sat(inner_of(w), utf8_len(p)));
    crate::cli::law_padded_width(buf.push('_'), sat(inner_of(w), utf8_len(p)));
}

proof fn lemma_text_width(w: nat, content: Seq<char>, tone: Tone)
    requires
        one_col_each(seq![' '] + content),
        w >= 2,
    ensures
        width(text_line(w, content, tone)) == w,
{
    reveal_with_fuel(width, 4);
    lemma_padded_cols_one_col(seq![' '] + content, inner_of(w));
    crate::cli::law_padded_width(seq![' '] + content, inner_of(w));
}

proof fn lemma_framed_width(inner: nat, pieces: Seq<PieceView>)
    requires
        width(pieces) <= inner,
    ensures
        width(framed(inner, pieces)) == inner + 2,
{
    let head = seq![pc(seq!['│'], Tone::Border)];
    let tail = seq![pc(rule(' ', sat(inner, width(pieces))), Tone::Plain), pc(seq!['│'], Tone::Border)];
    lemma_width_concat(head, pieces);
    lemma_width_concat(head + pieces, tail);
    reveal_with_fuel(width, 3);
}

proof fn lemma_chunk_lines_width(
    names: Seq<Seq<char>>,
    gaps: Seq<(u128, Gap)>,
    ps: Seq<(String, ProgressEntry)>,
    inner: nat,
)
    requires
        progress_one_col(ps),
        names.len() >= 1,
        names.len() * (CARD_TOTAL + 1) <= inner + 1,
    ensures
        all_width(chunk_lines(names, gaps, ps, inner), inner + 2),
{
    let n = names.len();
    let lp = chunk_pad(n, inner);
    assert((CARD_TOTAL + 1) * n == n * (CARD_TOTAL + 1)) by (nonlinear_arith);
    assert(n * (CARD_TOTAL as nat) + sat(n, 1) == (CARD_TOTAL + 1) * n - 1) by (nonlinear_arith)
        requires
            n >= 1,
    ;
    let c = chunk_lines(names, gaps, ps, inner);
    assert forall|k: int| 0 <= k < c.len() implies width(#[trigger] c[k]) == inner + 2 by {
        lemma_chunk_row_width(k, names, gaps, ps, lp);
        lemma_framed_width(inner, chunk_row(k, names, gaps, ps, lp));
    }
}

proof fn lemma_cards_section_width(
    names: Seq<Seq<char>>,
    gaps: Seq<(u128, Gap)>,
    ps: Seq<(String, ProgressEntry)>,
    w: nat,
    per: nat,
    start: nat,
)
    requires
        progress_one_col(ps),
        w >= 2,
        per >= 1,
        per * (CARD_TOTAL + 1) <= inner_of(w) + 1,
    ensures
        all_width(cards_section(names, gaps, ps, w, per, start), w),
    decreases names.len() - start,
{
    if start < names.len() {
        let end: nat = if start + per <= names.len() {
            start + per
        } else {
            names.len()
        };
        let chunk = names.subrange(start as int, end as int);
        assert(chunk.len() * (CARD_TOTAL + 1) <= per * (CARD_TOTAL + 1)) by (nonlinear_arith)
            requires
                chunk.len() <= per,
        ;
        lemma_chunk_lines_width(chunk, gaps, ps, inner_of(w));
        reveal_with_fuel(width, 4);
        let e = seq![empty_line(w)];
        assert(all_width(e, w));
        lemma_all_width_concat(chunk_lines(chunk, gaps, ps, inner_of(w)), e, w);
        lemma_cards_section_width(names, gaps, ps, w, per, end);
        lemma_all_width_concat(
            chunk_lines(chunk, gaps, ps, inner_of(w)) + e,
            cards_section(names, gaps, ps, w, per, end),
            w,
        );
    }
}

/// The summary lines at the top of the view.
pub open spec fn head_lines(st: UiState, w: nat) -> Seq<Seq<PieceView>> {
    seq![
        top_line(w, " Moss "@, st.query@),
        kv_line(w, "intent"@, shown_intent_text(st.snapshot)),
        kv_line(w, "gaps"@, decimal(st.gap_order@.len()) + " total"@),
        framed(inner_of(w), states_content(counts_of(st.snapshot))),
        kv_line(
            w,
            "pending"@,
            pending_text(
                asking_count(st.asking@, AttentionKind::Approval),
                asking_count(st.asking@, AttentionKind::Question),
                st.evidence_count as nat,
            ),
        ),
        sep_line(w, " Gaps "@, Tone::Section),
    ]
}

proof fn lemma_pending_printable(approvals: nat, questions: nat, evidence: nat)
    ensures
        printable_ascii(pending_text(approvals, questions, evidence)),
{
    reveal_strlit(" approvals | ");
    reveal_strlit(" questions | ");
    reveal_strlit(" evidence");
    lemma_decimal_printable(approvals);
    lemma_decimal_printable(questions);
    lemma_decimal_printable(evidence);
    let a = decimal(approvals) + " approvals | "@;
    lemma_printable_concat(decimal(approvals), " approvals | "@);
    lemma_printable_concat(a, decimal(questions));
    lemma_printable_concat(a + decimal(questions), " questions | "@);
    lemma_printable_concat(a + decimal(questions) + " questions | "@, decimal(evidence));
    lemma_printable_concat(a + decimal(questions) + " questions | "@ + decimal(evidence), " evidence"@);
}

proof fn lemma_head_width(st: UiState, w: nat)
    requires
        one_col_each(shown_intent_text(st.snapshot)),
        w >= 30,
        st.query@.len() + 12 <= w,
        width(states_content(counts_of(st.snapshot))) + 2 <= w,
    ensures
        all_width(head_lines(st, w), w),
{
    reveal_strlit(" Moss ");
    reveal_strlit("intent");
    reveal_strlit("gaps");
    reveal_strlit("pending");
    reveal_strlit(" Gaps ");
    assert(vstd::utf8::is_ascii_chars(" Moss "@));
    lemma_ascii_len(" Moss "@);
    assert(width(top_line(w, " Moss "@, st.query@)) == w) by {
        reveal_with_fuel(width, 7);
    }
    assert(width(sep_line(w, " Gaps "@, Tone::Section)) == w) by {
        reveal_with_fuel(width, 4);
    }
    lemma_kv_width(w, "intent"@, shown_intent_text(st.snapshot));
    reveal_strlit(" total");
    lemma_decimal_printable(st.gap_order@.len());
    lemma_printable_concat(decimal(st.gap_order@.len()), " total"@);
    lemma_kv_width(w, "gaps"@, decimal(st.gap_order@.len()) + " total"@);
    lemma_pending_printable(
        asking_count(st.asking@, AttentionKind::Approval),
        asking_count(st.asking@, AttentionKind::Question),
        st.evidence_count as nat,
    );
    lemma_framed_width(inner_of(w), states_content(counts_of(st.snapshot)));
    lemma_kv_width(
        w,
        "pending"@,
        pending_text(
            asking_count(st.asking@, AttentionKind::Approval),
            asking_count(st.asking@, AttentionKind::Question),
            st.evidence_count as nat,
        ),
    );
}

proof fn lemma_gaps_width(st: UiState, w: nat)
    requires
        progress_one_col(st.progress@),
        st.gap_order@.len() == 0 ==> one_col_each(seq![' '] + waiting_text()),
        w >= 30,
    ensures
        all_width(gaps_section(st, w), w),
{
    let inner = inner_of(w);
    let names = texts(st.gap_order@);
    if names.len() == 0 {
        lemma_text_width(w, waiting_text(), Tone::Label);
    } else {
        let per = per_row(inner);
        let k = (CARD_TOTAL + 1) as nat;
        assert((inner + 1) / k >= 1) by (nonlinear_arith)
            requires
                inner + 1 >= k,
                k > 0,
        ;
        assert(((inner + 1) / k) * k <= inner + 1) by (nonlinear_arith)
            requires
                k > 0,
        ;
        lemma_cards_section_width(names, snapshot_gaps(st.snapshot), st.progress@, w, per, 0);
    }
}

proof fn lemma_attention_width(st: UiState, w: nat)
    requires
        st.asking@.len() > 0 ==> attention_one_col(st),
        w >= 30,
    ensures
        all_width(attention_section(st, w), w),
{
    reveal_strlit("reason");
    reveal_strlit("approve? [y/N]");
    reveal_strlit("answer");
    reveal_strlit(" Attention ");
    if st.asking@.len() > 0 {
        let a = st.asking@[current(st)];
        let sep = seq![sep_line(w, " Attention "@, Tone::Warn)];
        assert(all_width(sep, w)) by {
            reveal_with_fuel(width, 4);
        }
        let menu = menu_lines(st, w);
        assert forall|i: int| 0 <= i < menu.len() implies width(#[trigger] menu[i]) == w by {
            lemma_text_width(w, menu_text(st.asking@[i], i as nat, i == current(st)), Tone::Warn);
        }
        let req = request_lines(a, st.input_buf@, w);
        match a.kind {
            AttentionKind::Approval => {
                lemma_kv_width(w, "reason"@, a.text@);
                lemma_input_width(w, "approve? [y/N]"@, st.input_buf@);
            },
            AttentionKind::Question => {
                lemma_text_width(w, a.gap_name@ + " asks: "@ + a.text@, Tone::Warn);
                lemma_input_width(w, "answer"@, st.input_buf@);
            },
        }
        assert(all_width(req, w));
        let help = seq![text_line(w, help_text(), Tone::Label)];
        lemma_text_width(w, help_text(), Tone::Label);
        assert(all_width(help, w));
        lemma_all_width_concat(sep, menu, w);
        lemma_all_width_concat(sep + menu, req, w);
        lemma_all_width_concat(sep + menu + req, help, w);
    }
}

/// The live view is a box of fixed width: on a terminal at least 30 columns wide, every line
/// of the view is exactly as wide as the terminal, provided the query fits in the title, the
/// state counts fit in their row, the footer message fits in the bottom border, and the texts
/// cut to the terminal's columns take one column per character (printable ASCII always does).
pub proof fn law_view_fills_width(st: UiState, w: nat, footer: Option<Seq<char>>)
    requires
        view_one_col(st),
        w >= 30,
        st.query@.len() + 12 <= w,
        width(states_content(counts_of(st.snapshot))) + 2 <= w,
        footer matches Some(m) ==> m.len() + 2 <= w,
    ensures
        all_width(screen_lines(st, w, footer), w),
{
    lemma_head_width(st, w);
    lemma_gaps_width(st, w);
    lemma_attention_width(st, w);
    let last = seq![
        match footer {
            Some(m) => bottom_msg_line(w, m),
            None => bottom_line(w),
        },
    ];
    assert(all_width(last, w)) by {
        reveal_with_fuel(width, 4);
    }
    assert(screen_lines(st, w, footer) == head_lines(st, w) + gaps_section(st, w)
        + attention_section(st, w) + last);
    lemma_all_width_concat(head_lines(st, w), gaps_section(st, w), w);
    lemma_all_width_concat(head_lines(st, w) + gaps_section(st, w), attention_section(st, w), w);
    lemma_all_width_concat(
        head_lines(st, w) + gaps_section(st, w) + attention_section(st, w),
        last,
        w,
    );
}
/// The progress recorded for a gap name is that of its first entry under the name, and none
/// when no entry has the name.
pub proof fn law_progress_of_first_entry(ps: Seq<(String, ProgressEntry)>, name: Seq<char>, i: int)
    ensures
        0 <= i < ps.len() && ps[i].0@ == name && (forall|j: int| 0 <= j < i ==> (#[trigger] ps[j]).0@ != name)
            ==> progress_of(ps, name) == Some(ps[i].1),
        (forall|j: int| 0 <= j < ps.len() ==> (#[trigger] ps[j]).0@ != name) ==> progress_of(ps, name)
            is None,
    decreases ps.len(),
{
    if ps.len() > 0 {
        let rest = ps.drop_first();
        law_progress_of_first_entry(rest, name, i - 1);
        if 0 < i < ps.len() && ps[i].0@ == name && (forall|j: int| 0 <= j < i ==> (#[trigger] ps[j]).0@ != name) {
            assert(ps[0].0@ != name);
            assert(rest[i - 1] == ps[i]);
            assert forall|j: int| 0 <= j < i - 1 implies (#[trigger] rest[j]).0@ != name by {
                assert(rest[j] == ps[j + 1]);
            }
        }
        if forall|j: int| 0 <= j < ps.len() ==> (#[trigger] ps[j]).0@ != name {
            assert(ps[0].0@ != name);
            assert forall|j: int| 0 <= j < rest.len() implies (#[trigger] rest[j]).0@ != name by {
                assert(rest[j] == ps[j + 1]);
            }
        }
    }
}

/// A gap's card shows its progress: the iteration row reads the turn and the turn limit, the
/// step row the step, and the last row the last result, each cut or padded to the field; a
/// field with nothing recorded shows `-`.
pub proof fn law_card_shows_progress(
    spacer: Seq<char>,
    name: Seq<char>,
    st: Option<GapState>,
    p: Option<ProgressEntry>,
)
    ensures
        p matches Some(e) ==> card_row(2, spacer, name, st, p)[3].text == padded_cols(
            decimal(e.iteration as nat) + seq!['/'] + decimal(e.max_iterations as nat),
            (CARD_INNER - 9) as nat,
        ),
        p matches Some(e) ==> card_row(3, spacer, name, st, p)[3].text == padded_cols(
            e.step@,
            (CARD_INNER - 9) as nat,
        ),
        p matches Some(e) ==> (e.last_result matches Some(t) ==> card_row(4, spacer, name, st, p)[3].text
            == padded_cols(t@, (CARD_INNER - 9) as nat)),
        p matches Some(e) ==> (e.last_result is None ==> card_row(4, spacer, name, st, p)[3].text
            == padded_cols(seq!['-'], (CARD_INNER - 9) as nat)),
        p is None ==> card_row(2, spacer, name, st, p)[3].text == padded_cols(seq!['-'], (CARD_INNER - 9) as nat)
            && card_row(3, spacer, name, st, p)[3].text == padded_cols(seq!['-'], (CARD_INNER - 9) as nat)
            && card_row(4, spacer, name, st, p)[3].text == padded_cols(seq!['-'], (CARD_INNER - 9) as nat),
        card_row(1, spacer, name, st, p)[3].text == padded_cols(
            match st {
                Some(s) => state_label(s),
                None => seq!['-'],
            },
            (CARD_INNER - 9) as nat,
        ),
{
}

} // verus!
