//! The terminal interface's decisions: state labels, fixed-width cells, card layout, the list
//! of gaps shown, and what a key press does while a human is asked something.
use vstd::prelude::*;
use vstd::string::*;
use crate::moss::types::{BlackboardSnapshot, Gap, GapState};
use crate::text::{chars_of, decimal, digit_char, is_whitespace, push_char, string_of, sub_vec, trim, trim_end, trim_vec};

pub mod screen;

verus! {

/// Inner width of a gap card.
pub const CARD_INNER: usize = 25;

/// Total width of a gap card, borders included.
pub const CARD_TOTAL: usize = 27;

pub open spec fn state_label(state: GapState) -> Seq<char> {
    match state {
        GapState::Blocked => "blocked"@,
        GapState::Ready => "ready"@,
        GapState::Assigned => "running"@,
        GapState::Closed => "done"@,
    }
}

/// The label shown for a gap state.
pub fn gap_state_label(state: &GapState) -> (r: &'static str)
    ensures
        r@ == state_label(*state),
{
    match state {
        GapState::Blocked => "blocked",
        GapState::Ready => "ready",
        GapState::Assigned => "running",
        GapState::Closed => "done",
    }
}

/// `s` padded with spaces, or cut, to exactly `width` characters.
pub open spec fn padded(s: Seq<char>, width: nat) -> Seq<char> {
    if s.len() >= width {
        s.take(width as int)
    } else {
        s + Seq::new((width - s.len()) as nat, |i: int| ' ')
    }
}

/// The number of terminal columns `text` takes, as ratatui's `Span::width` (the string width of
/// unicode-width) measures it.
pub uninterp spec fn text_cols(text: Seq<char>) -> nat;

/// Every character is printable ASCII (space to tilde).
pub open spec fn printable_ascii(s: Seq<char>) -> bool {
    forall|i: int| 0 <= i < s.len() ==> ' ' <= #[trigger] s[i] <= '~'
}

/// Joining two printable ASCII texts gives printable ASCII.
pub proof fn lemma_printable_concat(a: Seq<char>, b: Seq<char>)
    requires
        printable_ascii(a),
        printable_ascii(b),
    ensures
        printable_ascii(a + b),
{
    assert forall|i: int| 0 <= i < (a + b).len() implies ' ' <= #[trigger] (a + b)[i] <= '~' by {
        if i < a.len() {
            assert((a + b)[i] == a[i]);
        } else {
            assert((a + b)[i] == b[i - a.len()]);
        }
    }
}

/// A number written in decimal is printable ASCII.
pub proof fn lemma_decimal_printable(n: nat)
    ensures
        printable_ascii(decimal(n)),
    decreases n,
{
    let d = digit_char(n % 10);
    assert(' ' <= d <= '~');
    if n >= 10 {
        lemma_decimal_printable(n / 10);
        lemma_printable_concat(decimal(n / 10), seq![d]);
        assert(decimal(n) =~= decimal(n / 10) + seq![d]);
    } else {
        assert(n % 10 == n);
    }
}

/// Calls `ratatui::text::Span::raw(text).width()`; the result is named by `text_cols`. Printable
/// ASCII text takes one column per character (each character up to U+00A0 other than a line
/// break counts one column, and no emoji or variation-selector rule applies to such text).
#[verifier::external_body]
fn columns(text: &str) -> (r: usize)
    ensures
        r == text_cols(text@),
        printable_ascii(text@) ==> r == text@.len(),
{
    ratatui::text::Span::raw(text).width()
}

/// The length of the prefix of `s` kept in `width` columns: starting from position `k`, the
/// prefix grows one character at a time while the longer prefix still fits.
pub open spec fn fit_from(s: Seq<char>, width: nat, k: nat) -> nat
    decreases s.len() - k,
{
    if k >= s.len() {
        s.len()
    } else if text_cols(s.take(k + 1int)) <= width {
        fit_from(s, width, k + 1)
    } else {
        k
    }
}

/// `s` cut before the first character that would overflow `width` columns, then padded with
/// spaces up to `width` columns, the columns measured by `text_cols`.
pub open spec fn cut_to_cols(s: Seq<char>, width: nat) -> Seq<char> {
    let kept = s.take(fit_from(s, width, 0) as int);
    let used = text_cols(kept);
    kept + Seq::new(
        if width >= used {
            (width - used) as nat
        } else {
            0
        },
        |i: int| ' ',
    )
}

/// `s` cut or padded to `width` terminal columns. Printable ASCII takes one column per
/// character, so such text is cut or padded by characters; other text is cut before the first
/// character that would overflow and padded up to `width` columns.
pub open spec fn padded_cols(s: Seq<char>, width: nat) -> Seq<char> {
    if printable_ascii(s) {
        padded(s, width)
    } else {
        cut_to_cols(s, width)
    }
}

/// `s` takes one terminal column per character, and so does each of its prefixes: it is
/// printable ASCII, or the column measure says so of every prefix.
pub open spec fn one_col_each(s: Seq<char>) -> bool {
    printable_ascii(s) || forall|k: int| 0 <= k <= s.len() ==> #[trigger] text_cols(s.take(k)) == k
}

proof fn lemma_fit_one_col(s: Seq<char>, width: nat, k: nat)
    requires
        forall|j: int| 0 <= j <= s.len() ==> #[trigger] text_cols(s.take(j)) == j,
        k <= s.len(),
        k <= width,
    ensures
        fit_from(s, width, k) == if s.len() <= width {
            s.len()
        } else {
            width
        },
    decreases s.len() - k,
{
    if k < s.len() {
        assert(text_cols(s.take(k + 1int)) == k + 1);
        if k + 1 <= width {
            lemma_fit_one_col(s, width, k + 1);
        }
    }
}

/// Text that takes one column per character is cut and padded by characters.
pub proof fn lemma_padded_cols_one_col(s: Seq<char>, width: nat)
    requires
        one_col_each(s),
    ensures
        padded_cols(s, width) == padded(s, width),
{
    if !printable_ascii(s) {
        lemma_fit_one_col(s, width, 0);
        let k = fit_from(s, width, 0);
        assert(text_cols(s.take(k as int)) == k);
        if s.len() < width {
            assert(s.take(k as int) =~= s);
        }
        assert(cut_to_cols(s, width) =~= padded(s, width));
    }
}

/// Pad with spaces or truncate to exactly `width` terminal columns: the text is cut before the
/// first character that would overflow, then spaces fill the columns left. Printable ASCII text
/// comes out exactly `width` characters long.
pub fn pad_truncate(s: &str, width: usize) -> (r: String)
    ensures
        r@ == padded_cols(s@, width as nat),
        printable_ascii(s@) ==> r@ == padded(s@, width as nat),
{
    let v = chars_of(s);
    let n = v.len();
    let mut k: usize = 0;
    let mut done = false;
    assert(s@.skip(0) =~= s@);
    while k < n && !done
        invariant
            k <= n,
            n == v@.len(),
            v@ == s@,
            fit_from(s@, width as nat, 0) == fit_from(s@, width as nat, k as nat),
            done ==> k < n && text_cols(s@.take(k + 1)) > width,
            printable_ascii(s@) ==> k <= width,
            printable_ascii(s@) && done ==> k + 1 > width,
        decreases n - k + (if done { 0int } else { 1int }),
    {
        let next = string_of(&sub_vec(&v, 0, k + 1));
        assert(v@.subrange(0, k + 1) == s@.take(k + 1));
        proof {
            if printable_ascii(s@) {
                assert(printable_ascii(next@));
            }
        }
        if columns(next.as_str()) > width {
            done = true;
        } else {
            k = k + 1;
        }
    }
    let kept = string_of(&sub_vec(&v, 0, k));
    assert(v@.subrange(0, k as int) == s@.take(k as int));
    assert(fit_from(s@, width as nat, 0) == k);
    proof {
        if printable_ascii(s@) {
            assert(printable_ascii(kept@));
        }
    }
    let used = columns(kept.as_str());
    let pad: usize = if width >= used {
        width - used
    } else {
        0
    };
    let mut r = kept;
    let ghost base = r@;
    let mut i: usize = 0;
    while i < pad
        invariant
            i <= pad,
            r@ == base + Seq::new(i as nat, |j: int| ' '),
        decreases pad - i,
    {
        push_char(&mut r, ' ');
        assert(base + Seq::new((i + 1) as nat, |j: int| ' ') =~= (base + Seq::new(
            i as nat,
            |j: int| ' ',
        )).push(' '));
        i = i + 1;
    }
    proof {
        if printable_ascii(s@) {
            assert(used == k);
            if done {
                assert(k == width);
                assert(r@ =~= padded(s@, width as nat));
            } else {
                assert(k == n);
                assert(s@.take(k as int) =~= s@);
                assert(r@ =~= padded(s@, width as nat));
            }
        } else {
            assert(r@ =~= cut_to_cols(s@, width as nat));
        }
    }
    r
}

/// Every cell is exactly as wide as asked.
pub proof fn law_padded_width(s: Seq<char>, width: nat)
    ensures
        padded(s, width).len() == width,
        s.len() <= width ==> padded(s, width).take(s.len() as int) == s,
{
    if s.len() <= width {
        assert(padded(s, width).take(s.len() as int) =~= s);
    }
}

/// How many cards fit in one row of the given inner width (at least one).
pub fn cards_per_row(inner_w: usize) -> (r: usize)
    requires
        inner_w < usize::MAX,
    ensures
        r == if (inner_w + 1) / (CARD_TOTAL + 1) >= 1 {
            ((inner_w + 1) / (CARD_TOTAL + 1)) as usize
        } else {
            1usize
        },
{
    let per = (inner_w + 1) / (CARD_TOTAL + 1);
    if per >= 1 {
        per
    } else {
        1
    }
}

/// Left padding that centres `n` cards (one space between neighbours) in the inner width.
pub fn cards_left_pad(n: usize, inner_w: usize) -> (r: usize)
    requires
        n * CARD_TOTAL + n <= usize::MAX,
    ensures
        r == (if inner_w >= n * CARD_TOTAL + (if n > 0 { n - 1 } else { 0 }) {
            inner_w - (n * CARD_TOTAL + (if n > 0 { n - 1 } else { 0 }))
        } else {
            0
        }) / 2,
{
    let total = n * CARD_TOTAL + (if n > 0 { n - 1 } else { 0 });
    let free = if inner_w >= total { inner_w - total } else { 0 };
    free / 2
}

/// The gap names in display order after a snapshot: the old order, then each name of the
/// snapshot's gaps not yet listed, in the snapshot's order.
pub open spec fn merged_order(order: Seq<Seq<char>>, names: Seq<Seq<char>>) -> Seq<Seq<char>>
    decreases names.len(),
{
    if names.len() == 0 {
        order
    } else {
        let before = merged_order(order, names.drop_last());
        if before.contains(names.last()) {
            before
        } else {
            before.push(names.last())
        }
    }
}

pub open spec fn snapshot_names(s: BlackboardSnapshot) -> Seq<Seq<char>> {
    s.gaps@.map_values(|p: (u128, Gap)| p.1@.name)
}

/// Appends to `order` the names of the snapshot's gaps it does not hold yet.
pub fn merge_gap_order(order: &mut Vec<String>, snap: &BlackboardSnapshot)
    ensures
        crate::text::texts(final(order)@) == merged_order(
            crate::text::texts(old(order)@),
            snapshot_names(*snap),
        ),
{
    let ghost names = snapshot_names(*snap);
    let ghost start = crate::text::texts(order@);
    let n = snap.gaps.len();
    for i in 0..n
        invariant
            n == snap.gaps@.len(),
            names == snapshot_names(*snap),
            crate::text::texts(order@) == merged_order(start, names.take(i as int)),
    {
        let name = &snap.gaps[i].1.name;
        assert(names.take(i + 1).drop_last() =~= names.take(i as int));
        assert(names.take(i + 1).last() == name@);
        let mut found = false;
        let m = order.len();
        for j in 0..m
            invariant
                m == order@.len(),
                found == exists|k: int| 0 <= k < j && (#[trigger] order@[k])@ == name@,
        {
            if order[j].eq(name) {
                found = true;
            }
        }
        proof {
            let t = crate::text::texts(order@);
            if found {
                let k = choose|k: int| 0 <= k < m && (#[trigger] order@[k])@ == name@;
                assert(t[k] == name@);
                assert(t.contains(name@));
            } else {
                assert forall|k: int| 0 <= k < t.len() implies t[k] != name@ by {
                    assert(t[k] == order@[k]@);
                }
            }
        }
        if !found {
            let ghost before = order@;
            order.push(name.clone());
            proof {
                crate::text::lemma_texts_push(before, order@.last());
                assert(order@ == before.push(order@.last()));
            }
        }
    }
    assert(names.take(n as int) == names);
}

/// The number of the snapshot's gaps in each state: (blocked, ready, running, done).
pub open spec fn state_counts(gaps: Seq<(u128, Gap)>) -> (nat, nat, nat, nat)
    decreases gaps.len(),
{
    if gaps.len() == 0 {
        (0, 0, 0, 0)
    } else {
        let c = state_counts(gaps.drop_last());
        match gaps.last().1.state {
            GapState::Blocked => ((c.0 + 1) as nat, c.1, c.2, c.3),
            GapState::Ready => (c.0, (c.1 + 1) as nat, c.2, c.3),
            GapState::Assigned => (c.0, c.1, (c.2 + 1) as nat, c.3),
            GapState::Closed => (c.0, c.1, c.2, (c.3 + 1) as nat),
        }
    }
}

proof fn lemma_state_counts_sum(gaps: Seq<(u128, Gap)>)
    ensures
        state_counts(gaps).0 + state_counts(gaps).1 + state_counts(gaps).2 + state_counts(gaps).3
            == gaps.len(),
    decreases gaps.len(),
{
    if gaps.len() > 0 {
        lemma_state_counts_sum(gaps.drop_last());
    }
}

/// Counts the snapshot's gaps by state.
pub fn count_states(snap: &BlackboardSnapshot) -> (r: (usize, usize, usize, usize))
    ensures
        (r.0 as nat, r.1 as nat, r.2 as nat, r.3 as nat) == state_counts(snap.gaps@),
{
    let mut b: usize = 0;
    let mut rd: usize = 0;
    let mut a: usize = 0;
    let mut d: usize = 0;
    let n = snap.gaps.len();
    for i in 0..n
        invariant
            n == snap.gaps@.len(),
            (b as nat, rd as nat, a as nat, d as nat) == state_counts(snap.gaps@.take(i as int)),
    {
        assert(snap.gaps@.take(i + 1).drop_last() == snap.gaps@.take(i as int));
        proof {
            lemma_state_counts_sum(snap.gaps@.take(i as int));
        }
        match snap.gaps[i].1.state {
            GapState::Blocked => b = b + 1,
            GapState::Ready => rd = rd + 1,
            GapState::Assigned => a = a + 1,
            GapState::Closed => d = d + 1,
        }
    }
    assert(snap.gaps@.take(n as int) == snap.gaps@);
    (b, rd, a, d)
}

// ── Answering a human prompt ──────────────────────────────────────────────────

/// What the human is being asked.
#[derive(Clone, Copy, PartialEq, Eq, Structural, Debug)]
pub enum AttentionKind {
    Approval,
    Question,
}

/// A key press, as far as the prompt cares.
pub enum Key {
    Backspace,
    Char(char),
    Enter,
    /// Select the previous pending request.
    Up,
    /// Select the next pending request.
    Down,
    Other,
}

/// The reply a finished prompt sends back.
pub enum Reply {
    Approval(bool),
    Answer(String),
}

/// The typed text approves when, trimmed, it is "y" in either case.
pub open spec fn approves(buf: Seq<char>) -> bool {
    trim(buf) == seq!['y'] || trim(buf) == seq!['Y']
}

/// Applies a key press to the input buffer while the human is asked something (nothing happens
/// when nothing is asked): Backspace deletes the last character, a character is appended, and
/// Enter empties the buffer and gives the reply — an approval when the trimmed text is "y" or
/// "Y", or the trimmed text as the answer.
pub fn handle_key(buf: &mut String, attention: Option<AttentionKind>, key: Key) -> (r: Option<Reply>)
    ensures
        attention is None ==> final(buf)@ == old(buf)@ && r is None,
        attention is Some ==> match key {
            Key::Backspace => r is None && final(buf)@ == (if old(buf)@.len() > 0 {
                old(buf)@.drop_last()
            } else {
                old(buf)@
            }),
            Key::Char(c) => r is None && final(buf)@ == old(buf)@.push(c),
            Key::Enter => final(buf)@.len() == 0 && match attention {
                Some(AttentionKind::Approval) => r matches Some(Reply::Approval(b)) && b == approves(
                    old(buf)@,
                ),
                Some(AttentionKind::Question) => r matches Some(Reply::Answer(t)) && t@ == trim(
                    old(buf)@,
                ),
                None => true,
            },
            Key::Up | Key::Down | Key::Other => r is None && final(buf)@ == old(buf)@,
        },
{
    let kind = match attention {
        Some(k) => k,
        None => {
            return None;
        },
    };
    match key {
        Key::Backspace => {
            let v = chars_of(buf.as_str());
            if v.len() > 0 {
                *buf = string_of(&sub_vec(&v, 0, v.len() - 1));
            }
            None
        },
        Key::Char(c) => {
            push_char(buf, c);
            None
        },
        Key::Enter => {
            let text = trim_vec(&chars_of(buf.as_str()));
            *buf = String::new();
            match kind {
                AttentionKind::Approval => {
                    let yes = text.len() == 1 && (text[0] == 'y' || text[0] == 'Y');
                    assert(yes == approves(old(buf)@)) by {
                        if text@.len() == 1 {
                            assert(text@ == seq![text@[0]]);
                        }
                    }
                    Some(Reply::Approval(yes))
                },
                AttentionKind::Question => Some(Reply::Answer(string_of(&text))),
            }
        },
        Key::Up | Key::Down | Key::Other => None,
    }
}

// ── The prompt line ───────────────────────────────────────────────────────────

/// What a line typed at the prompt asks for.
pub enum Command {
    /// Nothing was typed.
    Nothing,
    /// "exit" or "quit": leave the program.
    Quit,
    /// Run this query.
    Query(String),
}

/// The command in a typed line: its trailing whitespace is dropped; an empty line asks for
/// nothing, "exit" and "quit" end the program, and anything else is a query.
pub fn read_command(raw: &str) -> (c: Command)
    ensures
        match c {
            Command::Nothing => trim_end(raw@).len() == 0,
            Command::Quit => trim_end(raw@) == "exit"@ || trim_end(raw@) == "quit"@,
            Command::Query(q) => q@ == trim_end(raw@) && q@.len() > 0 && q@ != "exit"@ && q@ != "quit"@,
        },
{
    let v = chars_of(raw);
    let mut j = v.len();
    assert(v@.subrange(0, j as int) =~= v@);
    while j > 0 && is_whitespace(v[j - 1])
        invariant
            j <= v@.len(),
            v@ == raw@,
            trim_end(raw@) == trim_end(v@.subrange(0, j as int)),
        decreases j,
    {
        assert(v@.subrange(0, j as int).drop_last() =~= v@.subrange(0, j - 1));
        j = j - 1;
    }
    let line = string_of(&sub_vec(&v, 0, j));
    if j == 0 {
        return Command::Nothing;
    }
    if line.eq(&String::from_str("exit")) || line.eq(&String::from_str("quit")) {
        return Command::Quit;
    }
    Command::Query(line)
}

} // verus!
