//! Remote providers and their configuration file.
use vstd::prelude::*;
use vstd::string::*;
use crate::text::{
    chars_of, string_of, strip_leading, strip_leading_vec, strip_trailing, strip_trailing_vec,
    sub_vec, trim, trim_vec,
};

pub mod openrouter;

verus! {

/// `s` split at every '\n' (what `str::split('\n')` gives: always at least one piece).
pub open spec fn split_lines(s: Seq<char>) -> Seq<Seq<char>>
    decreases s.len(),
{
    if s.len() == 0 {
        seq![Seq::empty()]
    } else if s.last() == '\n' {
        split_lines(s.drop_last()).push(Seq::empty())
    } else {
        let p = split_lines(s.drop_last());
        p.update(p.len() - 1, p.last().push(s.last()))
    }
}

/// The lines of `s` as `str::split_terminator('\n')` gives them: a final empty piece is dropped.
pub open spec fn terminated_lines(s: Seq<char>) -> Seq<Seq<char>> {
    let p = split_lines(s);
    if p.last().len() == 0 {
        p.drop_last()
    } else {
        p
    }
}

proof fn lemma_split_lines_nonempty(s: Seq<char>)
    ensures
        split_lines(s).len() >= 1,
    decreases s.len(),
{
    if s.len() > 0 {
        lemma_split_lines_nonempty(s.drop_last());
    }
}

/// The index of the first `c` in `s`, if any.
pub open spec fn first_index(s: Seq<char>, c: char) -> Option<int>
    decreases s.len(),
{
    if s.len() == 0 {
        None
    } else if s[0] == c {
        Some(0)
    } else {
        match first_index(s.drop_first(), c) {
            Some(i) => Some(i + 1),
            None => None,
        }
    }
}

/// `s` with every leading and trailing `c` removed (what `str::trim_matches(c)` gives).
pub open spec fn trim_char(s: Seq<char>, c: char) -> Seq<char> {
    strip_trailing(strip_leading(s, seq![c]), seq![c])
}

/// The setting a configuration line defines: lines are trimmed; empty lines, comments ('#')
/// and lines without '=' define nothing; the key is the trimmed text before the first '=',
/// the value the trimmed text after it with surrounding double, then single, quotes removed;
/// an empty key defines nothing.
pub open spec fn dotenv_entry(raw: Seq<char>) -> Option<(Seq<char>, Seq<char>)> {
    let line = trim(raw);
    if line.len() == 0 || line[0] == '#' {
        None
    } else {
        match first_index(line, '=') {
            None => None,
            Some(i) => {
                let key = trim(line.take(i));
                let value = trim_char(trim_char(trim(line.skip(i + 1)), '"'), '\'');
                if key.len() == 0 {
                    None
                } else {
                    Some((key, value))
                }
            },
        }
    }
}

/// The settings of the lines, in order.
pub open spec fn dotenv_entries(lines: Seq<Seq<char>>) -> Seq<(Seq<char>, Seq<char>)>
    decreases lines.len(),
{
    if lines.len() == 0 {
        Seq::empty()
    } else {
        match dotenv_entry(lines.last()) {
            Some(e) => dotenv_entries(lines.drop_last()).push(e),
            None => dotenv_entries(lines.drop_last()),
        }
    }
}

pub open spec fn pairs_view(v: Seq<(String, String)>) -> Seq<(Seq<char>, Seq<char>)> {
    v.map_values(|p: (String, String)| (p.0@, p.1@))
}

fn text_lines(v: &Vec<char>) -> (r: Vec<Vec<char>>)
    ensures
        r@.map_values(|l: Vec<char>| l@) == terminated_lines(v@),
{
    let mut done: Vec<Vec<char>> = Vec::new();
    let mut cur: Vec<char> = Vec::new();
    let n = v.len();
    for i in 0..n
        invariant
            n == v@.len(),
            done@.map_values(|l: Vec<char>| l@).push(cur@) == split_lines(v@.take(i as int)),
    {
        assert(v@.take(i + 1).drop_last() == v@.take(i as int));
        assert(v@.take(i + 1).last() == v@[i as int]);
        let ghost before = done@.map_values(|l: Vec<char>| l@).push(cur@);
        if v[i] == '\n' {
            let mut finished: Vec<char> = Vec::new();
            std::mem::swap(&mut finished, &mut cur);
            done.push(finished);
            assert(done@.map_values(|l: Vec<char>| l@).push(cur@) =~= before.push(Seq::empty()));
        } else {
            let ghost cur_before = cur@;
            cur.push(v[i]);
            assert(done@.map_values(|l: Vec<char>| l@).push(cur@) =~= before.update(
                before.len() - 1,
                cur_before.push(v@[i as int]),
            ));
        }
    }
    assert(v@.take(n as int) == v@);
    if cur.len() > 0 {
        done.push(cur);
    }
    assert(done@.map_values(|l: Vec<char>| l@) =~= terminated_lines(v@));
    done
}

fn first_index_of(v: &Vec<char>, c: char) -> (r: Option<usize>)
    ensures
        r matches Some(i) ==> i < v@.len() && first_index(v@, c) == Some(i as int),
        r is None ==> first_index(v@, c) is None,
{
    let n = v.len();
    for i in 0..n
        invariant
            n == v@.len(),
            forall|j: int| 0 <= j < i ==> v@[j] != c,
    {
        if v[i] == c {
            proof {
                lemma_first_index(v@, c, i as int);
            }
            return Some(i);
        }
    }
    proof {
        lemma_first_index_none(v@, c);
    }
    None
}

proof fn lemma_first_index(s: Seq<char>, c: char, i: int)
    requires
        0 <= i < s.len(),
        s[i] == c,
        forall|j: int| 0 <= j < i ==> s[j] != c,
    ensures
        first_index(s, c) == Some(i),
    decreases i,
{
    if i > 0 {
        lemma_first_index(s.drop_first(), c, i - 1);
    }
}

proof fn lemma_first_index_none(s: Seq<char>, c: char)
    requires
        forall|j: int| 0 <= j < s.len() ==> s[j] != c,
    ensures
        first_index(s, c) is None,
    decreases s.len(),
{
    if s.len() > 0 {
        lemma_first_index_none(s.drop_first(), c);
    }
}

fn trim_char_vec(v: &Vec<char>, c: &str) -> (r: Vec<char>)
    requires
        c@.len() == 1,
    ensures
        r@ == strip_trailing(strip_leading(v@, c@), c@),
{
    let a = strip_leading_vec(v, c);
    strip_trailing_vec(&a, c)
}

fn line_entry(line: &Vec<char>) -> (r: Option<(String, String)>)
    ensures
        match dotenv_entry(line@) {
            Some(e) => r matches Some(p) && p.0@ == e.0 && p.1@ == e.1,
            None => r is None,
        },
{
    let t = trim_vec(line);
    if t.len() == 0 || t[0] == '#' {
        return None;
    }
    match first_index_of(&t, '=') {
        None => None,
        Some(i) => {
            let key = trim_vec(&sub_vec(&t, 0, i));
            let rest = trim_vec(&sub_vec(&t, i + 1, t.len()));
            proof {
                reveal_strlit("\"");
                reveal_strlit("'");
                assert(t@.take(i as int) == t@.subrange(0, i as int));
                assert(t@.skip(i + 1) == t@.subrange(i + 1, t@.len() as int));
            }
            let unq = trim_char_vec(&rest, "\"");
            let value = trim_char_vec(&unq, "'");
            assert("\""@ == seq!['"']);
            assert("'"@ == seq!['\'']);
            assert(first_index(trim(line@), '=') == Some(i as int));
            assert(key@ == trim(trim(line@).take(i as int)));
            assert(rest@ == trim(trim(line@).skip(i + 1)));
            assert(unq@ == trim_char(rest@, '"'));
            assert(value@ == trim_char(unq@, '\''));
            if key.len() == 0 {
                None
            } else {
                Some((string_of(&key), string_of(&value)))
            }
        },
    }
}

/// The settings defined by a configuration file's text, in order (a later setting of a key
/// does not replace an earlier one; the environment keeps the first).
pub fn parse_dotenv(text: &str) -> (r: Vec<(String, String)>)
    ensures
        pairs_view(r@) == dotenv_entries(terminated_lines(text@)),
{
    let v = chars_of(text);
    let lines = text_lines(&v);
    let ghost lv = lines@.map_values(|l: Vec<char>| l@);
    let mut r: Vec<(String, String)> = Vec::new();
    let n = lines.len();
    for i in 0..n
        invariant
            n == lines@.len(),
            lv == lines@.map_values(|l: Vec<char>| l@),
            pairs_view(r@) == dotenv_entries(lv.take(i as int)),
    {
        assert(lv.take(i + 1).drop_last() == lv.take(i as int));
        assert(lv.take(i + 1).last() == lines@[i as int]@);
        let ghost before = r@;
        match line_entry(&lines[i]) {
            Some(p) => {
                r.push(p);
                assert(pairs_view(r@) =~= pairs_view(before).push((r@.last().0@, r@.last().1@)));
            },
            None => {},
        }
    }
    assert(lv.take(n as int) == lv);
    r
}

} // verus!
