//! Character-level string helpers shared by the scanner, the parsers and the layout code.
use vstd::prelude::*;
use vstd::string::*;

verus! {

broadcast use vstd::string::group_string_axioms;

/// `pat` occurs in `hay` starting at position `i`.
pub open spec fn occurs_at(hay: Seq<char>, pat: Seq<char>, i: int) -> bool {
    &&& 0 <= i
    &&& i + pat.len() <= hay.len()
    &&& hay.subrange(i, i + pat.len()) == pat
}

/// `pat` occurs somewhere in `hay` (the meaning of `str::contains` on a string pattern).
pub open spec fn occurs_in(hay: Seq<char>, pat: Seq<char>) -> bool {
    exists|i: int| occurs_at(hay, pat, i)
}

/// The characters of a string slice, in order.
pub fn chars_of(s: &str) -> (v: Vec<char>)
    ensures
        v@ == s@,
{
    let mut v: Vec<char> = Vec::new();
    for c in it: s.chars()
        invariant
            it.seq() == s@,
            v@ == it.seq().take(it.index()),
    {
        v.push(c);
    }
    v
}

/// Appends one character to a string.
#[verifier::external_body]
pub(crate) fn push_char(s: &mut String, c: char)
    ensures
        final(s)@ == old(s)@.push(c),
{
    s.push(c);
}

/// A string holding exactly the given characters.
pub fn string_of(v: &Vec<char>) -> (s: String)
    ensures
        s@ == v@,
{
    let mut s = String::new();
    let n = v.len();
    for i in 0..n
        invariant
            n == v@.len(),
            s@ == v@.take(i as int),
    {
        push_char(&mut s, v[i]);
        assert(v@.take(i + 1) == v@.take(i as int).push(v@[i as int]));
    }
    assert(v@.take(n as int) == v@);
    s
}

/// Whether `pat` occurs at position `i` of `hay`.
pub fn matches_at(hay: &Vec<char>, pat: &Vec<char>, i: usize) -> (b: bool)
    requires
        i <= hay@.len(),
    ensures
        b == occurs_at(hay@, pat@, i as int),
{
    if pat.len() > hay.len() - i {
        return false;
    }
    let m = pat.len();
    for j in 0..m
        invariant
            m == pat@.len(),
            i + m <= hay@.len(),
            hay@.len() <= usize::MAX,
            forall|k: int| 0 <= k < j ==> hay@[i + k] == pat@[k],
    {
        if hay[i + j] != pat[j] {
            assert(hay@.subrange(i as int, i + m)[j as int] != pat@[j as int]);
            return false;
        }
    }
    assert(hay@.subrange(i as int, i + m) =~= pat@);
    true
}

/// Whether `pat` occurs anywhere in `hay`.
pub fn contains_seq(hay: &Vec<char>, pat: &Vec<char>) -> (b: bool)
    ensures
        b == occurs_in(hay@, pat@),
{
    let n = hay.len();
    let mut i: usize = 0;
    while i <= n
        invariant
            n == hay@.len(),
            forall|k: int| 0 <= k < i ==> !occurs_at(hay@, pat@, k),
        decreases n + 1 - i,
    {
        if matches_at(hay, pat, i) {
            return true;
        }
        if i == n {
            assert forall|k: int| !occurs_at(hay@, pat@, k) by {
                if 0 <= k && k < n {
                }
            }
            return false;
        }
        i = i + 1;
    }
    false
}

/// Whether `pat` occurs in the string slice `s`.
pub fn str_contains(s: &str, pat: &str) -> (b: bool)
    ensures
        b == occurs_in(s@, pat@),
{
    let h = chars_of(s);
    let p = chars_of(pat);
    contains_seq(&h, &p)
}

/// The decimal digit character for `d < 10`.
pub open spec fn digit_char(d: nat) -> char {
    (48 + d) as char
}

/// The decimal representation of `n`, most significant digit first, without leading zeros.
pub open spec fn decimal(n: nat) -> Seq<char>
    decreases n,
{
    if n < 10 {
        seq![digit_char(n)]
    } else {
        decimal(n / 10).push(digit_char(n % 10))
    }
}

fn digit(d: u64) -> (c: char)
    requires
        d < 10,
    ensures
        c == digit_char(d as nat),
{
    let b: u8 = d as u8;
    ((48u8 + b) as char)
}

/// Appends the decimal representation of `n` to `s`.
pub fn push_decimal(s: &mut String, n: u64)
    ensures
        final(s)@ == old(s)@ + decimal(n as nat),
    decreases n,
{
    if n >= 10 {
        push_decimal(s, n / 10);
    }
    push_char(s, digit(n % 10));
    assert(decimal(n as nat) == if n < 10 { seq![digit_char(n as nat)] } else {
        decimal((n / 10) as nat).push(digit_char((n % 10) as nat))
    });
}

/// The decimal representation of `n` as a string.
pub fn decimal_string(n: u64) -> (s: String)
    ensures
        s@ == decimal(n as nat),
{
    let mut s = String::new();
    push_decimal(&mut s, n);
    s
}

/// The lowercase hexadecimal digit character for `d < 16`.
pub open spec fn hex_char(d: nat) -> char {
    if d < 10 {
        (48 + d) as char
    } else {
        (87 + d) as char
    }
}

/// The lowest `count` hexadecimal digits of `n`, most significant first, zero-padded.
pub open spec fn hex_digits(n: nat, count: nat) -> Seq<char>
    decreases count,
{
    if count == 0 {
        Seq::empty()
    } else {
        hex_digits(n / 16, (count - 1) as nat).push(hex_char(n % 16))
    }
}

/// The hyphenated lowercase text of a 128-bit identifier (8-4-4-4-12 hex digits).
pub open spec fn uuid_text(id: u128) -> Seq<char> {
    let h = hex_digits(id as nat, 32);
    h.subrange(0, 8) + "-"@ + h.subrange(8, 12) + "-"@ + h.subrange(12, 16) + "-"@ + h.subrange(
        16,
        20,
    ) + "-"@ + h.subrange(20, 32)
}

proof fn lemma_hex_digits_len(n: nat, count: nat)
    ensures
        hex_digits(n, count).len() == count,
    decreases count,
{
    if count > 0 {
        lemma_hex_digits_len(n / 16, (count - 1) as nat);
    }
}

fn hex_digit(d: u128) -> (c: char)
    requires
        d < 16,
    ensures
        c == hex_char(d as nat),
{
    let b: u8 = d as u8;
    if b < 10 {
        (48u8 + b) as char
    } else {
        (87u8 + b) as char
    }
}

fn push_hex(v: &mut Vec<char>, n: u128, count: u32)
    ensures
        final(v)@ == old(v)@ + hex_digits(n as nat, count as nat),
    decreases count,
{
    if count > 0 {
        push_hex(v, n / 16, count - 1);
        v.push(hex_digit(n % 16));
    }
}

/// Appends `v[from..to]` to `s`.
pub fn push_range(s: &mut String, v: &Vec<char>, from: usize, to: usize)
    requires
        from <= to <= v@.len(),
    ensures
        final(s)@ == old(s)@ + v@.subrange(from as int, to as int),
{
    let mut i = from;
    while i < to
        invariant
            from <= i <= to <= v@.len(),
            s@ == old(s)@ + v@.subrange(from as int, i as int),
        decreases to - i,
    {
        push_char(s, v[i]);
        assert(v@.subrange(from as int, i + 1) == v@.subrange(from as int, i as int).push(
            v@[i as int],
        ));
        i = i + 1;
    }
}

/// The hyphenated lowercase text of a 128-bit identifier.
pub fn uuid_string(id: u128) -> (s: String)
    ensures
        s@ == uuid_text(id),
{
    let mut h: Vec<char> = Vec::new();
    push_hex(&mut h, id, 32);
    proof {
        lemma_hex_digits_len(id as nat, 32);
        assert(h@ == hex_digits(id as nat, 32));
    }
    let mut s = String::new();
    push_range(&mut s, &h, 0, 8);
    s.append("-");
    push_range(&mut s, &h, 8, 12);
    s.append("-");
    push_range(&mut s, &h, 12, 16);
    s.append("-");
    push_range(&mut s, &h, 16, 20);
    s.append("-");
    push_range(&mut s, &h, 20, 32);
    s
}

/// The Unicode White_Space property, which `char::is_whitespace` and `str::trim` use.
pub open spec fn is_ws(c: char) -> bool {
    let u = c as u32;
    ||| 0x9 <= u <= 0xd
    ||| u == 0x20
    ||| u == 0x85
    ||| u == 0xa0
    ||| u == 0x1680
    ||| 0x2000 <= u <= 0x200a
    ||| u == 0x2028
    ||| u == 0x2029
    ||| u == 0x202f
    ||| u == 0x205f
    ||| u == 0x3000
}

pub fn is_whitespace(c: char) -> (b: bool)
    ensures
        b == is_ws(c),
{
    let u = c as u32;
    (0x9 <= u && u <= 0xd) || u == 0x20 || u == 0x85 || u == 0xa0 || u == 0x1680 || (0x2000 <= u
        && u <= 0x200a) || u == 0x2028 || u == 0x2029 || u == 0x202f || u == 0x205f || u == 0x3000
}

/// `s` without its leading whitespace.
pub open spec fn trim_start(s: Seq<char>) -> Seq<char>
    decreases s.len(),
{
    if s.len() > 0 && is_ws(s[0]) {
        trim_start(s.drop_first())
    } else {
        s
    }
}

/// `s` without its trailing whitespace.
pub open spec fn trim_end(s: Seq<char>) -> Seq<char>
    decreases s.len(),
{
    if s.len() > 0 && is_ws(s.last()) {
        trim_end(s.drop_last())
    } else {
        s
    }
}

/// `s` without leading and trailing whitespace (what `str::trim` gives).
pub open spec fn trim(s: Seq<char>) -> Seq<char> {
    trim_end(trim_start(s))
}

/// `s` begins with `p`.
pub open spec fn starts_with(s: Seq<char>, p: Seq<char>) -> bool {
    p.len() <= s.len() && s.take(p.len() as int) == p
}

/// `s` ends with `p`.
pub open spec fn ends_with(s: Seq<char>, p: Seq<char>) -> bool {
    p.len() <= s.len() && s.skip(s.len() - p.len()) == p
}

/// The bounds `(i, j)` with `v[i..j] == trim(v)`.
pub fn trim_bounds(v: &Vec<char>) -> (r: (usize, usize))
    ensures
        r.0 <= r.1 <= v@.len(),
        v@.subrange(r.0 as int, r.1 as int) == trim(v@),
{
    let n = v.len();
    let mut i: usize = 0;
    assert(v@.subrange(0, n as int) == v@);
    while i < n && is_whitespace(v[i])
        invariant
            i <= n == v@.len(),
            trim_start(v@) == trim_start(v@.subrange(i as int, n as int)),
        decreases n - i,
    {
        assert(v@.subrange(i as int, n as int).drop_first() == v@.subrange(i + 1, n as int));
        i = i + 1;
    }
    assert(trim_start(v@.subrange(i as int, n as int)) == v@.subrange(i as int, n as int));
    let mut j: usize = n;
    while j > i && is_whitespace(v[j - 1])
        invariant
            i <= j <= n == v@.len(),
            trim(v@) == trim_end(v@.subrange(i as int, j as int)),
        decreases j,
    {
        assert(v@.subrange(i as int, j as int).drop_last() == v@.subrange(i as int, j - 1));
        j = j - 1;
    }
    (i, j)
}

/// `s` without leading and trailing whitespace.
pub fn trim_str(s: &str) -> (r: &str)
    ensures
        r@ == trim(s@),
{
    let v = chars_of(s);
    let (i, j) = trim_bounds(&v);
    s.substring_char(i, j)
}

/// The characters of each string, in order.
pub open spec fn texts(v: Seq<String>) -> Seq<Seq<char>> {
    v.map_values(|s: String| s@)
}

pub proof fn lemma_texts_push(v: Seq<String>, x: String)
    ensures
        texts(v.push(x)) == texts(v).push(x@),
{
    assert(texts(v.push(x)) =~= texts(v).push(x@));
}

/// `parts` joined with `sep` between neighbours (what `[String]::join` gives).
pub open spec fn join(parts: Seq<Seq<char>>, sep: Seq<char>) -> Seq<char>
    decreases parts.len(),
{
    if parts.len() == 0 {
        Seq::empty()
    } else if parts.len() == 1 {
        parts[0]
    } else {
        join(parts.drop_last(), sep) + sep + parts.last()
    }
}

/// `parts` joined with `sep` between neighbours.
pub fn join_strings(parts: &Vec<String>, sep: &str) -> (r: String)
    ensures
        r@ == join(texts(parts@), sep@),
{
    let mut r = String::new();
    let n = parts.len();
    for i in 0..n
        invariant
            n == parts@.len(),
            r@ == join(texts(parts@.take(i as int)), sep@),
    {
        assert(texts(parts@.take(i + 1)).drop_last() =~= texts(parts@.take(i as int)));
        assert(texts(parts@.take(i + 1)).last() == parts@[i as int]@);
        if i > 0 {
            r.append(sep);
        } else {
            assert(r@ == Seq::<char>::empty());
        }
        r.append(parts[i].as_str());
    }
    assert(parts@.take(n as int) == parts@);
    r
}

/// The characters `v[from..to]`.
pub fn sub_vec(v: &Vec<char>, from: usize, to: usize) -> (r: Vec<char>)
    requires
        from <= to <= v@.len(),
    ensures
        r@ == v@.subrange(from as int, to as int),
{
    let mut r: Vec<char> = Vec::new();
    let mut x = from;
    while x < to
        invariant
            from <= x <= to <= v@.len(),
            r@ == v@.subrange(from as int, x as int),
        decreases to - x,
    {
        r.push(v[x]);
        assert(v@.subrange(from as int, x + 1) == v@.subrange(from as int, x as int).push(v@[x as int]));
        x = x + 1;
    }
    r
}

/// `s` with every leading repetition of `p` removed (what `str::trim_start_matches` gives).
pub open spec fn strip_leading(s: Seq<char>, p: Seq<char>) -> Seq<char>
    decreases s.len(),
{
    if p.len() > 0 && starts_with(s, p) {
        strip_leading(s.skip(p.len() as int), p)
    } else {
        s
    }
}

/// `s` with every trailing repetition of `p` removed (what `str::trim_end_matches` gives).
pub open spec fn strip_trailing(s: Seq<char>, p: Seq<char>) -> Seq<char>
    decreases s.len(),
{
    if p.len() > 0 && ends_with(s, p) {
        strip_trailing(s.take(s.len() - p.len()), p)
    } else {
        s
    }
}

/// `v` with every leading repetition of `p` removed.
pub fn strip_leading_vec(v: &Vec<char>, p: &str) -> (r: Vec<char>)
    ensures
        r@ == strip_leading(v@, p@),
{
    let pv = chars_of(p);
    let n = v.len();
    let mut i: usize = 0;
    assert(v@.subrange(0, n as int) == v@);
    while pv.len() > 0 && pv.len() <= n - i && matches_at(v, &pv, i)
        invariant
            i <= n == v@.len(),
            pv@ == p@,
            strip_leading(v@, p@) == strip_leading(v@.subrange(i as int, n as int), p@),
        decreases n - i,
    {
        proof {
            let rest = v@.subrange(i as int, n as int);
            assert(rest.take(pv@.len() as int) == v@.subrange(i as int, i + pv@.len()));
            assert(rest.skip(pv@.len() as int) == v@.subrange(i + pv@.len(), n as int));
        }
        i = i + pv.len();
    }
    proof {
        let rest = v@.subrange(i as int, n as int);
        if pv@.len() > 0 && starts_with(rest, p@) {
            assert(rest.take(pv@.len() as int) == v@.subrange(i as int, i + pv@.len()));
        }
    }
    sub_vec(v, i, n)
}

/// `v` with every trailing repetition of `p` removed.
pub fn strip_trailing_vec(v: &Vec<char>, p: &str) -> (r: Vec<char>)
    ensures
        r@ == strip_trailing(v@, p@),
{
    let pv = chars_of(p);
    let n = v.len();
    let mut j: usize = n;
    assert(v@.subrange(0, n as int) == v@);
    while pv.len() > 0 && pv.len() <= j && matches_at(v, &pv, j - pv.len())
        invariant
            j <= n == v@.len(),
            pv@ == p@,
            strip_trailing(v@, p@) == strip_trailing(v@.subrange(0, j as int), p@),
        decreases j,
    {
        proof {
            let pre = v@.subrange(0, j as int);
            assert(pre.skip(j - pv@.len()) == v@.subrange(j - pv@.len(), j as int));
            assert(pre.take(j - pv@.len()) == v@.subrange(0, j - pv@.len()));
        }
        j = j - pv.len();
    }
    proof {
        let pre = v@.subrange(0, j as int);
        if pv@.len() > 0 && ends_with(pre, p@) {
            assert(pre.skip(j - pv@.len()) == v@.subrange(j - pv@.len(), j as int));
        }
    }
    sub_vec(v, 0, j)
}

/// `v` without leading and trailing whitespace.
pub fn trim_vec(v: &Vec<char>) -> (r: Vec<char>)
    ensures
        r@ == trim(v@),
{
    let (i, j) = trim_bounds(v);
    sub_vec(v, i, j)
}

} // verus!
