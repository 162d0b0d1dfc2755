//! Static pre-flight scanner for generated code: forbidden patterns, size limit, approval triggers.
use vstd::prelude::*;
use vstd::string::*;
use vstd::utf8::encode_utf8;
use crate::text::{chars_of, contains_seq, decimal, occurs_at, occurs_in, push_decimal};

verus! {

/// Scripts larger than this many bytes are rejected outright.
pub const MAX_SCRIPT_SIZE: usize = 65_536;

/// Patterns that reject a script outright, in the order they are checked.
pub open spec fn forbidden_patterns() -> Seq<Seq<char>> {
    seq![
        "import os"@, "import sys"@, "import subprocess"@,
        "curl "@, "wget "@, "nc "@, "ncat "@,
        "rm -rf"@, "mkfs"@, "dd if="@,
    ]
}

/// Patterns that require human approval, each with the category shown in the approval prompt.
pub open spec fn hitl_rules() -> Seq<(Seq<char>, Seq<char>)> {
    seq![
        ("> /dev/tcp"@, "network exfil"@),
        ("| nc "@, "network exfil"@),
        ("| ncat "@, "network exfil"@),
        ("rm -rf /"@, "destructive: filesystem"@),
        ("rm -rf ~"@, "destructive: filesystem"@),
        ("mkfs."@, "destructive: filesystem"@),
        ("dd if="@, "destructive: filesystem"@),
        ("> /etc/"@, "destructive: filesystem"@),
        ("DROP TABLE"@, "destructive: database"@),
        ("DROP DATABASE"@, "destructive: database"@),
        ("TRUNCATE TABLE"@, "destructive: database"@),
        ("smtp."@, "outbound: email"@),
        ("sendgrid."@, "outbound: email"@),
        ("twilio."@, "outbound: sms"@),
        ("mailgun."@, "outbound: email"@),
        ("stripe.charge("@, "financial"@),
        ("stripe.create("@, "financial"@),
        ("paypal.payment("@, "financial"@),
        (".create_payment("@, "financial"@),
    ]
}

/// The first index `k' >= k` of a pattern in `pats` that occurs in `code`, if any.
pub open spec fn first_hit(code: Seq<char>, pats: Seq<Seq<char>>, k: nat) -> Option<nat>
    decreases pats.len() - k,
{
    if k >= pats.len() {
        None
    } else if occurs_in(code, pats[k as int]) {
        Some(k)
    } else {
        first_hit(code, pats, k + 1)
    }
}

/// The outcome of a scan, as a mathematical value.
pub enum Verdict {
    Approved,
    Gated(Seq<char>),
    Rejected(Seq<char>),
}

/// The single verdict of a scan pass.
#[derive(Debug)]
pub enum ScanVerdict {
    /// The code is clean; it may run.
    Approved,
    /// A high-risk action was found; a human must approve before it runs.
    Gated { reason: String },
    /// A hard violation was found; the code must not run.
    Rejected { reason: String },
}

impl View for ScanVerdict {
    type V = Verdict;

    open spec fn view(&self) -> Verdict {
        match self {
            ScanVerdict::Approved => Verdict::Approved,
            ScanVerdict::Gated { reason } => Verdict::Gated(reason@),
            ScanVerdict::Rejected { reason } => Verdict::Rejected(reason@),
        }
    }
}

impl ScanVerdict {
    pub fn is_approved(&self) -> (b: bool)
        ensures
            b == (self@ is Approved),
    {
        match self {
            ScanVerdict::Approved => true,
            _ => false,
        }
    }

    pub fn is_gated(&self) -> (b: bool)
        ensures
            b == (self@ is Gated),
    {
        match self {
            ScanVerdict::Gated { .. } => true,
            _ => false,
        }
    }

    pub fn is_rejected(&self) -> (b: bool)
        ensures
            b == (self@ is Rejected),
    {
        match self {
            ScanVerdict::Rejected { .. } => true,
            _ => false,
        }
    }
}

/// Stage 1: the rejection for the first forbidden pattern found, if any.
pub open spec fn static_verdict(code: Seq<char>) -> Option<Verdict> {
    match first_hit(code, forbidden_patterns(), 0) {
        Some(k) => Some(
            Verdict::Rejected(
                "forbidden pattern in script: `"@ + forbidden_patterns()[k as int] + "`"@,
            ),
        ),
        None => None,
    }
}

/// Stage 2: the rejection for a script of `byte_len` bytes, if it is over the limit.
pub open spec fn size_verdict(byte_len: nat) -> Option<Verdict> {
    if byte_len > MAX_SCRIPT_SIZE {
        Some(
            Verdict::Rejected(
                "script size "@ + decimal(byte_len) + " exceeds limit "@ + decimal(
                    MAX_SCRIPT_SIZE as nat,
                ),
            ),
        )
    } else {
        None
    }
}

/// Stage 3: the approval request for the first high-risk pattern found, if any.
pub open spec fn hitl_verdict(code: Seq<char>) -> Option<Verdict> {
    let pats = hitl_rules().map_values(|r: (Seq<char>, Seq<char>)| r.0);
    match first_hit(code, pats, 0) {
        Some(k) => Some(
            Verdict::Gated(
                hitl_rules()[k as int].1 + ": `"@ + hitl_rules()[k as int].0 + "`"@,
            ),
        ),
        None => None,
    }
}

/// The verdict of a full scan: the first stage that objects decides.
pub open spec fn scan_verdict(code: Seq<char>, byte_len: nat) -> Verdict {
    match static_verdict(code) {
        Some(v) => v,
        None => match size_verdict(byte_len) {
            Some(v) => v,
            None => match hitl_verdict(code) {
                Some(v) => v,
                None => Verdict::Approved,
            },
        },
    }
}

/// The number of bytes of the UTF-8 encoding of `s`, as `str::len` returns it.
pub open spec fn utf8_len(s: Seq<char>) -> nat {
    (encode_utf8(s).len() as usize) as nat
}

fn forbidden_list() -> (v: Vec<&'static str>)
    ensures
        v@.len() == forbidden_patterns().len(),
        forall|i: int| 0 <= i < v@.len() ==> #[trigger] v@[i]@ == forbidden_patterns()[i],
{
    vec![
        "import os", "import sys", "import subprocess",
        "curl ", "wget ", "nc ", "ncat ",
        "rm -rf", "mkfs", "dd if=",
    ]
}

fn hitl_list() -> (v: Vec<(&'static str, &'static str)>)
    ensures
        v@.len() == hitl_rules().len(),
        forall|i: int|
            0 <= i < v@.len() ==> (#[trigger] v@[i]).0@ == hitl_rules()[i].0 && v@[i].1@
                == hitl_rules()[i].1,
{
    vec![
        ("> /dev/tcp", "network exfil"),
        ("| nc ", "network exfil"),
        ("| ncat ", "network exfil"),
        ("rm -rf /", "destructive: filesystem"),
        ("rm -rf ~", "destructive: filesystem"),
        ("mkfs.", "destructive: filesystem"),
        ("dd if=", "destructive: filesystem"),
        ("> /etc/", "destructive: filesystem"),
        ("DROP TABLE", "destructive: database"),
        ("DROP DATABASE", "destructive: database"),
        ("TRUNCATE TABLE", "destructive: database"),
        ("smtp.", "outbound: email"),
        ("sendgrid.", "outbound: email"),
        ("twilio.", "outbound: sms"),
        ("mailgun.", "outbound: email"),
        ("stripe.charge(", "financial"),
        ("stripe.create(", "financial"),
        ("paypal.payment(", "financial"),
        (".create_payment(", "financial"),
    ]
}

/// If no pattern before `k` occurs, the first hit from 0 is the first hit from `k`.
proof fn lemma_first_hit_skip(code: Seq<char>, pats: Seq<Seq<char>>, k: nat)
    requires
        k <= pats.len(),
        forall|j: int| 0 <= j < k ==> !occurs_in(code, #[trigger] pats[j]),
    ensures
        first_hit(code, pats, 0) == first_hit(code, pats, k),
    decreases k,
{
    if k > 0 {
        lemma_first_hit_skip(code, pats, (k - 1) as nat);
    }
}

/// `first_hit` from `k` finds a pattern exactly when some pattern at or after `k` occurs.
proof fn lemma_first_hit_found(code: Seq<char>, pats: Seq<Seq<char>>, k: nat)
    ensures
        first_hit(code, pats, k) is Some <==> exists|j: int|
            k <= j < pats.len() && occurs_in(code, #[trigger] pats[j]),
        first_hit(code, pats, k) matches Some(j) ==> k <= j < pats.len() && occurs_in(
            code,
            pats[j as int],
        ),
    decreases pats.len() - k,
{
    if k < pats.len() {
        lemma_first_hit_found(code, pats, k + 1);
        if !occurs_in(code, pats[k as int]) {
            assert forall|j: int| k <= j < pats.len() && occurs_in(code, #[trigger] pats[j]) implies k
                + 1 <= j by {
                if j == k {
                }
            }
        }
    }
}

/// A script that contains any forbidden pattern is rejected, whatever else it contains
/// (static analysis wins over the size limit and over human approval).
pub proof fn law_forbidden_pattern_always_rejected(code: Seq<char>, byte_len: nat, i: int)
    requires
        0 <= i < forbidden_patterns().len(),
        occurs_in(code, forbidden_patterns()[i]),
    ensures
        scan_verdict(code, byte_len) is Rejected,
{
    lemma_first_hit_found(code, forbidden_patterns(), 0);
}

/// A script over the size limit is never approved nor merely gated.
pub proof fn law_oversized_always_rejected(code: Seq<char>, byte_len: nat)
    requires
        byte_len > MAX_SCRIPT_SIZE,
    ensures
        scan_verdict(code, byte_len) is Rejected,
{
}

/// A script is approved exactly when it holds no forbidden pattern, fits the size limit,
/// and holds no approval pattern.
pub proof fn law_approved_iff_clean(code: Seq<char>, byte_len: nat)
    ensures
        (scan_verdict(code, byte_len) is Approved) <==> ({
            &&& forall|i: int|
                0 <= i < forbidden_patterns().len() ==> !occurs_in(
                    code,
                    #[trigger] forbidden_patterns()[i],
                )
            &&& byte_len <= MAX_SCRIPT_SIZE
            &&& forall|i: int|
                0 <= i < hitl_rules().len() ==> !occurs_in(code, #[trigger] hitl_rules()[i].0)
        }),
{
    lemma_first_hit_found(code, forbidden_patterns(), 0);
    let pats = hitl_rules().map_values(|r: (Seq<char>, Seq<char>)| r.0);
    lemma_first_hit_found(code, pats, 0);
    assert forall|i: int| 0 <= i < hitl_rules().len() implies #[trigger] hitl_rules()[i].0
        == pats[i] by {
    }
}

/// Zero-field scanner: all policy is in the pattern tables and the size limit.
pub struct ArtifactGuard;

impl ArtifactGuard {
    pub fn new() -> (g: ArtifactGuard) {
        ArtifactGuard
    }

    /// Scan a code block for forbidden patterns, size limits, and approval triggers.
    pub fn scan_code(&self, code: &str) -> (v: ScanVerdict)
        ensures
            v@ == scan_verdict(code@, utf8_len(code@)),
    {
        if let Some(v) = self.static_analysis(code) {
            return v;
        }
        if let Some(v) = self.resource_bounds(code) {
            return v;
        }
        if let Some(v) = self.hitl_scan(code) {
            return v;
        }
        ScanVerdict::Approved
    }

    /// Stage 1: reject forbidden patterns.
    pub fn static_analysis(&self, code: &str) -> (r: Option<ScanVerdict>)
        ensures
            r matches Some(v) ==> static_verdict(code@) == Some(v@),
            r is None ==> static_verdict(code@) is None,
    {
        let pats = forbidden_list();
        let hay = chars_of(code);
        let n = pats.len();
        for i in 0..n
            invariant
                n == pats@.len(),
                n == forbidden_patterns().len(),
                hay@ == code@,
                forall|j: int| 0 <= j < pats@.len() ==> #[trigger] pats@[j]@ == forbidden_patterns()[j],
                forall|j: int| 0 <= j < i ==> !occurs_in(code@, #[trigger] forbidden_patterns()[j]),
        {
            let pat = pats[i];
            let p = chars_of(pat);
            if contains_seq(&hay, &p) {
                proof {
                    lemma_first_hit_skip(code@, forbidden_patterns(), i as nat);
                }
                let mut reason = String::from_str("forbidden pattern in script: `");
                reason.append(pat);
                reason.append("`");
                return Some(ScanVerdict::Rejected { reason });
            }
        }
        proof {
            lemma_first_hit_skip(code@, forbidden_patterns(), n as nat);
        }
        None
    }

    /// Stage 2: reject code that exceeds the size limit.
    pub fn resource_bounds(&self, code: &str) -> (r: Option<ScanVerdict>)
        ensures
            r matches Some(v) ==> size_verdict(utf8_len(code@)) == Some(v@),
            r is None ==> size_verdict(utf8_len(code@)) is None,
    {
        let len = code.len();
        if len > MAX_SCRIPT_SIZE {
            let mut reason = String::from_str("script size ");
            push_decimal(&mut reason, len as u64);
            reason.append(" exceeds limit ");
            push_decimal(&mut reason, MAX_SCRIPT_SIZE as u64);
            return Some(ScanVerdict::Rejected { reason });
        }
        None
    }

    /// Stage 3: flag high-risk patterns for human approval.
    pub fn hitl_scan(&self, code: &str) -> (r: Option<ScanVerdict>)
        ensures
            r matches Some(v) ==> hitl_verdict(code@) == Some(v@),
            r is None ==> hitl_verdict(code@) is None,
    {
        let rules = hitl_list();
        let hay = chars_of(code);
        let n = rules.len();
        let ghost pats = hitl_rules().map_values(|r: (Seq<char>, Seq<char>)| r.0);
        for i in 0..n
            invariant
                n == rules@.len(),
                n == hitl_rules().len(),
                pats == hitl_rules().map_values(|r: (Seq<char>, Seq<char>)| r.0),
                hay@ == code@,
                forall|j: int|
                    0 <= j < rules@.len() ==> (#[trigger] rules@[j]).0@ == hitl_rules()[j].0
                        && rules@[j].1@ == hitl_rules()[j].1,
                forall|j: int| 0 <= j < i ==> !occurs_in(code@, #[trigger] pats[j]),
        {
            let (pat, category) = rules[i];
            let p = chars_of(pat);
            assert(pats[i as int] == hitl_rules()[i as int].0);
            if contains_seq(&hay, &p) {
                proof {
                    lemma_first_hit_skip(code@, pats, i as nat);
                }
                let mut reason = String::from_str(category);
                reason.append(": `");
                reason.append(pat);
                reason.append("`");
                return Some(ScanVerdict::Gated { reason });
            }
        }
        proof {
            lemma_first_hit_skip(code@, pats, n as nat);
        }
        None
    }
}

/// Some forbidden pattern occurs in the code.
pub open spec fn has_forbidden(code: Seq<char>) -> bool {
    exists|i: int| 0 <= i < forbidden_patterns().len() && occurs_in(code, #[trigger] forbidden_patterns()[i])
}

/// Some approval pattern occurs in the code.
pub open spec fn has_approval_pattern(code: Seq<char>) -> bool {
    exists|i: int| 0 <= i < hitl_rules().len() && occurs_in(code, #[trigger] hitl_rules()[i].0)
}

/// How severe a verdict is: approved, then gated, then rejected.
pub open spec fn severity(v: Verdict) -> nat {
    match v {
        Verdict::Approved => 0,
        Verdict::Gated(_) => 1,
        Verdict::Rejected(_) => 2,
    }
}

/// The whole scan in one law: a script is rejected exactly when it holds a forbidden pattern or
/// is over the size limit; gated exactly when it is not rejected and holds an approval pattern;
/// approved otherwise.
pub proof fn law_scan_classification(code: Seq<char>, byte_len: nat)
    ensures
        scan_verdict(code, byte_len) is Rejected <==> (has_forbidden(code) || byte_len > MAX_SCRIPT_SIZE),
        scan_verdict(code, byte_len) is Gated <==> (!has_forbidden(code) && byte_len <= MAX_SCRIPT_SIZE
            && has_approval_pattern(code)),
        scan_verdict(code, byte_len) is Approved <==> (!has_forbidden(code) && byte_len
            <= MAX_SCRIPT_SIZE && !has_approval_pattern(code)),
{
    lemma_first_hit_found(code, forbidden_patterns(), 0);
    let pats = hitl_rules().map_values(|r: (Seq<char>, Seq<char>)| r.0);
    lemma_first_hit_found(code, pats, 0);
    assert forall|i: int| 0 <= i < hitl_rules().len() implies #[trigger] hitl_rules()[i].0
        == pats[i] by {
    }
    if has_approval_pattern(code) {
        let i = choose|i: int| 0 <= i < hitl_rules().len() && occurs_in(code, #[trigger] hitl_rules()[i].0);
        assert(occurs_in(code, pats[i]));
    }
    if first_hit(code, pats, 0) is Some {
        let j = first_hit(code, pats, 0)->Some_0;
        assert(occurs_in(code, hitl_rules()[j as int].0));
    }
}

/// A pattern found in a piece of text is found in any text that contains that piece.
proof fn lemma_occurs_in_larger(code: Seq<char>, code2: Seq<char>, at: int, pat: Seq<char>)
    requires
        0 <= at,
        at + code.len() <= code2.len(),
        code2.subrange(at, at + code.len()) == code,
        occurs_in(code, pat),
    ensures
        occurs_in(code2, pat),
{
    let i = choose|i: int| occurs_at(code, pat, i);
    assert(code2.subrange(at + i, at + i + pat.len()) =~= code.subrange(i, i + pat.len()));
    assert(occurs_at(code2, pat, at + i));
}

/// The UTF-8 encoding of two texts put together is as long as their two encodings.
pub proof fn lemma_encode_utf8_len_concat(a: Seq<char>, b: Seq<char>)
    ensures
        encode_utf8(a + b).len() == encode_utf8(a).len() + encode_utf8(b).len(),
    decreases a.len(),
{
    if a.len() > 0 {
        assert((a + b)[0] == a[0]);
        assert((a + b).drop_first() =~= a.drop_first() + b);
        lemma_encode_utf8_len_concat(a.drop_first(), b);
    } else {
        assert(a + b =~= b);
    }
}

/// A piece of a text takes no more bytes in UTF-8 than the whole text.
pub proof fn lemma_utf8_len_of_part(code: Seq<char>, code2: Seq<char>, at: int)
    requires
        0 <= at,
        at + code.len() <= code2.len(),
        code2.subrange(at, at + code.len()) == code,
        encode_utf8(code2).len() <= usize::MAX,
    ensures
        utf8_len(code) <= utf8_len(code2),
{
    let pre = code2.subrange(0, at);
    let post = code2.subrange(at + code.len(), code2.len() as int);
    assert(code2 =~= pre + code + post);
    lemma_encode_utf8_len_concat(pre, code);
    lemma_encode_utf8_len_concat(pre + code, post);
}

/// Growing a script never makes it less severe: when `code` is part of `code2`, the verdict
/// for `code2` is at least as severe as for `code`, each measured by its own UTF-8 length
/// (which, for text held in memory, fits in a `usize`).
pub proof fn law_scan_monotone(code: Seq<char>, code2: Seq<char>, at: int)
    requires
        0 <= at,
        at + code.len() <= code2.len(),
        code2.subrange(at, at + code.len()) == code,
        encode_utf8(code2).len() <= usize::MAX,
    ensures
        severity(scan_verdict(code2, utf8_len(code2))) >= severity(scan_verdict(code, utf8_len(code))),
{
    lemma_utf8_len_of_part(code, code2, at);
    law_scan_classification(code, utf8_len(code));
    law_scan_classification(code2, utf8_len(code2));
    if has_forbidden(code) {
        let i = choose|i: int| 0 <= i < forbidden_patterns().len() && occurs_in(code, #[trigger] forbidden_patterns()[i]);
        lemma_occurs_in_larger(code, code2, at, forbidden_patterns()[i]);
        assert(has_forbidden(code2));
    }
    if has_approval_pattern(code) {
        let i = choose|i: int| 0 <= i < hitl_rules().len() && occurs_in(code, #[trigger] hitl_rules()[i].0);
        lemma_occurs_in_larger(code, code2, at, hitl_rules()[i].0);
        assert(has_approval_pattern(code2));
    }
}

} // verus!
