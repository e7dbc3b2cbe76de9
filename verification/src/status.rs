//! Outcome classification: mapping a raw protocol reply (a three-digit code
//! plus free text) to success / temporary failure / permanent failure, with a
//! structured `class.subject.detail` status code.  When the reply text begins
//! with an embedded structured status code, that code (and its class) takes
//! precedence over the default derived from the reply's leading digit.

use vstd::prelude::*;

verus! {

/// Longest diagnostic text retained for reporting; longer reply text is
/// truncated to this many bytes.
pub const MAX_DIAG_LEN: usize = 256;

/// Structured delivery status code `class.subject.detail`, e.g. `5.3.4`.
#[derive(Clone, Copy, PartialEq, Eq, Structural, Debug)]
pub struct StatusCode {
    pub class: u8,
    pub subject: u16,
    pub detail: u16,
}

/// The three classes a reply can fall into.
#[derive(Clone, Copy, PartialEq, Eq, Structural, Debug)]
pub enum Severity {
    Success,
    Temporary,
    Permanent,
}

/// Classification of one reply, carrying the structured status code and the
/// (truncated) diagnostic text for later reporting.
#[derive(Debug)]
pub enum Outcome {
    Success { status: StatusCode, diag: Vec<u8> },
    Temporary { status: StatusCode, diag: Vec<u8> },
    Permanent { status: StatusCode, diag: Vec<u8> },
}

impl Outcome {
    pub open spec fn severity(&self) -> Severity {
        match self {
            Outcome::Success { .. } => Severity::Success,
            Outcome::Temporary { .. } => Severity::Temporary,
            Outcome::Permanent { .. } => Severity::Permanent,
        }
    }

    pub open spec fn status(&self) -> StatusCode {
        match self {
            Outcome::Success { status, .. } => *status,
            Outcome::Temporary { status, .. } => *status,
            Outcome::Permanent { status, .. } => *status,
        }
    }

    pub open spec fn diag(&self) -> Seq<u8> {
        match self {
            Outcome::Success { diag, .. } => diag@,
            Outcome::Temporary { diag, .. } => diag@,
            Outcome::Permanent { diag, .. } => diag@,
        }
    }

    /// True of outcomes produced by classification or by the engine's own
    /// policy failures.
    pub open spec fn wf(&self) -> bool {
        self.diag().len() <= MAX_DIAG_LEN
    }

    /// Severity, as executable code.
    pub fn sev(&self) -> (r: Severity)
        ensures
            r == self.severity(),
    {
        match self {
            Outcome::Success { .. } => Severity::Success,
            Outcome::Temporary { .. } => Severity::Temporary,
            Outcome::Permanent { .. } => Severity::Permanent,
        }
    }

    /// The structured status code, as executable code.
    pub fn code(&self) -> (r: StatusCode)
        ensures
            r == self.status(),
    {
        match self {
            Outcome::Success { status, .. } => *status,
            Outcome::Temporary { status, .. } => *status,
            Outcome::Permanent { status, .. } => *status,
        }
    }
}

/// The class a reply code falls into by its leading digit: `2xx` succeeds,
/// `4xx` is a temporary failure, everything else is permanent.
pub open spec fn digit_severity(code: u16) -> Severity {
    if code / 100 == 2 {
        Severity::Success
    } else if code / 100 == 4 {
        Severity::Temporary
    } else {
        Severity::Permanent
    }
}

/// The class of a structured status code: class 2 succeeds, class 4 is a
/// temporary failure, everything else is permanent.
pub open spec fn class_severity(class: u8) -> Severity {
    if class == 2 {
        Severity::Success
    } else if class == 4 {
        Severity::Temporary
    } else {
        Severity::Permanent
    }
}

/// The generic mail-system status synthesized when the reply text carries no
/// structured status code.
pub open spec fn default_status(code: u16) -> StatusCode {
    match digit_severity(code) {
        Severity::Success => StatusCode { class: 2, subject: 0, detail: 0 },
        Severity::Temporary => StatusCode { class: 4, subject: 0, detail: 0 },
        Severity::Permanent => StatusCode { class: 5, subject: 0, detail: 0 },
    }
}

pub open spec fn is_digit(b: u8) -> bool {
    0x30 <= b && b <= 0x39
}

/// Length of the run of ASCII digits starting at index `i`.
pub open spec fn digit_run(s: Seq<u8>, i: int) -> int
    decreases s.len() - i,
{
    if i < 0 || i >= s.len() || !is_digit(s[i]) {
        0
    } else {
        1 + digit_run(s, i + 1)
    }
}

/// Numeric value of the `n` ASCII digits `s[i .. i + n]`.
pub open spec fn digits_val(s: Seq<u8>, i: int, n: int) -> int
    decreases n,
{
    if n <= 0 {
        0
    } else {
        digits_val(s, i, n - 1) * 10 + (s[i + n - 1] - 0x30)
    }
}

/// Whether the reply text begins with an embedded structured status code:
/// a class digit `2`..`5`, then `.`, one to three digits, `.`, one to three
/// digits, followed by a space or the end of the text.
pub open spec fn enhanced_present(s: Seq<u8>) -> bool {
    &&& s.len() >= 5
    &&& 0x32 <= s[0] && s[0] <= 0x35
    &&& s[1] == 0x2e
    &&& {
        let d1 = digit_run(s, 2);
        &&& 1 <= d1 <= 3
        &&& 2 + d1 < s.len()
        &&& s[2 + d1] == 0x2e
        &&& {
            let d2 = digit_run(s, 3 + d1);
            &&& 1 <= d2 <= 3
            &&& (3 + d1 + d2 == s.len() || s[3 + d1 + d2] == 0x20)
        }
    }
}

/// The structured status code embedded at the start of the reply text;
/// meaningful only when `enhanced_present` holds.
pub open spec fn enhanced_code(s: Seq<u8>) -> StatusCode {
    let d1 = digit_run(s, 2);
    let d2 = digit_run(s, 3 + d1);
    StatusCode {
        class: (s[0] - 0x30) as u8,
        subject: digits_val(s, 2, d1) as u16,
        detail: digits_val(s, 3 + d1, d2) as u16,
    }
}

/// The status code a classified reply carries: the embedded structured code
/// when present, else the digit-derived default.
pub open spec fn classified_status(code: u16, text: Seq<u8>) -> StatusCode {
    if enhanced_present(text) {
        enhanced_code(text)
    } else {
        default_status(code)
    }
}

/// The class of a classified reply: the embedded structured code's class when
/// present, else the class of the reply code's leading digit.
pub open spec fn classified_severity(code: u16, text: Seq<u8>) -> Severity {
    if enhanced_present(text) {
        class_severity(enhanced_code(text).class)
    } else {
        digit_severity(code)
    }
}

/// Reply text truncated to the bounded diagnostic length.
pub open spec fn clipped_diag(text: Seq<u8>) -> Seq<u8> {
    if text.len() <= MAX_DIAG_LEN {
        text
    } else {
        text.take(MAX_DIAG_LEN as int)
    }
}

pub open spec fn pow10(n: int) -> int
    decreases n,
{
    if n <= 0 {
        1
    } else {
        10 * pow10(n - 1)
    }
}

proof fn lemma_digit_run_split(s: Seq<u8>, i: int, k: int)
    requires
        0 <= i <= k <= s.len(),
        forall|j: int| i <= j < k ==> is_digit(s[j]),
    ensures
        digit_run(s, i) == k - i + digit_run(s, k),
    decreases k - i,
{
    if i < k {
        lemma_digit_run_split(s, i + 1, k);
    }
}

proof fn lemma_digit_run_digits(s: Seq<u8>, i: int)
    requires
        0 <= i,
    ensures
        forall|j: int| i <= j < i + digit_run(s, i) ==> is_digit(s[j]),
    decreases s.len() - i,
{
    if 0 <= i < s.len() && is_digit(s[i]) {
        lemma_digit_run_digits(s, i + 1);
    }
}

proof fn lemma_digits_val_bound(s: Seq<u8>, i: int, n: int)
    requires
        n >= 0,
        forall|j: int| i <= j < i + n ==> is_digit(s[j]),
    ensures
        0 <= digits_val(s, i, n) < pow10(n),
    decreases n,
{
    if n > 0 {
        lemma_digits_val_bound(s, i, n - 1);
    }
}

fn exec_is_digit(b: u8) -> (r: bool)
    ensures
        r == is_digit(b),
{
    0x30 <= b && b <= 0x39
}

fn count_digits(s: &Vec<u8>, start: usize) -> (n: usize)
    requires
        start <= s.len(),
    ensures
        n == digit_run(s@, start as int),
        start + n <= s.len(),
{
    let mut k = start;
    while k < s.len() && exec_is_digit(s[k])
        invariant
            start <= k <= s.len(),
            forall|j: int| start <= j < k ==> is_digit(s@[j]),
        decreases s.len() - k,
    {
        k = k + 1;
    }
    proof {
        lemma_digit_run_split(s@, start as int, k as int);
    }
    k - start
}

fn read_digits(s: &Vec<u8>, start: usize, n: usize) -> (v: u16)
    requires
        start + n <= s.len(),
        n <= 3,
        forall|j: int| start <= j < start + n ==> is_digit(s@[j]),
    ensures
        v == digits_val(s@, start as int, n as int),
{
    let mut v: u16 = 0;
    let mut k: usize = 0;
    while k < n
        invariant
            k <= n,
            n <= 3,
            start + n <= s.len(),
            forall|j: int| start <= j < start + n ==> is_digit(s@[j]),
            v == digits_val(s@, start as int, k as int),
            v < pow10(k as int),
        decreases n - k,
    {
        proof {
            lemma_digits_val_bound(s@, start as int, (k + 1) as int);
            assert(pow10(0) == 1);
            assert(pow10(1) == 10);
            assert(pow10(2) == 100);
            assert(pow10(3) == 1000);
        }
        v = v * 10 + (s[start + k] - 0x30) as u16;
        k = k + 1;
    }
    v
}

/// Parses the embedded structured status code at the start of the reply
/// text, if one is present.
pub fn parse_enhanced(text: &Vec<u8>) -> (r: Option<StatusCode>)
    ensures
        r is Some <==> enhanced_present(text@),
        r is Some ==> r->0 == enhanced_code(text@),
{
    if text.len() < 5 {
        return None;
    }
    let b0 = text[0];
    if !(0x32 <= b0 && b0 <= 0x35) {
        return None;
    }
    if text[1] != 0x2e {
        return None;
    }
    let d1 = count_digits(text, 2);
    if d1 < 1 || d1 > 3 {
        return None;
    }
    if 2 + d1 >= text.len() {
        return None;
    }
    if text[2 + d1] != 0x2e {
        return None;
    }
    let d2 = count_digits(text, 3 + d1);
    if d2 < 1 || d2 > 3 {
        return None;
    }
    let e = 3 + d1 + d2;
    if e < text.len() && text[e] != 0x20 {
        return None;
    }
    proof {
        lemma_digit_run_digits(text@, 2);
        lemma_digit_run_digits(text@, 3 + d1 as int);
        lemma_digits_val_bound(text@, 2, d1 as int);
        lemma_digits_val_bound(text@, 3 + d1 as int, d2 as int);
        assert(pow10(0) == 1);
        assert(pow10(1) == 10);
        assert(pow10(2) == 100);
        assert(pow10(3) == 1000);
    }
    let subject = read_digits(text, 2, d1);
    let detail = read_digits(text, 3 + d1, d2);
    Some(StatusCode { class: b0 - 0x30, subject, detail })
}

/// Reply text truncated to the bounded diagnostic length, as a fresh vector.
pub fn clip_diag(text: &Vec<u8>) -> (r: Vec<u8>)
    ensures
        r@ == clipped_diag(text@),
{
    let end = if text.len() <= MAX_DIAG_LEN {
        text.len()
    } else {
        MAX_DIAG_LEN
    };
    let mut r: Vec<u8> = Vec::new();
    let mut k: usize = 0;
    while k < end
        invariant
            k <= end,
            end <= text.len(),
            r@ == text@.take(k as int),
        decreases end - k,
    {
        r.push(text[k]);
        proof {
            assert(text@.take((k + 1) as int) == text@.take(k as int).push(text@[k as int]));
        }
        k = k + 1;
    }
    proof {
        if text.len() <= MAX_DIAG_LEN {
            assert(text@.take(text@.len() as int) == text@);
        }
    }
    r
}

fn severity_of_class(class: u8) -> (r: Severity)
    ensures
        r == class_severity(class),
{
    if class == 2 {
        Severity::Success
    } else if class == 4 {
        Severity::Temporary
    } else {
        Severity::Permanent
    }
}

/// Classifies one raw reply: the leading digit gives the default class and a
/// generic status; a structured status code embedded in the text overrides
/// both.  The text is retained, truncated, as the diagnostic.
pub fn classify(code: u16, text: &Vec<u8>) -> (r: Outcome)
    ensures
        r.status() == classified_status(code, text@),
        r.severity() == classified_severity(code, text@),
        r.diag() == clipped_diag(text@),
        r.wf(),
{
    let diag = clip_diag(text);
    let (status, sev) = match parse_enhanced(text) {
        Some(sc) => {
            let sev = severity_of_class(sc.class);
            (sc, sev)
        },
        None => {
            let hundreds = code / 100;
            if hundreds == 2 {
                (StatusCode { class: 2, subject: 0, detail: 0 }, Severity::Success)
            } else if hundreds == 4 {
                (StatusCode { class: 4, subject: 0, detail: 0 }, Severity::Temporary)
            } else {
                (StatusCode { class: 5, subject: 0, detail: 0 }, Severity::Permanent)
            }
        },
    };
    match sev {
        Severity::Success => Outcome::Success { status, diag },
        Severity::Temporary => Outcome::Temporary { status, diag },
        Severity::Permanent => Outcome::Permanent { status, diag },
    }
}

} // verus!
