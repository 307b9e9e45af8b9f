//! The stdout line protocol spoken to whatever drives `voicetools`.
//!
//! Every event is one line that starts with its keyword; events that carry
//! text put it after a single space. These functions build the lines; the
//! caller writes each one to stdout followed by a newline and flushes.

use vstd::prelude::*;
use vstd::string::StringExecFns;

verus! {

/// The kinds of protocol lines.
#[derive(Debug, Clone, Copy, PartialEq, Eq, Structural)]
pub enum LineKind {
    Status,
    Ready,
    Level,
    Phase,
    Partial,
    Final,
    Segment,
    Done,
    Error,
}

pub open spec fn keyword(k: LineKind) -> Seq<char> {
    match k {
        LineKind::Status => "STATUS"@,
        LineKind::Ready => "READY"@,
        LineKind::Level => "LEVEL"@,
        LineKind::Phase => "PHASE"@,
        LineKind::Partial => "PARTIAL"@,
        LineKind::Final => "FINAL"@,
        LineKind::Segment => "SEGMENT"@,
        LineKind::Done => "DONE"@,
        LineKind::Error => "ERROR"@,
    }
}

/// Whether lines of this kind carry text after the keyword.
pub open spec fn has_payload(k: LineKind) -> bool {
    !(k == LineKind::Ready || k == LineKind::Done)
}

/// The line for an event of kind `k` carrying `payload`.
pub open spec fn render(k: LineKind, payload: Seq<char>) -> Seq<char> {
    if has_payload(k) {
        keyword(k) + " "@ + payload
    } else {
        keyword(k)
    }
}

/// The line for an event that carries text: keyword, one space, text.
fn payload_line(k: LineKind, word: &str, payload: &str) -> (r: String)
    requires
        has_payload(k),
        word@ == keyword(k),
    ensures
        r@ == render(k, payload@),
{
    let mut line = word.to_owned();
    line.append(" ");
    line.append(payload);
    line
}

/// A state transition (`recording`, `transcribing`, ...).
pub fn status(s: &str) -> (r: String)
    ensures
        r@ == render(LineKind::Status, s@),
{
    payload_line(LineKind::Status, "STATUS", s)
}

/// Models are loaded; the daemon accepts `START`.
pub fn ready() -> (r: String)
    ensures
        r@ == render(LineKind::Ready, Seq::empty()),
{
    "READY".to_owned()
}

/// Live RMS energy of one chunk; `value` is its decimal rendering.
pub fn level(value: &str) -> (r: String)
    ensures
        r@ == render(LineKind::Level, value@),
{
    payload_line(LineKind::Level, "LEVEL", value)
}

/// A phase marker within a listening session (`silence`).
pub fn phase(s: &str) -> (r: String)
    ensures
        r@ == render(LineKind::Phase, s@),
{
    payload_line(LineKind::Phase, "PHASE", s)
}

/// An interim transcript; it supersedes the previous one.
pub fn partial(s: &str) -> (r: String)
    ensures
        r@ == render(LineKind::Partial, s@),
{
    payload_line(LineKind::Partial, "PARTIAL", s)
}

/// The committed transcript of a finished utterance.
pub fn final_text(s: &str) -> (r: String)
    ensures
        r@ == render(LineKind::Final, s@),
{
    payload_line(LineKind::Final, "FINAL", s)
}

/// A chunk of recognized text.
pub fn segment(s: &str) -> (r: String)
    ensures
        r@ == render(LineKind::Segment, s@),
{
    payload_line(LineKind::Segment, "SEGMENT", s)
}

/// Successful completion.
pub fn done() -> (r: String)
    ensures
        r@ == render(LineKind::Done, Seq::empty()),
{
    "DONE".to_owned()
}

/// A fatal error.
pub fn error(s: &str) -> (r: String)
    ensures
        r@ == render(LineKind::Error, s@),
{
    payload_line(LineKind::Error, "ERROR", s)
}

proof fn lemma_keyword_facts(k: LineKind)
    ensures
        keyword(k).len() >= 4,
        forall|i: int| 0 <= i < keyword(k).len() ==> keyword(k)[i] != ' ' && keyword(k)[i] != '\n',
        " "@ == seq![' '],
{
    reveal_strlit("STATUS");
    reveal_strlit("READY");
    reveal_strlit("LEVEL");
    reveal_strlit("PHASE");
    reveal_strlit("PARTIAL");
    reveal_strlit("FINAL");
    reveal_strlit("SEGMENT");
    reveal_strlit("DONE");
    reveal_strlit("ERROR");
    reveal_strlit(" ");
}

spec fn keyword_signature(k: LineKind) -> (nat, char) {
    match k {
        LineKind::Status => (6, 'S'),
        LineKind::Ready => (5, 'R'),
        LineKind::Level => (5, 'L'),
        LineKind::Phase => (5, 'P'),
        LineKind::Partial => (7, 'P'),
        LineKind::Final => (5, 'F'),
        LineKind::Segment => (7, 'S'),
        LineKind::Done => (4, 'D'),
        LineKind::Error => (5, 'E'),
    }
}

proof fn lemma_keyword_signature(k: LineKind)
    ensures
        keyword(k).len() == keyword_signature(k).0,
        keyword(k)[0] == keyword_signature(k).1,
{
    match k {
        LineKind::Status => {
            reveal_strlit("STATUS");
        },
        LineKind::Ready => {
            reveal_strlit("READY");
        },
        LineKind::Level => {
            reveal_strlit("LEVEL");
        },
        LineKind::Phase => {
            reveal_strlit("PHASE");
        },
        LineKind::Partial => {
            reveal_strlit("PARTIAL");
        },
        LineKind::Final => {
            reveal_strlit("FINAL");
        },
        LineKind::Segment => {
            reveal_strlit("SEGMENT");
        },
        LineKind::Done => {
            reveal_strlit("DONE");
        },
        LineKind::Error => {
            reveal_strlit("ERROR");
        },
    }
}

proof fn lemma_keywords_distinct(a: LineKind, b: LineKind)
    requires
        keyword(a) == keyword(b),
    ensures
        a == b,
{
    lemma_keyword_signature(a);
    lemma_keyword_signature(b);
}

/// A consumer can tell every line apart by its leading keyword: two events
/// render to the same line only if they are of the same kind and, for kinds
/// that carry text, carry the same text.
pub proof fn lemma_lines_identify_their_event(
    k1: LineKind,
    p1: Seq<char>,
    k2: LineKind,
    p2: Seq<char>,
)
    requires
        render(k1, p1) == render(k2, p2),
    ensures
        k1 == k2,
        has_payload(k1) ==> p1 == p2,
{
    lemma_keyword_facts(k1);
    lemma_keyword_facts(k2);
    let line = render(k1, p1);
    let a = keyword(k1);
    let b = keyword(k2);
    if has_payload(k1) && has_payload(k2) {
        assert(line[a.len() as int] == ' ');
        assert(line[b.len() as int] == ' ');
        if a.len() < b.len() {
            assert(line[a.len() as int] == b[a.len() as int]);
        } else if b.len() < a.len() {
            assert(line[b.len() as int] == a[b.len() as int]);
        }
        assert(a =~= line.subrange(0, a.len() as int));
        assert(b =~= line.subrange(0, b.len() as int));
        lemma_keywords_distinct(k1, k2);
        assert(p1 =~= line.subrange(a.len() as int + 1, line.len() as int));
        assert(p2 =~= line.subrange(b.len() as int + 1, line.len() as int));
    } else if has_payload(k1) {
        assert(line[a.len() as int] == ' ');
        assert(line == b);
        assert(false);
    } else if has_payload(k2) {
        assert(line[b.len() as int] == ' ');
        assert(line == a);
        assert(false);
    } else {
        lemma_keywords_distinct(k1, k2);
    }
}

/// Exactly one event per line: a line holds no line break unless its text
/// brought one.
pub proof fn lemma_one_event_per_line(k: LineKind, payload: Seq<char>)
    requires
        !payload.contains('\n'),
    ensures
        !render(k, payload).contains('\n'),
{
    lemma_keyword_facts(k);
    let line = render(k, payload);
    let a = keyword(k);
    if line.contains('\n') {
        let i = choose|i: int| 0 <= i < line.len() && line[i] == '\n';
        if has_payload(k) {
            if i > a.len() {
                assert(payload[i - a.len() - 1] == '\n');
            }
        }
    }
}

} // verus!
