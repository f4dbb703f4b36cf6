//! The per-session protocol: what an interactive session is expected to print
//! next, and how each byte it prints moves that expectation on.
use vstd::prelude::*;
use vstd::utf8::valid_utf8;
use crate::error::{AppError, ErrorV};
use crate::example::{ExampleId, ReplExample};
use crate::text::{
    ansi_stripped, bytes_of, ends_with, has_suffix, is_text, remove_cr, same_bytes,
    sanitized, strip_styling, without_cr, LF,
};

verus! {

/// The text a session prints when it is ready for the next query.
pub open spec fn prompt_bytes() -> Seq<u8> {
    seq![110u8, 105u8, 120u8, 45u8, 114u8, 101u8, 112u8, 108u8, 62u8, 32u8]
}

/// What closes a result block: a blank line after the value.
pub open spec fn block_end_bytes() -> Seq<u8> {
    seq![13u8, 10u8, 13u8, 10u8]
}

/// The prompt, `nix-repl> `.
pub fn prompt_marker() -> (r: Vec<u8>)
    ensures
        r@ == prompt_bytes(),
{
    let r: Vec<u8> = vec![110u8, 105u8, 120u8, 45u8, 114u8, 101u8, 112u8, 108u8, 62u8, 32u8];
    assert(r@ =~= prompt_bytes());
    r
}

/// Two CR LF pairs.
pub fn block_end() -> (r: Vec<u8>)
    ensures
        r@ == block_end_bytes(),
{
    let r: Vec<u8> = vec![13u8, 10u8, 13u8, 10u8];
    assert(r@ =~= block_end_bytes());
    r
}

/// What a live session is expected to print next. Each variant but `Nothing`
/// accumulates the bytes read so far.
#[allow(inconsistent_fields)]
pub enum ReplSessionExpecting {
    /// A query is being written; no output may arrive.
    Nothing,
    /// The prompt.
    Prompt(Vec<u8>),
    /// The echo of the query just sent, then its result if one is documented.
    Echo { acc: Vec<u8>, last_query: String, expected_result: Option<String> },
    /// A result block that must read as documented.
    Result { acc: Vec<u8>, expected_result: String },
}

/// An expectation with its accumulator seen as a sequence.
#[allow(inconsistent_fields)]
pub enum ExpectingV {
    Nothing,
    Prompt(Seq<u8>),
    Echo { acc: Seq<u8>, last_query: String, expected_result: Option<String> },
    Result { acc: Seq<u8>, expected_result: String },
}

impl View for ReplSessionExpecting {
    type V = ExpectingV;

    open spec fn view(&self) -> ExpectingV {
        match self {
            ReplSessionExpecting::Nothing => ExpectingV::Nothing,
            ReplSessionExpecting::Prompt(acc) => ExpectingV::Prompt(acc@),
            ReplSessionExpecting::Echo { acc, last_query, expected_result } => ExpectingV::Echo {
                acc: acc@,
                last_query: *last_query,
                expected_result: *expected_result,
            },
            ReplSessionExpecting::Result { acc, expected_result } => ExpectingV::Result {
                acc: acc@,
                expected_result: *expected_result,
            },
        }
    }
}

/// The outcome of one byte.
pub enum Fed {
    /// Keep reading, now expecting this.
    Waiting(ExpectingV),
    /// The prompt was read: the session is ready for the next query.
    PromptSeen,
    /// The session's output broke the protocol.
    Failed(ErrorV),
}

/// What one byte `b` of session `id`'s output does to expectation `e`.
pub open spec fn fed(e: ExpectingV, b: u8, id: ExampleId) -> Fed {
    match e {
        ExpectingV::Nothing => Fed::Failed(ErrorV::UnexpectedOutput(b)),
        ExpectingV::Prompt(acc) => {
            let a = acc.push(b);
            let s = ansi_stripped(a);
            if !valid_utf8(s) {
                Fed::Failed(ErrorV::InvalidText(s))
            } else if ends_with(s, prompt_bytes()) {
                Fed::PromptSeen
            } else {
                Fed::Waiting(ExpectingV::Prompt(a))
            }
        },
        ExpectingV::Echo { acc, last_query, expected_result } => {
            let a = acc.push(b);
            let s = ansi_stripped(a);
            if b != LF {
                Fed::Waiting(ExpectingV::Echo { acc: a, last_query, expected_result })
            } else if !valid_utf8(s) {
                Fed::Failed(ErrorV::InvalidText(s))
            } else if without_cr(s) != bytes_of(last_query@) {
                Fed::Failed(ErrorV::EchoMismatch { actual: a, expected: last_query })
            } else {
                match expected_result {
                    Some(r) => Fed::Waiting(ExpectingV::Result { acc: Seq::empty(), expected_result: r }),
                    None => Fed::Waiting(ExpectingV::Prompt(Seq::empty())),
                }
            }
        },
        ExpectingV::Result { acc, expected_result } => {
            let a = acc.push(b);
            let s = ansi_stripped(a.subrange(0, a.len() - 4));
            if !ends_with(a, block_end_bytes()) {
                Fed::Waiting(ExpectingV::Result { acc: a, expected_result })
            } else if !valid_utf8(s) {
                Fed::Failed(ErrorV::InvalidText(s))
            } else if without_cr(s) != bytes_of(expected_result@) {
                Fed::Failed(
                    ErrorV::ResultMismatch { id, actual: without_cr(s), expected: expected_result },
                )
            } else {
                Fed::Waiting(ExpectingV::Prompt(Seq::empty()))
            }
        },
    }
}

/// A line that, once sanitized, differs from the query that was sent never
/// lets the session move on: it is an echo mismatch. Likewise a closed result
/// block that, once sanitized, differs from the documented result is a result
/// mismatch.
pub proof fn lemma_mismatch_never_passes(e: ExpectingV, b: u8, id: ExampleId)
    ensures
        e matches ExpectingV::Echo { acc, last_query, expected_result } ==> (b == LF
            && valid_utf8(ansi_stripped(acc.push(b))) && without_cr(ansi_stripped(acc.push(b)))
            != bytes_of(last_query@) ==> fed(e, b, id) == Fed::Failed(
            ErrorV::EchoMismatch { actual: acc.push(b), expected: last_query },
        )),
        e matches ExpectingV::Result { acc, expected_result } ==> ({
            let a = acc.push(b);
            let s = ansi_stripped(a.subrange(0, a.len() - 4));
            ends_with(a, block_end_bytes()) && valid_utf8(s) && without_cr(s) != bytes_of(
                expected_result@,
            ) ==> fed(e, b, id) == Fed::Failed(
                ErrorV::ResultMismatch { id, actual: without_cr(s), expected: expected_result },
            )
        }),
{
}

/// Feeding `bytes` one by one from `e`: the expectation reached, or the
/// first prompt or failure met on the way.
pub open spec fn fed_all(e: ExpectingV, bytes: Seq<u8>, id: ExampleId) -> Fed
    decreases bytes.len(),
{
    if bytes.len() == 0 {
        Fed::Waiting(e)
    } else {
        match fed_all(e, bytes.drop_last(), id) {
            Fed::Waiting(e2) => fed(e2, bytes.last(), id),
            other => other,
        }
    }
}

/// Feeding `a` then `b` is feeding `a + b`.
pub proof fn lemma_fed_all_concat(e: ExpectingV, a: Seq<u8>, b: Seq<u8>, id: ExampleId)
    ensures
        fed_all(e, a + b, id) == match fed_all(e, a, id) {
            Fed::Waiting(e2) => fed_all(e2, b, id),
            other => other,
        },
    decreases b.len(),
{
    if b.len() == 0 {
        assert(a + b =~= a);
    } else {
        lemma_fed_all_concat(e, a, b.drop_last(), id);
        assert((a + b).drop_last() =~= a + b.drop_last());
        assert((a + b).last() == b.last());
    }
}

proof fn lemma_echo_prefix(q: String, r: Option<String>, line: Seq<u8>, k: nat, id: ExampleId)
    requires
        k <= line.len(),
        forall|i: int| 0 <= i < k ==> line[i] != LF,
    ensures
        fed_all(ExpectingV::Echo { acc: Seq::empty(), last_query: q, expected_result: r }, line.subrange(0, k as int), id)
            == Fed::Waiting(ExpectingV::Echo { acc: line.subrange(0, k as int), last_query: q, expected_result: r }),
    decreases k,
{
    if k > 0 {
        lemma_echo_prefix(q, r, line, (k - 1) as nat, id);
        assert(line.subrange(0, k as int).drop_last() =~= line.subrange(0, k - 1));
        assert(line.subrange(0, k - 1).push(line[k - 1]) =~= line.subrange(0, k as int));
    } else {
        assert(line.subrange(0, 0) =~= Seq::<u8>::empty());
    }
}

proof fn lemma_block_prefix(r: String, block: Seq<u8>, k: nat, id: ExampleId)
    requires
        k <= block.len(),
        forall|j: int| 0 < j <= k ==> !ends_with(#[trigger] block.subrange(0, j), block_end_bytes()),
    ensures
        fed_all(ExpectingV::Result { acc: Seq::empty(), expected_result: r }, block.subrange(0, k as int), id)
            == Fed::Waiting(ExpectingV::Result { acc: block.subrange(0, k as int), expected_result: r }),
    decreases k,
{
    if k > 0 {
        lemma_block_prefix(r, block, (k - 1) as nat, id);
        assert(block.subrange(0, k as int).drop_last() =~= block.subrange(0, k - 1));
        assert(block.subrange(0, k - 1).push(block[k - 1]) =~= block.subrange(0, k as int));
    } else {
        assert(block.subrange(0, 0) =~= Seq::<u8>::empty());
    }
}

proof fn lemma_prompt_prefix(p: Seq<u8>, k: nat, id: ExampleId)
    requires
        k <= p.len(),
        forall|j: int| 0 < j <= k ==> valid_utf8(#[trigger] ansi_stripped(p.subrange(0, j)))
            && !ends_with(ansi_stripped(p.subrange(0, j)), prompt_bytes()),
    ensures
        fed_all(ExpectingV::Prompt(Seq::empty()), p.subrange(0, k as int), id)
            == Fed::Waiting(ExpectingV::Prompt(p.subrange(0, k as int))),
    decreases k,
{
    if k > 0 {
        lemma_prompt_prefix(p, (k - 1) as nat, id);
        assert(p.subrange(0, k as int).drop_last() =~= p.subrange(0, k - 1));
        assert(p.subrange(0, k - 1).push(p[k - 1]) =~= p.subrange(0, k as int));
    } else {
        assert(p.subrange(0, 0) =~= Seq::<u8>::empty());
    }
}

/// One query/result cycle of the protocol. After query `q` was sent with
/// expected result `r`, the session reads: an echo `line` (a single line
/// that, sanitized, is `q`), a result `block` (closed by its first blank
/// line, the text before it sanitizing to `r`), then `prompt` (text whose
/// stripped form ends with the prompt only once it is complete). Fed these
/// bytes one by one, the session passes through the result and prompt
/// expectations and is ready for its next query exactly at the last byte.
pub proof fn lemma_one_cycle(
    q: String,
    r: String,
    line: Seq<u8>,
    block: Seq<u8>,
    prompt: Seq<u8>,
    id: ExampleId,
)
    requires
        line.len() > 0,
        line.last() == LF,
        forall|i: int| 0 <= i < line.len() - 1 ==> line[i] != LF,
        sanitized(line) == Some(bytes_of(q@)),
        ends_with(block, block_end_bytes()),
        forall|j: int| 0 < j < block.len() ==> !ends_with(#[trigger] block.subrange(0, j), block_end_bytes()),
        sanitized(block.subrange(0, block.len() - 4)) == Some(bytes_of(r@)),
        prompt.len() > 0,
        forall|j: int| 0 < j < prompt.len() ==> valid_utf8(#[trigger] ansi_stripped(prompt.subrange(0, j)))
            && !ends_with(ansi_stripped(prompt.subrange(0, j)), prompt_bytes()),
        valid_utf8(ansi_stripped(prompt)),
        ends_with(ansi_stripped(prompt), prompt_bytes()),
    ensures
        fed_all(ExpectingV::Echo { acc: Seq::empty(), last_query: q, expected_result: Some(r) }, line, id)
            == Fed::Waiting(ExpectingV::Result { acc: Seq::empty(), expected_result: r }),
        fed_all(ExpectingV::Result { acc: Seq::empty(), expected_result: r }, block, id)
            == Fed::Waiting(ExpectingV::Prompt(Seq::empty())),
        fed_all(ExpectingV::Prompt(Seq::empty()), prompt, id) == Fed::PromptSeen,
        fed_all(
            ExpectingV::Echo { acc: Seq::empty(), last_query: q, expected_result: Some(r) },
            line + block + prompt,
            id,
        ) == Fed::PromptSeen,
{
    let echo = ExpectingV::Echo { acc: Seq::empty(), last_query: q, expected_result: Some(r) };
    let res = ExpectingV::Result { acc: Seq::empty(), expected_result: r };
    let pr = ExpectingV::Prompt(Seq::empty());
    let n = line.len() - 1;
    lemma_echo_prefix(q, Some(r), line, n as nat, id);
    assert(line.drop_last() =~= line.subrange(0, n));
    assert(line.subrange(0, n).push(LF) =~= line);
    let m = block.len() - 1;
    lemma_block_prefix(r, block, m as nat, id);
    assert(block.drop_last() =~= block.subrange(0, m));
    assert(block.subrange(0, m).push(block.last()) =~= block);
    let k = prompt.len() - 1;
    lemma_prompt_prefix(prompt, k as nat, id);
    assert(prompt.drop_last() =~= prompt.subrange(0, k));
    assert(prompt.subrange(0, k).push(prompt.last()) =~= prompt);
    lemma_fed_all_concat(echo, line, block, id);
    lemma_fed_all_concat(echo, line + block, prompt, id);
}

impl ReplSessionExpecting {
    /// Takes one byte of the session's output. Returns whether the prompt was
    /// read, in which case nothing is expected until the next query is sent.
    /// On failure nothing is expected any more.
    pub fn feed(&mut self, byte: u8, id: &ExampleId) -> (r: Result<bool, AppError>)
        ensures
            match fed(old(self)@, byte, *id) {
                Fed::Waiting(e) => r == Ok::<bool, AppError>(false) && final(self)@ == e,
                Fed::PromptSeen => r == Ok::<bool, AppError>(true) && final(self)@
                    == ExpectingV::Nothing,
                Fed::Failed(err) => r matches Err(x) && x@ == err && final(self)@
                    == ExpectingV::Nothing,
            },
    {
        let mut current = ReplSessionExpecting::Nothing;
        std::mem::swap(self, &mut current);
        match current {
            ReplSessionExpecting::Nothing => Err(AppError::UnexpectedOutput(byte)),
            ReplSessionExpecting::Prompt(mut acc) => {
                acc.push(byte);
                match prompt_verdict(strip_styling(acc.as_slice())) {
                    Err(e) => Err(e),
                    Ok(true) => Ok(true),
                    Ok(false) => {
                        *self = ReplSessionExpecting::Prompt(acc);
                        Ok(false)
                    },
                }
            },
            ReplSessionExpecting::Echo { mut acc, last_query, expected_result } => {
                acc.push(byte);
                if byte != LF {
                    *self = ReplSessionExpecting::Echo { acc, last_query, expected_result };
                    return Ok(false);
                }
                let stripped = strip_styling(acc.as_slice());
                match echo_verdict(acc, stripped, last_query) {
                    Err(e) => {
                        return Err(e);
                    },
                    Ok(()) => {},
                }
                match expected_result {
                    Some(r) => {
                        *self = ReplSessionExpecting::Result { acc: Vec::new(), expected_result: r };
                    },
                    None => {
                        *self = ReplSessionExpecting::Prompt(Vec::new());
                    },
                }
                Ok(false)
            },
            ReplSessionExpecting::Result { mut acc, expected_result } => {
                acc.push(byte);
                if !has_suffix(acc.as_slice(), block_end().as_slice()) {
                    *self = ReplSessionExpecting::Result { acc, expected_result };
                    return Ok(false);
                }
                let body = slice_prefix(acc.as_slice(), acc.len() - 4);
                match result_verdict(strip_styling(body.as_slice()), expected_result, id) {
                    Err(e) => {
                        return Err(e);
                    },
                    Ok(()) => {},
                }
                *self = ReplSessionExpecting::Prompt(Vec::new());
                Ok(false)
            },
        }
    }
}

/// Decides on what a session printed while the prompt is awaited, given the
/// printed bytes with styling removed: whether the prompt is complete, or
/// that the output is not text.
pub fn prompt_verdict(stripped: Vec<u8>) -> (r: Result<bool, AppError>)
    ensures
        match r {
            Ok(seen) => valid_utf8(stripped@) && seen == ends_with(stripped@, prompt_bytes()),
            Err(e) => !valid_utf8(stripped@) && e@ == ErrorV::InvalidText(stripped@),
        },
{
    if !is_text(stripped.as_slice()) {
        return Err(AppError::InvalidText(stripped));
    }
    Ok(has_suffix(stripped.as_slice(), prompt_marker().as_slice()))
}

/// Decides on an echoed `line`, given it with styling removed: it must be
/// text and, without carriage returns, the `query` that was sent.
pub fn echo_verdict(line: Vec<u8>, stripped: Vec<u8>, query: String) -> (r: Result<(), AppError>)
    ensures
        !valid_utf8(stripped@) ==> (r matches Err(e) && e@ == ErrorV::InvalidText(stripped@)),
        valid_utf8(stripped@) && without_cr(stripped@) != bytes_of(query@) ==> (r matches Err(e)
            && e@ == ErrorV::EchoMismatch { actual: line@, expected: query }),
        valid_utf8(stripped@) && without_cr(stripped@) == bytes_of(query@) ==> r is Ok,
{
    if !is_text(stripped.as_slice()) {
        return Err(AppError::InvalidText(stripped));
    }
    let cleaned = remove_cr(stripped.as_slice());
    if !same_bytes(cleaned.as_slice(), query.as_str().as_bytes()) {
        return Err(AppError::EchoMismatch { actual: line, expected: query });
    }
    Ok(())
}

/// Decides on a closed result block of session `id`, given the text before
/// its blank line with styling removed: it must be text and, without
/// carriage returns, the documented `expected` result.
pub fn result_verdict(stripped: Vec<u8>, expected: String, id: &ExampleId) -> (r: Result<(), AppError>)
    ensures
        !valid_utf8(stripped@) ==> (r matches Err(e) && e@ == ErrorV::InvalidText(stripped@)),
        valid_utf8(stripped@) && without_cr(stripped@) != bytes_of(expected@) ==> (r matches Err(e)
            && e@ == ErrorV::ResultMismatch { id: *id, actual: without_cr(stripped@), expected }),
        valid_utf8(stripped@) && without_cr(stripped@) == bytes_of(expected@) ==> r is Ok,
{
    if !is_text(stripped.as_slice()) {
        return Err(AppError::InvalidText(stripped));
    }
    let cleaned = remove_cr(stripped.as_slice());
    if !same_bytes(cleaned.as_slice(), expected.as_str().as_bytes()) {
        return Err(AppError::ResultMismatch { id: id.duplicate(), actual: cleaned, expected });
    }
    Ok(())
}

/// The first `n` bytes of `s`.
fn slice_prefix(s: &[u8], n: usize) -> (r: Vec<u8>)
    requires
        n <= s@.len(),
    ensures
        r@ == s@.subrange(0, n as int),
{
    let mut out: Vec<u8> = Vec::new();
    let mut i: usize = 0;
    while i < n
        invariant
            i <= n <= s@.len(),
            out@ == s@.subrange(0, i as int),
        decreases n - i,
    {
        out.push(s[i]);
        i = i + 1;
        assert(out@ =~= s@.subrange(0, i as int));
    }
    out
}

} // verus!

verus! {

/// A running session: how far through its example's entries it is, and what
/// it is expected to print next.
pub struct ReplSessionLive {
    pub next: usize,
    pub expecting: ReplSessionExpecting,
}

impl ReplSessionLive {
    /// A session that has just started: it owes its banner and prompt.
    pub fn new() -> (r: Self)
        ensures
            r.next == 0,
            r.expecting@ == ExpectingV::Prompt(Seq::empty()),
    {
        ReplSessionLive { next: 0, expecting: ReplSessionExpecting::Prompt(Vec::new()) }
    }
}

pub enum ReplSessionState {
    /// The spawn was asked for; its outcome has not arrived.
    AwaitingSpawn,
    Live(ReplSessionLive),
    /// The script is done and the kill was asked for.
    Killing,
}

/// A session state with its accumulator seen as a sequence.
pub enum SessionV {
    AwaitingSpawn,
    Live { next: usize, expecting: ExpectingV },
    Killing,
}

impl View for ReplSessionState {
    type V = SessionV;

    open spec fn view(&self) -> SessionV {
        match self {
            ReplSessionState::AwaitingSpawn => SessionV::AwaitingSpawn,
            ReplSessionState::Live(l) => SessionV::Live { next: l.next, expecting: l.expecting@ },
            ReplSessionState::Killing => SessionV::Killing,
        }
    }
}

/// An interactive example together with its session's state.
pub struct ReplExampleState {
    pub example: ReplExample,
    pub state: ReplSessionState,
}

impl ReplExampleState {
    pub fn new(example: ReplExample) -> (r: Self)
        ensures
            r.example == example,
            r.state@ == SessionV::AwaitingSpawn,
    {
        ReplExampleState { example, state: ReplSessionState::AwaitingSpawn }
    }
}

} // verus!
