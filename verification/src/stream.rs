//! The stream driver and terminator: owns the framer, the event-assembler
//! state and the accumulator, and guarantees the termination protocol —
//! exactly one terminal chunk per stream, however the upstream ends.

use vstd::prelude::*;
use vstd::string::StrSliceExecFns;
use vstd::string::StringExecFns;
use crate::accum::SseAccumulator;
use crate::accum::is_initial_accumulator;
use crate::accum::related_of;
use crate::chunk::ChatCompletionChunk;
use crate::chunk::chunk_content;
use crate::chunk::is_final_chunk;
use crate::chunk::is_terminal_chunk;
use crate::chunk::create_final_chunk;
use crate::dispatch::dispatch_rel;
use crate::dispatch::is_content_name;
use crate::dispatch::lemma_dispatch_frame;
use crate::dispatch::process_single_dev_event;
use crate::framer::LineFramer;
use crate::framer::line_rest;
use crate::framer::lines_of;
use crate::framer::lemma_lines_split;
use crate::textops::contains_char;
use crate::textops::first_index_of;
use crate::textops::lemma_first_index_of_props;
use crate::line::SseLine;
use crate::line::SseLineModel;
use crate::line::parse_line_spec;
use crate::line::parse_sse_line;
use crate::textops::decoded_of;
use crate::textops::lossy_decode;
use crate::textops::utf8_holdback;
use crate::textops::utf8_holdback_len;
use crate::textops::concat_bytes;
use crate::textops::split_bytes;

verus! {

/// Options handed to the translator by the surrounding HTTP layer.
#[derive(Debug, Clone)]
pub struct DevRequestOptions {
    pub model: Option<String>,
    pub language: Option<String>,
}

impl Default for DevRequestOptions {
    fn default() -> (r: Self)
        ensures
            r.model is None,
            r.language is None,
    {
        DevRequestOptions { model: None, language: None }
    }
}

/// Concatenation of the content deltas across a chunk sequence.
pub open spec fn contents_of(cs: Seq<ChatCompletionChunk>) -> Seq<char>
    decreases cs.len(),
{
    if cs.len() == 0 {
        Seq::empty()
    } else {
        chunk_content(cs[0]) + contents_of(cs.drop_first())
    }
}

pub proof fn lemma_contents_push(cs: Seq<ChatCompletionChunk>, c: ChatCompletionChunk)
    ensures
        contents_of(cs.push(c)) == contents_of(cs) + chunk_content(c),
    decreases cs.len(),
{
    if cs.len() == 0 {
        let p = cs.push(c);
        assert(p.len() == 1);
        assert(p[0] == c);
        assert(p.drop_first() =~= Seq::<ChatCompletionChunk>::empty());
        assert(contents_of(p.drop_first()) =~= Seq::<char>::empty());
        assert(contents_of(p) == chunk_content(c) + contents_of(p.drop_first()));
        assert(contents_of(cs) =~= Seq::<char>::empty());
        assert(contents_of(p) =~= contents_of(cs) + chunk_content(c));
    } else {
        let p = cs.push(c);
        assert(p[0] == cs[0]);
        assert(p.drop_first() =~= cs.drop_first().push(c));
        lemma_contents_push(cs.drop_first(), c);
        assert(contents_of(p) == chunk_content(cs[0]) + contents_of(cs.drop_first().push(c)));
        assert(contents_of(cs) == chunk_content(cs[0]) + contents_of(cs.drop_first()));
        assert(contents_of(p) =~= contents_of(cs) + chunk_content(c));
    }
}

/// Content concatenation distributes over batch concatenation: together with
/// the per-call contracts, the text accumulated over a whole stream is the
/// concatenation of the contents of everything emitted.
pub proof fn lemma_contents_concat(a: Seq<ChatCompletionChunk>, b: Seq<ChatCompletionChunk>)
    ensures
        contents_of(a + b) == contents_of(a) + contents_of(b),
    decreases b.len(),
{
    if b.len() == 0 {
        assert(a + b =~= a);
        assert(contents_of(a) + contents_of(b) =~= contents_of(a));
    } else {
        lemma_contents_concat(a, b.drop_last());
        lemma_contents_push(a + b.drop_last(), b.last());
        lemma_contents_push(b.drop_last(), b.last());
        assert((a + b.drop_last()).push(b.last()) =~= a + b);
        assert(b.drop_last().push(b.last()) =~= b);
        assert(contents_of(a) + (contents_of(b.drop_last()) + chunk_content(b.last())) =~= (
        contents_of(a) + contents_of(b.drop_last())) + chunk_content(b.last()));
    }
}

/// The emission discipline of one driver step: a done stream emits nothing,
/// a terminal chunk stands only in last position, a terminal chunk leaves
/// the stream done, and doneness is sticky.
pub open spec fn emitted_ok(pre_done: bool, cs: Seq<ChatCompletionChunk>, post_done: bool) -> bool {
    &&& (pre_done ==> cs.len() == 0)
    &&& (pre_done ==> post_done)
    &&& (forall|i: int|
        0 <= i < cs.len() && is_terminal_chunk(#[trigger] cs[i]) ==> i == cs.len() - 1)
    &&& (cs.len() > 0 && is_terminal_chunk(cs.last()) ==> post_done)
}

/// The discipline is closed under concatenating steps, so it holds of the
/// whole emitted sequence of a stream, however many pulls it took.
pub proof fn lemma_emitted_ok_compose(
    pre: bool,
    s1: Seq<ChatCompletionChunk>,
    mid: bool,
    s2: Seq<ChatCompletionChunk>,
    post: bool,
)
    requires
        emitted_ok(pre, s1, mid),
        emitted_ok(mid, s2, post),
    ensures
        emitted_ok(pre, s1 + s2, post),
{
    let s = s1 + s2;
    assert forall|i: int| 0 <= i < s.len() && is_terminal_chunk(#[trigger] s[i]) implies i == s.len()
        - 1 by {
        if i < s1.len() {
            assert(s[i] == s1[i]);
            assert(i == s1.len() - 1);
            assert(is_terminal_chunk(s1.last()));
            assert(mid);
            assert(s2.len() == 0);
        } else {
            assert(s[i] == s2[i - s1.len()]);
        }
    }
    if s.len() > 0 && is_terminal_chunk(s.last()) {
        if s2.len() == 0 {
            assert(s.last() == s1.last());
        } else {
            assert(s.last() == s2.last());
        }
    }
}

/// At most one chunk of a stream carries a non-null `finish_reason`, and if
/// one does, it is the last chunk emitted.
pub proof fn lemma_terminal_is_last(pre: bool, cs: Seq<ChatCompletionChunk>, post: bool)
    requires
        emitted_ok(pre, cs, post),
    ensures
        forall|i: int, j: int|
            0 <= i < cs.len() && 0 <= j < cs.len() && is_terminal_chunk(#[trigger] cs[i])
                && is_terminal_chunk(#[trigger] cs[j]) ==> i == j,
        forall|i: int|
            0 <= i < cs.len() && is_terminal_chunk(#[trigger] cs[i]) ==> i == cs.len() - 1,
{
}

/// Once a terminal chunk — the error chunk among them — has been emitted,
/// the stream is done and no further chunk follows it: not in its own step,
/// and, the discipline being sticky, not in any later step either.
pub proof fn lemma_nothing_after_terminal(
    pre: bool,
    cs: Seq<ChatCompletionChunk>,
    post: bool,
    i: int,
)
    requires
        emitted_ok(pre, cs, post),
        0 <= i < cs.len(),
        is_terminal_chunk(cs[i]),
    ensures
        i == cs.len() - 1,
        post,
{
    assert(cs.last() == cs[i]);
}

/// The stream driver: a lazy producer fed byte batches, owning the decode
/// buffer, the assembler state, the accumulator and the sticky terminal
/// flag. None of these escape.
pub struct SseTranslator {
    pub framer: LineFramer,
    pub pending_utf8: Vec<u8>,
    pub accumulator: SseAccumulator,
    pub current_event_name: String,
    pub current_data_buffer: Vec<String>,
    pub model_name: String,
    pub request_id: String,
    pub final_chunk_sent: bool,
}

/// Data lines joined with `'\n'`, as the assembler dispatches them.
pub open spec fn join_nl(ls: Seq<Seq<char>>) -> Seq<char>
    decreases ls.len(),
{
    if ls.len() == 0 {
        Seq::empty()
    } else if ls.len() == 1 {
        ls[0]
    } else {
        join_nl(ls.drop_last()) + seq!['\n'] + ls.last()
    }
}

fn join_data_lines(ls: &Vec<String>) -> (r: String)
    ensures
        r@ == join_nl(ls.deep_view()),
{
    let ghost dv: Seq<Seq<char>> = ls.deep_view();
    let mut r = String::new();
    let mut k: usize = 0;
    assert(dv.take(0) =~= Seq::<Seq<char>>::empty());
    while k < ls.len()
        invariant
            k <= ls.len(),
            dv == ls.deep_view(),
            r@ == join_nl(dv.take(k as int)),
        decreases ls.len() - k,
    {
        proof {
            reveal_strlit("\n");
        }
        if k > 0 {
            r.append("\n");
        }
        r.append(ls[k].as_str());
        proof {
            assert(ls@[k as int]@ == dv[k as int]);
            assert(dv.take(k as int + 1).drop_last() =~= dv.take(k as int));
            assert(dv.take(k as int + 1).last() == dv[k as int]);
            if k == 0 {
                assert(join_nl(dv.take(1)) == dv.take(1)[0]);
                assert(r@ =~= dv[0]);
            } else {
                assert("\n"@ =~= seq!['\n']);
                assert(r@ =~= join_nl(dv.take(k as int)) + seq!['\n'] + dv[k as int]);
            }
        }
        k += 1;
    }
    assert(dv.take(ls.len() as int) =~= dv);
    r
}

/// The assembler's abstract state: the declared event name, the pending data
/// lines, and whether the stream has finished.
#[verifier::ext_equal]
pub ghost struct AssemblerState {
    pub name: Seq<char>,
    pub datas: Seq<Seq<char>>,
    pub finished: bool,
}

/// What one emission contributes to the visible stream: a content delta, an
/// error message, or the final chunk. Everything a chunk carries besides
/// `created` follows from its signature and the stream identity.
pub ghost enum ChunkSig {
    Content(Seq<char>),
    Error(Seq<char>),
    Finish,
}

/// Whether an emitted chunk realises a signature under the given stream
/// identity.
pub open spec fn chunk_matches_sig(
    c: ChatCompletionChunk,
    sig: ChunkSig,
    req: Seq<char>,
    model: Seq<char>,
) -> bool {
    match sig {
        ChunkSig::Content(d) => crate::chunk::is_content_chunk(c, req, model, d),
        ChunkSig::Error(m) => crate::chunk::is_error_chunk(c, req, model, m),
        ChunkSig::Finish => is_final_chunk(c, req, model),
    }
}

pub open spec fn chunks_match_sigs(
    cs: Seq<ChatCompletionChunk>,
    sigs: Seq<ChunkSig>,
    req: Seq<char>,
    model: Seq<char>,
) -> bool {
    &&& cs.len() == sigs.len()
    &&& forall|i: int|
        0 <= i < cs.len() ==> chunk_matches_sig(#[trigger] cs[i], sigs[i], req, model)
}

/// The assembler transition for one line, together with the signatures of
/// the chunks the dispatched event yields: the abstract mirror of feeding
/// one line through the driver.
pub open spec fn assembler_step(st: AssemblerState, line: Seq<char>) -> (AssemblerState, Seq<ChunkSig>) {
    match parse_line_spec(line) {
        SseLineModel::Event(n) => (AssemblerState { name: n, ..st }, Seq::empty()),
        SseLineModel::Data(d) => (AssemblerState { datas: st.datas.push(d), ..st }, Seq::empty()),
        SseLineModel::Empty => {
            if st.datas.len() == 0 {
                (st, Seq::empty())
            } else {
                let data = join_nl(st.datas);
                let reset = AssemblerState {
                    name: "message"@,
                    datas: Seq::empty(),
                    finished: st.finished,
                };
                if st.finished {
                    (reset, Seq::empty())
                } else if is_content_name(st.name) && data.len() > 0 {
                    (reset, seq![ChunkSig::Content(data)])
                } else if st.name == "error"@ {
                    (AssemblerState { finished: true, ..reset }, seq![ChunkSig::Error(data)])
                } else {
                    (reset, Seq::empty())
                }
            }
        },
        _ => (st, Seq::empty()),
    }
}

/// The assembler run over a line sequence: fold of `assembler_step`, collecting
/// the emitted signatures in order.
pub open spec fn assembler_run(st: AssemblerState, lines: Seq<Seq<char>>) -> (AssemblerState, Seq<ChunkSig>)
    decreases lines.len(),
{
    if lines.len() == 0 {
        (st, Seq::empty())
    } else {
        let head = assembler_step(st, lines[0]);
        let tail = assembler_run(head.0, lines.drop_first());
        (tail.0, head.1 + tail.1)
    }
}

pub proof fn lemma_assembler_run_concat(st: AssemblerState, l1: Seq<Seq<char>>, l2: Seq<Seq<char>>)
    ensures
        assembler_run(st, l1 + l2).0 == assembler_run(assembler_run(st, l1).0, l2).0,
        assembler_run(st, l1 + l2).1 == assembler_run(st, l1).1 + assembler_run(assembler_run(st, l1).0, l2).1,
    decreases l1.len(),
{
    if l1.len() == 0 {
        assert(l1 + l2 =~= l2);
        assert(Seq::<ChunkSig>::empty() + assembler_run(st, l2).1 =~= assembler_run(st, l2).1);
    } else {
        assert((l1 + l2)[0] == l1[0]);
        assert((l1 + l2).drop_first() =~= l1.drop_first() + l2);
        let st1 = assembler_step(st, l1[0]).0;
        lemma_assembler_run_concat(st1, l1.drop_first(), l2);
        assert(assembler_step(st, l1[0]).1 + (assembler_run(st1, l1.drop_first()).1 + assembler_run(
            assembler_run(st1, l1.drop_first()).0,
            l2,
        ).1) =~= (assembler_step(st, l1[0]).1 + assembler_run(st1, l1.drop_first()).1) + assembler_run(
            assembler_run(st1, l1.drop_first()).0,
            l2,
        ).1);
    }
}

/// The assembler state after the EOF residue: the CR-stripped residual
/// piece applied as one line. An empty residue applies nothing, and an
/// `Empty` classification dispatches nothing at this point.
pub open spec fn eof_asm(st: AssemblerState, rest: Seq<char>) -> AssemblerState {
    if rest.len() == 0 {
        st
    } else {
        match parse_line_spec(crate::framer::strip_cr(rest)) {
            SseLineModel::Event(n) => AssemblerState { name: n, ..st },
            SseLineModel::Data(d) => AssemblerState { datas: st.datas.push(d), ..st },
            _ => st,
        }
    }
}

/// The signatures of everything the termination protocol emits: after the
/// residue is applied, the pending event, if any, is dispatched under the
/// held name, and — unless an error has finished the stream, then or
/// earlier — the final chunk follows.
pub open spec fn eof_run(st0: AssemblerState, rest: Seq<char>) -> Seq<ChunkSig> {
    let st = eof_asm(st0, rest);
    let data = join_nl(st.datas);
    let dispatched: Seq<ChunkSig> = if st.datas.len() == 0 || st.finished {
        Seq::empty()
    } else if is_content_name(st.name) && data.len() > 0 {
        seq![ChunkSig::Content(data)]
    } else if st.name == "error"@ {
        seq![ChunkSig::Error(data)]
    } else {
        Seq::empty()
    };
    let finished_after = st.finished || (st.datas.len() > 0 && st.name == "error"@);
    if finished_after {
        dispatched
    } else {
        dispatched + seq![ChunkSig::Finish]
    }
}

pub proof fn lemma_sigs_match_concat(
    c1: Seq<ChatCompletionChunk>,
    s1: Seq<ChunkSig>,
    c2: Seq<ChatCompletionChunk>,
    s2: Seq<ChunkSig>,
    req: Seq<char>,
    model: Seq<char>,
)
    requires
        chunks_match_sigs(c1, s1, req, model),
        chunks_match_sigs(c2, s2, req, model),
    ensures
        chunks_match_sigs(c1 + c2, s1 + s2, req, model),
{
    assert forall|i: int| 0 <= i < (c1 + c2).len() implies chunk_matches_sig(
        #[trigger] (c1 + c2)[i],
        (s1 + s2)[i],
        req,
        model,
    ) by {
        if i < c1.len() {
            assert((c1 + c2)[i] == c1[i]);
            assert((s1 + s2)[i] == s1[i]);
        } else {
            assert((c1 + c2)[i] == c2[i - c1.len()]);
            assert((s1 + s2)[i] == s2[i - c1.len()]);
        }
    }
}

/// The residue after all complete lines are taken holds no newline.
pub proof fn lemma_line_rest_no_newline(s: Seq<char>)
    ensures
        !contains_char(line_rest(s), '\n'),
    decreases s.len(),
{
    lemma_first_index_of_props(s, '\n');
    let i = first_index_of(s, '\n');
    if 0 <= i < s.len() {
        lemma_line_rest_no_newline(s.subrange(i + 1, s.len() as int));
    }
}

/// The whole translator, abstractly: the undecoded residue and the
/// assembler state.
#[verifier::ext_equal]
pub ghost struct TransModel {
    pub rest: Seq<char>,
    pub assembler: AssemblerState,
}

/// The translator run over a partition of the decoded upstream text: each
/// piece is appended to the residue, the complete lines are assembled, and
/// the new residue kept — exactly what `on_bytes` does with each batch.
pub open spec fn trans_run(m: TransModel, pieces: Seq<Seq<char>>) -> (TransModel, Seq<ChunkSig>)
    decreases pieces.len(),
{
    if pieces.len() == 0 {
        (m, Seq::empty())
    } else {
        let full = m.rest + pieces[0];
        let head = assembler_run(m.assembler, lines_of(full));
        let m2 = TransModel { rest: line_rest(full), assembler: head.0 };
        let tail = trans_run(m2, pieces.drop_first());
        (tail.0, head.1 + tail.1)
    }
}

/// Chunk-boundary agnosticism, end to end: for any partition of the decoded
/// upstream text into pieces, the translator emits exactly the chunk
/// signatures — and is left in exactly the state — of feeding the
/// unpartitioned text whole.
pub proof fn lemma_translator_boundary_agnostic(m: TransModel, pieces: Seq<Seq<char>>)
    requires
        !contains_char(m.rest, '\n'),
    ensures
        ({
            let whole = m.rest + pieces.flatten();
            let t = assembler_run(m.assembler, lines_of(whole));
            &&& trans_run(m, pieces).1 == t.1
            &&& trans_run(m, pieces).0.assembler == t.0
            &&& trans_run(m, pieces).0.rest == line_rest(whole)
        }),
    decreases pieces.len(),
{
    lemma_first_index_of_props(m.rest, '\n');
    if pieces.len() == 0 {
        assert(pieces.flatten() =~= Seq::<char>::empty());
        assert(m.rest + pieces.flatten() =~= m.rest);
        assert(lines_of(m.rest) =~= Seq::<Seq<char>>::empty());
        assert(assembler_run(m.assembler, lines_of(m.rest)).1 =~= Seq::<ChunkSig>::empty());
    } else {
        let p0 = pieces[0];
        let full = m.rest + p0;
        let flat1 = pieces.drop_first().flatten();
        assert(pieces.flatten() == p0 + flat1);
        assert(m.rest + pieces.flatten() =~= full + flat1);
        lemma_lines_split(full, flat1);
        lemma_line_rest_no_newline(full);
        let head = assembler_run(m.assembler, lines_of(full));
        let m2 = TransModel { rest: line_rest(full), assembler: head.0 };
        lemma_translator_boundary_agnostic(m2, pieces.drop_first());
        lemma_assembler_run_concat(m.assembler, lines_of(full), lines_of(line_rest(full) + flat1));
        assert(lines_of(full + flat1) == lines_of(full) + lines_of(line_rest(full) + flat1));
    }
}

impl SseTranslator {
    /// Whether the stream is done: an `error` event was dispatched or the
    /// terminal emission has happened. No chunk is emitted past this point.
    pub open spec fn done(self) -> bool {
        self.accumulator.is_finished || self.final_chunk_sent
    }

    /// The abstract assembler state of this driver.
    pub open spec fn assembler(self) -> AssemblerState {
        AssemblerState {
            name: self.current_event_name@,
            datas: self.current_data_buffer.deep_view(),
            finished: self.accumulator.is_finished,
        }
    }

    /// Well-formedness: until the terminal emission, the accumulator is
    /// finished exactly when an upstream error was recorded. Constructors
    /// establish it and every step preserves it.
    pub open spec fn wf(self) -> bool {
        !self.final_chunk_sent ==> (self.accumulator.is_finished <==> self.accumulator.error
            is Some)
    }

    /// A fresh driver for one request: empty buffers, default event name
    /// `"message"`, the model echoed from the options or the fallback name.
    pub fn new(options: DevRequestOptions, request_id: String) -> (r: Self)
        ensures
            r.wf(),
            !r.done(),
            is_initial_accumulator(r.accumulator),
            r.framer.buf@.len() == 0,
            r.pending_utf8@.len() == 0,
            r.current_event_name@ == "message"@,
            r.current_data_buffer@.len() == 0,
            r.request_id@ == request_id@,
            (match options.model {
                Some(m) => r.model_name@ == m@,
                None => r.model_name@ == "unknown-dev-model"@,
            }),
    {
        let model_name = match options.model {
            Some(m) => m,
            None => "unknown-dev-model".to_owned(),
        };
        SseTranslator {
            framer: LineFramer::new(),
            pending_utf8: Vec::new(),
            accumulator: SseAccumulator::default(),
            current_event_name: "message".to_owned(),
            current_data_buffer: Vec::new(),
            model_name,
            request_id,
            final_chunk_sent: false,
        }
    }

    /// Whether the terminal emission has happened; the producer checks this
    /// first on every pull and ends the stream once it holds.
    pub fn finished(&self) -> (b: bool)
        ensures
            b == self.final_chunk_sent,
    {
        self.final_chunk_sent
    }

    /// Records an upstream transport failure: the stream is sticky-done and
    /// nothing further is emitted; the surrounding layer surfaces the error
    /// itself.
    pub fn on_transport_error(&mut self)
        ensures
            *final(self) == (SseTranslator { final_chunk_sent: true, ..*old(self) }),
    {
        self.final_chunk_sent = true;
    }

    /// Feeds one already-split line to the assembler; on an empty line the
    /// pending event, if any, is dispatched.
    fn handle_line(&mut self, l: &str) -> (r: Option<ChatCompletionChunk>)
        requires
            !old(self).final_chunk_sent,
        ensures
            final(self).framer == old(self).framer,
            final(self).pending_utf8 == old(self).pending_utf8,
            final(self).model_name == old(self).model_name,
            final(self).request_id == old(self).request_id,
            final(self).final_chunk_sent == old(self).final_chunk_sent,
            final(self).accumulator.text@ == old(self).accumulator.text@ + (match r {
                Some(c) => chunk_content(c),
                None => Seq::<char>::empty(),
            }),
            old(self).accumulator.is_finished ==> final(self).accumulator == old(
                self,
            ).accumulator && r is None,
            old(self).accumulator.is_finished ==> final(self).accumulator.is_finished,
            (match r {
                Some(c) => (is_terminal_chunk(c) ==> final(self).accumulator.is_finished)
                    && !old(self).accumulator.is_finished && crate::chunk::chunk_frame(
                    c,
                    old(self).request_id@,
                    old(self).model_name@,
                ),
                None => true,
            }),
            old(self).wf() ==> final(self).wf(),
            ({
                let s = assembler_step(old(self).assembler(), l@);
                &&& final(self).assembler() == s.0
                &&& chunks_match_sigs(
                    match r {
                        Some(c) => seq![c],
                        None => Seq::<ChatCompletionChunk>::empty(),
                    },
                    s.1,
                    old(self).request_id@,
                    old(self).model_name@,
                )
            }),
            (match parse_line_spec(l@) {
                SseLineModel::Event(n) => {
                    &&& final(self).current_event_name@ == n
                    &&& final(self).current_data_buffer == old(self).current_data_buffer
                    &&& final(self).accumulator == old(self).accumulator
                    &&& r is None
                },
                SseLineModel::Data(d) => {
                    &&& final(self).current_data_buffer.deep_view() == old(
                        self,
                    ).current_data_buffer.deep_view().push(d)
                    &&& final(self).current_event_name == old(self).current_event_name
                    &&& final(self).accumulator == old(self).accumulator
                    &&& r is None
                },
                SseLineModel::Empty => {
                    if old(self).current_data_buffer@.len() == 0 {
                        *final(self) == *old(self) && r is None
                    } else {
                        &&& dispatch_rel(
                            old(self).accumulator,
                            final(self).accumulator,
                            old(self).current_event_name@,
                            join_nl(old(self).current_data_buffer.deep_view()),
                            r,
                            old(self).request_id@,
                            old(self).model_name@,
                        )
                        &&& final(self).current_event_name@ == "message"@
                        &&& final(self).current_data_buffer@.len() == 0
                    }
                },
                _ => *final(self) == *old(self) && r is None,
            }),
    {
        let parsed = parse_sse_line(l);
        match parsed {
            SseLine::Event(name) => {
                self.current_event_name = name;
                proof {
                    assert(self.accumulator.text@ + Seq::<char>::empty() =~= self.accumulator.text@);
                    assert(self.assembler() =~= assembler_step(old(self).assembler(), l@).0);
                }
                None
            },
            SseLine::Data(d) => {
                let ghost dv0 = self.current_data_buffer.deep_view();
                let ghost d0: Seq<char> = d@;
                self.current_data_buffer.push(d);
                proof {
                    assert(self.current_data_buffer.deep_view() =~= dv0.push(d0));
                    assert(self.accumulator.text@ + Seq::<char>::empty() =~= self.accumulator.text@);
                    assert(self.assembler() =~= assembler_step(old(self).assembler(), l@).0);
                }
                None
            },
            SseLine::Empty => {
                if self.current_data_buffer.len() == 0 {
                    proof {
                        assert(self.accumulator.text@ + Seq::<char>::empty()
                            =~= self.accumulator.text@);
                        assert(self.assembler() =~= assembler_step(old(self).assembler(), l@).0);
                    }
                    None
                } else {
                    let data = join_data_lines(&self.current_data_buffer);
                    self.current_data_buffer = Vec::new();
                    let event_name = self.current_event_name.clone();
                    self.current_event_name = "message".to_owned();
                    let ghost pre_acc = self.accumulator;
                    let r = process_single_dev_event(
                        &mut self.accumulator,
                        event_name,
                        data,
                        self.request_id.as_str(),
                        self.model_name.as_str(),
                    );
                    proof {
                        lemma_dispatch_frame(
                            pre_acc,
                            self.accumulator,
                            old(self).current_event_name@,
                            join_nl(old(self).current_data_buffer.deep_view()),
                            r,
                            self.request_id@,
                            self.model_name@,
                        );
                        let st0 = old(self).assembler();
                        let s = assembler_step(st0, l@);
                        assert(self.current_data_buffer.deep_view()
                            =~= Seq::<Seq<char>>::empty());
                        assert(dispatch_rel(
                            pre_acc,
                            self.accumulator,
                            st0.name,
                            join_nl(st0.datas),
                            r,
                            old(self).request_id@,
                            old(self).model_name@,
                        ));
                        assert(self.accumulator.is_finished == s.0.finished);
                        assert(self.assembler() =~= s.0);
                        assert(chunks_match_sigs(
                            match r {
                                Some(c) => seq![c],
                                None => Seq::<ChatCompletionChunk>::empty(),
                            },
                            s.1,
                            old(self).request_id@,
                            old(self).model_name@,
                        ));
                    }
                    r
                }
            },
            SseLine::Id(_) => {
                proof {
                    assert(self.accumulator.text@ + Seq::<char>::empty() =~= self.accumulator.text@);
                    assert(self.assembler() =~= assembler_step(old(self).assembler(), l@).0);
                }
                None
            },
            SseLine::Retry(_) => {
                proof {
                    assert(self.accumulator.text@ + Seq::<char>::empty() =~= self.accumulator.text@);
                    assert(self.assembler() =~= assembler_step(old(self).assembler(), l@).0);
                }
                None
            },
            SseLine::Comment => {
                proof {
                    assert(self.accumulator.text@ + Seq::<char>::empty() =~= self.accumulator.text@);
                    assert(self.assembler() =~= assembler_step(old(self).assembler(), l@).0);
                }
                None
            },
        }
    }

    /// Takes every complete buffered line through the assembler, collecting
    /// the chunks the dispatched events yield, in upstream order.
    fn drain_lines(&mut self) -> (chunks: Vec<ChatCompletionChunk>)
        requires
            !old(self).final_chunk_sent,
        ensures
            final(self).pending_utf8 == old(self).pending_utf8,
            final(self).model_name == old(self).model_name,
            final(self).request_id == old(self).request_id,
            final(self).final_chunk_sent == old(self).final_chunk_sent,
            emitted_ok(
                old(self).accumulator.is_finished,
                chunks@,
                final(self).accumulator.is_finished,
            ),
            final(self).accumulator.text@ == old(self).accumulator.text@ + contents_of(chunks@),
            final(self).framer.buf@ == line_rest(old(self).framer.buf@),
            !crate::textops::contains_char(final(self).framer.buf@, '\n'),
            old(self).wf() ==> final(self).wf(),
            old(self).accumulator.is_finished ==> final(self).accumulator.is_finished,
            forall|i: int|
                0 <= i < chunks@.len() ==> crate::chunk::chunk_frame(
                    #[trigger] chunks@[i],
                    old(self).request_id@,
                    old(self).model_name@,
                ),
            ({
                let t = assembler_run(old(self).assembler(), lines_of(old(self).framer.buf@));
                &&& final(self).assembler() == t.0
                &&& chunks_match_sigs(chunks@, t.1, old(self).request_id@, old(self).model_name@)
            }),
    {
        let ghost total = assembler_run(old(self).assembler(), lines_of(old(self).framer.buf@));
        let ghost mut sigs_done: Seq<ChunkSig> = Seq::empty();
        let mut out: Vec<ChatCompletionChunk> = Vec::new();
        proof {
            assert(out@ =~= Seq::<ChatCompletionChunk>::empty());
            assert(old(self).accumulator.text@ + contents_of(out@)
                =~= old(self).accumulator.text@);
            assert(sigs_done + assembler_run(self.assembler(), lines_of(self.framer.buf@)).1
                =~= total.1);
        }
        while self.framer.has_full_line()
            invariant
                !self.final_chunk_sent,
                self.pending_utf8 == old(self).pending_utf8,
                self.model_name == old(self).model_name,
                self.request_id == old(self).request_id,
                self.final_chunk_sent == old(self).final_chunk_sent,
                emitted_ok(
                    old(self).accumulator.is_finished,
                    out@,
                    self.accumulator.is_finished,
                ),
                self.accumulator.text@ == old(self).accumulator.text@ + contents_of(out@),
                line_rest(self.framer.buf@) == line_rest(old(self).framer.buf@),
                old(self).wf() ==> self.wf(),
                old(self).accumulator.is_finished ==> self.accumulator.is_finished,
                forall|i: int|
                    0 <= i < out@.len() ==> crate::chunk::chunk_frame(
                        #[trigger] out@[i],
                        old(self).request_id@,
                        old(self).model_name@,
                    ),
                assembler_run(self.assembler(), lines_of(self.framer.buf@)).0 == total.0,
                sigs_done + assembler_run(self.assembler(), lines_of(self.framer.buf@)).1
                    == total.1,
                chunks_match_sigs(out@, sigs_done, old(self).request_id@, old(self).model_name@),
            decreases self.framer.buf@.len(),
        {
            let ghost st_i = self.assembler();
            let ghost buf_i = self.framer.buf@;
            let line_opt = self.framer.pop_line();
            match line_opt {
                Some(l) => {
                    proof {
                        assert(lines_of(buf_i)[0] == l@);
                        assert(lines_of(buf_i).drop_first() =~= lines_of(self.framer.buf@));
                    }
                    let r = self.handle_line(l.as_str());
                    proof {
                        let step = assembler_step(st_i, l@);
                        let rest_run = assembler_run(step.0, lines_of(self.framer.buf@));
                        assert(assembler_run(st_i, lines_of(buf_i)).0 == rest_run.0);
                        assert(assembler_run(st_i, lines_of(buf_i)).1 == step.1 + rest_run.1);
                        assert((sigs_done + step.1) + rest_run.1 =~= sigs_done + (step.1
                            + rest_run.1));
                        let rs: Seq<ChatCompletionChunk> = if r is Some {
                            seq![r->0]
                        } else {
                            Seq::empty()
                        };
                        lemma_sigs_match_concat(
                            out@,
                            sigs_done,
                            rs,
                            step.1,
                            old(self).request_id@,
                            old(self).model_name@,
                        );
                        sigs_done = sigs_done + step.1;
                    }
                    match r {
                        Some(c) => {
                            proof {
                                lemma_contents_push(out@, c);
                                assert(out@.push(c) =~= out@ + seq![c]);
                            }
                            out.push(c);
                        },
                        None => {
                            proof {
                                assert(self.accumulator.text@ + Seq::<char>::empty()
                                    =~= self.accumulator.text@);
                                assert(out@ + Seq::<ChatCompletionChunk>::empty() =~= out@);
                            }
                        },
                    }
                },
                None => {},
            }
        }
        proof {
            assert(lines_of(self.framer.buf@) =~= Seq::<Seq<char>>::empty());
            assert(sigs_done + Seq::<ChunkSig>::empty() =~= sigs_done);
        }
        out
    }

    /// Feeds one upstream byte batch: a trailing incomplete UTF-8 character
    /// is held back as bytes, the rest is decoded (lossily, so invalid UTF-8
    /// never aborts the stream), complete lines are framed, their events
    /// assembled and dispatched, and the yielded chunks returned in order.
    /// The holdback makes the driver agnostic to byte-batch boundaries even
    /// inside a multi-byte character. Once the stream is done nothing is
    /// processed or emitted.
    pub fn on_bytes(&mut self, bytes: &[u8]) -> (chunks: Vec<ChatCompletionChunk>)
        requires
            old(self).wf(),
        ensures
            final(self).wf(),
            old(self).done() ==> *final(self) == *old(self) && chunks@.len() == 0,
            emitted_ok(old(self).done(), chunks@, final(self).done()),
            final(self).accumulator.text@ == old(self).accumulator.text@ + contents_of(chunks@),
            final(self).model_name == old(self).model_name,
            final(self).request_id == old(self).request_id,
            final(self).final_chunk_sent == old(self).final_chunk_sent,
            forall|i: int|
                0 <= i < chunks@.len() ==> crate::chunk::chunk_frame(
                    #[trigger] chunks@[i],
                    old(self).request_id@,
                    old(self).model_name@,
                ),
            !old(self).done() ==> ({
                let all = old(self).pending_utf8@ + bytes@;
                let cut = all.len() - utf8_holdback(all);
                let t = assembler_run(
                    old(self).assembler(),
                    lines_of(old(self).framer.buf@ + decoded_of(all.take(cut))),
                );
                &&& final(self).pending_utf8@ == all.skip(cut)
                &&& final(self).framer.buf@ == line_rest(
                    old(self).framer.buf@ + decoded_of(all.take(cut)),
                )
                &&& final(self).assembler() == t.0
                &&& chunks_match_sigs(chunks@, t.1, old(self).request_id@, old(self).model_name@)
            }),
    {
        if self.final_chunk_sent || self.accumulator.is_finished {
            let out: Vec<ChatCompletionChunk> = Vec::new();
            proof {
                assert(self.accumulator.text@ + contents_of(out@) =~= self.accumulator.text@);
            }
            return out;
        }
        let combined = concat_bytes(&self.pending_utf8, bytes);
        let keep = utf8_holdback_len(&combined);
        let cut = combined.len() - keep;
        let parts = split_bytes(&combined, cut);
        self.pending_utf8 = parts.1;
        let text = lossy_decode(parts.0.as_slice());
        self.framer.push(text.as_str());
        self.drain_lines()
    }

    /// Runs the termination protocol at upstream EOF: decodes any held-back
    /// bytes, flushes the framer residue into the assembler, dispatches the
    /// last pending event under the currently held event name, and — unless
    /// an earlier `error` event
    /// already finished the stream — derives the related questions and
    /// yields the final `"stop"` chunk. Afterwards the driver is done for
    /// good: every further call emits nothing.
    pub fn on_eof(&mut self) -> (chunks: Vec<ChatCompletionChunk>)
        requires
            old(self).wf(),
        ensures
            final(self).wf(),
            old(self).final_chunk_sent ==> *final(self) == *old(self) && chunks@.len() == 0,
            !old(self).final_chunk_sent ==> final(self).final_chunk_sent
                && final(self).accumulator.is_finished,
            emitted_ok(old(self).done(), chunks@, final(self).done()),
            final(self).done(),
            final(self).accumulator.text@ == old(self).accumulator.text@ + contents_of(chunks@),
            final(self).model_name == old(self).model_name,
            final(self).request_id == old(self).request_id,
            !old(self).done() && final(self).accumulator.error is None ==> chunks@.len() >= 1
                && is_final_chunk(chunks@.last(), old(self).request_id@, old(self).model_name@)
                && final(self).accumulator.related_questions.deep_view() == related_of(
                final(self).accumulator.related_questions_raw@,
            ),
            forall|i: int|
                0 <= i < chunks@.len() ==> crate::chunk::chunk_frame(
                    #[trigger] chunks@[i],
                    old(self).request_id@,
                    old(self).model_name@,
                ),
            !old(self).final_chunk_sent ==> ({
                let full = old(self).framer.buf@ + decoded_of(old(self).pending_utf8@);
                let t = assembler_run(old(self).assembler(), lines_of(full));
                chunks_match_sigs(
                    chunks@,
                    t.1 + eof_run(t.0, line_rest(full)),
                    old(self).request_id@,
                    old(self).model_name@,
                )
            }),
    {
        if self.final_chunk_sent {
            let out: Vec<ChatCompletionChunk> = Vec::new();
            proof {
                assert(self.accumulator.text@ + contents_of(out@) =~= self.accumulator.text@);
            }
            return out;
        }
        let text = lossy_decode(self.pending_utf8.as_slice());
        self.pending_utf8 = Vec::new();
        self.framer.push(text.as_str());
        let ghost full = old(self).framer.buf@ + decoded_of(old(self).pending_utf8@);
        let ghost t = assembler_run(old(self).assembler(), lines_of(full));
        let mut out = self.drain_lines();
        // Flush the residue: at most one incomplete line remains, processed
        // with one trailing CR stripped; an empty residue dispatches nothing.
        let rest = self.framer.take_rest();
        let ghost st1 = eof_asm(t.0, rest@);
        let n = rest.as_str().unicode_len();
        if n > 0 {
            let end = if rest.as_str().get_char(n - 1) == '\r' {
                n - 1
            } else {
                n
            };
            let piece = rest.as_str().substring_char(0, end);
            proof {
                if rest@.last() == '\r' {
                    assert(rest@.subrange(0, n - 1) =~= rest@.drop_last());
                } else {
                    assert(rest@.subrange(0, n as int) =~= rest@);
                }
                assert(piece@ == crate::framer::strip_cr(rest@));
            }
            let parsed = parse_sse_line(piece);
            match parsed {
                SseLine::Event(name) => {
                    self.current_event_name = name;
                },
                SseLine::Data(d) => {
                    let ghost dv0 = self.current_data_buffer.deep_view();
                    let ghost d0: Seq<char> = d@;
                    self.current_data_buffer.push(d);
                    proof {
                        assert(self.current_data_buffer.deep_view() =~= dv0.push(d0));
                    }
                },
                _ => {},
            }
        }
        proof {
            assert(self.assembler() =~= st1);
        }
        // Dispatch the last pending event, if any, under the held name.
        let ghost data_s: Seq<char> = join_nl(st1.datas);
        let ghost dsigs: Seq<ChunkSig> = if st1.datas.len() == 0 || st1.finished {
            Seq::empty()
        } else if is_content_name(st1.name) && data_s.len() > 0 {
            seq![ChunkSig::Content(data_s)]
        } else if st1.name == "error"@ {
            seq![ChunkSig::Error(data_s)]
        } else {
            Seq::empty()
        };
        let ghost finished_after: bool = st1.finished || (st1.datas.len() > 0 && st1.name
            == "error"@);
        let ghost out_drained = out@;
        if self.current_data_buffer.len() > 0 {
            let data = join_data_lines(&self.current_data_buffer);
            self.current_data_buffer = Vec::new();
            let event_name = self.current_event_name.clone();
            let ghost pre_acc = self.accumulator;
            let r = process_single_dev_event(
                &mut self.accumulator,
                event_name,
                data,
                self.request_id.as_str(),
                self.model_name.as_str(),
            );
            proof {
                lemma_dispatch_frame(
                    pre_acc,
                    self.accumulator,
                    event_name@,
                    data@,
                    r,
                    self.request_id@,
                    self.model_name@,
                );
                assert(chunks_match_sigs(
                    match r {
                        Some(c) => seq![c],
                        None => Seq::<ChatCompletionChunk>::empty(),
                    },
                    dsigs,
                    old(self).request_id@,
                    old(self).model_name@,
                ));
                assert(self.accumulator.is_finished == finished_after);
            }
            match r {
                Some(c) => {
                    proof {
                        lemma_contents_push(out@, c);
                        lemma_sigs_match_concat(
                            out@,
                            t.1,
                            seq![c],
                            dsigs,
                            old(self).request_id@,
                            old(self).model_name@,
                        );
                        assert(out@.push(c) =~= out@ + seq![c]);
                    }
                    out.push(c);
                },
                None => {
                    proof {
                        assert(self.accumulator.text@ + Seq::<char>::empty()
                            =~= self.accumulator.text@);
                        assert(out@ + Seq::<ChatCompletionChunk>::empty() =~= out@);
                        lemma_sigs_match_concat(
                            out@,
                            t.1,
                            Seq::empty(),
                            dsigs,
                            old(self).request_id@,
                            old(self).model_name@,
                        );
                        assert(t.1 + dsigs =~= t.1 + Seq::<ChunkSig>::empty() + dsigs);
                    }
                },
            }
        } else {
            proof {
                assert(dsigs =~= Seq::<ChunkSig>::empty());
                assert(self.accumulator.is_finished == finished_after);
                assert(out@ + Seq::<ChatCompletionChunk>::empty() =~= out@);
                lemma_sigs_match_concat(
                    out@,
                    t.1,
                    Seq::empty(),
                    dsigs,
                    old(self).request_id@,
                    old(self).model_name@,
                );
            }
        }
        proof {
            assert(chunks_match_sigs(
                out@,
                t.1 + dsigs,
                old(self).request_id@,
                old(self).model_name@,
            ));
        }
        // Terminal emission: exactly one chunk of the stream carries a
        // non-null finish reason, whichever path got us here.
        self.final_chunk_sent = true;
        if !self.accumulator.is_finished {
            self.accumulator.is_finished = true;
            self.accumulator.update_related_questions();
            let fin = create_final_chunk(
                self.request_id.clone(),
                self.model_name.clone(),
                "stop".to_owned(),
            );
            proof {
                reveal_strlit("stop");
                lemma_contents_push(out@, fin);
                lemma_sigs_match_concat(
                    out@,
                    t.1 + dsigs,
                    seq![fin],
                    seq![ChunkSig::Finish],
                    old(self).request_id@,
                    old(self).model_name@,
                );
                assert(out@.push(fin) =~= out@ + seq![fin]);
                assert(eof_run(t.0, rest@) =~= dsigs + seq![ChunkSig::Finish]);
                assert((t.1 + dsigs) + seq![ChunkSig::Finish] =~= t.1 + eof_run(t.0, rest@));
            }
            out.push(fin);
        } else {
            proof {
                assert(finished_after);
                assert(eof_run(t.0, rest@) =~= dsigs);
            }
        }
        out
    }
}

} // verus!
