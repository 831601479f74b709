//! The typed accumulator: running text, structured side channels, metadata,
//! and the terminal flag, together with the related-questions derivation.

use vstd::prelude::*;
use vstd::string::StrSliceExecFns;
use crate::textops::char_is_whitespace;
use crate::textops::is_whitespace;
use crate::textops::first_index_of;
use crate::textops::find_char;
verus! {

/// One structured action event. Unknown JSON fields are preserved in
/// `extra`; `crate::json::value_model` says exactly which fields those are.
#[derive(Debug, Clone)]
pub struct DevAction {
    pub action_type: u32,
    pub extra: serde_json::Value,
}

/// One source reference. Unknown JSON fields are preserved in `extra`.
#[derive(Debug, Clone)]
pub struct DevSource {
    pub title: Option<String>,
    pub url: Option<String>,
    pub extra: serde_json::Value,
}

/// One GitHub source reference. Unknown JSON fields are preserved in `extra`.
#[derive(Debug, Clone)]
pub struct DevGithubSource {
    pub repo: Option<String>,
    pub file_path: Option<String>,
    pub extra: serde_json::Value,
}

/// Per-request state collected from the upstream event stream.
#[derive(Debug, Clone)]
pub struct SseAccumulator {
    pub text: String,
    pub actions: Vec<DevAction>,
    pub sources: Vec<DevSource>,
    pub github_sources: Vec<DevGithubSource>,
    pub related_questions: Vec<String>,
    pub related_questions_raw: String,
    pub thread_id: Option<String>,
    pub query_message_id: Option<String>,
    pub answer_message_id: Option<String>,
    pub thread_title: Option<String>,
    pub reasoning: Option<String>,
    pub is_finished: bool,
    pub error: Option<String>,
}

/// The accumulator of a stream that has seen no event yet.
pub open spec fn is_initial_accumulator(a: SseAccumulator) -> bool {
    &&& a.text@.len() == 0
    &&& a.actions@.len() == 0
    &&& a.sources@.len() == 0
    &&& a.github_sources@.len() == 0
    &&& a.related_questions@.len() == 0
    &&& a.related_questions_raw@.len() == 0
    &&& a.thread_id is None
    &&& a.query_message_id is None
    &&& a.answer_message_id is None
    &&& a.thread_title is None
    &&& a.reasoning is None
    &&& a.is_finished == false
    &&& a.error is None
}

impl Default for SseAccumulator {
    fn default() -> (r: Self)
        ensures
            is_initial_accumulator(r),
    {
        SseAccumulator {
            text: String::new(),
            actions: Vec::new(),
            sources: Vec::new(),
            github_sources: Vec::new(),
            related_questions: Vec::new(),
            related_questions_raw: String::new(),
            thread_id: None,
            query_message_id: None,
            answer_message_id: None,
            thread_title: None,
            reasoning: None,
            is_finished: false,
            error: None,
        }
    }
}

/// `s` with its leading whitespace removed.
pub open spec fn trim_start_spec(s: Seq<char>) -> Seq<char>
    decreases s.len(),
{
    if s.len() > 0 && char_is_whitespace(s[0]) {
        trim_start_spec(s.drop_first())
    } else {
        s
    }
}

/// `s` with its trailing whitespace removed.
pub open spec fn trim_end_spec(s: Seq<char>) -> Seq<char>
    decreases s.len(),
{
    if s.len() > 0 && char_is_whitespace(s.last()) {
        trim_end_spec(s.drop_last())
    } else {
        s
    }
}

/// `s` with leading and trailing whitespace removed, as `str::trim` does.
pub open spec fn trim_spec(s: Seq<char>) -> Seq<char> {
    trim_end_spec(trim_start_spec(s))
}

/// The related questions derived from the raw buffer: split on `'\n'`, trim
/// each piece, drop the empty ones.
pub open spec fn related_of(raw: Seq<char>) -> Seq<Seq<char>>
    decreases raw.len(),
{
    let i = first_index_of(raw, '\n');
    if 0 <= i < raw.len() {
        let head = trim_spec(raw.subrange(0, i));
        let rest = related_of(raw.subrange(i + 1, raw.len() as int));
        if head.len() > 0 {
            seq![head] + rest
        } else {
            rest
        }
    } else {
        let head = trim_spec(raw);
        if head.len() > 0 {
            seq![head]
        } else {
            Seq::empty()
        }
    }
}

/// Trims a string, as `str::trim` does.
pub fn trim_str(s: &str) -> (r: String)
    ensures
        r@ == trim_spec(s@),
{
    let n = s.unicode_len();
    let mut a: usize = 0;
    assert(s@.subrange(0, n as int) =~= s@);
    while a < n && is_whitespace(s.get_char(a))
        invariant
            n == s@.len(),
            a <= n,
            trim_start_spec(s@) == trim_start_spec(s@.subrange(a as int, n as int)),
        decreases n - a,
    {
        proof {
            assert(s@.subrange(a as int, n as int).drop_first() =~= s@.subrange(
                a as int + 1,
                n as int,
            ));
        }
        a += 1;
    }
    assert(trim_start_spec(s@) == s@.subrange(a as int, n as int));
    let mut b: usize = n;
    while b > a && is_whitespace(s.get_char(b - 1))
        invariant
            n == s@.len(),
            a <= b <= n,
            trim_start_spec(s@) == s@.subrange(a as int, n as int),
            trim_end_spec(s@.subrange(a as int, n as int)) == trim_end_spec(
                s@.subrange(a as int, b as int),
            ),
        decreases b,
    {
        proof {
            assert(s@.subrange(a as int, b as int).drop_last() =~= s@.subrange(
                a as int,
                b as int - 1,
            ));
        }
        b -= 1;
    }
    assert(trim_spec(s@) == s@.subrange(a as int, b as int));
    s.substring_char(a, b).to_owned()
}

proof fn lemma_trim_start_head(s: Seq<char>)
    ensures
        trim_start_spec(s).len() > 0 ==> !char_is_whitespace(trim_start_spec(s)[0]),
        trim_start_spec(s).len() > 0 ==> trim_start_spec(s).last() == s.last() && s.len() > 0,
    decreases s.len(),
{
    if s.len() > 0 && char_is_whitespace(s[0]) {
        lemma_trim_start_head(s.drop_first());
    }
}

proof fn lemma_trim_end_last(s: Seq<char>)
    ensures
        trim_end_spec(s).len() > 0 ==> !char_is_whitespace(trim_end_spec(s).last()),
        trim_end_spec(s).len() > 0 ==> trim_end_spec(s)[0] == s[0] && s.len() > 0,
    decreases s.len(),
{
    if s.len() > 0 && char_is_whitespace(s.last()) {
        lemma_trim_end_last(s.drop_last());
    }
}

/// A trimmed, non-empty piece neither starts nor ends with whitespace.
pub proof fn lemma_trim_props(s: Seq<char>)
    ensures
        trim_spec(s).len() > 0 ==> !char_is_whitespace(trim_spec(s)[0]),
        trim_spec(s).len() > 0 ==> !char_is_whitespace(trim_spec(s).last()),
{
    lemma_trim_start_head(s);
    lemma_trim_end_last(trim_start_spec(s));
}

/// The related-questions list contains no empty entry and no entry with
/// leading or trailing whitespace, whatever the raw buffer holds.
pub proof fn lemma_related_entries_clean(raw: Seq<char>)
    ensures
        forall|k: int|
            0 <= k < related_of(raw).len() ==> (#[trigger] related_of(raw)[k]).len() > 0
                && !char_is_whitespace(related_of(raw)[k][0]) && !char_is_whitespace(
                related_of(raw)[k].last(),
            ),
    decreases raw.len(),
{
    let i = first_index_of(raw, '\n');
    if 0 <= i < raw.len() {
        let head = trim_spec(raw.subrange(0, i));
        let rest = related_of(raw.subrange(i + 1, raw.len() as int));
        lemma_trim_props(raw.subrange(0, i));
        lemma_related_entries_clean(raw.subrange(i + 1, raw.len() as int));
        assert forall|k: int|
            0 <= k < related_of(raw).len() implies (#[trigger] related_of(raw)[k]).len() > 0
            && !char_is_whitespace(related_of(raw)[k][0]) && !char_is_whitespace(
            related_of(raw)[k].last(),
        ) by {
            if head.len() > 0 {
                if k == 0 {
                    assert(related_of(raw)[k] == head);
                } else {
                    assert(related_of(raw)[k] == rest[k - 1]);
                }
            } else {
                assert(related_of(raw)[k] == rest[k]);
            }
        }
    } else {
        lemma_trim_props(raw);
    }
}

impl SseAccumulator {
    /// Derives `related_questions` from the raw buffer: split on `'\n'`,
    /// trim each piece, drop empty pieces. Touches no other field.
    pub fn update_related_questions(&mut self)
        ensures
            final(self).related_questions.deep_view() == related_of(
                old(self).related_questions_raw@,
            ),
            *final(self) == (SseAccumulator {
                related_questions: final(self).related_questions,
                ..*old(self)
            }),
    {
        let ghost raw0: Seq<char> = self.related_questions_raw@;
        let mut out: Vec<String> = Vec::new();
        let mut rest: String = self.related_questions_raw.clone();
        assert(out.deep_view() + related_of(rest@) =~= related_of(raw0));
        loop
            invariant_except_break
                out.deep_view() + related_of(rest@) =~= related_of(raw0),
            ensures
                out.deep_view() =~= related_of(raw0),
            decreases rest@.len(),
        {
            let ghost out0: Seq<Seq<char>> = out.deep_view();
            let n = rest.as_str().unicode_len();
            let i = find_char(rest.as_str(), '\n');
            if i < n {
                let piece = rest.as_str().substring_char(0, i);
                let t = trim_str(piece);
                if t.as_str().unicode_len() > 0 {
                    out.push(t);
                    assert(out.deep_view() =~= out0.push(t@));
                }
                let tail = rest.as_str().substring_char(i + 1, n).to_owned();
                rest = tail;
                assert(out.deep_view() + related_of(rest@) =~= related_of(raw0));
            } else {
                let t = trim_str(rest.as_str());
                if t.as_str().unicode_len() > 0 {
                    out.push(t);
                    assert(out.deep_view() =~= out0.push(t@));
                }
                assert(out.deep_view() =~= related_of(raw0));
                break;
            }
        }
        self.related_questions = out;
    }
}

} // verus!
