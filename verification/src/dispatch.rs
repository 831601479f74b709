//! Per-event semantics: one assembled `(event name, data)` record updates the
//! accumulator and may yield one chunk. Only content and `error` events yield;
//! once the accumulator is finished, every event is dropped, so no chunk can
//! follow an error chunk.

use vstd::prelude::*;
use vstd::string::StrSliceExecFns;
use vstd::string::StringExecFns;
use crate::accum::SseAccumulator;
use crate::accum::trim_spec;
use crate::accum::trim_str;
use crate::chunk::ChatCompletionChunk;
use crate::chunk::chunk_content;
use crate::chunk::is_content_chunk;
use crate::chunk::is_error_chunk;
use crate::chunk::is_terminal_chunk;
use crate::chunk::create_content_chunk;
use crate::chunk::create_error_chunk;
use crate::json::JsonModel;
use crate::json::action_ok;
use crate::json::action_type_of;
use crate::json::action_extra_of;
use crate::json::sources_ok;
use crate::json::github_sources_ok;
use crate::json::source_matches;
use crate::json::github_source_matches;
use crate::json::payload_elems_of;
use crate::json::value_model;
use crate::json::parse_action;
use crate::json::parse_sources;
use crate::json::parse_github_sources;
use crate::textops::str_eq;

verus! {

/// The three aliases that advance the user-visible token stream.
pub open spec fn is_content_name(n: Seq<char>) -> bool {
    n == "message"@ || n == "content"@ || n == "c"@
}

/// `b` differs from `a` at most in `text`.
pub open spec fn only_text(a: SseAccumulator, b: SseAccumulator) -> bool {
    b == (SseAccumulator { text: b.text, ..a })
}

/// `b` differs from `a` at most in `actions`.
pub open spec fn only_actions(a: SseAccumulator, b: SseAccumulator) -> bool {
    b == (SseAccumulator { actions: b.actions, ..a })
}

/// `b` differs from `a` at most in `sources`.
pub open spec fn only_sources(a: SseAccumulator, b: SseAccumulator) -> bool {
    b == (SseAccumulator { sources: b.sources, ..a })
}

/// `b` differs from `a` at most in `github_sources`.
pub open spec fn only_github_sources(a: SseAccumulator, b: SseAccumulator) -> bool {
    b == (SseAccumulator { github_sources: b.github_sources, ..a })
}

/// `b` differs from `a` at most in `related_questions_raw`.
pub open spec fn only_related_raw(a: SseAccumulator, b: SseAccumulator) -> bool {
    b == (SseAccumulator { related_questions_raw: b.related_questions_raw, ..a })
}

/// `b` differs from `a` at most in `reasoning`.
pub open spec fn only_reasoning(a: SseAccumulator, b: SseAccumulator) -> bool {
    b == (SseAccumulator { reasoning: b.reasoning, ..a })
}

/// `b` differs from `a` at most in `error` and `is_finished`.
pub open spec fn only_error_state(a: SseAccumulator, b: SseAccumulator) -> bool {
    b == (SseAccumulator { error: b.error, is_finished: b.is_finished, ..a })
}

/// The dispatch table: what one event does to the accumulator and
/// which chunk, if any, it yields. `pre.is_finished` guards everything: a
/// finished stream drops every further event.
pub open spec fn dispatch_rel(
    pre: SseAccumulator,
    post: SseAccumulator,
    name: Seq<char>,
    data: Seq<char>,
    r: Option<ChatCompletionChunk>,
    req: Seq<char>,
    model: Seq<char>,
) -> bool {
    if pre.is_finished {
        post == pre && r is None
    } else if is_content_name(name) {
        if data.len() == 0 {
            post == pre && r is None
        } else {
            &&& only_text(pre, post)
            &&& post.text@ == pre.text@ + data
            &&& (match r {
                Some(c) => is_content_chunk(c, req, model, data),
                None => false,
            })
        }
    } else if name == "action"@ {
        &&& only_actions(pre, post)
        &&& r is None
        &&& (if action_ok(data) {
            &&& post.actions@ == pre.actions@.push(post.actions@.last())
            &&& post.actions@.len() == pre.actions@.len() + 1
            &&& post.actions@.last().action_type as u64 == action_type_of(data)
            &&& value_model(post.actions@.last().extra) == JsonModel::Obj(action_extra_of(data))
        } else {
            post.actions == pre.actions
        })
    } else if name == "sources"@ {
        &&& only_sources(pre, post)
        &&& r is None
        &&& (if sources_ok(data) {
            &&& post.sources@.len() == payload_elems_of(data).len()
            &&& forall|i: int|
                0 <= i < post.sources@.len() ==> source_matches(
                    #[trigger] post.sources@[i],
                    payload_elems_of(data)[i],
                )
        } else {
            post.sources == pre.sources
        })
    } else if name == "repoSources"@ {
        &&& only_github_sources(pre, post)
        &&& r is None
        &&& (if github_sources_ok(data) {
            &&& post.github_sources@.len() == payload_elems_of(data).len()
            &&& forall|i: int|
                0 <= i < post.github_sources@.len() ==> github_source_matches(
                    #[trigger] post.github_sources@[i],
                    payload_elems_of(data)[i],
                )
        } else {
            post.github_sources == pre.github_sources
        })
    } else if name == "rlq"@ || name == "q"@ {
        if data.len() == 0 {
            post == pre && r is None
        } else {
            &&& only_related_raw(pre, post)
            &&& post.related_questions_raw@ == pre.related_questions_raw@ + seq!['\n']
                + trim_spec(data)
            &&& r is None
        }
    } else if name == "r"@ {
        &&& only_reasoning(pre, post)
        &&& (match post.reasoning {
            Some(s) => s@ == (match pre.reasoning {
                Some(p) => p@,
                None => Seq::<char>::empty(),
            }) + data,
            None => false,
        })
        &&& r is None
    } else if name == "threadId"@ {
        &&& (post == (SseAccumulator { thread_id: post.thread_id, ..pre }))
        &&& (match post.thread_id {
            Some(s) => s@ == data,
            None => false,
        })
        &&& r is None
    } else if name == "queryMessageId"@ {
        &&& (post == (SseAccumulator { query_message_id: post.query_message_id, ..pre }))
        &&& (match post.query_message_id {
            Some(s) => s@ == data,
            None => false,
        })
        &&& r is None
    } else if name == "answerMessageId"@ {
        &&& (post == (SseAccumulator { answer_message_id: post.answer_message_id, ..pre }))
        &&& (match post.answer_message_id {
            Some(s) => s@ == data,
            None => false,
        })
        &&& r is None
    } else if name == "threadTitle"@ {
        &&& (post == (SseAccumulator { thread_title: post.thread_title, ..pre }))
        &&& (match post.thread_title {
            Some(s) => s@ == data,
            None => false,
        })
        &&& r is None
    } else if name == "error"@ {
        &&& only_error_state(pre, post)
        &&& (match post.error {
            Some(e) => e@ == data,
            None => false,
        })
        &&& post.is_finished
        &&& (match r {
            Some(c) => is_error_chunk(c, req, model, data),
            None => false,
        })
    } else {
        // Unknown names and the log-only `finish` event change nothing.
        post == pre && r is None
    }
}

/// Facts every dispatch satisfies, whatever the event: the text grows by
/// exactly the yielded content, a finished accumulator stays untouched, the
/// finished flag is monotonic, and a terminal chunk marks the stream
/// finished.
pub proof fn lemma_dispatch_frame(
    pre: SseAccumulator,
    post: SseAccumulator,
    name: Seq<char>,
    data: Seq<char>,
    r: Option<ChatCompletionChunk>,
    req: Seq<char>,
    model: Seq<char>,
)
    requires
        dispatch_rel(pre, post, name, data, r, req, model),
    ensures
        post.text@ == pre.text@ + (match r {
            Some(c) => chunk_content(c),
            None => Seq::<char>::empty(),
        }),
        pre.is_finished ==> post == pre && r is None,
        pre.is_finished ==> post.is_finished,
        (match r {
            Some(c) => (is_terminal_chunk(c) ==> post.is_finished) && crate::chunk::chunk_frame(
                c,
                req,
                model,
            ),
            None => true,
        }),
        post.error == pre.error || name == "error"@,
        (pre.is_finished <==> pre.error is Some) ==> (post.is_finished <==> post.error is Some),
        name != "error"@ ==> post.is_finished == pre.is_finished,
        name == "error"@ ==> post.is_finished,
{
    broadcast use vstd::string::group_string_axioms;

    reveal_strlit("message");
    reveal_strlit("content");
    reveal_strlit("c");
    reveal_strlit("action");
    reveal_strlit("sources");
    reveal_strlit("repoSources");
    reveal_strlit("rlq");
    reveal_strlit("q");
    reveal_strlit("r");
    reveal_strlit("threadId");
    reveal_strlit("queryMessageId");
    reveal_strlit("answerMessageId");
    reveal_strlit("threadTitle");
    reveal_strlit("error");
    // Pin length and first character of each recognized name, so that the
    // solver can tell the names apart.
    assert("message"@.len() == 7 && "message"@[0] == 'm');
    assert("content"@.len() == 7 && "content"@[0] == 'c');
    assert("c"@.len() == 1 && "c"@[0] == 'c');
    assert("action"@.len() == 6 && "action"@[0] == 'a');
    assert("sources"@.len() == 7 && "sources"@[0] == 's');
    assert("repoSources"@.len() == 11 && "repoSources"@[0] == 'r');
    assert("rlq"@.len() == 3 && "rlq"@[0] == 'r');
    assert("q"@.len() == 1 && "q"@[0] == 'q');
    assert("r"@.len() == 1 && "r"@[0] == 'r');
    assert("threadId"@.len() == 8 && "threadId"@[0] == 't');
    assert("queryMessageId"@.len() == 14 && "queryMessageId"@[0] == 'q');
    assert("answerMessageId"@.len() == 15 && "answerMessageId"@[0] == 'a');
    assert("threadTitle"@.len() == 11 && "threadTitle"@[0] == 't');
    assert("error"@.len() == 5 && "error"@[0] == 'e');
    assert(pre.text@ + Seq::<char>::empty() =~= pre.text@);
}

/// Applies one assembled event to the accumulator; yields the content chunk
/// or error chunk the event calls for, if any.
pub fn process_single_dev_event(
    accumulator: &mut SseAccumulator,
    event_name: String,
    data: String,
    request_id: &str,
    model_name: &str,
) -> (r: Option<ChatCompletionChunk>)
    ensures
        dispatch_rel(
            *old(accumulator),
            *final(accumulator),
            event_name@,
            data@,
            r,
            request_id@,
            model_name@,
        ),
{
    if accumulator.is_finished {
        return None;
    }
    let name = event_name.as_str();
    if str_eq(name, "message") || str_eq(name, "content") || str_eq(name, "c") {
        if data.as_str().unicode_len() == 0 {
            None
        } else {
            accumulator.text.append(data.as_str());
            Some(create_content_chunk(request_id.to_owned(), model_name.to_owned(), data))
        }
    } else if str_eq(name, "action") {
        match parse_action(data.as_str()) {
            Some(a) => {
                let ghost pre_actions = accumulator.actions@;
                accumulator.actions.push(a);
                proof {
                    assert(accumulator.actions@ == pre_actions.push(a));
                }
            },
            None => {},
        }
        None
    } else if str_eq(name, "sources") {
        match parse_sources(data.as_str()) {
            Some(s) => {
                accumulator.sources = s;
            },
            None => {},
        }
        None
    } else if str_eq(name, "repoSources") {
        match parse_github_sources(data.as_str()) {
            Some(s) => {
                accumulator.github_sources = s;
            },
            None => {},
        }
        None
    } else if str_eq(name, "rlq") || str_eq(name, "q") {
        if data.as_str().unicode_len() == 0 {
            None
        } else {
            let t = trim_str(data.as_str());
            accumulator.related_questions_raw.append("\n");
            accumulator.related_questions_raw.append(t.as_str());
            proof {
                reveal_strlit("\n");
                assert("\n"@ =~= seq!['\n']);
            }
            None
        }
    } else if str_eq(name, "r") {
        let mut s = match accumulator.reasoning.take() {
            Some(p) => p,
            None => String::new(),
        };
        s.append(data.as_str());
        accumulator.reasoning = Some(s);
        None
    } else if str_eq(name, "threadId") {
        accumulator.thread_id = Some(data);
        None
    } else if str_eq(name, "queryMessageId") {
        accumulator.query_message_id = Some(data);
        None
    } else if str_eq(name, "answerMessageId") {
        accumulator.answer_message_id = Some(data);
        None
    } else if str_eq(name, "threadTitle") {
        accumulator.thread_title = Some(data);
        None
    } else if str_eq(name, "error") {
        accumulator.error = Some(data.clone());
        accumulator.is_finished = true;
        Some(create_error_chunk(request_id.to_owned(), model_name.to_owned(), data))
    } else {
        None
    }
}

} // verus!
