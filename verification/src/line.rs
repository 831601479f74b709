//! The SSE line parser: classifies one already-split line (all trailing CR/LF
//! removed) into one of the six SSE line shapes.

use vstd::prelude::*;
use vstd::string::StrSliceExecFns;
use crate::textops::str_eq;
use crate::textops::find_char;
use crate::textops::first_index_of;

verus! {

/// A classified SSE line. `Event`, `Data`, `Id` and `Retry` carry the field
/// value with at most one leading space stripped; unknown fields and lines
/// starting with `:` are comments; the empty line ends an event.
#[derive(Debug, PartialEq, Eq)]
pub enum SseLine {
    Event(String),
    Data(String),
    Retry(String),
    Id(String),
    Comment,
    Empty,
}

/// The mathematical shape of a classified line, over character sequences.
pub ghost enum SseLineModel {
    Event(Seq<char>),
    Data(Seq<char>),
    Retry(Seq<char>),
    Id(Seq<char>),
    Comment,
    Empty,
}

impl View for SseLine {
    type V = SseLineModel;

    open spec fn view(&self) -> SseLineModel {
        match self {
            SseLine::Event(v) => SseLineModel::Event(v@),
            SseLine::Data(v) => SseLineModel::Data(v@),
            SseLine::Retry(v) => SseLineModel::Retry(v@),
            SseLine::Id(v) => SseLineModel::Id(v@),
            SseLine::Comment => SseLineModel::Comment,
            SseLine::Empty => SseLineModel::Empty,
        }
    }
}

/// Index of the first `:` in `s`, or `s.len()` if there is none.
pub open spec fn first_colon(s: Seq<char>) -> int {
    first_index_of(s, ':')
}

/// The field name: everything before the first `:`, or the whole line.
pub open spec fn field_of(s: Seq<char>) -> Seq<char> {
    s.subrange(0, first_colon(s))
}

/// The raw value: everything after the first `:`, or empty if there is none.
pub open spec fn raw_value_of(s: Seq<char>) -> Seq<char> {
    if first_colon(s) < s.len() {
        s.subrange(first_colon(s) + 1, s.len() as int)
    } else {
        Seq::empty()
    }
}

/// The value: the raw value with at most one leading space stripped.
pub open spec fn value_of(s: Seq<char>) -> Seq<char> {
    if raw_value_of(s).len() > 0 && raw_value_of(s)[0] == ' ' {
        raw_value_of(s).drop_first()
    } else {
        raw_value_of(s)
    }
}

/// The SSE line classification rules, as a function on character sequences.
pub open spec fn parse_line_spec(s: Seq<char>) -> SseLineModel {
    if s.len() == 0 {
        SseLineModel::Empty
    } else if s[0] == ':' {
        SseLineModel::Comment
    } else if field_of(s) == "event"@ {
        SseLineModel::Event(value_of(s))
    } else if field_of(s) == "data"@ {
        SseLineModel::Data(value_of(s))
    } else if field_of(s) == "id"@ {
        SseLineModel::Id(value_of(s))
    } else if field_of(s) == "retry"@ {
        SseLineModel::Retry(value_of(s))
    } else {
        SseLineModel::Comment
    }
}

/// The canonical text of a classified line: `field: value` for the four
/// recognized fields, a bare `:` for a comment, the empty line for `Empty`.
pub open spec fn format_line_spec(l: SseLineModel) -> Seq<char> {
    match l {
        SseLineModel::Event(v) => "event"@ + seq![':', ' '] + v,
        SseLineModel::Data(v) => "data"@ + seq![':', ' '] + v,
        SseLineModel::Retry(v) => "retry"@ + seq![':', ' '] + v,
        SseLineModel::Id(v) => "id"@ + seq![':', ' '] + v,
        SseLineModel::Comment => seq![':'],
        SseLineModel::Empty => Seq::empty(),
    }
}

proof fn lemma_parse_keyword_line(kw: Seq<char>, v: Seq<char>)
    requires
        kw.len() > 0,
        forall|j: int| 0 <= j < kw.len() ==> kw[j] != ':',
    ensures
        ({
            let s = kw + seq![':', ' '] + v;
            &&& first_colon(s) == kw.len()
            &&& field_of(s) == kw
            &&& value_of(s) == v
        }),
{
    let s = kw + seq![':', ' '] + v;
    crate::textops::lemma_first_index_of_at(s, ':', kw.len() as int);
    assert(field_of(s) =~= kw);
    assert(raw_value_of(s) =~= seq![' '] + v);
    assert(raw_value_of(s)[0] == ' ');
    assert(value_of(s) =~= v);
}

/// Line-parser round trip: parsing the canonical text of any classified line
/// yields that line back, for every carried value, up to the
/// single-leading-space convention that the canonical text uses.
pub proof fn lemma_parse_format_round_trip(l: SseLineModel)
    ensures
        parse_line_spec(format_line_spec(l)) == l,
{
    reveal_strlit("event");
    reveal_strlit("data");
    reveal_strlit("retry");
    reveal_strlit("id");
    match l {
        SseLineModel::Event(v) => {
            lemma_parse_keyword_line("event"@, v);
        },
        SseLineModel::Data(v) => {
            lemma_parse_keyword_line("data"@, v);
            assert("data"@ != "event"@);
        },
        SseLineModel::Retry(v) => {
            lemma_parse_keyword_line("retry"@, v);
            assert("retry"@ != "event"@ && "retry"@ != "data"@ && "retry"@ != "id"@);
        },
        SseLineModel::Id(v) => {
            lemma_parse_keyword_line("id"@, v);
            assert("id"@ != "event"@ && "id"@ != "data"@);
        },
        SseLineModel::Comment => {
        },
        SseLineModel::Empty => {
        },
    }
}

/// Classifies one SSE line, with all trailing CR/LF already removed.
pub fn parse_sse_line(line: &str) -> (r: SseLine)
    ensures
        r@ == parse_line_spec(line@),
{
    let n = line.unicode_len();
    if n == 0 {
        return SseLine::Empty;
    }
    if line.get_char(0) == ':' {
        return SseLine::Comment;
    }
    let i = find_char(line, ':');
    let field = line.substring_char(0, i);
    let raw = if i < n {
        line.substring_char(i + 1, n)
    } else {
        line.substring_char(n, n)
    };
    assert(raw@ =~= raw_value_of(line@));
    let rn = raw.unicode_len();
    let value = if rn > 0 && raw.get_char(0) == ' ' {
        raw.substring_char(1, rn)
    } else {
        raw
    };
    assert(value@ =~= value_of(line@));
    assert(field@ =~= field_of(line@));
    if str_eq(field, "event") {
        SseLine::Event(value.to_owned())
    } else if str_eq(field, "data") {
        SseLine::Data(value.to_owned())
    } else if str_eq(field, "id") {
        SseLine::Id(value.to_owned())
    } else if str_eq(field, "retry") {
        SseLine::Retry(value.to_owned())
    } else {
        SseLine::Comment
    }
}

} // verus!
