//! The byte-to-line framer: a growable text buffer over the decoded upstream
//! stream, from which complete newline-terminated lines are taken one at a
//! time. Lines are stripped of the terminating `\n` and of at most one `\r`
//! before it; everything after the last `\n` stays buffered.

use vstd::prelude::*;
use vstd::string::StrSliceExecFns;
use vstd::string::StringExecFns;
use crate::textops::contains_char;
use crate::textops::find_char;
use crate::textops::first_index_of;
use crate::textops::lemma_first_index_of_props;
use crate::textops::lemma_first_index_of_at;

verus! {

/// `s` with one trailing `'\r'` removed: what stripping `\r?\n` leaves of a
/// line whose `'\n'` is already gone.
pub open spec fn strip_cr(s: Seq<char>) -> Seq<char> {
    if s.len() > 0 && s.last() == '\r' {
        s.drop_last()
    } else {
        s
    }
}

/// The complete lines of `s`: each segment up to a `'\n'`, CR-stripped, in
/// order.
pub open spec fn lines_of(s: Seq<char>) -> Seq<Seq<char>>
    decreases s.len(),
{
    let i = first_index_of(s, '\n');
    if 0 <= i < s.len() {
        seq![strip_cr(s.subrange(0, i))] + lines_of(s.subrange(i + 1, s.len() as int))
    } else {
        Seq::empty()
    }
}

/// What remains buffered after all complete lines are taken: everything
/// after the last `'\n'`.
pub open spec fn line_rest(s: Seq<char>) -> Seq<char>
    decreases s.len(),
{
    let i = first_index_of(s, '\n');
    if 0 <= i < s.len() {
        line_rest(s.subrange(i + 1, s.len() as int))
    } else {
        s
    }
}

/// Splitting a feed in two changes neither the lines nor the residue: the
/// second piece continues exactly where the first piece's residue left off.
pub proof fn lemma_lines_split(a: Seq<char>, b: Seq<char>)
    ensures
        lines_of(a + b) == lines_of(a) + lines_of(line_rest(a) + b),
        line_rest(a + b) == line_rest(line_rest(a) + b),
    decreases a.len(),
{
    lemma_first_index_of_props(a, '\n');
    let i = first_index_of(a, '\n');
    if 0 <= i < a.len() {
        let a2 = a.subrange(i + 1, a.len() as int);
        lemma_first_index_of_at(a + b, '\n', i);
        assert((a + b).subrange(0, i) =~= a.subrange(0, i));
        assert((a + b).subrange(i + 1, (a + b).len() as int) =~= a2 + b);
        lemma_lines_split(a2, b);
        assert(lines_of(a + b) =~= lines_of(a) + lines_of(line_rest(a) + b));
    } else {
        assert(line_rest(a) == a);
        assert(lines_of(a + b) =~= lines_of(a) + lines_of(line_rest(a) + b));
    }
}

/// The residue left after feeding the pieces one at a time.
pub open spec fn feed_rest(pieces: Seq<Seq<char>>) -> Seq<char>
    decreases pieces.len(),
{
    if pieces.len() == 0 {
        Seq::empty()
    } else {
        line_rest(feed_rest(pieces.drop_last()) + pieces.last())
    }
}

/// The lines extracted while feeding the pieces one at a time.
pub open spec fn feed_lines(pieces: Seq<Seq<char>>) -> Seq<Seq<char>>
    decreases pieces.len(),
{
    if pieces.len() == 0 {
        Seq::empty()
    } else {
        feed_lines(pieces.drop_last()) + lines_of(feed_rest(pieces.drop_last()) + pieces.last())
    }
}

/// The framer is boundary-agnostic: for any partition of a text into pieces,
/// feeding the pieces one at a time yields exactly the lines — and leaves
/// exactly the residue — of feeding the concatenation whole.
pub proof fn lemma_framer_boundary_agnostic(pieces: Seq<Seq<char>>)
    ensures
        feed_lines(pieces) == lines_of(pieces.flatten()),
        feed_rest(pieces) == line_rest(pieces.flatten()),
    decreases pieces.len(),
{
    if pieces.len() == 0 {
        assert(pieces.flatten() =~= Seq::<char>::empty());
        assert(lines_of(Seq::<char>::empty()) =~= Seq::<Seq<char>>::empty());
    } else {
        let init = pieces.drop_last();
        let last = pieces.last();
        lemma_framer_boundary_agnostic(init);
        assert(init.push(last) =~= pieces);
        init.lemma_flatten_push(last);
        lemma_lines_split(init.flatten(), last);
    }
}

/// The framer's buffer of decoded, not yet line-split text.
pub struct LineFramer {
    pub buf: String,
}

impl LineFramer {
    /// An empty framer.
    pub fn new() -> (r: Self)
        ensures
            r.buf@.len() == 0,
    {
        LineFramer { buf: String::new() }
    }

    /// Appends one decoded piece of upstream text.
    pub fn push(&mut self, text: &str)
        ensures
            final(self).buf@ == old(self).buf@ + text@,
    {
        self.buf.append(text);
    }

    /// Whether a complete newline-terminated line is buffered.
    pub fn has_full_line(&self) -> (b: bool)
        ensures
            b == contains_char(self.buf@, '\n'),
    {
        let i = find_char(self.buf.as_str(), '\n');
        i < self.buf.as_str().unicode_len()
    }

    /// Takes the first complete line off the buffer, stripped of its `'\n'`
    /// and of at most one `'\r'` before it.
    pub fn pop_line(&mut self) -> (r: Option<String>)
        ensures
            contains_char(old(self).buf@, '\n') ==> (match r {
                Some(l) => {
                    let i = first_index_of(old(self).buf@, '\n');
                    &&& l@ == strip_cr(old(self).buf@.subrange(0, i))
                    &&& final(self).buf@ == old(self).buf@.subrange(
                        i + 1,
                        old(self).buf@.len() as int,
                    )
                    &&& lines_of(old(self).buf@) == seq![l@] + lines_of(final(self).buf@)
                    &&& line_rest(final(self).buf@) == line_rest(old(self).buf@)
                },
                None => false,
            }),
            !contains_char(old(self).buf@, '\n') ==> r is None && *final(self) == *old(self),
    {
        let n = self.buf.as_str().unicode_len();
        let i = find_char(self.buf.as_str(), '\n');
        if i < n {
            let mut end = i;
            if end > 0 && self.buf.as_str().get_char(end - 1) == '\r' {
                end -= 1;
            }
            let l = self.buf.as_str().substring_char(0, end).to_owned();
            let rest = self.buf.as_str().substring_char(i + 1, n).to_owned();
            proof {
                let b = self.buf@;
                assert(b.subrange(0, i as int).len() == i as int);
                if i > 0 && b[i as int - 1] == '\r' {
                    assert(b.subrange(0, i as int).last() == b[i as int - 1]);
                    assert(b.subrange(0, i as int - 1) =~= b.subrange(0, i as int).drop_last());
                } else {
                    if i > 0 {
                        assert(b.subrange(0, i as int).last() == b[i as int - 1]);
                    }
                }
                assert(l@ == strip_cr(b.subrange(0, i as int)));
            }
            self.buf = rest;
            Some(l)
        } else {
            None
        }
    }

    /// Hands the residual buffer out and empties the framer; used by the
    /// termination protocol at upstream EOF.
    pub fn take_rest(&mut self) -> (r: String)
        ensures
            r@ == old(self).buf@,
            final(self).buf@.len() == 0,
    {
        let r = self.buf.clone();
        self.buf = String::new();
        r
    }
}

} // verus!
