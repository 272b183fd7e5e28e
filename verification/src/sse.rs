//! Utilities to deal with SSE (Server-Sent Events).
use vstd::prelude::*;
use vstd::slice::{slice_subrange, slice_to_vec};
use vstd::utf8::*;

use crate::chars::{
    chars_eq, chars_of, find, texts, lemma_find_from, split_from, split_pieces, string_of, trim,
    trim_start, trimmed, trimmed_start,
};

verus! {

/// The SSE event terminator, `\n\n`, sits at `pos` in `buffer`.
pub open spec fn terminator_at(buffer: Seq<u8>, pos: int) -> bool {
    0 <= pos && pos + 1 < buffer.len() && buffer[pos] == 10u8 && buffer[pos + 1] == 10u8
}

/// Split from the last SSE event terminator.
///
/// On the left side you will get the side of the buffer that contains completed messages.
/// Although, the last terminator has been removed, this side may still contain multiple
/// messages that need to be split.
///
/// On the right side you will get the side of the buffer that contains the incomplete data,
/// so you should keep this on the buffer until completed.
///
/// Returns `None` if no terminator is found.
pub fn rsplit_once_terminator(buffer: &[u8]) -> (r: Option<(&[u8], &[u8])>)
    ensures
        match r {
            Some((before, after)) => exists|pos: int|
                #![trigger terminator_at(buffer@, pos)]
                terminator_at(buffer@, pos) && (forall|q: int| pos < q ==> !#[trigger] terminator_at(buffer@, q))
                    && before@ == buffer@.subrange(0, pos) && after@ == buffer@.subrange(
                    pos + 2,
                    buffer@.len() as int,
                ),
            None => forall|q: int| !#[trigger] terminator_at(buffer@, q),
        },
{
    let len = buffer.len();
    if len < 2 {
        return None;
    }
    let mut pos: usize = len - 1;
    while pos > 0
        invariant
            len == buffer@.len(),
            pos < len,
            forall|q: int| pos <= q ==> !#[trigger] terminator_at(buffer@, q),
        decreases pos,
    {
        pos -= 1;
        if buffer[pos] == 10u8 && buffer[pos + 1] == 10u8 {
            let (before, rest) = buffer.split_at(pos);
            let (_, after) = rest.split_at(2);
            assert(terminator_at(buffer@, pos as int));
            assert(after@ =~= buffer@.subrange(pos + 2, buffer@.len() as int));
            return Some((before, after));
        }
    }
    None
}

/// Names the text that `String::from_utf8_lossy` makes of `bytes`: the decoded
/// text, with each invalid sequence replaced by U+FFFD.
pub uninterp spec fn utf8_lossy(bytes: Seq<u8>) -> Seq<char>;

/// Decodes `bytes` as UTF-8, replacing what is invalid (`String::from_utf8_lossy`).
/// Valid UTF-8 is decoded as it is.
#[verifier::external_body]
fn decode_lossy(bytes: &[u8]) -> (r: String)
    ensures
        r@ == utf8_lossy(bytes@),
        valid_utf8(bytes@) ==> r@ == decode_utf8(bytes@),
{
    String::from_utf8_lossy(bytes).into_owned()
}

/// What separates two events in the text of a stream.
pub open spec fn event_separator() -> Seq<char> {
    seq!['\n', '\n']
}

/// The field that holds the data of an event.
pub open spec fn data_field() -> Seq<char> {
    seq!['d', 'a', 't', 'a', ':']
}

/// The data that marks the end of a stream of completions.
pub open spec fn done_marker() -> Seq<char> {
    seq!['[', 'D', 'O', 'N', 'E', ']']
}

/// The data of an event: what follows its first `data:` field, up to the next one,
/// once leading white space is dropped. `None` when there is no such field.
pub open spec fn event_data(m: Seq<char>) -> Option<Seq<char>> {
    let p = split_pieces(trim_start(m), data_field());
    if p.len() > 1 {
        Some(p[1])
    } else {
        None
    }
}

/// The messages carried by a sequence of events, in order: comments (events that
/// start with `:`) and the `[DONE]` marker are left out. The flag is set where an
/// event without data stopped the reading; the messages are then those before it.
pub open spec fn collect_messages(events: Seq<Seq<char>>) -> (Seq<Seq<char>>, bool)
    decreases events.len(),
{
    if events.len() == 0 {
        (Seq::empty(), false)
    } else {
        let m = events[0];
        let rest = collect_messages(events.drop_first());
        if m.len() > 0 && m[0] == ':' {
            rest
        } else {
            match event_data(m) {
                None => (Seq::empty(), true),
                Some(d) => if trim(d) == done_marker() {
                    rest
                } else {
                    (seq![d] + rest.0, rest.1)
                },
            }
        }
    }
}

/// The messages of a text made of complete events.
pub open spec fn spec_messages(text: Seq<char>) -> (Seq<Seq<char>>, bool) {
    collect_messages(split_pieces(text, event_separator()))
}

/// The data of the event `m`, as `event_data` says.
fn data_of(m: &[char], field: &[char]) -> (r: Option<Vec<char>>)
    requires
        field@ == data_field(),
    ensures
        match r {
            Some(d) => event_data(m@) == Some(d@),
            None => event_data(m@) is None,
        },
{
    let t = trimmed_start(m);
    let n = t.len();
    match find(t, field, 0) {
        None => {
            proof {
                lemma_find_from(t@, field@, 0);
            }
            None
        },
        Some(i) => {
            proof {
                lemma_find_from(t@, field@, 0);
            }
            let start = i + 5;
            let end = match find(t, field, start) {
                Some(j) => {
                    proof {
                        lemma_find_from(t@, field@, start as int);
                    }
                    j
                },
                None => n,
            };
            proof {
                let second = split_from(t@, field@, start as int);
                assert(split_pieces(t@, field@) == seq![t@.subrange(0, i as int)] + second);
                assert(second[0] == t@.subrange(start as int, end as int));
                assert((seq![t@.subrange(0, i as int)] + second)[1] == second[0]);
            }
            Some(slice_to_vec(slice_subrange(t, start, end)))
        },
    }
}

/// Splits a text made of complete events into the messages they carry.
///
/// Returns the messages in order and whether an event without a `data:` field
/// stopped the reading (the messages are then those before it).
pub fn messages(text: &str) -> (r: (Vec<String>, bool))
    ensures
        texts(r.0@) == spec_messages(text@).0,
        r.1 == spec_messages(text@).1,
{
    let s = chars_of(text);
    let n = s.len();
    let sep = vec!['\n', '\n'];
    let field = vec!['d', 'a', 't', 'a', ':'];
    let done = vec!['[', 'D', 'O', 'N', 'E', ']'];
    assert(sep@ =~= event_separator());
    assert(field@ =~= data_field());
    assert(done@ =~= done_marker());
    let ghost target = spec_messages(text@);
    let mut out: Vec<String> = Vec::new();
    let mut pos: usize = 0;
    loop
        invariant
            n == s@.len(),
            s@ == text@,
            sep@ == event_separator(),
            field@ == data_field(),
            done@ == done_marker(),
            pos <= n,
            target == spec_messages(text@),
            target.0 == texts(out@) + collect_messages(split_from(s@, sep@, pos as int)).0,
            target.1 == collect_messages(split_from(s@, sep@, pos as int)).1,
        decreases n + 1 - pos,
    {
        let ghost events = split_from(s@, sep@, pos as int);
        let found = find(&s, &sep, pos);
        proof {
            lemma_find_from(s@, sep@, pos as int);
        }
        let end = match found {
            Some(i) => i,
            None => n,
        };
        let piece = slice_subrange(&s, pos, end);
        let ghost rest = match found {
            Some(i) => split_from(s@, sep@, i + 2),
            None => Seq::empty(),
        };
        proof {
            assert(events == seq![piece@] + rest);
            assert(events[0] == piece@);
            assert(events.drop_first() =~= rest);
        }
        let is_comment = piece.len() > 0 && piece[0] == ':';
        if !is_comment {
            match data_of(piece, &field) {
                None => {
                    return (out, true);
                },
                Some(d) => {
                    if !chars_eq(trimmed(&d), &done) {
                        let ghost before = out@;
                        out.push(string_of(&d));
                        proof {
                            assert(texts(out@) =~= texts(before) + seq![d@]);
                            assert(texts(out@) + collect_messages(rest).0 =~= texts(
                                before,
                            ) + (seq![d@] + collect_messages(rest).0));
                        }
                    }
                },
            }
        }
        assert(target.0 == texts(out@) + collect_messages(rest).0);
        assert(target.1 == collect_messages(rest).1);
        match found {
            Some(i) => {
                pos = i + 2;
            },
            None => {
                proof {
                    assert(rest.len() == 0);
                    assert(collect_messages(rest) == (Seq::<Seq<char>>::empty(), false));
                    assert(texts(out@) + Seq::<Seq<char>>::empty() =~= texts(out@));
                }
                return (out, false);
            },
        }
    }
}

/// Reads a stream of bytes as SSE events, keeping the bytes of an event that is
/// not complete yet.
pub struct SseParser {
    buffer: Vec<u8>,
}

impl SseParser {
    /// The bytes received that do not form a complete event yet.
    pub closed spec fn spec_buffer(&self) -> Seq<u8> {
        self.buffer@
    }

    /// A reader that has received nothing.
    pub fn new() -> (r: SseParser)
        ensures
            r.spec_buffer() == Seq::<u8>::empty(),
    {
        SseParser { buffer: Vec::new() }
    }

    /// Takes the next chunk of the stream.
    ///
    /// Where the bytes received so far hold an event terminator, the events before
    /// the last one are decoded (invalid UTF-8 replaced) and read as `messages`
    /// does, and the bytes after it are kept. Otherwise everything is kept and
    /// nothing is returned.
    pub fn feed(&mut self, chunk: &[u8]) -> (r: (Vec<String>, bool))
        ensures
            ({
                let all = old(self).spec_buffer() + chunk@;
                ||| exists|pos: int|
                    #![trigger terminator_at(all, pos)]
                    terminator_at(all, pos) && (forall|q: int| pos < q ==> !#[trigger] terminator_at(all, q))
                        && final(self).spec_buffer() == all.subrange(pos + 2, all.len() as int)
                        && texts(r.0@) == spec_messages(utf8_lossy(all.subrange(0, pos))).0
                        && r.1 == spec_messages(utf8_lossy(all.subrange(0, pos))).1
                ||| (forall|q: int| !#[trigger] terminator_at(all, q)) && final(self).spec_buffer()
                    == all && r.0@.len() == 0 && !r.1
            }),
    {
        self.buffer.extend_from_slice(chunk);
        let ghost all = self.buffer@;
        assert(all =~= old(self).spec_buffer() + chunk@);
        let split = rsplit_once_terminator(self.buffer.as_slice());
        match split {
            None => (Vec::new(), false),
            Some((completed, incomplete)) => {
                let text = decode_lossy(completed);
                let r = messages(text.as_str());
                let rest = slice_to_vec(incomplete);
                self.buffer = rest;
                r
            },
        }
    }
}

} // verus!
