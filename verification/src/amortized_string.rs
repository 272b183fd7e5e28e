//! Yields more and more of a string, a few bytes at a time, to smooth the
//! display of streamed text.
use vstd::prelude::*;
use vstd::string::StringExecFns;
use vstd::string::StringSliceAdditionalSpecFns;
use vstd::utf8::*;

use crate::text::{lemma_char_boundary_at_valid_prefix, lemma_encode_utf8_injective};

verus! {

/// How many bytes to advance at once.
///
/// - `1` gives the smoothest experience, but will slow down the consumer end
///   of the stream and also cause more redraws.
/// - `10`, on a model that yields big chunks of text, will look decent, but not
///   perfectly smooth.
/// - `5` is a good compromise between smoothness and performance.
pub const CHUNK_SIZE: usize = 5;

/// `a` is a prefix of `b`.
pub open spec fn bytes_prefix(a: Seq<u8>, b: Seq<u8>) -> bool {
    a.len() <= b.len() && b.subrange(0, a.len() as int) == a
}

/// `t` is the first character boundary of `bytes` at or after `from`.
pub open spec fn first_boundary_from(bytes: Seq<u8>, from: int, t: int) -> bool {
    &&& from <= t <= bytes.len()
    &&& is_char_boundary(bytes, t)
    &&& forall|j: int| from <= j < t ==> !#[trigger] is_char_boundary(bytes, j)
}

fn bytes_start_with(b: &[u8], a: &[u8]) -> (r: bool)
    ensures
        r == bytes_prefix(a@, b@),
{
    if a.len() > b.len() {
        return false;
    }
    let mut i: usize = 0;
    while i < a.len()
        invariant
            a@.len() <= b@.len(),
            i <= a@.len(),
            forall|j: int| 0 <= j < i ==> a@[j] == b@[j],
        decreases a@.len() - i,
    {
        if a[i] != b[i] {
            return false;
        }
        i += 1;
    }
    assert(b@.subrange(0, a@.len() as int) =~= a@);
    true
}

/// The first character boundary of `bytes` at or after `from`.
pub open spec fn boundary_from(bytes: Seq<u8>, from: int) -> int
    decreases bytes.len() - from,
{
    if from >= bytes.len() {
        bytes.len() as int
    } else if is_char_boundary(bytes, from) {
        from
    } else {
        boundary_from(bytes, from + 1)
    }
}

/// Where the yielded prefix of `bytes` ends after one step from `tail`.
pub open spec fn next_tail(bytes: Seq<u8>, tail: int) -> int {
    boundary_from(
        bytes,
        if tail + CHUNK_SIZE < bytes.len() {
            tail + CHUNK_SIZE
        } else {
            bytes.len() as int
        },
    )
}

/// Where the prefixes of `bytes` yielded one after the other from `tail` end,
/// until the whole is yielded.
pub open spec fn yields_from(bytes: Seq<u8>, tail: int) -> Seq<int>
    decreases bytes.len() - tail,
{
    let t = next_tail(bytes, tail);
    if tail < t < bytes.len() {
        seq![t] + yields_from(bytes, t)
    } else {
        seq![t]
    }
}

/// The first boundary at or after `from` is the one `boundary_from` finds.
proof fn lemma_boundary_from(bytes: Seq<u8>, from: int, t: int)
    requires
        0 <= from <= bytes.len(),
        first_boundary_from(bytes, from, t),
    ensures
        t == boundary_from(bytes, from),
    decreases bytes.len() - from,
{
    if from < bytes.len() && !is_char_boundary(bytes, from) {
        lemma_boundary_from(bytes, from + 1, t);
    }
}

/// The search of a boundary from inside the text ends at a boundary, no further
/// than the end.
proof fn lemma_boundary_from_bounds(bytes: Seq<u8>, from: int)
    requires
        valid_utf8(bytes),
        0 <= from <= bytes.len(),
    ensures
        from <= boundary_from(bytes, from) <= bytes.len(),
        is_char_boundary(bytes, boundary_from(bytes, from)),
    decreases bytes.len() - from,
{
    is_char_boundary_start_end_of_seq(bytes);
    if from < bytes.len() && !is_char_boundary(bytes, from) {
        lemma_boundary_from_bounds(bytes, from + 1);
    }
}

/// Yielding makes progress on character boundaries and ends with the whole
/// text: each prefix yielded is longer than the one before (and than where it
/// started, unless it started at the end), ends on a character boundary, and the
/// last one is the whole text.
pub proof fn law_yields_progress(bytes: Seq<u8>, tail: int)
    requires
        valid_utf8(bytes),
        0 <= tail <= bytes.len(),
    ensures
        yields_from(bytes, tail).len() >= 1,
        yields_from(bytes, tail).last() == bytes.len(),
        forall|i: int|
            0 <= i < yields_from(bytes, tail).len() ==> is_char_boundary(
                bytes,
                #[trigger] yields_from(bytes, tail)[i],
            ) && (tail < bytes.len() ==> tail < yields_from(bytes, tail)[i]),
        forall|i: int, j: int|
            0 <= i < j < yields_from(bytes, tail).len() ==> #[trigger] yields_from(bytes, tail)[i]
                < #[trigger] yields_from(bytes, tail)[j],
    decreases bytes.len() - tail,
{
    let ys = yields_from(bytes, tail);
    let from = if tail + CHUNK_SIZE < bytes.len() {
        tail + CHUNK_SIZE
    } else {
        bytes.len() as int
    };
    lemma_boundary_from_bounds(bytes, from);
    let t = next_tail(bytes, tail);
    if tail < t < bytes.len() {
        law_yields_progress(bytes, t);
        let rest = yields_from(bytes, t);
        assert(ys == seq![t] + rest);
        assert forall|i: int| 0 <= i < ys.len() implies is_char_boundary(bytes, #[trigger] ys[i])
            && (tail < bytes.len() ==> tail < ys[i]) by {
            if i > 0 {
                assert(ys[i] == rest[i - 1]);
            }
        }
        assert forall|i: int, j: int| 0 <= i < j < ys.len() implies #[trigger] ys[i] < #[trigger] ys[j] by {
            assert(ys[j] == rest[j - 1]);
            if i > 0 {
                assert(ys[i] == rest[i - 1]);
            }
        }
    }
}

/// A text that no longer starts with the one before is yielded whole at once:
/// from the end, the only prefix yielded is the whole.
pub proof fn law_changed_text_yields_whole(bytes: Seq<u8>)
    ensures
        yields_from(bytes, bytes.len() as int) == seq![bytes.len() as int],
{
}

/// What one iteration does, from `before` to `after`, yielding `r`: nothing once
/// the whole text was given; else the text up to the first character boundary
/// at or after `CHUNK_SIZE` more bytes (or the end).
pub open spec fn amortized_next(before: AmortizedString, after: AmortizedString, r: Option<String>) -> bool {
    &&& after.spec_tail() <= encode_utf8(after.spec_text()).len()
    &&& before.spec_is_done() ==> r is None && after.spec_text() == before.spec_text()
        && after.spec_tail() == before.spec_tail() && after.spec_is_done()
    &&& !before.spec_is_done() ==> {
        let bytes = encode_utf8(before.spec_text());
        let len = bytes.len() as int;
        let from = if before.spec_tail() + CHUNK_SIZE < len {
            before.spec_tail() + CHUNK_SIZE
        } else {
            len
        };
        &&& after.spec_text() == before.spec_text()
        &&& first_boundary_from(bytes, from, after.spec_tail() as int)
        &&& after.spec_is_done() == (after.spec_tail() == len)
        &&& r matches Some(chunk) && encode_utf8(chunk@) == bytes.subrange(
            0,
            after.spec_tail() as int,
        )
    }
}

/// What feeding the text `text` does, from `before` to `after`: the text is
/// kept, iteration goes on where it stood if the new text extends the old one,
/// else from the end, and there is at least one more yield.
pub open spec fn amortized_updated(before: AmortizedString, after: AmortizedString, text: Seq<char>) -> bool {
    &&& after.spec_text() == text
    &&& !after.spec_is_done()
    &&& after.spec_tail() == if bytes_prefix(encode_utf8(before.spec_text()), encode_utf8(text)) {
        before.spec_tail()
    } else {
        encode_utf8(text).len()
    }
}

/// Upon an update the iterator yields at least once more; where the new text
/// does not extend the one before, that next yield is the whole new text.
pub proof fn law_update_yields_again(
    before: AmortizedString,
    updated: AmortizedString,
    stepped: AmortizedString,
    text: Seq<char>,
    r: Option<String>,
)
    requires
        amortized_updated(before, updated, text),
        amortized_next(updated, stepped, r),
    ensures
        r is Some,
        !bytes_prefix(encode_utf8(before.spec_text()), encode_utf8(text)) ==> r->Some_0@ == text,
{
    if !bytes_prefix(encode_utf8(before.spec_text()), encode_utf8(text)) {
        let bytes = encode_utf8(text);
        assert(bytes.subrange(0, bytes.len() as int) =~= bytes);
        lemma_encode_utf8_injective(r->Some_0@, text);
    }
}

/// Yields more and more of the string on each iteration, with a recommended chunk size.
///
/// String is obtained as a whole.
#[derive(Debug)]
pub struct AmortizedString {
    text: String,
    tail: usize,
    /// Only set after the whole string has been consumed, but reseted on update.
    is_done: bool,
}

impl AmortizedString {
    #[verifier::type_invariant]
    spec fn tail_on_boundary(self) -> bool {
        &&& self.tail <= encode_utf8(self.text@).len()
        &&& is_char_boundary(encode_utf8(self.text@), self.tail as int)
        &&& self.is_done ==> self.tail == encode_utf8(self.text@).len()
    }

    /// The whole text fed so far.
    pub closed spec fn spec_text(&self) -> Seq<char> {
        self.text@
    }

    /// How many bytes of the text have been yielded.
    pub closed spec fn spec_tail(&self) -> nat {
        self.tail as nat
    }

    /// The whole text has been yielded since the last update.
    pub closed spec fn spec_is_done(&self) -> bool {
        self.is_done
    }

    /// An empty string, marked as consumed.
    pub fn new() -> (r: Self)
        ensures
            r.spec_text() == Seq::<char>::empty(),
            r.spec_tail() == 0,
            r.spec_is_done(),
    {
        proof {
            encode_utf8_valid_utf8(Seq::<char>::empty());
        }
        AmortizedString { text: String::new(), tail: 0, is_done: true }
    }

    /// Peek at the current slice of the string until the current iteration's tail.
    pub fn current(&self) -> (r: &str)
        ensures
            r.spec_bytes() == encode_utf8(self.spec_text()).subrange(0, self.spec_tail() as int),
    {
        proof {
            use_type_invariant(self);
        }
        let (head, _) = self.text.as_str().split_at(self.tail);
        head
    }

    /// Yields the text up to the next chunk: the first character boundary at or
    /// after `CHUNK_SIZE` more bytes (or the end). Yields nothing once the whole
    /// text was given, until the next update.
    pub fn next(&mut self) -> (r: Option<String>)
        ensures
            amortized_next(*old(self), *final(self), r),
    {
        proof {
            use_type_invariant(&*self);
        }
        if self.is_done {
            return None;
        }
        let ghost bytes = encode_utf8(self.text@);
        let len = self.text.as_str().as_bytes().len();
        proof {
            encode_utf8_valid_utf8(self.text@);
            is_char_boundary_start_end_of_seq(bytes);
        }
        let mut tail = if len - self.tail > CHUNK_SIZE {
            self.tail + CHUNK_SIZE
        } else {
            len
        };
        let ghost from = tail as int;
        // Let's correct the tail if not at a char boundary or start/end of
        // the buffer.
        while !self.text.as_str().is_char_boundary(tail)
            invariant
                len == bytes.len(),
                bytes == encode_utf8(self.text@),
                valid_utf8(bytes),
                is_char_boundary(bytes, len as int),
                from <= tail <= len,
                forall|j: int| from <= j < tail ==> !#[trigger] is_char_boundary(bytes, j),
            decreases len - tail,
        {
            tail += 1;
        }
        self.tail = tail;
        self.is_done = tail == len;
        Some(String::from_str(self.current()))
    }

    /// Feed a new string to keep iterating over it.
    ///
    /// If the new string it's just the previous string with more text appended,
    /// everything will continue as before.
    ///
    /// However, if the new string doesn't start with the previous string, the next
    /// iteration will return the whole modified string.
    ///
    /// Upon calling this, the iterator is guaranteed to at least yield one more time.
    pub fn update(&mut self, text: String)
        ensures
            amortized_updated(*old(self), *final(self), text@),
    {
        proof {
            use_type_invariant(&*self);
            encode_utf8_valid_utf8(self.text@);
            encode_utf8_valid_utf8(text@);
        }
        let new_len = text.as_str().as_bytes().len();
        let extends = bytes_start_with(text.as_str().as_bytes(), self.text.as_str().as_bytes());
        let tail = if !extends {
            proof {
                is_char_boundary_start_end_of_seq(encode_utf8(text@));
            }
            new_len
        } else {
            proof {
                let a = encode_utf8(self.text@);
                let b = encode_utf8(text@);
                let r = b.subrange(a.len() as int, b.len() as int);
                assert(b =~= a + r);
                lemma_char_boundary_at_valid_prefix(a, r);
                if self.tail < a.len() {
                    assert(a[self.tail as int] == b[self.tail as int]);
                    is_char_boundary_iff_not_is_continuation_byte(a, self.tail as int);
                    is_char_boundary_iff_not_is_continuation_byte(b, self.tail as int);
                }
            }
            self.tail
        };
        *self = AmortizedString { text, tail, is_done: false };
    }
}

/// Takes every chunk that `state` still yields, in order.
fn drain(state: &mut AmortizedString) -> (r: Vec<String>)
    ensures
        final(state).spec_text() == old(state).spec_text(),
        final(state).spec_is_done(),
        final(state).spec_tail() == encode_utf8(old(state).spec_text()).len(),
        old(state).spec_is_done() ==> r@.len() == 0,
        !old(state).spec_is_done() ==> {
            let bytes = encode_utf8(old(state).spec_text());
            let ys = yields_from(bytes, old(state).spec_tail() as int);
            &&& r@.len() == ys.len()
            &&& forall|i: int|
                0 <= i < ys.len() ==> encode_utf8(#[trigger] r@[i]@) == bytes.subrange(0, ys[i])
        },
{
    proof {
        use_type_invariant(&*state);
    }
    let ghost bytes = encode_utf8(state.text@);
    let ghost t0 = state.tail as int;
    let ghost ys = yields_from(bytes, t0);
    let ghost was_done = state.is_done;
    let mut out: Vec<String> = Vec::new();
    loop
        invariant
            state.text@ == old(state).text@,
            bytes == encode_utf8(state.text@),
            ys == yields_from(bytes, t0),
            t0 == old(state).tail,
            was_done == old(state).is_done,
            state.tail <= bytes.len(),
            was_done ==> out@.len() == 0 && state.is_done && state.tail == bytes.len(),
            !was_done ==> {
                let pending = if state.is_done {
                    Seq::<int>::empty()
                } else {
                    yields_from(bytes, state.tail as int)
                };
                &&& ys == Seq::new(out@.len(), |i: int| ys[i]) + pending
                &&& out@.len() <= ys.len()
                &&& forall|i: int|
                    0 <= i < out@.len() ==> encode_utf8(#[trigger] out@[i]@) == bytes.subrange(
                        0,
                        ys[i],
                    )
                &&& state.is_done ==> state.tail == bytes.len()
            },
        ensures
            state.is_done,
            !was_done ==> out@.len() == ys.len(),
        decreases (bytes.len() - state.tail) * 2 + if state.is_done {
            0int
        } else {
            1int
        },
    {
        let ghost before_tail = state.tail as int;
        let ghost before_done = state.is_done;
        let ghost before_out = out@;
        match state.next() {
            None => {
                break;
            },
            Some(chunk) => {
                proof {
                    use_type_invariant(&*state);
                    let from = if before_tail + CHUNK_SIZE < bytes.len() {
                        before_tail + CHUNK_SIZE
                    } else {
                        bytes.len() as int
                    };
                    lemma_boundary_from(bytes, from, state.tail as int);
                    assert(state.tail == next_tail(bytes, before_tail));
                    let pending = yields_from(bytes, before_tail);
                    assert(pending[0] == state.tail);
                    if before_tail < state.tail < bytes.len() {
                        assert(pending.drop_first() =~= yields_from(bytes, state.tail as int));
                    } else {
                        assert(pending.len() == 1);
                    }
                }
                out.push(chunk);
                proof {
                    let n = before_out.len();
                    let pending = yields_from(bytes, before_tail);
                    assert(ys[n as int] == state.tail);
                    let now = if state.is_done {
                        Seq::<int>::empty()
                    } else {
                        yields_from(bytes, state.tail as int)
                    };
                    assert(Seq::new(n + 1, |i: int| ys[i]) + now =~= Seq::new(n, |i: int| ys[i])
                        + pending);
                    assert forall|i: int| 0 <= i < out@.len() implies encode_utf8(
                        #[trigger] out@[i]@,
                    ) == bytes.subrange(0, ys[i]) by {
                        if i < n {
                            assert(out@[i] == before_out[i]);
                        }
                    }
                }
            },
        }
    }
    proof {
        if !was_done {
            assert(ys.len() == out@.len()) by {
                assert(ys =~= Seq::new(out@.len(), |i: int| ys[i]));
            }
        }
    }
    out
}

/// Amortizes the text and the reasoning of a streamed message together.
#[derive(Debug)]
pub struct Amortizer {
    text: AmortizedString,
    reasoning: AmortizedString,
}

impl Amortizer {
    /// The amortized text.
    pub closed spec fn text_state(&self) -> AmortizedString {
        self.text
    }

    /// The amortized reasoning.
    pub closed spec fn reasoning_state(&self) -> AmortizedString {
        self.reasoning
    }

    /// Nothing fed yet.
    pub fn new() -> (r: Amortizer)
        ensures
            r.text_state().spec_text() == Seq::<char>::empty(),
            r.text_state().spec_tail() == 0,
            r.text_state().spec_is_done(),
            r.reasoning_state().spec_text() == Seq::<char>::empty(),
            r.reasoning_state().spec_tail() == 0,
            r.reasoning_state().spec_is_done(),
    {
        Amortizer { text: AmortizedString::new(), reasoning: AmortizedString::new() }
    }

    /// Feeds the whole text and reasoning received so far and gives the
    /// (text, reasoning) pairs to show, in order: first the reasoning chunk by
    /// chunk beside the text shown until now, then the text chunk by chunk beside
    /// the whole reasoning.
    pub fn step(&mut self, text: String, reasoning: String) -> (r: Vec<(String, String)>)
        ensures
            final(self).text_state().spec_text() == text@,
            final(self).reasoning_state().spec_text() == reasoning@,
            final(self).text_state().spec_is_done(),
            final(self).reasoning_state().spec_is_done(),
            ({
                let tb = encode_utf8(text@);
                let rb = encode_utf8(reasoning@);
                let tt = if bytes_prefix(encode_utf8(old(self).text_state().spec_text()), tb) {
                    old(self).text_state().spec_tail() as int
                } else {
                    tb.len() as int
                };
                let rt = if bytes_prefix(
                    encode_utf8(old(self).reasoning_state().spec_text()),
                    rb,
                ) {
                    old(self).reasoning_state().spec_tail() as int
                } else {
                    rb.len() as int
                };
                let ry = yields_from(rb, rt);
                let ty = yields_from(tb, tt);
                &&& r@.len() == ry.len() + ty.len()
                &&& forall|i: int|
                    0 <= i < ry.len() ==> encode_utf8((#[trigger] r@[i]).0@) == tb.subrange(0, tt)
                        && encode_utf8(r@[i].1@) == rb.subrange(0, ry[i])
                &&& forall|i: int|
                    0 <= i < ty.len() ==> encode_utf8((#[trigger] r@[ry.len() + i]).0@)
                        == tb.subrange(0, ty[i]) && r@[ry.len() + i].1@ == reasoning@
            }),
    {
        let whole_reasoning = reasoning.clone();
        self.text.update(text);
        self.reasoning.update(reasoning);
        let shown_text = String::from_str(self.text.current());
        let reasonings = drain(&mut self.reasoning);
        let texts = drain(&mut self.text);
        let mut out: Vec<(String, String)> = Vec::new();
        let mut i: usize = 0;
        while i < reasonings.len()
            invariant
                i <= reasonings@.len(),
                out@.len() == i,
                forall|j: int|
                    0 <= j < i ==> (#[trigger] out@[j]).0@ == shown_text@ && out@[j].1@
                        == reasonings@[j]@,
            decreases reasonings@.len() - i,
        {
            out.push((shown_text.clone(), reasonings[i].clone()));
            i += 1;
        }
        let mut k: usize = 0;
        while k < texts.len()
            invariant
                k <= texts@.len(),
                out@.len() == reasonings@.len() + k,
                forall|j: int|
                    0 <= j < reasonings@.len() ==> (#[trigger] out@[j]).0@ == shown_text@
                        && out@[j].1@ == reasonings@[j]@,
                forall|j: int|
                    0 <= j < k ==> (#[trigger] out@[reasonings@.len() + j]).0@ == texts@[j]@
                        && out@[reasonings@.len() + j].1@ == whole_reasoning@,
            decreases texts@.len() - k,
        {
            out.push((texts[k].clone(), whole_reasoning.clone()));
            k += 1;
        }
        out
    }
}

impl Default for AmortizedString {
    fn default() -> (r: Self)
        ensures
            r.spec_text() == Seq::<char>::empty(),
            r.spec_tail() == 0,
            r.spec_is_done(),
    {
        AmortizedString::new()
    }
}

} // verus!
