//! Decoding of a streamed (server-sent events) chat reply.
use vstd::prelude::*;
use vstd::slice::slice_subrange;

use crate::text::{
    chars_eq_str, concat_all, count_before, find_byte_in, is_ws, lemma_concat_all_push,
    lemma_count_before_bound, lemma_count_before_is, lemma_trim_push_ws, opt_view,
    range_eq, strings_view, strip_range, string_of_range, to_chars, trim, trim_str, utf8_lossy,
    utf8_lossy_string, CharClass,
};

verus! {

/// Event that carries one piece of the reply while it streams.
pub const EVENT_STREAM: &'static str = "chat-stream";

/// Event that ends a reply, with its whole text or an error.
pub const EVENT_DONE: &'static str = "chat-done";

/// Payload of `EVENT_STREAM`.
#[derive(Debug, Clone)]
pub struct StreamPayload {
    pub delta: String,
}

/// Payload of `EVENT_DONE`.
#[derive(Debug, Clone)]
pub struct DonePayload {
    pub content: String,
    pub error: Option<String>,
}

/// What `serde_json` finds at `choices[0].delta.content` of the JSON text
/// `data`, when that text parses and the member there is a string.
pub uninterp spec fn json_delta_content(data: Seq<char>) -> Option<Seq<char>>;

/// `serde_json::from_str::<serde_json::Value>(data)`, then the string at
/// `choices[0].delta.content`. The result is named, not described: it is
/// `None` when the text does not parse or holds no string there.
#[verifier::external_body]
fn json_delta_content_of(data: &str) -> (r: Option<String>)
    ensures
        opt_view(r) == json_delta_content(data@),
{
    match serde_json::from_str::<serde_json::Value>(data) {
        Ok(value) => match value["choices"][0]["delta"]["content"].as_str() {
            Some(s) => Some(s.to_string()),
            None => None,
        },
        Err(_) => None,
    }
}

/// The piece of reply that one event line carries: a line `data:<json>`
/// whose trimmed JSON is neither empty nor `[DONE]` gives the string at
/// `choices[0].delta.content`, any other line nothing.
pub open spec fn extract_delta_spec(line: Seq<char>) -> Option<Seq<char>> {
    let prefix = "data:"@;
    if prefix.len() <= line.len() && line.take(prefix.len() as int) == prefix {
        let data = trim(line.skip(prefix.len() as int));
        if data.len() == 0 || data == "[DONE]"@ {
            None
        } else {
            json_delta_content(data)
        }
    } else {
        None
    }
}

/// The piece of reply in one event line, if it carries one.
pub fn extract_delta(line: &str) -> (r: Option<String>)
    ensures
        opt_view(r) == extract_delta_spec(line@),
{
    let v = to_chars(line);
    let prefix = to_chars("data:");
    let n = v.len();
    let p = prefix.len();
    if p > n || !range_eq(v.as_slice(), 0, p, prefix.as_slice()) {
        assert(p <= n ==> v@.take(p as int) =~= v@.subrange(0, p as int));
        return None;
    }
    assert(v@.take(p as int) =~= v@.subrange(0, p as int));
    let (a, b) = strip_range(v.as_slice(), p, n, CharClass::Whitespace);
    assert(v@.skip(p as int) =~= v@.subrange(p as int, n as int));
    if a == b || chars_eq_str(v.as_slice(), a, b, "[DONE]") {
        return None;
    }
    let data = string_of_range(v.as_slice(), a, b);
    json_delta_content_of(data.as_str())
}

/// Whitespace at the end of an event line, such as the carriage return
/// of a CRLF line end, does not change the piece of reply it carries.
pub proof fn lemma_extract_delta_trailing_ws(line: Seq<char>, c: char)
    requires
        is_ws(c),
    ensures
        extract_delta_spec(line.push(c)) == extract_delta_spec(line),
{
    reveal_strlit("data:");
    let p = "data:"@;
    let t = line.push(c);
    if line.len() >= p.len() {
        assert(t.take(p.len() as int) =~= line.take(p.len() as int));
        assert(t.skip(p.len() as int) =~= line.skip(p.len() as int).push(c));
        lemma_trim_push_ws(line.skip(p.len() as int), c);
    } else if t.len() == p.len() {
        assert(t.take(p.len() as int) =~= t);
        assert(t[4] == c);
        assert(t.take(p.len() as int) != p);
    }
}

/// The complete lines of `data`, each with its line feed.
pub open spec fn complete_lines(data: Seq<u8>) -> Seq<Seq<u8>>
    decreases data.len(),
{
    let k = count_before(data, 10u8);
    if k >= data.len() {
        Seq::empty()
    } else {
        seq![data.take(k + 1 as int)] + complete_lines(data.skip(k + 1 as int))
    }
}

/// What follows the last line feed of `data` (all of it without one).
pub open spec fn unfinished_line(data: Seq<u8>) -> Seq<u8>
    decreases data.len(),
{
    let k = count_before(data, 10u8);
    if k >= data.len() {
        data
    } else {
        unfinished_line(data.skip(k + 1 as int))
    }
}

/// What follows the last line feed holds no line feed.
pub proof fn lemma_unfinished_line_has_no_line_feed(data: Seq<u8>)
    ensures
        forall|i: int| 0 <= i < unfinished_line(data).len() ==> unfinished_line(data)[i] != 10u8,
    decreases data.len(),
{
    lemma_count_before_bound(data, 10u8);
    let k = count_before(data, 10u8);
    if k < data.len() {
        lemma_unfinished_line_has_no_line_feed(data.skip(k + 1 as int));
        assert(unfinished_line(data) == unfinished_line(data.skip(k + 1 as int)));
    } else {
        assert(unfinished_line(data) == data);
        assert forall|i: int| 0 <= i < data.len() implies data[i] != 10u8 by {
            assert(0 <= i < count_before(data, 10u8));
        }
    }
}

/// The piece of reply in a line of bytes: decoded, trimmed, then read by
/// `extract_delta`.
pub open spec fn line_delta(line: Seq<u8>) -> Option<Seq<char>> {
    extract_delta_spec(trim(utf8_lossy(line)))
}

/// The pieces of reply of the lines, in order, skipping lines without one.
pub open spec fn line_deltas(lines: Seq<Seq<u8>>) -> Seq<Seq<char>>
    decreases lines.len(),
{
    if lines.len() == 0 {
        Seq::empty()
    } else {
        match line_delta(lines[0]) {
            Some(d) => seq![d] + line_deltas(lines.drop_first()),
            None => line_deltas(lines.drop_first()),
        }
    }
}

proof fn lemma_line_deltas_cons(x: Seq<u8>, rest: Seq<Seq<u8>>)
    ensures
        line_deltas(seq![x] + rest) == match line_delta(x) {
            Some(d) => seq![d] + line_deltas(rest),
            None => line_deltas(rest),
        },
{
    let ls = seq![x] + rest;
    assert(ls[0] == x);
    assert(ls.drop_first() =~= rest);
}

/// Splits a byte stream into event lines, whatever the chunks it arrives
/// in, and gathers the reply text that the lines carry.
pub struct SseDecoder {
    buffer: Vec<u8>,
    text: String,
}

impl SseDecoder {
    /// Bytes received after the last line feed.
    pub closed spec fn pending(&self) -> Seq<u8> {
        self.buffer@
    }

    /// The reply text gathered so far.
    pub closed spec fn reply(&self) -> Seq<char> {
        self.text@
    }

    /// A decoder that has received nothing.
    pub fn new() -> (d: Self)
        ensures
            d.pending() == Seq::<u8>::empty(),
            d.reply() == Seq::<char>::empty(),
    {
        SseDecoder { buffer: Vec::new(), text: String::new() }
    }

    /// Takes in a chunk: each line that it completes is read, and the
    /// pieces of reply found are returned in order and added to the reply.
    pub fn feed(&mut self, chunk: &[u8]) -> (deltas: Vec<String>)
        ensures
            final(self).pending() == unfinished_line(old(self).pending() + chunk@),
            forall|i: int|
                0 <= i < final(self).pending().len() ==> final(self).pending()[i] != 10u8,
            strings_view(deltas@) == line_deltas(complete_lines(old(self).pending() + chunk@)),
            final(self).reply() == old(self).reply() + concat_all(
                line_deltas(complete_lines(old(self).pending() + chunk@)),
            ),
    {
        let mut data: Vec<u8> = Vec::new();
        std::mem::swap(&mut data, &mut self.buffer);
        let mut j: usize = 0;
        while j < chunk.len()
            invariant
                data@ == old(self).buffer@ + chunk@.take(j as int),
                j <= chunk@.len(),
            decreases chunk@.len() - j,
        {
            data.push(chunk[j]);
            j = j + 1;
            assert(data@ =~= old(self).buffer@ + chunk@.take(j as int));
        }
        assert(chunk@.take(chunk@.len() as int) =~= chunk@);
        let ghost all = data@;
        let n = data.len();
        let mut deltas: Vec<String> = Vec::new();
        let mut start: usize = 0;
        assert(all.subrange(0, n as int) =~= all);
        loop
            invariant_except_break
                start <= n == data@.len(),
                data@ == all,
                all == old(self).pending() + chunk@,
                line_deltas(complete_lines(all)) == strings_view(deltas@) + line_deltas(
                    complete_lines(all.subrange(start as int, n as int)),
                ),
                unfinished_line(all) == unfinished_line(all.subrange(start as int, n as int)),
                self.text@ == old(self).text@ + concat_all(strings_view(deltas@)),
            ensures
                start <= n == data@.len(),
                data@ == all,
                line_deltas(complete_lines(all)) == strings_view(deltas@),
                unfinished_line(all) == all.subrange(start as int, n as int),
                self.text@ == old(self).text@ + concat_all(strings_view(deltas@)),
            decreases n - start,
        {
            let ghost rest = all.subrange(start as int, n as int);
            let nl = find_byte_in(data.as_slice(), start, n, 10u8);
            if nl == n {
                assert(complete_lines(rest) == Seq::<Seq<u8>>::empty());
                assert(strings_view(deltas@) + Seq::<Seq<char>>::empty() =~= strings_view(
                    deltas@,
                ));
                break;
            }
            let line = slice_subrange(data.as_slice(), start, nl + 1);
            let ghost k = (nl - start) as nat;
            assert(rest.take(k + 1 as int) =~= line@);
            assert(rest.skip(k + 1 as int) =~= all.subrange(nl + 1, n as int));
            proof {
                lemma_line_deltas_cons(line@, complete_lines(all.subrange(nl + 1, n as int)));
            }
            let decoded = utf8_lossy_string(line);
            let trimmed = trim_str(decoded.as_str());
            let ghost before = strings_view(deltas@);
            match extract_delta(trimmed.as_str()) {
                Some(d) => {
                    self.text.append(d.as_str());
                    deltas.push(d);
                    proof {
                        assert(strings_view(deltas@) =~= before.push(d@));
                        lemma_concat_all_push(before, d@);
                        assert(before + (seq![d@] + line_deltas(
                            complete_lines(all.subrange(nl + 1, n as int)),
                        )) =~= before.push(d@) + line_deltas(
                            complete_lines(all.subrange(nl + 1, n as int)),
                        ));
                    }
                },
                None => {},
            }
            start = nl + 1;
        }
        let tail = data.split_off(start);
        self.buffer = tail;
        proof {
            lemma_unfinished_line_has_no_line_feed(all);
        }
        deltas
    }

    /// The reply text gathered so far.
    pub fn reply_text(&self) -> (s: &String)
        ensures
            s@ == self.reply(),
    {
        &self.text
    }

    /// Ends the stream: the payload of `EVENT_DONE` carries the whole reply
    /// and no error. Bytes after the last line feed are not read.
    pub fn finish(self) -> (p: DonePayload)
        ensures
            p.content@ == self.reply(),
            p.error.is_none(),
    {
        DonePayload { content: self.text, error: None }
    }
}

proof fn lemma_line_deltas_append(x: Seq<Seq<u8>>, y: Seq<Seq<u8>>)
    ensures
        line_deltas(x + y) == line_deltas(x) + line_deltas(y),
    decreases x.len(),
{
    if x.len() == 0 {
        assert(x + y =~= y);
        assert(line_deltas(x) + line_deltas(y) =~= line_deltas(y));
    } else {
        lemma_line_deltas_append(x.drop_first(), y);
        assert((x + y)[0] == x[0]);
        assert((x + y).drop_first() =~= x.drop_first() + y);
        match line_delta(x[0]) {
            Some(d) => {
                assert(seq![d] + (line_deltas(x.drop_first()) + line_deltas(y)) =~= (seq![d]
                    + line_deltas(x.drop_first())) + line_deltas(y));
            },
            None => {},
        }
    }
}

proof fn lemma_lines_append(s: Seq<u8>, t: Seq<u8>)
    ensures
        complete_lines(s + t) == complete_lines(s) + complete_lines(unfinished_line(s) + t),
        unfinished_line(s + t) == unfinished_line(unfinished_line(s) + t),
    decreases s.len(),
{
    let k = count_before(s, 10u8);
    lemma_count_before_bound(s, 10u8);
    if k >= s.len() {
        assert(complete_lines(s) + complete_lines(s + t) =~= complete_lines(s + t));
    } else {
        let st = s + t;
        assert forall|j: int| 0 <= j < k implies st[j] != 10u8 by {
            assert(st[j] == s[j]);
        }
        assert(st[k as int] == s[k as int]);
        lemma_count_before_is(st, 10u8, k as int);
        let s2 = s.skip(k + 1 as int);
        lemma_lines_append(s2, t);
        assert(st.take(k + 1 as int) =~= s.take(k + 1 as int));
        assert(st.skip(k + 1 as int) =~= s2 + t);
        assert(seq![s.take(k + 1 as int)] + (complete_lines(s2) + complete_lines(
            unfinished_line(s2) + t,
        )) =~= (seq![s.take(k + 1 as int)] + complete_lines(s2)) + complete_lines(
            unfinished_line(s2) + t,
        ));
    }
}

/// Chunk boundaries do not matter: feeding `a` and then `b` to a decoder
/// holding `pending` leaves the same unfinished line, and yields the same
/// pieces of reply in the same order, as feeding `a + b` at once.
pub proof fn lemma_feed_chunks_compose(pending: Seq<u8>, a: Seq<u8>, b: Seq<u8>)
    ensures
        unfinished_line(unfinished_line(pending + a) + b) == unfinished_line(pending + a + b),
        line_deltas(complete_lines(pending + a)) + line_deltas(
            complete_lines(unfinished_line(pending + a) + b),
        ) == line_deltas(complete_lines(pending + a + b)),
{
    lemma_lines_append(pending + a, b);
    lemma_line_deltas_append(
        complete_lines(pending + a),
        complete_lines(unfinished_line(pending + a) + b),
    );
}

} // verus!
