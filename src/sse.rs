//! The upstream event stream: its parser, and the subscriber count that decides whether
//! it is open.
use vstd::prelude::*;
use crate::plugin::opt_view;
use vstd::utf8::{decode_utf8, is_continuation_byte, is_leading_byte_width_2, is_leading_byte_width_3, is_leading_byte_width_4, valid_utf8};
use crate::runner::strip_cr;
use crate::text::{chars_of, has_prefix, push_char, slice_string, starts_with, trim, trim_spec, trim_start, trim_start_spec};

verus! {

/// One event as the upstream sent it.
pub struct SseMessage {
    pub event: Option<String>,
    pub data: String,
}

/// What the parser holds between lines: the event name and data lines read so far, the
/// part of a line not yet ended, and the bytes of a character not yet complete.
pub struct SseParser {
    pub current_event: Option<String>,
    pub data_lines: Vec<String>,
    pub buffer: Vec<char>,
    pub pending_bytes: Vec<u8>,
}

/// The data lines of an event joined by newlines.
pub open spec fn join_lines(ls: Seq<Seq<char>>) -> Seq<char>
    decreases ls.len(),
{
    if ls.len() == 0 {
        Seq::empty()
    } else if ls.len() == 1 {
        ls[0]
    } else {
        join_lines(ls.drop_last()) + seq!['\n'] + ls.last()
    }
}

/// The parser as a value: event name, data lines, pending characters.
pub type SseModel = (Option<Seq<char>>, Seq<Seq<char>>, Seq<char>);

/// An event as a value: its name and its data.
pub type SseEvent = (Option<Seq<char>>, Seq<char>);

/// The parser after one complete line, and the event that the line ends, if any. A blank
/// line ends an event unless nothing has been read; `event:` names it, `data:` adds a line;
/// other lines are ignored.
pub open spec fn feed_line_spec(ev: Option<Seq<char>>, data: Seq<Seq<char>>, line: Seq<char>) -> (
    Option<Seq<char>>,
    Seq<Seq<char>>,
    Option<SseEvent>,
) {
    if line.len() == 0 {
        if data.len() == 0 && ev.is_none() {
            (ev, data, None)
        } else {
            (None, Seq::empty(), Some((ev, join_lines(data))))
        }
    } else if has_prefix(line, "event:"@) {
        (Some(trim_spec(line.subrange(6, line.len() as int))), data, None)
    } else if has_prefix(line, "data:"@) {
        (ev, data.push(trim_start_spec(line.subrange(5, line.len() as int))), None)
    } else {
        (ev, data, None)
    }
}

/// The parser after the characters `cs`, and the events they complete, in order.
pub open spec fn feed_chars_spec(m: SseModel, cs: Seq<char>) -> (SseModel, Seq<SseEvent>)
    decreases cs.len(),
{
    if cs.len() == 0 {
        (m, Seq::empty())
    } else {
        let (m1, out) = feed_chars_spec(m, cs.drop_last());
        let c = cs.last();
        if c == '\n' {
            let (ev, data, e) = feed_line_spec(m1.0, m1.1, strip_cr(m1.2));
            ((ev, data, Seq::empty()), match e {
                Some(x) => out.push(x),
                None => out,
            })
        } else {
            ((m1.0, m1.1, m1.2.push(c)), out)
        }
    }
}

pub open spec fn events_view(v: Seq<SseMessage>) -> Seq<SseEvent> {
    v.map_values(|m: SseMessage| (opt_view(m.event), m.data@))
}

/// How many bytes the character that `b` begins with takes, judged by that byte alone.
pub open spec fn lead_width(b: u8) -> int {
    if is_leading_byte_width_2(b) {
        2
    } else if is_leading_byte_width_3(b) {
        3
    } else if is_leading_byte_width_4(b) {
        4
    } else {
        1
    }
}

/// The trailing bytes of `b` that begin a character that `b` does not finish.
pub open spec fn incomplete_tail(b: Seq<u8>) -> int {
    let n = b.len();
    if n >= 1 && lead_width(b[n - 1]) > 1 {
        1
    } else if n >= 2 && is_continuation_byte(b[n - 1]) && lead_width(b[n - 2]) > 2 {
        2
    } else if n >= 3 && is_continuation_byte(b[n - 1]) && is_continuation_byte(b[n - 2]) && lead_width(b[n - 3]) > 3 {
        3
    } else {
        0
    }
}

fn lead_width_of(b: u8) -> (r: usize)
    ensures
        r == lead_width(b),
{
    if 0xc0 <= b && b <= 0xdf {
        2
    } else if 0xe0 <= b && b <= 0xef {
        3
    } else if 0xf0 <= b && b <= 0xf7 {
        4
    } else {
        1
    }
}

fn is_continuation(b: u8) -> (r: bool)
    ensures
        r == is_continuation_byte(b),
{
    0x80 <= b && b <= 0xbf
}

fn incomplete_tail_of(b: &Vec<u8>) -> (r: usize)
    ensures
        r == incomplete_tail(b@),
{
    let n = b.len();
    if n >= 1 && lead_width_of(b[n - 1]) > 1 {
        1
    } else if n >= 2 && is_continuation(b[n - 1]) && lead_width_of(b[n - 2]) > 2 {
        2
    } else if n >= 3 && is_continuation(b[n - 1]) && is_continuation(b[n - 2]) && lead_width_of(b[n - 3]) > 3 {
        3
    } else {
        0
    }
}

/// Relies on `std::str::from_utf8`: the text of the bytes when they are valid UTF-8,
/// nothing otherwise.
#[verifier::external_body]
fn decode_utf8_text(b: &[u8]) -> (r: Option<String>)
    ensures
        r.is_some() == valid_utf8(b@),
        r.is_some() ==> r.unwrap()@ == decode_utf8(b@),
{
    std::str::from_utf8(b).ok().map(|t| t.to_string())
}

fn join_data(ls: &Vec<String>) -> (r: String)
    ensures
        r@ == join_lines(ls@.map_values(|s: String| s@)),
{
    let ghost v = ls@.map_values(|s: String| s@);
    let mut r = String::new();
    if ls.len() == 0 {
        return r;
    }
    crate::runner::append_str(&mut r, ls[0].as_str());
    assert(v.subrange(0, 1).len() == 1);
    assert(r@ == join_lines(v.subrange(0, 1)));
    let mut i: usize = 1;
    while i < ls.len()
        invariant
            1 <= i <= ls@.len(),
            v == ls@.map_values(|s: String| s@),
            r@ == join_lines(v.subrange(0, i as int)),
        decreases ls@.len() - i,
    {
        assert(v.subrange(0, i as int + 1).drop_last() =~= v.subrange(0, i as int));
        push_char(&mut r, '\n');
        crate::runner::append_str(&mut r, ls[i].as_str());
        assert(r@ =~= join_lines(v.subrange(0, i as int)) + seq!['\n'] + v[i as int]);
        i = i + 1;
    }
    assert(v.subrange(0, i as int) =~= v);
    r
}

impl SseParser {
    pub open spec fn model(&self) -> SseModel {
        (opt_view(self.current_event), self.data_lines@.map_values(|s: String| s@), self.buffer@)
    }

    pub fn new() -> (r: Self)
        ensures
            r.model() == (None::<Seq<char>>, Seq::<Seq<char>>::empty(), Seq::<char>::empty()),
            r.pending_bytes@.len() == 0,
    {
        let r = SseParser { current_event: None, data_lines: Vec::new(), buffer: Vec::new(), pending_bytes: Vec::new() };
        assert(r.model().1 =~= Seq::<Seq<char>>::empty());
        r
    }

    /// Takes one complete line; gives the event it ends, if any.
    pub fn feed_line(&mut self, line: &Vec<char>) -> (r: Option<SseMessage>)
        ensures
            ({
                let (ev, data, e) = feed_line_spec(old(self).model().0, old(self).model().1, line@);
                &&& final(self).model() == (ev, data, old(self).model().2)
                &&& final(self).pending_bytes == old(self).pending_bytes
                &&& match r {
                    Some(m) => e == Some((opt_view(m.event), m.data@)),
                    None => e.is_none(),
                }
            }),
    {
        proof {
            reveal_strlit("event:");
            reveal_strlit("data:");
        }
        if line.len() == 0 {
            if self.data_lines.len() == 0 && self.current_event.is_none() {
                return None;
            }
            let data = join_data(&self.data_lines);
            let mut event: Option<String> = None;
            std::mem::swap(&mut event, &mut self.current_event);
            self.data_lines = Vec::new();
            assert(self.model().1 =~= Seq::<Seq<char>>::empty());
            return Some(SseMessage { event, data });
        }
        let event_tag = chars_of("event:");
        let data_tag = chars_of("data:");
        if starts_with(line, &event_tag) {
            let rest = slice_string(line, 6, line.len());
            self.current_event = Some(trim(rest.as_str()));
        } else if starts_with(line, &data_tag) {
            let rest = slice_string(line, 5, line.len());
            let ghost before = self.data_lines@;
            self.data_lines.push(trim_start(rest.as_str()));
            assert(self.data_lines@.map_values(|s: String| s@) =~= before.map_values(|s: String| s@).push(
                trim_start_spec(line@.subrange(5, line@.len() as int)),
            ));
        }
        None
    }

    /// Takes the text of one chunk of the stream; gives the events it completes, in order.
    pub fn push_text(&mut self, text: &str) -> (r: Vec<SseMessage>)
        ensures
            (final(self).model(), events_view(r@)) == feed_chars_spec(old(self).model(), text@),
            final(self).pending_bytes == old(self).pending_bytes,
    {
        let cs = chars_of(text);
        let mut out: Vec<SseMessage> = Vec::new();
        let mut i: usize = 0;
        while i < cs.len()
            invariant
                i <= cs@.len(),
                cs@ == text@,
                (self.model(), events_view(out@)) == feed_chars_spec(old(self).model(), cs@.subrange(0, i as int)),
                self.pending_bytes == old(self).pending_bytes,
            decreases cs@.len() - i,
        {
            assert(cs@.subrange(0, i as int + 1).drop_last() =~= cs@.subrange(0, i as int));
            let c = cs[i];
            if c == '\n' {
                let ghost buf = self.buffer@;
                let mut line: Vec<char> = Vec::new();
                std::mem::swap(&mut line, &mut self.buffer);
                let n = line.len();
                if n > 0 && line[n - 1] == '\r' {
                    line.pop();
                }
                assert(line@ =~= strip_cr(buf));
                let ghost before = out@;
                match self.feed_line(&line) {
                    Some(m) => {
                        out.push(m);
                        assert(events_view(out@) =~= events_view(before).push((opt_view(m.event), m.data@)));
                    },
                    None => {},
                }
            } else {
                self.buffer.push(c);
            }
            i = i + 1;
        }
        assert(cs@.subrange(0, i as int) =~= cs@);
        out
    }

    /// Takes one chunk of bytes. The bytes of a character that the chunk does not finish
    /// wait for the next chunk; the rest, with what waited before, is read as text, or
    /// skipped when it is not valid UTF-8.
    pub fn push_bytes(&mut self, bytes: &[u8]) -> (r: Vec<SseMessage>)
        ensures
            ({
                let all = old(self).pending_bytes@ + bytes@;
                let k = all.len() - incomplete_tail(all);
                let done = all.subrange(0, k);
                &&& final(self).pending_bytes@ == all.subrange(k, all.len() as int)
                &&& valid_utf8(done) ==> (final(self).model(), events_view(r@)) == feed_chars_spec(old(self).model(), decode_utf8(done))
                &&& !valid_utf8(done) ==> final(self).model() == old(self).model() && r@.len() == 0
            }),
    {
        let mut all: Vec<u8> = Vec::new();
        std::mem::swap(&mut all, &mut self.pending_bytes);
        let mut i: usize = 0;
        while i < bytes.len()
            invariant
                i <= bytes@.len(),
                all@ == old(self).pending_bytes@ + bytes@.subrange(0, i as int),
            decreases bytes@.len() - i,
        {
            all.push(bytes[i]);
            assert(old(self).pending_bytes@ + bytes@.subrange(0, i as int + 1) =~= (old(self).pending_bytes@ + bytes@.subrange(0, i as int)).push(bytes@[i as int]));
            i = i + 1;
        }
        assert(bytes@.subrange(0, i as int) =~= bytes@);
        let k = all.len() - incomplete_tail_of(&all);
        let mut done: Vec<u8> = Vec::new();
        let mut rest: Vec<u8> = Vec::new();
        let mut j: usize = 0;
        while j < all.len()
            invariant
                k <= all@.len(),
                j <= all@.len(),
                done@ == all@.subrange(0, if j < k { j as int } else { k as int }),
                rest@ == all@.subrange(k as int, if j < k { k as int } else { j as int }),
            decreases all@.len() - j,
        {
            if j < k {
                done.push(all[j]);
                assert(all@.subrange(0, j as int + 1) =~= all@.subrange(0, j as int).push(all@[j as int]));
            } else {
                rest.push(all[j]);
                assert(all@.subrange(k as int, j as int + 1) =~= all@.subrange(k as int, j as int).push(all@[j as int]));
            }
            j = j + 1;
        }
        self.pending_bytes = rest;
        match decode_utf8_text(done.as_slice()) {
            Some(t) => self.push_text(t.as_str()),
            None => Vec::new(),
        }
    }
}

/// How many plugins listen to the upstream events, by transport.
pub struct Subscribers {
    pub sse: u64,
    pub ws: u64,
}

/// What the upstream task does next.
#[derive(Clone, Copy, Debug, PartialEq, Eq, Structural)]
pub enum UpstreamAction {
    /// Nobody listens and nothing is open: wait and look again.
    Idle,
    /// Somebody listens and nothing is open: open the stream.
    Connect,
    /// Somebody listens and the stream is open: read on.
    Read,
    /// Nobody listens any more: close the stream.
    Abandon,
}

impl Subscribers {
    pub fn new() -> (r: Self)
        ensures
            r.sse == 0 && r.ws == 0,
    {
        Subscribers { sse: 0, ws: 0 }
    }

    pub fn join_sse(&mut self)
        requires
            old(self).sse < u64::MAX,
        ensures
            final(self).sse == old(self).sse + 1,
            final(self).ws == old(self).ws,
    {
        self.sse = self.sse + 1;
    }

    pub fn leave_sse(&mut self)
        requires
            old(self).sse > 0,
        ensures
            final(self).sse == old(self).sse - 1,
            final(self).ws == old(self).ws,
    {
        self.sse = self.sse - 1;
    }

    pub fn join_ws(&mut self)
        requires
            old(self).ws < u64::MAX,
        ensures
            final(self).ws == old(self).ws + 1,
            final(self).sse == old(self).sse,
    {
        self.ws = self.ws + 1;
    }

    pub fn leave_ws(&mut self)
        requires
            old(self).ws > 0,
        ensures
            final(self).ws == old(self).ws - 1,
            final(self).sse == old(self).sse,
    {
        self.ws = self.ws - 1;
    }

    /// Whether the upstream stream is wanted: somebody listens, by either transport.
    pub fn upstream_active(&self) -> (r: bool)
        ensures
            r == (self.sse + self.ws > 0),
    {
        self.sse > 0 || self.ws > 0
    }

    /// The upstream task's next step, given whether its stream is open: the stream is open
    /// or being opened exactly while somebody listens.
    pub fn upstream_action(&self, connected: bool) -> (r: UpstreamAction)
        ensures
            (r == UpstreamAction::Connect || r == UpstreamAction::Read) == (self.sse + self.ws > 0),
            r == UpstreamAction::Connect ==> !connected,
            r == UpstreamAction::Read ==> connected,
            r == UpstreamAction::Abandon <==> (connected && self.sse + self.ws == 0),
            r == UpstreamAction::Idle <==> (!connected && self.sse + self.ws == 0),
    {
        if self.upstream_active() {
            if connected {
                UpstreamAction::Read
            } else {
                UpstreamAction::Connect
            }
        } else if connected {
            UpstreamAction::Abandon
        } else {
            UpstreamAction::Idle
        }
    }
}

} // verus!
