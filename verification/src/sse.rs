//! The event-stream side: the gateway's event record, the client's
//! configuration, the framing of the byte stream into `data:` payloads, and
//! the reconnect backoff.
use vstd::prelude::*;
use vstd::string::StringExecFns;

verus! {

/// Minimal payload emitted by the gateway's SSE plugin; it carries no
/// content (no parameters, no results).
#[derive(Debug, Clone)]
pub struct GatewayAnimEvent {
    pub ts: u64,
    pub run_id: Option<String>,
    pub phase: String,
    pub tool: String,
}

#[derive(Debug, Clone)]
pub struct SseClientConfig {
    pub url: String,
    pub bearer_token: String,
    pub connect_timeout_ms: u64,
    pub read_idle_timeout_ms: u64,
    pub max_backoff_ms: u64,
}

impl SseClientConfig {
    /// The value of the `Authorization` header.
    pub fn authorization_value(&self) -> (v: String)
        ensures
            v@ == "Bearer "@ + self.bearer_token@,
    {
        let mut v = String::new();
        v.append("Bearer ");
        v.append(self.bearer_token.as_str());
        v
    }
}

/// Line feed.
pub const LF: u8 = 10u8;

/// Carriage return.
pub const CR: u8 = 13u8;

/// The comment marker that starts heartbeat lines.
pub const COLON: u8 = 58u8;

/// Space.
pub const SPACE: u8 = 32u8;

/// The bytes of "data:".
pub open spec fn data_prefix() -> Seq<u8> {
    seq![100u8, 97u8, 116u8, 97u8, 58u8]
}

/// The complete lines of `s` (each without its line feed), and the bytes
/// after the last line feed.
pub open spec fn split_lines(s: Seq<u8>) -> (Seq<Seq<u8>>, Seq<u8>)
    decreases s.len(),
{
    if s.len() == 0 {
        (Seq::empty(), Seq::empty())
    } else {
        let prev = split_lines(s.drop_last());
        if s.last() == LF {
            (prev.0.push(prev.1), Seq::empty())
        } else {
            (prev.0, prev.1.push(s.last()))
        }
    }
}

/// A line without its trailing line feeds and carriage returns.
pub open spec fn trim_line_end(l: Seq<u8>) -> Seq<u8>
    decreases l.len(),
{
    if l.len() > 0 && (l.last() == LF || l.last() == CR) {
        trim_line_end(l.drop_last())
    } else {
        l
    }
}

/// Bytes without their leading spaces.
pub open spec fn skip_spaces(s: Seq<u8>) -> Seq<u8>
    decreases s.len(),
{
    if s.len() > 0 && s[0] == SPACE {
        skip_spaces(s.drop_first())
    } else {
        s
    }
}

/// The payload of a line: for a `data:` line, what follows the prefix and
/// its leading spaces, if anything does. Empty lines, comments (heartbeats)
/// and other fields carry none.
pub open spec fn line_payload(raw: Seq<u8>) -> Option<Seq<u8>> {
    let l = trim_line_end(raw);
    if l.len() == 0 {
        None
    } else if l[0] == COLON {
        None
    } else if l.len() >= 5 && l.take(5) == data_prefix() {
        let p = skip_spaces(l.skip(5));
        if p.len() == 0 {
            None
        } else {
            Some(p)
        }
    } else {
        None
    }
}

/// The payloads of a list of lines, in order.
pub open spec fn payloads(lines: Seq<Seq<u8>>) -> Seq<Seq<u8>>
    decreases lines.len(),
{
    if lines.len() == 0 {
        Seq::empty()
    } else {
        let p = payloads(lines.drop_last());
        match line_payload(lines.last()) {
            Some(x) => p.push(x),
            None => p,
        }
    }
}

/// The view of a list of byte vectors.
pub open spec fn byte_vecs_view(v: Seq<Vec<u8>>) -> Seq<Seq<u8>> {
    v.map_values(|b: Vec<u8>| b@)
}

/// Whether `s` holds no line feed.
pub open spec fn no_line_feed(s: Seq<u8>) -> bool {
    forall|i: int| 0 <= i < s.len() ==> s[i] != LF
}

/// The bytes received after the last complete line.
pub struct SseLineBuffer {
    buf: Vec<u8>,
}

impl View for SseLineBuffer {
    type V = Seq<u8>;

    closed spec fn view(&self) -> Seq<u8> {
        self.buf@
    }
}

/// A copy of `all[start..end]`.
fn copy_range(all: &Vec<u8>, start: usize, end: usize) -> (r: Vec<u8>)
    requires
        start <= end <= all@.len(),
    ensures
        r@ == all@.subrange(start as int, end as int),
{
    let mut r: Vec<u8> = Vec::new();
    let mut k = start;
    while k < end
        invariant
            start <= k <= end <= all@.len(),
            r@ == all@.subrange(start as int, k as int),
        decreases end - k,
    {
        r.push(all[k]);
        proof {
            assert(all@.subrange(start as int, k + 1) =~= all@.subrange(start as int, k as int).push(
                all@[k as int],
            ));
        }
        k = k + 1;
    }
    r
}

/// The payload of the line `all[start..end]`.
fn payload_of(all: &Vec<u8>, start: usize, end: usize) -> (r: Option<Vec<u8>>)
    requires
        start <= end <= all@.len(),
    ensures
        match r {
            Some(p) => line_payload(all@.subrange(start as int, end as int)) == Some(p@),
            None => line_payload(all@.subrange(start as int, end as int)) is None,
        },
{
    let ghost raw = all@.subrange(start as int, end as int);
    // trim trailing line feeds and carriage returns
    let mut e = end;
    while e > start && (all[e - 1] == LF || all[e - 1] == CR)
        invariant
            start <= e <= end <= all@.len(),
            trim_line_end(raw) == trim_line_end(all@.subrange(start as int, e as int)),
        decreases e,
    {
        proof {
            let l = all@.subrange(start as int, e as int);
            assert(l.drop_last() =~= all@.subrange(start as int, e - 1));
        }
        e = e - 1;
    }
    let ghost l = all@.subrange(start as int, e as int);
    proof {
        assert(trim_line_end(l) == l);
    }
    if e == start {
        return None;
    }
    if all[start] == COLON {
        return None;
    }
    if e - start >= 5 && all[start] == 100u8 && all[start + 1] == 97u8 && all[start + 2] == 116u8
        && all[start + 3] == 97u8 && all[start + 4] == 58u8 {
        proof {
            assert(l.take(5) =~= data_prefix());
        }
        let mut k = start + 5;
        proof {
            assert(l.skip(5) =~= all@.subrange(k as int, e as int));
        }
        while k < e && all[k] == SPACE
            invariant
                start + 5 <= k <= e <= all@.len(),
                skip_spaces(l.skip(5)) == skip_spaces(all@.subrange(k as int, e as int)),
            decreases e - k,
        {
            proof {
                let s = all@.subrange(k as int, e as int);
                assert(s.drop_first() =~= all@.subrange(k + 1, e as int));
            }
            k = k + 1;
        }
        proof {
            let s = all@.subrange(k as int, e as int);
            assert(skip_spaces(s) == s);
        }
        if k == e {
            return None;
        }
        return Some(copy_range(all, k, e));
    }
    proof {
        if l.len() >= 5 {
            if l.take(5) == data_prefix() {
                assert(l.take(5)[0] == l[0]);
                assert(l.take(5)[1] == l[1]);
                assert(l.take(5)[2] == l[2]);
                assert(l.take(5)[3] == l[3]);
                assert(l.take(5)[4] == l[4]);
            }
        }
    }
    None
}

impl SseLineBuffer {
    /// The buffer holds no complete line.
    pub open spec fn wf(&self) -> bool {
        no_line_feed(self@)
    }

    pub fn new() -> (b: Self)
        ensures
            b@ == Seq::<u8>::empty(),
            b.wf(),
    {
        SseLineBuffer { buf: Vec::new() }
    }

    /// Appends a received chunk and takes out every complete line; returns
    /// the payloads of the `data:` lines among them, in order, and keeps the
    /// bytes after the last line feed for the next chunk.
    pub fn push_chunk(&mut self, chunk: &[u8]) -> (out: Vec<Vec<u8>>)
        ensures
            final(self)@ == split_lines(old(self)@ + chunk@).1,
            byte_vecs_view(out@) == payloads(split_lines(old(self)@ + chunk@).0),
            final(self).wf(),
    {
        let mut all: Vec<u8> = Vec::new();
        std::mem::swap(&mut all, &mut self.buf);
        let ghost before = all@;
        let mut j: usize = 0;
        while j < chunk.len()
            invariant
                0 <= j <= chunk@.len(),
                all@ == before + chunk@.take(j as int),
            decreases chunk@.len() - j,
        {
            all.push(chunk[j]);
            proof {
                assert(chunk@.take(j + 1) =~= chunk@.take(j as int).push(chunk@[j as int]));
                assert(before + chunk@.take(j + 1) =~= (before + chunk@.take(j as int)).push(
                    chunk@[j as int],
                ));
            }
            j = j + 1;
        }
        proof {
            assert(chunk@.take(j as int) =~= chunk@);
        }
        let ghost whole = all@;
        let mut out: Vec<Vec<u8>> = Vec::new();
        let mut start: usize = 0;
        let mut i: usize = 0;
        proof {
            assert(whole.take(0) =~= Seq::<u8>::empty());
            assert(whole.subrange(0, 0) =~= Seq::<u8>::empty());
        }
        while i < all.len()
            invariant
                0 <= start <= i <= all@.len(),
                all@ == whole,
                split_lines(whole.take(i as int)).1 == whole.subrange(start as int, i as int),
                byte_vecs_view(out@) == payloads(split_lines(whole.take(i as int)).0),
            decreases all@.len() - i,
        {
            let ghost prev = split_lines(whole.take(i as int));
            proof {
                assert(whole.take(i + 1).drop_last() =~= whole.take(i as int));
                assert(whole.take(i + 1).last() == whole[i as int]);
            }
            if all[i] == LF {
                let p = payload_of(&all, start, i);
                let ghost lines = prev.0.push(prev.1);
                proof {
                    assert(lines.drop_last() =~= prev.0);
                }
                match p {
                    Some(v) => {
                        out.push(v);
                        proof {
                            assert(byte_vecs_view(out@) =~= payloads(prev.0).push(v@));
                        }
                    },
                    None => {},
                }
                start = i + 1;
                proof {
                    assert(whole.subrange(start as int, i + 1) =~= Seq::<u8>::empty());
                }
            } else {
                proof {
                    assert(whole.subrange(start as int, i + 1) =~= whole.subrange(
                        start as int,
                        i as int,
                    ).push(whole[i as int]));
                }
            }
            i = i + 1;
        }
        proof {
            assert(whole.take(i as int) =~= whole);
            lemma_tail_has_no_line_feed(whole);
        }
        self.buf = copy_range(&all, start, all.len());
        out
    }
}

/// The reconnect delay after a successful connection, in milliseconds.
pub const INITIAL_BACKOFF_MS: u64 = 500u64;

/// The delay that follows `d`: doubled, capped at `max`.
pub open spec fn next_backoff(d: u64, max: u64) -> u64 {
    if 2 * d <= max {
        (2 * d) as u64
    } else {
        max
    }
}

/// The reconnect backoff of the stream client: each failed attempt or ended
/// stream waits the current delay, which then doubles up to the maximum; a
/// successful connection resets it.
pub struct Backoff {
    delay_ms: u64,
    max_ms: u64,
}

impl Backoff {
    pub closed spec fn delay(&self) -> u64 {
        self.delay_ms
    }

    pub closed spec fn max(&self) -> u64 {
        self.max_ms
    }

    pub fn new(max_ms: u64) -> (b: Self)
        ensures
            b.delay() == INITIAL_BACKOFF_MS,
            b.max() == max_ms,
    {
        Backoff { delay_ms: INITIAL_BACKOFF_MS, max_ms }
    }

    /// The delay to wait now, in milliseconds.
    pub fn current_ms(&self) -> (d: u64)
        ensures
            d == self.delay(),
    {
        self.delay_ms
    }

    /// After a failed attempt or an ended stream: returns the delay to wait
    /// now and doubles the next one, up to the maximum.
    pub fn after_failure(&mut self) -> (d: u64)
        ensures
            d == old(self).delay(),
            final(self).delay() == next_backoff(old(self).delay(), old(self).max()),
            final(self).max() == old(self).max(),
    {
        let d = self.delay_ms;
        let doubled: u128 = (d as u128) * 2;
        self.delay_ms = if doubled <= self.max_ms as u128 {
            (d * 2) as u64
        } else {
            self.max_ms
        };
        d
    }

    /// After a successful connection: the delay starts over.
    pub fn reset(&mut self)
        ensures
            final(self).delay() == INITIAL_BACKOFF_MS,
            final(self).max() == old(self).max(),
    {
        self.delay_ms = INITIAL_BACKOFF_MS;
    }
}

/// What became of an attempt to use the event stream.
#[derive(Debug, Clone, Copy, PartialEq, Eq, Structural)]
pub enum ConnectOutcome {
    /// The request could not be sent.
    ConnectFailed,
    /// The gateway answered with a status other than success.
    BadStatus,
    /// The stream is open.
    Connected,
    /// An open stream ended, failed or stayed idle too long.
    StreamEnded,
}

impl Backoff {
    /// What to do after an outcome: a successful connection starts the
    /// delay over and waits nothing (`None`); any other outcome waits the
    /// current delay, returned, and doubles the next one up to the maximum.
    pub fn on_outcome(&mut self, outcome: ConnectOutcome) -> (wait: Option<u64>)
        ensures
            final(self).max() == old(self).max(),
            match outcome {
                ConnectOutcome::Connected => wait is None && final(self).delay() == INITIAL_BACKOFF_MS,
                _ => wait == Some(old(self).delay()) && final(self).delay() == next_backoff(
                    old(self).delay(),
                    old(self).max(),
                ),
            },
    {
        match outcome {
            ConnectOutcome::Connected => {
                self.reset();
                None
            },
            _ => Some(self.after_failure()),
        }
    }
}

/// Once a delay has been doubled, it never exceeds the maximum, and it never
/// falls below the previous delay while the previous delay is within the
/// maximum.
pub proof fn lemma_backoff_bounded(d: u64, max: u64)
    ensures
        next_backoff(d, max) <= max,
        d <= max ==> d <= next_backoff(d, max),
{
}

/// A run of bytes without line feed is one incomplete line.
pub proof fn lemma_split_without_line_feed(t: Seq<u8>)
    requires
        no_line_feed(t),
    ensures
        split_lines(t).0 == Seq::<Seq<u8>>::empty(),
        split_lines(t).1 == t,
    decreases t.len(),
{
    if t.len() > 0 {
        lemma_split_without_line_feed(t.drop_last());
        assert(t.drop_last().push(t.last()) =~= t);
    }
}

/// Splitting `a + b` splits `a`, then splits what was left of `a` followed
/// by `b`.
pub proof fn lemma_split_concat(a: Seq<u8>, b: Seq<u8>)
    ensures
        split_lines(a + b).0 == split_lines(a).0 + split_lines(split_lines(a).1 + b).0,
        split_lines(a + b).1 == split_lines(split_lines(a).1 + b).1,
    decreases b.len(),
{
    let t = split_lines(a).1;
    if b.len() == 0 {
        assert(a + b =~= a);
        assert(t + b =~= t);
        lemma_tail_has_no_line_feed(a);
        lemma_split_without_line_feed(t);
        assert(split_lines(a).0 + Seq::<Seq<u8>>::empty() =~= split_lines(a).0);
    } else {
        let b1 = b.drop_last();
        lemma_split_concat(a, b1);
        assert((a + b).drop_last() =~= a + b1);
        assert((t + b).drop_last() =~= t + b1);
        assert((a + b).last() == b.last());
        assert((t + b).last() == b.last());
        let inner = split_lines(t + b1);
        if b.last() == LF {
            assert((split_lines(a).0 + inner.0).push(inner.1) =~= split_lines(a).0 + inner.0.push(
                inner.1,
            ));
        }
    }
}

/// The payloads of two runs of lines are those of the first, then those of
/// the second.
pub proof fn lemma_payloads_concat(l1: Seq<Seq<u8>>, l2: Seq<Seq<u8>>)
    ensures
        payloads(l1 + l2) == payloads(l1) + payloads(l2),
    decreases l2.len(),
{
    if l2.len() == 0 {
        assert(l1 + l2 =~= l1);
        assert(payloads(l1) + payloads(l2) =~= payloads(l1));
    } else {
        let l = l2.drop_last();
        lemma_payloads_concat(l1, l);
        assert((l1 + l2).drop_last() =~= l1 + l);
        assert((l1 + l2).last() == l2.last());
        match line_payload(l2.last()) {
            Some(x) => {
                assert((payloads(l1) + payloads(l)).push(x) =~= payloads(l1) + payloads(l).push(x));
            },
            None => {},
        }
    }
}

/// How the stream is cut into chunks does not matter: feeding `a` then `b`
/// to a buffer holding `buf` yields the payloads and the leftover bytes of
/// feeding `a + b` at once.
pub proof fn lemma_chunking_is_invisible(buf: Seq<u8>, a: Seq<u8>, b: Seq<u8>)
    ensures
        payloads(split_lines(buf + a).0) + payloads(split_lines(split_lines(buf + a).1 + b).0)
            == payloads(split_lines(buf + (a + b)).0),
        split_lines(split_lines(buf + a).1 + b).1 == split_lines(buf + (a + b)).1,
{
    assert(buf + (a + b) =~= (buf + a) + b);
    lemma_split_concat(buf + a, b);
    lemma_payloads_concat(split_lines(buf + a).0, split_lines(split_lines(buf + a).1 + b).0);
}

/// The bytes of a sequence of chunks, in order.
pub open spec fn flatten_chunks(chunks: Seq<Seq<u8>>) -> Seq<u8>
    decreases chunks.len(),
{
    if chunks.len() == 0 {
        Seq::empty()
    } else {
        flatten_chunks(chunks.drop_last()) + chunks.last()
    }
}

/// Feeding chunks one by one to a buffer holding `buf`, as `push_chunk`
/// does: all payloads returned, in order, and the bytes left in the buffer.
pub open spec fn feed_chunks(buf: Seq<u8>, chunks: Seq<Seq<u8>>) -> (Seq<Seq<u8>>, Seq<u8>)
    decreases chunks.len(),
{
    if chunks.len() == 0 {
        (Seq::empty(), buf)
    } else {
        let prev = feed_chunks(buf, chunks.drop_last());
        let split = split_lines(prev.1 + chunks.last());
        (prev.0 + payloads(split.0), split.1)
    }
}

/// However the stream is cut into chunks, feeding them gives the payloads
/// and the leftover bytes of the whole stream at once.
pub proof fn lemma_any_chunking_is_invisible(buf: Seq<u8>, chunks: Seq<Seq<u8>>)
    requires
        no_line_feed(buf),
    ensures
        feed_chunks(buf, chunks).0 == payloads(split_lines(buf + flatten_chunks(chunks)).0),
        feed_chunks(buf, chunks).1 == split_lines(buf + flatten_chunks(chunks)).1,
    decreases chunks.len(),
{
    if chunks.len() == 0 {
        assert(buf + flatten_chunks(chunks) =~= buf);
        lemma_split_without_line_feed(buf);
        assert(payloads(Seq::<Seq<u8>>::empty()) =~= Seq::<Seq<u8>>::empty());
    } else {
        let front = chunks.drop_last();
        lemma_any_chunking_is_invisible(buf, front);
        lemma_chunking_is_invisible(buf, flatten_chunks(front), chunks.last());
    }
}

/// Two cuttings of the same bytes give the same payloads and leave the same
/// bytes.
pub proof fn lemma_same_bytes_same_payloads(buf: Seq<u8>, a: Seq<Seq<u8>>, b: Seq<Seq<u8>>)
    requires
        no_line_feed(buf),
        flatten_chunks(a) == flatten_chunks(b),
    ensures
        feed_chunks(buf, a) == feed_chunks(buf, b),
{
    lemma_any_chunking_is_invisible(buf, a);
    lemma_any_chunking_is_invisible(buf, b);
}

/// `n` spaces.
pub open spec fn spaces(n: nat) -> Seq<u8> {
    Seq::new(n, |i: int| SPACE)
}

/// Leading spaces are dropped and nothing else: after any number of spaces,
/// bytes that do not start with a space come through whole.
pub proof fn lemma_skip_spaces_keeps_rest(n: nat, p: Seq<u8>)
    requires
        p.len() == 0 || p[0] != SPACE,
    ensures
        skip_spaces(spaces(n) + p) == p,
    decreases n,
{
    if n == 0 {
        assert(spaces(0) + p =~= p);
    } else {
        let q = spaces(n) + p;
        assert(q[0] == SPACE);
        assert(q.drop_first() =~= spaces((n - 1) as nat) + p);
        lemma_skip_spaces_keeps_rest((n - 1) as nat, p);
    }
}

/// A data line carries exactly what follows the prefix and its leading
/// spaces: for any count of spaces and any non-empty `p` that neither starts
/// with a space nor ends in a carriage return or line feed, the line
/// `data:` + spaces + `p` (+ carriage returns) has payload `p`, spaces and
/// all characters inside `p` included.
pub proof fn lemma_data_line_payload(n: nat, p: Seq<u8>, crs: nat)
    requires
        p.len() > 0,
        p[0] != SPACE,
        p.last() != CR,
        p.last() != LF,
    ensures
        line_payload(data_prefix() + spaces(n) + p + Seq::new(crs, |i: int| CR)) == Some(p),
{
    let body = data_prefix() + spaces(n) + p;
    let raw = body + Seq::new(crs, |i: int| CR);
    lemma_trim_trailing_crs(body, crs);
    assert(body.last() == p.last());
    assert(trim_line_end(body) == body);
    assert(body[0] == 100u8);
    assert(body.take(5) =~= data_prefix());
    assert(body.skip(5) =~= spaces(n) + p);
    lemma_skip_spaces_keeps_rest(n, p);
}

/// Trailing carriage returns are trimmed from a line.
proof fn lemma_trim_trailing_crs(body: Seq<u8>, crs: nat)
    ensures
        trim_line_end(body + Seq::new(crs, |i: int| CR)) == trim_line_end(body),
    decreases crs,
{
    if crs == 0 {
        assert(body + Seq::new(0, |i: int| CR) =~= body);
    } else {
        let l = body + Seq::new(crs, |i: int| CR);
        assert(l.last() == CR);
        assert(l.drop_last() =~= body + Seq::new((crs - 1) as nat, |i: int| CR));
        lemma_trim_trailing_crs(body, (crs - 1) as nat);
    }
}

/// The delay after `d` is `d` doubled, or the maximum where doubling would
/// pass it.
pub proof fn lemma_next_backoff_is_capped_double(d: u64, max: u64)
    ensures
        2 * d <= max ==> next_backoff(d, max) == 2 * d,
        2 * d > max ==> next_backoff(d, max) == max,
{
}

/// The delay after `k` failures in a row on a fresh backoff.
pub open spec fn delay_after(max: u64, k: nat) -> u64
    decreases k,
{
    if k == 0 {
        INITIAL_BACKOFF_MS
    } else {
        next_backoff(delay_after(max, (k - 1) as nat), max)
    }
}

/// With the maximum at least the initial delay, each failure doubles the
/// delay until it reaches the maximum: the delay after `k` failures is the
/// initial delay times 2 to the `k`, or the maximum if that is smaller.
pub proof fn lemma_delays_double_until_capped(max: u64, k: nat)
    requires
        max >= INITIAL_BACKOFF_MS,
    ensures
        delay_after(max, k) == if INITIAL_BACKOFF_MS * pow2(k) <= max {
            INITIAL_BACKOFF_MS * pow2(k)
        } else {
            max as int
        },
    decreases k,
{
    if k > 0 {
        lemma_delays_double_until_capped(max, (k - 1) as nat);
        let p = pow2((k - 1) as nat);
        assert(pow2(k) == 2 * p);
        assert(INITIAL_BACKOFF_MS * pow2(k) == 2 * (INITIAL_BACKOFF_MS * p)) by (nonlinear_arith)
            requires
                pow2(k) == 2 * p,
        ;
        assert(p >= 1) by {
            lemma_pow2_positive((k - 1) as nat);
        }
    }
}

/// 2 to the `k` is positive.
proof fn lemma_pow2_positive(k: nat)
    ensures
        pow2(k) >= 1,
    decreases k,
{
    if k > 0 {
        lemma_pow2_positive((k - 1) as nat);
    }
}

/// 2 to the `k`.
pub open spec fn pow2(k: nat) -> int
    decreases k,
{
    if k == 0 {
        1
    } else {
        2 * pow2((k - 1) as nat)
    }
}

/// The bytes after the last line feed hold no line feed.
pub proof fn lemma_tail_has_no_line_feed(s: Seq<u8>)
    ensures
        no_line_feed(split_lines(s).1),
    decreases s.len(),
{
    if s.len() > 0 {
        lemma_tail_has_no_line_feed(s.drop_last());
    }
}

} // verus!
