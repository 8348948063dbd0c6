//! Capture of a child process's output: tagged chunks, the merge point that
//! orders chunks from the two streams into one delivered sequence, and a
//! bounded ring buffer of the most recent completed output lines.

use vstd::prelude::*;
use vstd::utf8::{decode_utf8, valid_utf8};
use std::collections::VecDeque;
use crate::strutil::utf8_to_string;

verus! {

/// A tagged, immutable run of bytes read from one of the child's two output
/// streams.
pub enum Chunk {
    Stdout(Vec<u8>),
    Stderr(Vec<u8>),
}

impl Chunk {
    pub open spec fn is_stdout(&self) -> bool {
        match self {
            Chunk::Stdout(_) => true,
            Chunk::Stderr(_) => false,
        }
    }

    pub open spec fn data(&self) -> Seq<u8> {
        match self {
            Chunk::Stdout(d) => d@,
            Chunk::Stderr(d) => d@,
        }
    }

    /// The payload bytes, whichever stream they came from.
    pub fn bytes(&self) -> (r: &[u8])
        ensures
            r@ == self.data(),
    {
        match self {
            Chunk::Stdout(d) => d.as_slice(),
            Chunk::Stderr(d) => d.as_slice(),
        }
    }

    /// Whether this chunk was read from the child's stdout.
    pub fn from_stdout(&self) -> (r: bool)
        ensures
            r == self.is_stdout(),
    {
        match self {
            Chunk::Stdout(_) => true,
            Chunk::Stderr(_) => false,
        }
    }
}

/// The data of the chunks of one origin, in sequence order: the projection of
/// a merged chunk sequence onto a single stream.
pub open spec fn stream_data(chunks: Seq<Chunk>, stdout: bool) -> Seq<Seq<u8>>
    decreases chunks.len(),
{
    if chunks.len() == 0 {
        Seq::empty()
    } else {
        (if chunks[0].is_stdout() == stdout {
            seq![chunks[0].data()]
        } else {
            Seq::empty()
        }) + stream_data(chunks.skip(1), stdout)
    }
}

pub proof fn lemma_stream_data_concat(a: Seq<Chunk>, b: Seq<Chunk>, stdout: bool)
    ensures
        stream_data(a + b, stdout) == stream_data(a, stdout) + stream_data(b, stdout),
    decreases a.len(),
{
    if a.len() == 0 {
        assert(a + b =~= b);
        assert(stream_data(a, stdout) + stream_data(b, stdout) =~= stream_data(b, stdout));
    } else {
        assert((a + b).len() > 0);
        assert((a + b)[0] == a[0]);
        assert((a + b).skip(1) =~= a.skip(1) + b);
        lemma_stream_data_concat(a.skip(1), b, stdout);
        let head = if a[0].is_stdout() == stdout {
            seq![a[0].data()]
        } else {
            Seq::<Seq<u8>>::empty()
        };
        assert(stream_data(a + b, stdout) == head + (stream_data(a.skip(1), stdout) + stream_data(
            b,
            stdout,
        )));
        assert(head + (stream_data(a.skip(1), stdout) + stream_data(b, stdout)) =~= (head
            + stream_data(a.skip(1), stdout)) + stream_data(b, stdout));
    }
}

pub proof fn lemma_stream_data_singleton(c: Chunk, stdout: bool)
    ensures
        stream_data(seq![c], stdout) == (if c.is_stdout() == stdout {
            seq![c.data()]
        } else {
            Seq::<Seq<u8>>::empty()
        }),
{
    let s = seq![c];
    assert(s.skip(1) =~= Seq::<Chunk>::empty());
    assert(stream_data(Seq::<Chunk>::empty(), stdout) == Seq::<Seq<u8>>::empty());
    assert(s[0] == c);
    if c.is_stdout() == stdout {
        assert(stream_data(s, stdout) =~= seq![c.data()]);
    } else {
        assert(stream_data(s, stdout) =~= Seq::<Seq<u8>>::empty());
    }
}

/// The merge point between the two stream readers and the single consumer.
///
/// The readers hand tagged chunks (and, once each stream ends, a close
/// signal) to `push`/`close_stdout`/`close_stderr`; the consumer drains them
/// with `next` in arrival order. The sequence is complete once both streams
/// have closed and the queue is drained. The blocking and thread plumbing
/// around this merge point lives outside the library; every ordering decision
/// lives here.
pub struct ProcessIterator {
    queue: VecDeque<Chunk>,
    stdout_open: bool,
    stderr_open: bool,
    past: Ghost<Seq<Chunk>>,
}

impl ProcessIterator {
    /// The chunks already handed to the consumer, in delivery order.
    pub closed spec fn delivered(&self) -> Seq<Chunk> {
        self.past@
    }

    /// The chunks pushed by the readers and not yet delivered.
    pub closed spec fn queued(&self) -> Seq<Chunk> {
        self.queue@
    }

    pub closed spec fn stdout_done(&self) -> bool {
        !self.stdout_open
    }

    pub closed spec fn stderr_done(&self) -> bool {
        !self.stderr_open
    }

    /// Everything the stdout reader has pushed so far, in push order.
    pub open spec fn stdout_writes(&self) -> Seq<Seq<u8>> {
        stream_data(self.delivered() + self.queued(), true)
    }

    /// Everything the stderr reader has pushed so far, in push order.
    pub open spec fn stderr_writes(&self) -> Seq<Seq<u8>> {
        stream_data(self.delivered() + self.queued(), false)
    }

    /// The merged sequence has ended: both streams closed, nothing pending.
    pub open spec fn complete(&self) -> bool {
        self.queued().len() == 0 && self.stdout_done() && self.stderr_done()
    }

    pub fn new() -> (r: ProcessIterator)
        ensures
            r.delivered() == Seq::<Chunk>::empty(),
            r.queued() == Seq::<Chunk>::empty(),
            !r.stdout_done(),
            !r.stderr_done(),
    {
        ProcessIterator {
            queue: VecDeque::new(),
            stdout_open: true,
            stderr_open: true,
            past: Ghost(Seq::empty()),
        }
    }

    /// A reader hands over one chunk; it is queued behind everything already
    /// pending, extending exactly its own stream's write sequence.
    pub fn push(&mut self, c: Chunk)
        requires
            c.is_stdout() ==> !old(self).stdout_done(),
            !c.is_stdout() ==> !old(self).stderr_done(),
        ensures
            final(self).delivered() == old(self).delivered(),
            final(self).queued() == old(self).queued().push(c),
            final(self).stdout_done() == old(self).stdout_done(),
            final(self).stderr_done() == old(self).stderr_done(),
            c.is_stdout() ==> final(self).stdout_writes() == old(self).stdout_writes().push(
                c.data(),
            ) && final(self).stderr_writes() == old(self).stderr_writes(),
            (!c.is_stdout()) ==> final(self).stderr_writes() == old(self).stderr_writes().push(
                c.data(),
            ) && final(self).stdout_writes() == old(self).stdout_writes(),
    {
        proof {
            let d = self.delivered();
            let q = self.queued();
            assert(d + q.push(c) =~= (d + q) + seq![c]);
            lemma_stream_data_concat(d + q, seq![c], true);
            lemma_stream_data_concat(d + q, seq![c], false);
            lemma_stream_data_singleton(c, true);
            lemma_stream_data_singleton(c, false);
            if c.is_stdout() {
                assert(stream_data(d + q, true) + seq![c.data()] =~= stream_data(
                    d + q,
                    true,
                ).push(c.data()));
                assert(stream_data(d + q, false) + Seq::<Seq<u8>>::empty() =~= stream_data(
                    d + q,
                    false,
                ));
            } else {
                assert(stream_data(d + q, false) + seq![c.data()] =~= stream_data(
                    d + q,
                    false,
                ).push(c.data()));
                assert(stream_data(d + q, true) + Seq::<Seq<u8>>::empty() =~= stream_data(
                    d + q,
                    true,
                ));
            }
        }
        self.queue.push_back(c);
    }

    /// The stdout reader signals end of stream (or a read error, treated the
    /// same way).
    pub fn close_stdout(&mut self)
        ensures
            final(self).stdout_done(),
            final(self).stderr_done() == old(self).stderr_done(),
            final(self).delivered() == old(self).delivered(),
            final(self).queued() == old(self).queued(),
    {
        self.stdout_open = false;
    }

    /// The stderr reader signals end of stream (or a read error, treated the
    /// same way).
    pub fn close_stderr(&mut self)
        ensures
            final(self).stderr_done(),
            final(self).stdout_done() == old(self).stdout_done(),
            final(self).delivered() == old(self).delivered(),
            final(self).queued() == old(self).queued(),
    {
        self.stderr_open = false;
    }

    /// The consumer takes the next merged chunk, if one is pending. Each
    /// chunk is delivered exactly once, in arrival order; neither stream's
    /// write sequence changes.
    pub fn next(&mut self) -> (r: Option<Chunk>)
        ensures
            final(self).stdout_done() == old(self).stdout_done(),
            final(self).stderr_done() == old(self).stderr_done(),
            final(self).stdout_writes() == old(self).stdout_writes(),
            final(self).stderr_writes() == old(self).stderr_writes(),
            match r {
                Some(c) => old(self).queued().len() > 0 && c == old(self).queued()[0]
                    && final(self).queued() == old(self).queued().skip(1)
                    && final(self).delivered() == old(self).delivered().push(c),
                None => old(self).queued().len() == 0 && final(self).queued() == old(self).queued()
                    && final(self).delivered() == old(self).delivered(),
            },
    {
        let ghost q0 = self.queue@;
        let r = self.queue.pop_front();
        if r.is_some() {
            self.past = Ghost(self.past@.push(q0[0]));
            proof {
                assert(self.queue@ =~= q0.skip(1));
                assert(self.past@ + self.queue@ =~= old(self).delivered() + q0);
            }
        }
        r
    }

    /// Whether the merged sequence has ended: both readers have signalled
    /// completion and every delivered chunk has been consumed.
    pub fn finished(&self) -> (r: bool)
        ensures
            r == self.complete(),
    {
        self.queue.len() == 0 && !self.stdout_open && !self.stderr_open
    }
}

/// Law: merging never reorders chunks within one stream. Once the queue is
/// drained, the stdout-only projection of the delivered sequence is exactly
/// what the stdout reader pushed, in order, and likewise for stderr.
pub proof fn lemma_merge_preserves_stream_order(m: &ProcessIterator)
    requires
        m.queued().len() == 0,
    ensures
        stream_data(m.delivered(), true) == m.stdout_writes(),
        stream_data(m.delivered(), false) == m.stderr_writes(),
{
    assert(m.delivered() + m.queued() =~= m.delivered());
}

/// The spec-level effect of completing the pending line: a line that decodes
/// as UTF-8 joins the history of completed lines; one that does not is
/// dropped silently (lossy capture).
pub open spec fn completed(pending: Seq<u8>, history: Seq<Seq<char>>) -> Seq<Seq<char>> {
    if valid_utf8(pending) {
        history.push(decode_utf8(pending))
    } else {
        history
    }
}

/// One byte of input: a newline (0x0A) completes the pending line, and is not
/// part of it; every other byte — carriage returns included — is kept
/// literally.
pub open spec fn feed_byte(pending: Seq<u8>, history: Seq<Seq<char>>, b: u8) -> (Seq<u8>, Seq<
    Seq<char>,
>) {
    if b == 10u8 {
        (Seq::empty(), completed(pending, history))
    } else {
        (pending.push(b), history)
    }
}

/// A run of bytes, folded in byte by byte.
pub open spec fn feed(pending: Seq<u8>, history: Seq<Seq<char>>, bytes: Seq<u8>) -> (Seq<u8>, Seq<
    Seq<char>,
>)
    decreases bytes.len(),
{
    if bytes.len() == 0 {
        (pending, history)
    } else {
        let stepped = feed_byte(pending, history, bytes[0]);
        feed(stepped.0, stepped.1, bytes.skip(1))
    }
}

/// The window of the `max` most recent lines of a history, oldest first.
pub open spec fn recent(history: Seq<Seq<char>>, max: nat) -> Seq<Seq<char>> {
    if history.len() <= max {
        history
    } else {
        history.skip(history.len() - max)
    }
}

/// End of stream: a non-empty unterminated remainder is flushed as one final
/// line (and, like any line, dropped when it is not valid UTF-8).
pub open spec fn flushed(pending: Seq<u8>, history: Seq<Seq<char>>) -> Seq<Seq<char>> {
    if pending.len() == 0 {
        history
    } else {
        completed(pending, history)
    }
}

/// Law: line reassembly is boundary-invariant. Bytes split into two chunks at
/// any boundary — mid-line included — leave the same pending remainder and
/// the same completed lines as the same bytes fed as one chunk.
pub proof fn lemma_feed_boundary_invariant(
    pending: Seq<u8>,
    history: Seq<Seq<char>>,
    a: Seq<u8>,
    b: Seq<u8>,
)
    ensures
        feed(pending, history, a + b) == feed(
            feed(pending, history, a).0,
            feed(pending, history, a).1,
            b,
        ),
    decreases a.len(),
{
    if a.len() == 0 {
        assert(a + b =~= b);
    } else {
        assert((a + b)[0] == a[0]);
        assert((a + b).skip(1) =~= a.skip(1) + b);
        let stepped = feed_byte(pending, history, a[0]);
        lemma_feed_boundary_invariant(stepped.0, stepped.1, a.skip(1), b);
    }
}

proof fn lemma_recent_push(h: Seq<Seq<char>>, l: Seq<char>, m: nat)
    ensures
        recent(h, m).len() < m ==> recent(h.push(l), m) == recent(h, m).push(l),
        recent(h, m).len() >= m ==> recent(h.push(l), m) == recent(h, m).push(l).skip(1),
{
    let r0 = recent(h, m);
    if h.len() <= m {
        if h.len() < m {
            assert(recent(h.push(l), m) =~= h.push(l));
        } else {
            if m == 0 {
                assert(recent(h.push(l), m) =~= r0.push(l).skip(1));
            } else {
                assert(recent(h.push(l), m) =~= r0.push(l).skip(1));
            }
        }
    } else {
        assert(r0.len() == m);
        assert(recent(h.push(l), m) =~= r0.push(l).skip(1));
    }
}

/// A bounded ring buffer of the most recent complete output lines.
///
/// Chunks of raw bytes go in; newline-delimited lines come out the far end,
/// the oldest evicted first once `max_lines` is exceeded. An unterminated
/// remainder stays pending across chunk boundaries until a newline or end of
/// stream completes it.
pub struct LineBuffer {
    max_lines: usize,
    lines: VecDeque<String>,
    pending: Vec<u8>,
    hist: Ghost<Seq<Seq<char>>>,
}

impl LineBuffer {
    pub closed spec fn max_spec(&self) -> usize {
        self.max_lines
    }

    /// The unterminated trailing bytes awaiting their newline.
    pub closed spec fn pending_spec(&self) -> Seq<u8> {
        self.pending@
    }

    /// Every line completed (and decodable) so far, oldest first.
    pub closed spec fn history(&self) -> Seq<Seq<char>> {
        self.hist@
    }

    /// The lines the buffer holds right now, oldest first.
    pub closed spec fn retained(&self) -> Seq<Seq<char>> {
        self.lines@.map_values(|s: String| s@)
    }

    /// The ring-buffer invariant: what is retained is exactly the window of
    /// the `max_lines` most recently completed lines, in chronological order.
    pub open spec fn wf(&self) -> bool {
        self.retained() == recent(self.history(), self.max_spec() as nat)
    }

    pub fn new(max_lines: usize) -> (r: LineBuffer)
        ensures
            r.wf(),
            r.max_spec() == max_lines,
            r.history() == Seq::<Seq<char>>::empty(),
            r.pending_spec() == Seq::<u8>::empty(),
    {
        let r = LineBuffer {
            max_lines,
            lines: VecDeque::new(),
            pending: Vec::new(),
            hist: Ghost(Seq::empty()),
        };
        proof {
            assert(r.retained() =~= Seq::<Seq<char>>::empty());
        }
        r
    }

    /// Append one completed line, evicting the oldest retained line when the
    /// buffer would otherwise exceed `max_lines`.
    fn push_line(&mut self, line: String)
        requires
            old(self).wf(),
        ensures
            final(self).wf(),
            final(self).max_spec() == old(self).max_spec(),
            final(self).pending_spec() == old(self).pending_spec(),
            final(self).history() == old(self).history().push(line@),
    {
        let ghost h = self.hist@;
        let ghost m = self.max_lines as nat;
        let ghost r0 = self.retained();
        let ghost lv = line@;
        self.lines.push_back(line);
        self.hist = Ghost(self.hist@.push(lv));
        proof {
            assert(self.lines@.map_values(|s: String| s@) =~= r0.push(lv));
            lemma_recent_push(h, lv, m);
        }
        if self.lines.len() > self.max_lines {
            let ghost rp = self.lines@.map_values(|s: String| s@);
            let _dropped = self.lines.pop_front();
            proof {
                assert(self.lines@.map_values(|s: String| s@) =~= rp.skip(1));
            }
        }
    }

    /// Feed one chunk's bytes. Newline-terminated segments complete lines;
    /// trailing bytes stay pending until a later chunk or end of stream
    /// completes them.
    pub fn append_chunk(&mut self, chunk: &Chunk)
        requires
            old(self).wf(),
        ensures
            final(self).wf(),
            final(self).max_spec() == old(self).max_spec(),
            final(self).pending_spec() == feed(
                old(self).pending_spec(),
                old(self).history(),
                chunk.data(),
            ).0,
            final(self).history() == feed(
                old(self).pending_spec(),
                old(self).history(),
                chunk.data(),
            ).1,
    {
        let bytes = chunk.bytes();
        let n = bytes.len();
        let ghost p0 = self.pending@;
        let ghost h0 = self.hist@;
        let mut i: usize = 0;
        while i < n
            invariant
                self.wf(),
                i <= n,
                n == chunk.data().len(),
                bytes@ == chunk.data(),
                self.max_spec() == old(self).max_spec(),
                self.pending@ == feed(p0, h0, chunk.data().take(i as int)).0,
                self.hist@ == feed(p0, h0, chunk.data().take(i as int)).1,
            decreases n - i,
        {
            let b = bytes[i];
            proof {
                let pre = chunk.data().take(i as int);
                let st = feed(p0, h0, pre);
                lemma_feed_boundary_invariant(p0, h0, pre, seq![b]);
                assert(chunk.data().take(i + 1) =~= pre + seq![b]);
                let stepped = feed_byte(st.0, st.1, b);
                assert(seq![b][0] == b);
                assert(seq![b].skip(1) =~= Seq::<u8>::empty());
                assert(feed(stepped.0, stepped.1, Seq::<u8>::empty()) == stepped);
                assert(feed(st.0, st.1, seq![b]) == stepped);
                assert(feed(p0, h0, chunk.data().take(i + 1)) == stepped);
            }
            if b == 10u8 {
                let mut taken: Vec<u8> = Vec::new();
                core::mem::swap(&mut taken, &mut self.pending);
                match utf8_to_string(taken) {
                    Some(line) => {
                        self.push_line(line);
                    },
                    None => {},
                }
            } else {
                self.pending.push(b);
            }
            i += 1;
        }
        proof {
            assert(chunk.data().take(n as int) =~= chunk.data());
        }
    }

    /// Consume the buffer: flush a non-empty unterminated remainder as one
    /// final line, then hand out the retained lines, oldest first.
    pub fn into_sequence(self) -> (r: Vec<String>)
        requires
            self.wf(),
        ensures
            r@.map_values(|s: String| s@) == recent(
                flushed(self.pending_spec(), self.history()),
                self.max_spec() as nat,
            ),
    {
        let mut buf = self;
        if buf.pending.len() > 0 {
            let mut taken: Vec<u8> = Vec::new();
            core::mem::swap(&mut taken, &mut buf.pending);
            match utf8_to_string(taken) {
                Some(line) => {
                    buf.push_line(line);
                },
                None => {},
            }
        }
        let ghost target = buf.lines@.map_values(|s: String| s@);
        proof {
            assert(target == recent(
                flushed(self.pending_spec(), self.history()),
                self.max_spec() as nat,
            ));
        }
        let mut out: Vec<String> = Vec::new();
        while buf.lines.len() > 0
            invariant
                out@.map_values(|s: String| s@) + buf.lines@.map_values(|s: String| s@) == target,
            decreases buf.lines@.len(),
        {
            let ghost rest = buf.lines@.map_values(|s: String| s@);
            let line = buf.lines.pop_front().unwrap();
            proof {
                assert(buf.lines@.map_values(|s: String| s@) =~= rest.skip(1));
                assert(rest[0] == line@);
            }
            out.push(line);
            proof {
                assert(out@.map_values(|s: String| s@) + buf.lines@.map_values(|s: String| s@)
                    =~= target);
            }
        }
        proof {
            assert(out@.map_values(|s: String| s@) =~= target);
        }
        out
    }
}

/// Law: a well-formed buffer never holds more than `max_lines` lines, and the
/// lines it retains are exactly the most recently completed ones, in
/// chronological order.
pub proof fn lemma_bounded_retention(b: &LineBuffer)
    requires
        b.wf(),
    ensures
        b.retained().len() <= b.max_spec(),
        b.retained() == recent(b.history(), b.max_spec() as nat),
{
}

} // verus!
