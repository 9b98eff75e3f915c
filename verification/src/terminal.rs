//! Terminal supervision: a registry of short-lived child processes with
//! bounded output capture.
//!
//! The registry and buffers are pure data, verified here. The shell owns
//! the OS process handles: it spawns a process when `create_terminal`
//! registers one, feeds captured lines to `append_chunk`, reports the
//! exit code through `record_exit`, sends the signal that `kill` asks
//! for, and polls `poll_exit` while waiting for an exit.
//!
//! Output discipline: appends are unbounded, but after every append the
//! buffer is cut from the front down to the byte ceiling, and the cut is
//! moved forward to the next character boundary so the retained text is
//! never split inside a multi-byte character.

use vstd::prelude::*;
use vstd::string::StrSliceExecFns;
use vstd::string::StringExecFns;
use vstd::utf8::encode_utf8;
use vstd::utf8::is_char_boundary;
use vstd::utf8::valid_utf8;

verus! {

/// Output ceiling used when a terminal is created without one.
pub const DEFAULT_MAX_OUTPUT_BYTES: usize = 1000000;

/// Failures reported to the caller; none of them panics the supervisor.
#[derive(Debug, Clone, PartialEq, Eq, Structural)]
pub enum TerminalError {
    /// No terminal with the given id is registered.
    NotFound,
}

/// `s` is a suffix of `t`.
pub open spec fn suffix_of(s: Seq<u8>, t: Seq<u8>) -> bool {
    s.len() <= t.len() && s == t.subrange(t.len() - s.len(), t.len() as int)
}

/// The first character boundary of `bytes` at or after `from`: the cut
/// point used when truncating a buffer from the front.
pub open spec fn truncation_point(bytes: Seq<u8>, from: int) -> int
    recommends
        valid_utf8(bytes),
        0 <= from <= bytes.len(),
    decreases bytes.len() - from,
    when 0 <= from <= bytes.len() && valid_utf8(bytes)
{
    if from >= bytes.len() {
        bytes.len() as int
    } else if is_char_boundary(bytes, from) {
        from
    } else {
        truncation_point(bytes, from + 1)
    }
}

/// `encode_utf8` distributes over concatenation of character sequences.
proof fn lemma_encode_utf8_concat(c1: Seq<char>, c2: Seq<char>)
    ensures
        encode_utf8(c1 + c2) == encode_utf8(c1) + encode_utf8(c2),
    decreases c1.len(),
{
    if c1.len() == 0 {
        assert(c1 + c2 =~= c2);
        assert(encode_utf8(c1 + c2) =~= encode_utf8(c1) + encode_utf8(c2));
    } else {
        lemma_encode_utf8_concat(c1.drop_first(), c2);
        assert((c1 + c2).drop_first() =~= c1.drop_first() + c2);
        assert((c1 + c2)[0] == c1[0]);
        assert(encode_utf8(c1 + c2) =~= encode_utf8(c1) + encode_utf8(c2));
    }
}

/// The truncation point lies between `from` and the end of the buffer,
/// and it is a character boundary.
pub proof fn lemma_truncation_point_in_range(bytes: Seq<u8>, from: int)
    requires
        valid_utf8(bytes),
        0 <= from <= bytes.len(),
    ensures
        from <= truncation_point(bytes, from) <= bytes.len(),
        is_char_boundary(bytes, truncation_point(bytes, from)),
    decreases bytes.len() - from,
{
    broadcast use vstd::utf8::is_char_boundary_start_end_of_seq;

    if !is_char_boundary(bytes, from) {
        lemma_truncation_point_in_range(bytes, from + 1);
    }
}

/// Suffixes compose: a suffix of a suffix is a suffix.
pub proof fn lemma_suffix_trans(s: Seq<u8>, t: Seq<u8>, u: Seq<u8>)
    requires
        suffix_of(s, t),
        suffix_of(t, u),
    ensures
        suffix_of(s, u),
{
    assert(s =~= u.subrange(u.len() - s.len(), u.len() as int));
}

/// Appending the same tail to a sequence and to one of its suffixes
/// keeps the suffix relation.
pub proof fn lemma_suffix_append(s: Seq<u8>, t: Seq<u8>, e: Seq<u8>)
    requires
        suffix_of(s, t),
    ensures
        suffix_of(s + e, t + e),
{
    assert(s + e =~= (t + e).subrange((t + e).len() - (s + e).len(), (t + e).len() as int));
}

/// How one append transforms a terminal: the buffer grows by `chunk`
/// and is then cut from the front at the first character boundary at or
/// past the naive cut point, so it stays within the ceiling; nothing
/// else changes.
pub open spec fn append_spec(t0: Terminal, chunk: Seq<char>, t1: Terminal) -> bool {
    let all = encode_utf8(t0.output@) + encode_utf8(chunk);
    let limit = t0.max_output_bytes as int;
    &&& t1.id == t0.id
    &&& t1.exit_status == t0.exit_status
    &&& t1.max_output_bytes == t0.max_output_bytes
    &&& all.len() <= limit ==> t1.output@ == t0.output@ + chunk
    &&& all.len() > limit ==> encode_utf8(t1.output@) == all.subrange(
        truncation_point(all, all.len() - limit),
        all.len() as int,
    )
    &&& encode_utf8(t1.output@).len() <= limit
    &&& suffix_of(encode_utf8(t1.output@), all)
}

/// Law: after any append the retained buffer is valid text and its byte
/// length never exceeds the terminal's ceiling.
pub proof fn lemma_append_keeps_buffer_bounded_text(t0: Terminal, chunk: Seq<char>, t1: Terminal)
    requires
        append_spec(t0, chunk, t1),
    ensures
        valid_utf8(encode_utf8(t1.output@)),
        encode_utf8(t1.output@).len() <= t0.max_output_bytes,
{
    broadcast use vstd::utf8::encode_utf8_valid_utf8;

}

/// Law: across consecutive appends the retained buffer is a suffix of
/// the terminal's true output, the concatenation of everything appended.
pub proof fn lemma_append_retains_suffix(
    t0: Terminal,
    c1: Seq<char>,
    t1: Terminal,
    c2: Seq<char>,
    t2: Terminal,
)
    requires
        append_spec(t0, c1, t1),
        append_spec(t1, c2, t2),
    ensures
        suffix_of(
            encode_utf8(t2.output@),
            encode_utf8(t0.output@) + encode_utf8(c1) + encode_utf8(c2),
        ),
{
    let b0 = encode_utf8(t0.output@);
    let b1 = encode_utf8(t1.output@);
    let b2 = encode_utf8(t2.output@);
    let e1 = encode_utf8(c1);
    let e2 = encode_utf8(c2);
    lemma_suffix_append(b1, b0 + e1, e2);
    assert((b0 + e1) + e2 =~= b0 + e1 + e2);
    lemma_suffix_trans(b2, b1 + e2, b0 + e1 + e2);
}

/// One supervised terminal: identity, bounded output buffer, and the
/// exit code once the watcher has recorded it. The OS process handle
/// itself lives in the shell, keyed by `id`.
#[derive(Debug)]
pub struct Terminal {
    pub id: u64,
    pub output: String,
    pub exit_status: Option<i32>,
    pub max_output_bytes: usize,
}

impl Terminal {
    pub fn new(id: u64, max_output_bytes: usize) -> (r: Terminal)
        ensures
            r.id == id,
            r.output@ == Seq::<char>::empty(),
            r.exit_status is None,
            r.max_output_bytes == max_output_bytes,
    {
        Terminal { id, output: String::new(), exit_status: None, max_output_bytes }
    }

    /// Append captured output, then truncate from the front to the
    /// ceiling without splitting a multi-byte character.
    pub fn append_output(&mut self, chunk: &str)
        requires
            encode_utf8(old(self).output@).len() + encode_utf8(chunk@).len() <= usize::MAX,
        ensures
            append_spec(*old(self), chunk@, *final(self)),
    {
        proof {
            lemma_encode_utf8_concat(self.output@, chunk@);
        }
        let ghost all = encode_utf8(self.output@) + encode_utf8(chunk@);
        self.output.append(chunk);
        proof {
            broadcast use vstd::utf8::encode_utf8_valid_utf8;

            assert(encode_utf8(self.output@) == all);
        }
        let len = self.output.as_str().len();
        if len > self.max_output_bytes {
            let excess = len - self.max_output_bytes;
            let mut cut = excess;
            while cut < len && !self.output.as_str().is_char_boundary(cut)
                invariant
                    excess <= cut <= len,
                    len == all.len(),
                    valid_utf8(all),
                    encode_utf8(self.output@) == all,
                    truncation_point(all, excess as int) == truncation_point(all, cut as int),
                decreases len - cut,
            {
                proof {
                    assert(truncation_point(all, cut as int) == truncation_point(
                        all,
                        cut as int + 1,
                    ));
                }
                cut = cut + 1;
            }
            proof {
                broadcast use vstd::utf8::is_char_boundary_start_end_of_seq;

                assert(is_char_boundary(all, cut as int));
                assert(truncation_point(all, cut as int) == cut as int);
            }
            let tail = {
                let parts = self.output.as_str().split_at(cut);
                parts.1.to_owned()
            };
            self.output = tail;
            proof {
                assert(encode_utf8(self.output@) == all.subrange(cut as int, all.len() as int));
                let b = encode_utf8(self.output@);
                assert(b =~= all.subrange(all.len() - b.len(), all.len() as int));
            }
        } else {
            proof {
                let b = encode_utf8(self.output@);
                assert(b =~= all.subrange(all.len() - b.len(), all.len() as int));
            }
        }
    }
}

/// Registry of supervised terminals, keyed by the ids it issues.
pub struct TerminalManager {
    terminals: Vec<Terminal>,
    next_id: u64,
}

impl TerminalManager {
    /// Registered terminals have distinct ids below the id counter, and
    /// every buffer respects its own ceiling.
    pub closed spec fn wf(&self) -> bool {
        &&& forall|i: int, j: int|
            0 <= i < j < self.terminals@.len() ==> self.terminals@[i].id != self.terminals@[j].id
        &&& forall|i: int|
            0 <= i < self.terminals@.len() ==> (#[trigger] self.terminals@[i]).id < self.next_id
        &&& forall|i: int|
            0 <= i < self.terminals@.len() ==> encode_utf8(
                (#[trigger] self.terminals@[i]).output@,
            ).len() <= self.terminals@[i].max_output_bytes
    }

    /// The id the next created terminal will get.
    pub closed spec fn spec_next_id(&self) -> u64 {
        self.next_id
    }

    /// A terminal with this id is registered.
    pub closed spec fn spec_has(&self, id: u64) -> bool {
        exists|i: int| 0 <= i < self.terminals@.len() && (#[trigger] self.terminals@[i]).id == id
    }

    spec fn spec_index_of(&self, id: u64) -> int {
        choose|i: int| 0 <= i < self.terminals@.len() && (#[trigger] self.terminals@[i]).id == id
    }

    /// The registered terminal with this id.
    pub closed spec fn spec_get(&self, id: u64) -> Terminal
        recommends
            self.spec_has(id),
    {
        self.terminals@[self.spec_index_of(id)]
    }

    /// Under `wf`, any position holding `id` is the position `spec_get` reads.
    proof fn lemma_get_at(&self, i: int)
        requires
            self.wf(),
            0 <= i < self.terminals@.len(),
        ensures
            self.spec_has(self.terminals@[i].id),
            self.spec_index_of(self.terminals@[i].id) == i,
            self.spec_get(self.terminals@[i].id) == self.terminals@[i],
    {
        let id = self.terminals@[i].id;
        assert(self.spec_has(id));
        let j = self.spec_index_of(id);
        assert(0 <= j < self.terminals@.len() && self.terminals@[j].id == id);
    }

    pub fn new() -> (r: TerminalManager)
        ensures
            r.wf(),
            r.spec_next_id() == 1,
            forall|id: u64| !r.spec_has(id),
    {
        TerminalManager { terminals: Vec::new(), next_id: 1 }
    }

    fn index_of(&self, id: u64) -> (r: Option<usize>)
        ensures
            match r {
                Some(i) => i < self.terminals@.len() && self.terminals@[i as int].id == id
                    && self.spec_has(id),
                None => !self.spec_has(id),
            },
    {
        let n = self.terminals.len();
        let mut i: usize = 0;
        while i < n
            invariant
                i <= n,
                n == self.terminals@.len(),
                forall|j: int| 0 <= j < i ==> (#[trigger] self.terminals@[j]).id != id,
            decreases n - i,
        {
            if self.terminals[i].id == id {
                return Some(i);
            }
            i = i + 1;
        }
        None
    }

    /// Register a new terminal and issue its id; the shell then spawns
    /// the process under that id. The ceiling defaults when unspecified.
    pub fn create_terminal(&mut self, max_output_bytes: Option<usize>) -> (r: u64)
        requires
            old(self).wf(),
            old(self).spec_next_id() < u64::MAX,
        ensures
            final(self).wf(),
            final(self).spec_next_id() == old(self).spec_next_id() + 1,
            !old(self).spec_has(r),
            final(self).spec_has(r),
            final(self).spec_get(r).id == r,
            final(self).spec_get(r).output@ == Seq::<char>::empty(),
            final(self).spec_get(r).exit_status is None,
            final(self).spec_get(r).max_output_bytes == (match max_output_bytes {
                Some(m) => m,
                None => DEFAULT_MAX_OUTPUT_BYTES,
            }),
            forall|k: u64| k != r ==> final(self).spec_has(k) == old(self).spec_has(k),
            forall|k: u64|
                k != r && old(self).spec_has(k) ==> final(self).spec_get(k) == old(self).spec_get(
                    k,
                ),
    {
        let id = self.next_id;
        let limit = match max_output_bytes {
            Some(m) => m,
            None => DEFAULT_MAX_OUTPUT_BYTES,
        };
        let t = Terminal::new(id, limit);
        self.next_id = self.next_id + 1;
        self.terminals.push(t);
        proof {
            let oldv = old(self).terminals@;
            let newv = self.terminals@;
            assert(forall|j: int| 0 <= j < oldv.len() ==> newv[j] == oldv[j]);
            assert(encode_utf8(Seq::<char>::empty()).len() == 0);
            self.lemma_get_at(oldv.len() as int);
            assert forall|k: u64| k != id && old(self).spec_has(k) implies final(self).spec_has(k)
                && final(self).spec_get(k) == old(self).spec_get(k) by {
                let i = old(self).spec_index_of(k);
                assert(0 <= i < oldv.len() && oldv[i].id == k);
                old(self).lemma_get_at(i);
                self.lemma_get_at(i);
            }
            assert forall|k: u64| k != id && final(self).spec_has(k) implies old(self).spec_has(
                k,
            ) by {
                let i = self.spec_index_of(k);
                assert(0 <= i < newv.len() && newv[i].id == k);
                assert(i < oldv.len());
            }
        }
        id
    }

    /// Append a chunk of captured output to the given terminal's buffer.
    pub fn append_chunk(&mut self, id: u64, chunk: &str) -> (r: Result<(), TerminalError>)
        requires
            old(self).wf(),
            old(self).spec_has(id) ==> encode_utf8(old(self).spec_get(id).output@).len()
                + encode_utf8(chunk@).len() <= usize::MAX,
        ensures
            final(self).wf(),
            final(self).spec_next_id() == old(self).spec_next_id(),
            r is Ok <==> old(self).spec_has(id),
            r is Err ==> *final(self) == *old(self),
            forall|k: u64| final(self).spec_has(k) == old(self).spec_has(k),
            forall|k: u64|
                k != id && old(self).spec_has(k) ==> final(self).spec_get(k) == old(self).spec_get(k),
            r is Ok ==> append_spec(old(self).spec_get(id), chunk@, final(self).spec_get(id)),
    {
        match self.index_of(id) {
            Some(i) => {
                proof {
                    old(self).lemma_get_at(i as int);
                }
                let t = &mut self.terminals[i];
                t.append_output(chunk);
                proof {
                    let oldv = old(self).terminals@;
                    let newv = self.terminals@;
                    assert(newv == oldv.update(i as int, newv[i as int]));
                    self.lemma_get_at(i as int);
                    assert forall|k: u64| final(self).spec_has(k) == old(self).spec_has(k) by {
                        if old(self).spec_has(k) {
                            let j = old(self).spec_index_of(k);
                            assert(0 <= j < oldv.len() && oldv[j].id == k);
                            assert(newv[j].id == k);
                        }
                        if final(self).spec_has(k) {
                            let j = self.spec_index_of(k);
                            assert(0 <= j < newv.len() && newv[j].id == k);
                            assert(oldv[j].id == k);
                        }
                    }
                    assert forall|k: u64| k != id && old(self).spec_has(k) implies final(self).spec_get(k) == old(self).spec_get(k) by {
                        let j = old(self).spec_index_of(k);
                        assert(0 <= j < oldv.len() && oldv[j].id == k);
                        assert(j != i);
                        old(self).lemma_get_at(j);
                        self.lemma_get_at(j);
                    }
                }
                Ok(())
            },
            None => Err(TerminalError::NotFound),
        }
    }

    /// Record the exit code observed by the exit watcher.
    pub fn record_exit(&mut self, id: u64, code: i32) -> (r: Result<(), TerminalError>)
        requires
            old(self).wf(),
        ensures
            final(self).wf(),
            final(self).spec_next_id() == old(self).spec_next_id(),
            r is Ok <==> old(self).spec_has(id),
            r is Err ==> *final(self) == *old(self),
            forall|k: u64| final(self).spec_has(k) == old(self).spec_has(k),
            forall|k: u64|
                k != id && old(self).spec_has(k) ==> final(self).spec_get(k) == old(self).spec_get(k),
            r is Ok ==> final(self).spec_get(id) == (Terminal {
                exit_status: Some(code),
                ..old(self).spec_get(id)
            }),
    {
        match self.index_of(id) {
            Some(i) => {
                proof {
                    old(self).lemma_get_at(i as int);
                }
                let t = &mut self.terminals[i];
                t.exit_status = Some(code);
                proof {
                    let oldv = old(self).terminals@;
                    let newv = self.terminals@;
                    self.lemma_get_at(i as int);
                    assert forall|k: u64| final(self).spec_has(k) == old(self).spec_has(k) by {
                        if old(self).spec_has(k) {
                            let j = old(self).spec_index_of(k);
                            assert(0 <= j < oldv.len() && oldv[j].id == k);
                            assert(newv[j].id == k);
                        }
                        if final(self).spec_has(k) {
                            let j = self.spec_index_of(k);
                            assert(0 <= j < newv.len() && newv[j].id == k);
                            assert(oldv[j].id == k);
                        }
                    }
                    assert forall|k: u64| k != id && old(self).spec_has(k) implies final(self).spec_get(k) == old(self).spec_get(k) by {
                        let j = old(self).spec_index_of(k);
                        assert(0 <= j < oldv.len() && oldv[j].id == k);
                        assert(j != i);
                        old(self).lemma_get_at(j);
                        self.lemma_get_at(j);
                    }
                }
                Ok(())
            },
            None => Err(TerminalError::NotFound),
        }
    }

    /// Current buffer contents and the exit code if known; never blocks.
    pub fn get_output(&self, id: u64) -> (r: Result<(String, Option<i32>), TerminalError>)
        requires
            self.wf(),
        ensures
            r is Ok <==> self.spec_has(id),
            r matches Ok(out) ==> out.0@ == self.spec_get(id).output@ && out.1 == self.spec_get(
                id,
            ).exit_status,
    {
        match self.index_of(id) {
            Some(i) => {
                proof {
                    self.lemma_get_at(i as int);
                }
                let t = &self.terminals[i];
                Ok((t.output.clone(), t.exit_status))
            },
            None => Err(TerminalError::NotFound),
        }
    }

    /// Decide a kill request: `Ok(true)` when the shell should signal the
    /// OS process (the terminal is registered and has not exited yet).
    /// Killing never removes the terminal from the registry.
    pub fn kill(&self, id: u64) -> (r: Result<bool, TerminalError>)
        requires
            self.wf(),
        ensures
            r is Ok <==> self.spec_has(id),
            r matches Ok(signal) ==> signal == (self.spec_get(id).exit_status is None),
    {
        match self.index_of(id) {
            Some(i) => {
                proof {
                    self.lemma_get_at(i as int);
                }
                Ok(self.terminals[i].exit_status.is_none())
            },
            None => Err(TerminalError::NotFound),
        }
    }

    /// Remove the terminal and its buffer from the registry. The OS
    /// process is not stopped as a side effect: callers must kill first
    /// if they want a hard stop. Removing an absent id is a no-op.
    pub fn release(&mut self, id: u64) -> (r: Result<(), TerminalError>)
        requires
            old(self).wf(),
        ensures
            final(self).wf(),
            final(self).spec_next_id() == old(self).spec_next_id(),
            r is Ok,
            !final(self).spec_has(id),
            forall|k: u64| k != id ==> final(self).spec_has(k) == old(self).spec_has(k),
            forall|k: u64|
                k != id && old(self).spec_has(k) ==> final(self).spec_get(k) == old(self).spec_get(k),
    {
        match self.index_of(id) {
            Some(i) => {
                let _removed = self.terminals.remove(i);
                proof {
                    let oldv = old(self).terminals@;
                    let newv = self.terminals@;
                    assert(newv == oldv.remove(i as int));
                    assert forall|k: u64| k != id && old(self).spec_has(k) implies final(self).spec_has(k) && final(self).spec_get(k) == old(self).spec_get(k) by {
                        let j = old(self).spec_index_of(k);
                        assert(0 <= j < oldv.len() && oldv[j].id == k);
                        assert(j != i);
                        old(self).lemma_get_at(j);
                        if j < i {
                            assert(newv[j] == oldv[j]);
                            self.lemma_get_at(j);
                        } else {
                            assert(newv[j - 1] == oldv[j]);
                            self.lemma_get_at(j - 1);
                        }
                    }
                    assert forall|k: u64| k != id && final(self).spec_has(k) implies old(self).spec_has(k) by {
                        let j = self.spec_index_of(k);
                        assert(0 <= j < newv.len() && newv[j].id == k);
                        if j < i {
                            assert(oldv[j].id == k);
                        } else {
                            assert(oldv[j + 1].id == k);
                        }
                    }
                    assert forall|j: int| 0 <= j < newv.len() implies newv[j].id != id by {
                        if j < i {
                            assert(newv[j] == oldv[j]);
                        } else {
                            assert(newv[j] == oldv[j + 1]);
                        }
                    }
                }
                Ok(())
            },
            None => Ok(()),
        }
    }

    /// The exit code if the exit watcher has recorded one; the shell
    /// polls this while waiting for an exit, without blocking anything.
    pub fn poll_exit(&self, id: u64) -> (r: Result<Option<i32>, TerminalError>)
        requires
            self.wf(),
        ensures
            r is Ok <==> self.spec_has(id),
            r matches Ok(code) ==> code == self.spec_get(id).exit_status,
    {
        match self.index_of(id) {
            Some(i) => {
                proof {
                    self.lemma_get_at(i as int);
                }
                Ok(self.terminals[i].exit_status)
            },
            None => Err(TerminalError::NotFound),
        }
    }
}

} // verus!
