//! The decoding session: a byte buffer, the behaviour flags, and the
//! polling operations that turn buffered bytes into events.

use vstd::prelude::*;

use crate::decode::spec_peek;
use crate::decode::Peek;
use crate::decode::PeekRes;
use crate::event::desc_matches;
use crate::event::spec_canon;
use crate::event::TermKeyResult;
use crate::event::ERRNO_STOPPED;
use crate::event::KeyDesc;
use crate::flags::FLAG_SPACESYMBOL;
use crate::flags::CANON_SPACESYMBOL;
use crate::flags::X_TermKey_Canon;
use crate::flags::X_TermKey_Flag;
use crate::keysym::TermKeySym;

verus! {

/// The buffer capacity a fresh session starts with.
pub const DEFAULT_BUFFER_SIZE: usize = 256;

/// The wait-time hint, in milliseconds, a fresh session starts with.
pub const DEFAULT_WAITTIME: i32 = 50;

/// What one forced decode step yields: an ambiguous prefix is resolved
/// without more bytes, a pending ESC as the Escape key and a truncated
/// UTF-8 sequence as the replacement character.
pub open spec fn spec_peek_force(b: Seq<u8>, flags: X_TermKey_Flag) -> Peek {
    match spec_peek(b, flags) {
        Peek::PeekAgain => {
            if b.len() > 0 && b[0] == 0x1B {
                Peek::PeekKey(
                    KeyDesc::DescKeySym { sym: TermKeySym::TERMKEY_SYM_ESCAPE, mods: 0 },
                    1,
                )
            } else {
                Peek::PeekKey(crate::decode::spec_emit(0xFFFD, flags, 0), b.len() as int)
            }
        },
        p => p,
    }
}

/// A terminal input decoding session.
///
/// It owns the buffer of not yet decoded bytes and the flag state; it
/// never performs I/O itself.  Bytes enter through `push_bytes` and
/// come back out as events through `getkey` and `getkey_force`.
pub struct TermKey {
    buf: Vec<u8>,
    size: usize,
    flags: X_TermKey_Flag,
    canonflags: X_TermKey_Canon,
    waittime: i32,
    started: bool,
}

impl TermKey {
    /// The bytes pushed but not yet consumed by a decoded event.
    pub closed spec fn buffer(self) -> Seq<u8> {
        self.buf@
    }

    /// The buffer capacity.
    pub closed spec fn bufsize(self) -> int {
        self.size as int
    }

    /// The behaviour flags in effect.
    pub closed spec fn spec_flags(self) -> X_TermKey_Flag {
        self.flags
    }

    /// The canonicalization flags in effect.
    pub closed spec fn spec_canonflags(self) -> X_TermKey_Canon {
        self.canonflags
    }

    /// The advisory wait time in milliseconds.
    pub closed spec fn spec_waittime(self) -> i32 {
        self.waittime
    }

    /// Whether the session is started; a stopped session refuses to
    /// decode.
    pub closed spec fn spec_started(self) -> bool {
        self.started
    }

    /// The session invariant: the buffered bytes fit the capacity.
    pub open spec fn wf(self) -> bool {
        self.buffer().len() <= self.bufsize()
    }

    /// Everything but the byte buffer is unchanged.
    pub open spec fn same_config(self, other: TermKey) -> bool {
        &&& self.bufsize() == other.bufsize()
        &&& self.spec_flags() == other.spec_flags()
        &&& self.spec_canonflags() == other.spec_canonflags()
        &&& self.spec_waittime() == other.spec_waittime()
        &&& self.spec_started() == other.spec_started()
    }

    /// Opens a session for an abstract terminal: no file descriptor is
    /// read, bytes arrive only through `push_bytes`.  The terminal name
    /// is kept only for compatibility; decoding is driven by the flags.
    /// The SPACESYMBOL behaviour flag also sets the matching canonical
    /// flag, as `set_flags` does.
    pub fn new_abstract(term: &str, flags: X_TermKey_Flag) -> (tk: TermKey)
        ensures
            tk.wf(),
            tk.buffer().len() == 0,
            tk.bufsize() == DEFAULT_BUFFER_SIZE,
            tk.spec_flags() == flags,
            tk.spec_canonflags().bits == (if flags.bits & FLAG_SPACESYMBOL != 0 {
                CANON_SPACESYMBOL as u16
            } else {
                0u16
            }),
            tk.spec_waittime() == DEFAULT_WAITTIME,
            tk.spec_started(),
    {
        let _ = term;
        let canonflags = if flags.bits & FLAG_SPACESYMBOL != 0 {
            X_TermKey_Canon { bits: CANON_SPACESYMBOL }
        } else {
            X_TermKey_Canon { bits: 0 }
        };
        TermKey {
            buf: Vec::new(),
            size: DEFAULT_BUFFER_SIZE,
            flags,
            canonflags,
            waittime: DEFAULT_WAITTIME,
            started: true,
        }
    }

    /// Resumes a stopped session.
    pub fn start(&mut self)
        ensures
            final(self).spec_started(),
            final(self).buffer() == old(self).buffer(),
            final(self).bufsize() == old(self).bufsize(),
            final(self).spec_flags() == old(self).spec_flags(),
            final(self).spec_canonflags() == old(self).spec_canonflags(),
            final(self).spec_waittime() == old(self).spec_waittime(),
    {
        self.started = true;
    }

    /// Stops the session: until restarted, every decode call reports a
    /// fixed error instead of events.
    pub fn stop(&mut self)
        ensures
            !final(self).spec_started(),
            final(self).buffer() == old(self).buffer(),
            final(self).bufsize() == old(self).bufsize(),
            final(self).spec_flags() == old(self).spec_flags(),
            final(self).spec_canonflags() == old(self).spec_canonflags(),
            final(self).spec_waittime() == old(self).spec_waittime(),
    {
        self.started = false;
    }

    /// Whether the session is started.
    pub fn is_started(&mut self) -> (r: bool)
        ensures
            r == final(self).spec_started(),
            *final(self) == *old(self),
    {
        self.started
    }

    /// The behaviour flags in effect.
    pub fn get_flags(&mut self) -> (r: X_TermKey_Flag)
        ensures
            r == final(self).spec_flags(),
            *final(self) == *old(self),
    {
        self.flags
    }

    /// Replaces the behaviour flags; the SPACESYMBOL behaviour flag
    /// also sets or clears the matching canonical flag.
    pub fn set_flags(&mut self, newflags: X_TermKey_Flag)
        ensures
            final(self).spec_flags() == newflags,
            final(self).spec_canonflags().bits == (if newflags.bits & FLAG_SPACESYMBOL != 0 {
                old(self).spec_canonflags().bits | CANON_SPACESYMBOL
            } else {
                old(self).spec_canonflags().bits & !CANON_SPACESYMBOL
            }),
            final(self).buffer() == old(self).buffer(),
            final(self).bufsize() == old(self).bufsize(),
            final(self).spec_waittime() == old(self).spec_waittime(),
            final(self).spec_started() == old(self).spec_started(),
    {
        self.flags = newflags;
        if newflags.bits & FLAG_SPACESYMBOL != 0 {
            self.canonflags = X_TermKey_Canon { bits: self.canonflags.bits | CANON_SPACESYMBOL };
        } else {
            self.canonflags = X_TermKey_Canon { bits: self.canonflags.bits & !CANON_SPACESYMBOL };
        }
    }

    /// The advisory wait time in milliseconds.
    pub fn get_waittime(&mut self) -> (r: i32)
        ensures
            r == final(self).spec_waittime(),
            *final(self) == *old(self),
    {
        self.waittime
    }

    /// Sets the advisory wait time in milliseconds.
    pub fn set_waittime(&mut self, msec: i32)
        ensures
            final(self).spec_waittime() == msec,
            final(self).buffer() == old(self).buffer(),
            final(self).bufsize() == old(self).bufsize(),
            final(self).spec_flags() == old(self).spec_flags(),
            final(self).spec_canonflags() == old(self).spec_canonflags(),
            final(self).spec_started() == old(self).spec_started(),
    {
        self.waittime = msec;
    }

    /// The canonicalization flags in effect.
    pub fn get_canonflags(&mut self) -> (r: X_TermKey_Canon)
        ensures
            r == final(self).spec_canonflags(),
            *final(self) == *old(self),
    {
        self.canonflags
    }

    /// Sets the canonicalization flags.
    pub fn set_canonflags(&mut self, cflags: X_TermKey_Canon)
        ensures
            final(self).spec_canonflags() == cflags,
            final(self).buffer() == old(self).buffer(),
            final(self).bufsize() == old(self).bufsize(),
            final(self).spec_flags() == old(self).spec_flags(),
            final(self).spec_waittime() == old(self).spec_waittime(),
            final(self).spec_started() == old(self).spec_started(),
    {
        self.canonflags = cflags;
    }

    /// The buffer capacity in bytes.
    pub fn get_buffer_size(&mut self) -> (r: usize)
        ensures
            r == final(self).bufsize(),
            *final(self) == *old(self),
    {
        self.size
    }

    /// Resizes the buffer.  Returns nonzero on success; a size that
    /// would truncate buffered bytes is refused and nothing changes.
    pub fn set_buffer_size(&mut self, size: usize) -> (r: i32)
        requires
            old(self).wf(),
        ensures
            final(self).wf(),
            r != 0 <==> size >= old(self).buffer().len(),
            r != 0 ==> final(self).bufsize() == size,
            r == 0 ==> final(self).bufsize() == old(self).bufsize(),
            final(self).buffer() == old(self).buffer(),
            final(self).spec_flags() == old(self).spec_flags(),
            final(self).spec_canonflags() == old(self).spec_canonflags(),
            final(self).spec_waittime() == old(self).spec_waittime(),
            final(self).spec_started() == old(self).spec_started(),
    {
        if size >= self.buf.len() {
            self.size = size;
            1
        } else {
            0
        }
    }

    /// The free space left in the buffer.
    pub fn get_buffer_remaining(&mut self) -> (r: usize)
        requires
            old(self).wf(),
        ensures
            r == final(self).bufsize() - final(self).buffer().len(),
            *final(self) == *old(self),
    {
        self.size - self.buf.len()
    }

    /// Accepts as many of the given bytes as fit in the buffer's free
    /// space and returns how many were taken; it never blocks and
    /// never drops buffered bytes.
    pub fn push_bytes(&mut self, bytes: &[u8]) -> (accepted: usize)
        requires
            old(self).wf(),
        ensures
            final(self).wf(),
            old(self).same_config(*final(self)),
            accepted == if bytes@.len() <= old(self).bufsize() - old(self).buffer().len() {
                bytes@.len() as int
            } else {
                old(self).bufsize() - old(self).buffer().len()
            },
            final(self).buffer() == old(self).buffer() + bytes@.take(accepted as int),
    {
        let free = self.size - self.buf.len();
        let accepted: usize = if bytes.len() <= free {
            bytes.len()
        } else {
            free
        };
        let mut i: usize = 0;
        while i < accepted
            invariant
                i <= accepted,
                accepted <= bytes@.len(),
                old(self).buffer().len() + accepted <= old(self).bufsize(),
                self.buf@ == old(self).buffer() + bytes@.take(i as int),
                self.size == old(self).size,
                self.flags == old(self).flags,
                self.canonflags == old(self).canonflags,
                self.waittime == old(self).waittime,
                self.started == old(self).started,
            decreases accepted - i,
        {
            self.buf.push(bytes[i]);
            proof {
                assert(old(self).buffer() + bytes@.take(i + 1) =~= (old(self).buffer()
                    + bytes@.take(i as int)).push(bytes@[i as int]));
            }
            i += 1;
        }
        accepted
    }

    /// Removes the first `n` buffered bytes.
    fn consume(&mut self, n: usize)
        requires
            n <= old(self).buffer().len(),
        ensures
            old(self).same_config(*final(self)),
            final(self).buffer() == old(self).buffer().skip(n as int),
    {
        let rest = self.buf.split_off(n);
        self.buf = rest;
    }

    /// Polls for the next completely decoded event.  On a stopped
    /// session it reports a fixed error.  Otherwise the result and the
    /// consumed bytes are exactly what the recognizer model `spec_peek`
    /// says for the buffered bytes, with canonicalization applied to
    /// the decoded key:
    /// `None_` on an empty buffer, `Again` on an ambiguous prefix, and
    /// the decoded key otherwise.
    pub fn getkey(&mut self) -> (r: TermKeyResult)
        requires
            old(self).wf(),
        ensures
            final(self).wf(),
            old(self).same_config(*final(self)),
            !old(self).spec_started() ==> (r matches TermKeyResult::Error { errno }
                && errno == ERRNO_STOPPED && final(self).buffer() == old(self).buffer()),
            old(self).spec_started() ==> match spec_peek(
                old(self).buffer(),
                old(self).spec_flags(),
            ) {
                Peek::PeekNone => r is None_ && final(self).buffer() == old(self).buffer(),
                Peek::PeekAgain => r is Again && final(self).buffer() == old(self).buffer(),
                Peek::PeekKey(d, n) => {
                    &&& r matches TermKeyResult::Key(k)
                    &&& desc_matches(k, spec_canon(d, old(self).spec_canonflags()))
                    &&& final(self).buffer() == old(self).buffer().skip(n)
                },
            },
    {
        if !self.started {
            return TermKeyResult::Error { errno: ERRNO_STOPPED };
        }
        proof {
            crate::decode::lemma_peek_wf(self.buf@, self.flags);
        }
        match crate::decode::peek_buffer(&self.buf, self.flags) {
            PeekRes::RNone => TermKeyResult::None_,
            PeekRes::RAgain => TermKeyResult::Again,
            PeekRes::RKey(d, n) => {
                let cd = crate::event::canon_desc(d, self.canonflags);
                let k = crate::event::desc_to_event(cd);
                self.consume(n);
                TermKeyResult::Key(k)
            },
        }
    }

    /// Polls like `getkey`, but resolves an ambiguous prefix instead
    /// of asking for more bytes: a pending ESC is consumed as the
    /// Escape key and a truncated UTF-8 sequence as the replacement
    /// character, as the model `spec_peek_force` says.  Forcing a lone
    /// Escape never fails.
    pub fn getkey_force(&mut self) -> (r: TermKeyResult)
        requires
            old(self).wf(),
        ensures
            final(self).wf(),
            old(self).same_config(*final(self)),
            !old(self).spec_started() ==> (r matches TermKeyResult::Error { errno }
                && errno == ERRNO_STOPPED && final(self).buffer() == old(self).buffer()),
            old(self).spec_started() ==> match spec_peek_force(
                old(self).buffer(),
                old(self).spec_flags(),
            ) {
                Peek::PeekNone => r is None_ && final(self).buffer() == old(self).buffer(),
                Peek::PeekAgain => r is Again && final(self).buffer() == old(self).buffer(),
                Peek::PeekKey(d, n) => {
                    &&& r matches TermKeyResult::Key(k)
                    &&& desc_matches(k, spec_canon(d, old(self).spec_canonflags()))
                    &&& final(self).buffer() == old(self).buffer().skip(n)
                },
            },
    {
        if !self.started {
            return TermKeyResult::Error { errno: ERRNO_STOPPED };
        }
        proof {
            crate::decode::lemma_peek_wf(self.buf@, self.flags);
        }
        match crate::decode::peek_buffer(&self.buf, self.flags) {
            PeekRes::RNone => TermKeyResult::None_,
            PeekRes::RAgain => {
                if self.buf.len() > 0 && self.buf[0] == 0x1B {
                    let cd = crate::event::canon_desc(
                        KeyDesc::DescKeySym { sym: TermKeySym::TERMKEY_SYM_ESCAPE, mods: 0 },
                        self.canonflags,
                    );
                    let k = crate::event::desc_to_event(cd);
                    self.consume(1);
                    TermKeyResult::Key(k)
                } else {
                    let d = crate::decode::emit_codepoint(0xFFFD, self.flags, 0);
                    let cd = crate::event::canon_desc(d, self.canonflags);
                    let k = crate::event::desc_to_event(cd);
                    let n = self.buf.len();
                    self.consume(n);
                    TermKeyResult::Key(k)
                }
            },
            PeekRes::RKey(d, n) => {
                let cd = crate::event::canon_desc(d, self.canonflags);
                let k = crate::event::desc_to_event(cd);
                self.consume(n);
                TermKeyResult::Key(k)
            },
        }
    }

    /// Acknowledges that more bytes are available on the underlying
    /// source without reading them: the caller should push them and
    /// poll again.  It never yields an event; on a stopped session it
    /// reports the fixed error.
    pub fn advisereadable(&mut self) -> (r: TermKeyResult)
        ensures
            *final(self) == *old(self),
            !old(self).spec_started() ==> (r matches TermKeyResult::Error { errno } && errno
                == ERRNO_STOPPED),
            old(self).spec_started() ==> r is Again,
    {
        if !self.started {
            TermKeyResult::Error { errno: ERRNO_STOPPED }
        } else {
            TermKeyResult::Again
        }
    }

    /// Applies the configured canonicalization to an event
    /// description.
    pub fn canonicalise(&mut self, d: KeyDesc) -> (r: KeyDesc)
        ensures
            *final(self) == *old(self),
            r == spec_canon(d, old(self).spec_canonflags()),
    {
        crate::event::canon_desc(d, self.canonflags)
    }
}

} // verus!
