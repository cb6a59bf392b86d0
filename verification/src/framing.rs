//! Line framing over the serial byte stream: bytes arrive in arbitrary
//! chunks, complete lines (terminated by a line feed) are handed to the codec
//! in arrival order, decode failures are counted and swallowed, and the
//! pending unterminated tail is capped so that a device that never sends a
//! line feed cannot grow the accumulator without bound.  Once the cap is hit
//! the overlong line is discarded: the accumulator drops bytes until the next
//! line feed and then resumes framing.

use crate::codec;
use crate::types::PotentiometerData;
use vstd::prelude::*;

verus! {

/// Most bytes an unterminated line may hold before it is discarded.
pub const MAX_PENDING: usize = 1024;

/// The accumulator's state as a value: the pending unterminated bytes,
/// whether it is discarding an overlong line, and how many lines failed to
/// decode (or were discarded as overlong).
pub ghost struct AccState {
    pub pending: Seq<u8>,
    pub skipping: bool,
    pub failures: u64,
}

impl AccState {
    /// The pending tail never exceeds the cap, and while discarding there is
    /// no pending tail.
    pub open spec fn inv(self) -> bool {
        self.pending.len() <= MAX_PENDING && (self.skipping ==> self.pending.len() == 0)
    }
}

/// What the codec accepts, as a value: the sample for a line that matches the
/// wire shape with fields in range, nothing otherwise.
pub open spec fn spec_decode(line: Seq<u8>) -> Option<PotentiometerData> {
    match codec::parse_line(line) {
        Some(v) => if v.0 <= codec::MAX_FIELD_VALUE && v.1 <= codec::MAX_FIELD_VALUE && v.2
            <= codec::MAX_FIELD_VALUE {
            Some(PotentiometerData { pot1: v.0 as u16, pot2: v.1 as u16, pot3: v.2 as u16 })
        } else {
            None
        },
        None => None,
    }
}

/// The failure counter after one more failure; it saturates rather than wrap.
pub open spec fn count_failure(failures: u64) -> u64 {
    if failures < u64::MAX {
        (failures + 1) as u64
    } else {
        failures
    }
}

/// One byte of input: while discarding, a line feed resumes framing; a line
/// feed otherwise completes the pending line and feeds it to the codec; any
/// other byte joins the pending tail, or tips it over the cap and starts
/// discarding.
pub open spec fn step(st: AccState, b: u8) -> (AccState, Option<PotentiometerData>) {
    if st.skipping {
        (AccState { pending: st.pending, skipping: b != 0x0a, failures: st.failures }, None)
    } else if b == 0x0a {
        match spec_decode(st.pending) {
            Some(d) => (
                AccState { pending: Seq::empty(), skipping: false, failures: st.failures },
                Some(d),
            ),
            None => (
                AccState {
                    pending: Seq::empty(),
                    skipping: false,
                    failures: count_failure(st.failures),
                },
                None,
            ),
        }
    } else if st.pending.len() + 1 > MAX_PENDING {
        (
            AccState {
                pending: Seq::empty(),
                skipping: true,
                failures: count_failure(st.failures),
            },
            None,
        )
    } else {
        (AccState { pending: st.pending.push(b), skipping: false, failures: st.failures }, None)
    }
}

/// A decoded sample as a (possibly empty) run of output.
pub open spec fn out_seq(o: Option<PotentiometerData>) -> Seq<PotentiometerData> {
    match o {
        Some(d) => seq![d],
        None => Seq::empty(),
    }
}

/// [`step`] folded over a whole chunk, collecting the decoded samples in
/// order.
pub open spec fn run(st: AccState, bytes: Seq<u8>) -> (AccState, Seq<PotentiometerData>)
    decreases bytes.len(),
{
    if bytes.len() == 0 {
        (st, Seq::empty())
    } else {
        let (st1, out1) = step(st, bytes[0]);
        let (st2, rest) = run(st1, bytes.drop_first());
        (st2, out_seq(out1) + rest)
    }
}

/// Running one more byte after a prefix is one more step at the end.
proof fn lemma_run_push(st: AccState, bytes: Seq<u8>, b: u8)
    ensures
        run(st, bytes.push(b)).0 == step(run(st, bytes).0, b).0,
        run(st, bytes.push(b)).1 == run(st, bytes).1 + out_seq(step(run(st, bytes).0, b).1),
    decreases bytes.len(),
{
    reveal_with_fuel(run, 3);
    let s1 = bytes.push(b);
    if bytes.len() == 0 {
        assert(s1.len() == 1);
        assert(s1[0] == b);
        assert(s1.drop_first() =~= Seq::<u8>::empty());
        assert(run(st, s1).0 == step(st, b).0);
        assert(run(st, bytes) == (st, Seq::<PotentiometerData>::empty()));
        assert(run(st, s1).1 =~= run(st, bytes).1 + out_seq(step(run(st, bytes).0, b).1));
    } else {
        let st1 = step(st, bytes[0]).0;
        let o1 = step(st, bytes[0]).1;
        let tail = bytes.drop_first();
        assert(s1[0] == bytes[0]);
        assert(s1.drop_first() =~= tail.push(b));
        lemma_run_push(st1, tail, b);
        assert(run(st, s1).0 == run(st1, tail.push(b)).0);
        assert(run(st, bytes).0 == run(st1, tail).0);
        assert(run(st, s1).1 == out_seq(o1) + run(st1, tail.push(b)).1);
        assert(run(st, bytes).1 == out_seq(o1) + run(st1, tail).1);
        assert(run(st, s1).1 =~= run(st, bytes).1 + out_seq(step(run(st, bytes).0, b).1));
    }
}

/// Frames the serial byte stream into lines and decodes them.
pub struct LineAccumulator {
    buf: Vec<u8>,
    skipping: bool,
    decode_failures: u64,
}

impl View for LineAccumulator {
    type V = AccState;

    closed spec fn view(&self) -> AccState {
        AccState { pending: self.buf@, skipping: self.skipping, failures: self.decode_failures }
    }
}

impl LineAccumulator {
    /// See [`AccState::inv`].
    pub open spec fn inv(self) -> bool {
        self@.inv()
    }

    /// An empty accumulator.
    pub fn new() -> (r: LineAccumulator)
        ensures
            r@ == (AccState { pending: Seq::<u8>::empty(), skipping: false, failures: 0u64 }),
            r.inv(),
    {
        let r = LineAccumulator { buf: Vec::new(), skipping: false, decode_failures: 0 };
        proof {
            assert(r@.pending =~= Seq::<u8>::empty());
        }
        r
    }

    /// Feed one chunk of bytes as read from the device; returns the samples
    /// of every line completed by this chunk, in arrival order.
    pub fn push_bytes(&mut self, chunk: &[u8]) -> (out: Vec<PotentiometerData>)
        requires
            old(self).inv(),
        ensures
            final(self).inv(),
            final(self)@ == run(old(self)@, chunk@).0,
            out@ == run(old(self)@, chunk@).1,
    {
        let ghost st0 = self@;
        let mut out: Vec<PotentiometerData> = Vec::new();
        let mut i: usize = 0;
        proof {
            assert(chunk@.take(0) =~= Seq::<u8>::empty());
            assert(out@ =~= run(st0, chunk@.take(0)).1);
        }
        while i < chunk.len()
            invariant
                i <= chunk@.len(),
                st0.inv(),
                self.inv(),
                self@ == run(st0, chunk@.take(i as int)).0,
                out@ == run(st0, chunk@.take(i as int)).1,
            decreases chunk@.len() - i,
        {
            proof {
                assert(chunk@.take(i as int + 1) =~= chunk@.take(i as int).push(
                    chunk@[i as int],
                ));
                lemma_run_push(st0, chunk@.take(i as int), chunk@[i as int]);
            }
            let b = chunk[i];
            if self.skipping {
                if b == 0x0a {
                    self.skipping = false;
                }
            } else if b == 0x0a {
                match codec::decode(self.buf.as_slice()) {
                    Ok(d) => {
                        out.push(d);
                        proof {
                            assert(spec_decode(self.buf@) == Some(d));
                        }
                    },
                    Err(_) => {
                        if self.decode_failures < u64::MAX {
                            self.decode_failures = self.decode_failures + 1;
                        }
                        proof {
                            assert(spec_decode(self.buf@) is None);
                        }
                    },
                }
                self.buf.clear();
            } else if self.buf.len() >= MAX_PENDING {
                self.buf.clear();
                self.skipping = true;
                if self.decode_failures < u64::MAX {
                    self.decode_failures = self.decode_failures + 1;
                }
            } else {
                self.buf.push(b);
            }
            i += 1;
        }
        proof {
            assert(chunk@.take(chunk@.len() as int) =~= chunk@);
        }
        out
    }

    /// How many completed lines failed to decode or were discarded as
    /// overlong.
    pub fn decode_failures(&self) -> (r: u64)
        ensures
            r == self@.failures,
    {
        self.decode_failures
    }

    /// How many bytes of an unterminated line are pending.
    pub fn pending_len(&self) -> (r: usize)
        ensures
            r == self@.pending.len(),
    {
        self.buf.len()
    }
}

} // verus!
