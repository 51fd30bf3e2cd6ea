//! Reading recorded audio as if it came from the microphone: chunks of the
//! samples, then the trailing silence, then the end.
use vstd::prelude::*;

verus! {

/// Where a recording stands: the next sample, the number of samples, and
/// the silence still to be added.
#[derive(Debug, Clone, Copy, PartialEq, Eq, Structural)]
pub struct WavCursor {
    pub pos: usize,
    pub len: usize,
    pub trailing_silence: usize,
}

/// The next chunk: `take` samples from `start`, then `silence` zeros.
#[derive(Debug, Clone, Copy, PartialEq, Eq, Structural)]
pub struct Chunk {
    pub start: usize,
    pub take: usize,
    pub silence: usize,
}

pub open spec fn min_nat(a: int, b: int) -> int {
    if a < b {
        a
    } else {
        b
    }
}

/// What is still to come from a cursor: the index of each sample left,
/// then `None` for each zero of trailing silence.
pub open spec fn stream(c: WavCursor) -> Seq<Option<int>> {
    Seq::new((c.len - c.pos) as nat, |i: int| Some(c.pos + i)) + Seq::new(
        c.trailing_silence as nat,
        |i: int| None::<int>,
    )
}

/// What a chunk hands out, in the same terms.
pub open spec fn chunk_items(ch: Chunk) -> Seq<Option<int>> {
    Seq::new(ch.take as nat, |i: int| Some(ch.start + i)) + Seq::new(
        ch.silence as nat,
        |i: int| None::<int>,
    )
}

/// One call of `next_chunk` with at most `m` frames: the cursor after it
/// and the chunk it gives.
pub open spec fn next_of(c: WavCursor, m: int) -> (WavCursor, Option<Chunk>) {
    let take = min_nat(m, c.len - c.pos);
    let silence = if take < m {
        min_nat(m - take, c.trailing_silence as int)
    } else {
        0
    };
    let after = WavCursor {
        pos: (c.pos + take) as usize,
        len: c.len,
        trailing_silence: (c.trailing_silence - silence) as usize,
    };
    if take + silence == 0 && c.pos + take >= c.len && c.trailing_silence - silence == 0 {
        (after, None)
    } else {
        (after, Some(Chunk { start: c.pos, take: take as usize, silence: silence as usize }))
    }
}

impl WavCursor {
    pub fn new(len: usize, trailing_silence: usize) -> (res: WavCursor)
        ensures
            res == (WavCursor { pos: 0, len, trailing_silence }),
    {
        WavCursor { pos: 0, len, trailing_silence }
    }

    /// The next chunk of at most `max_frames`: samples first, then silence;
    /// `None` once both are used up.
    pub fn next_chunk(&mut self, max_frames: usize) -> (res: Option<Chunk>)
        requires
            old(self).pos <= old(self).len,
        ensures
            final(self).pos <= final(self).len,
            (*final(self), res) == next_of(*old(self), max_frames as int),
            ({
                let o = *old(self);
                let take = min_nat(max_frames as int, o.len - o.pos);
                let silence = if take < max_frames {
                    min_nat(max_frames - take, o.trailing_silence as int)
                } else {
                    0
                };
                &&& final(self).len == o.len
                &&& final(self).pos == o.pos + take
                &&& final(self).trailing_silence == o.trailing_silence - silence
                &&& if take + silence == 0 && o.pos + take >= o.len && o.trailing_silence - silence
                    == 0 {
                    res is None
                } else {
                    res == Some(Chunk { start: o.pos, take: take as usize, silence: silence as usize })
                }
            }),
    {
        let start = self.pos;
        let rest = self.len - self.pos;
        let take = if max_frames < rest {
            max_frames
        } else {
            rest
        };
        self.pos = self.pos + take;
        let mut silence: usize = 0;
        if take < max_frames && self.trailing_silence > 0 {
            let room = max_frames - take;
            silence = if room < self.trailing_silence {
                room
            } else {
                self.trailing_silence
            };
            self.trailing_silence = self.trailing_silence - silence;
        }
        if take + silence == 0 && self.pos >= self.len && self.trailing_silence == 0 {
            None
        } else {
            Some(Chunk { start, take, silence })
        }
    }
}


/// One call with room for at least one frame hands out the next items of
/// what is still to come, at least one and at most `m` of them, and the
/// rest is still to come; once nothing is left the call gives `None` and
/// the cursor stays as it was.
pub proof fn law_chunk_takes_next_items(c: WavCursor, m: int)
    requires
        c.pos <= c.len,
        0 < m <= usize::MAX,
    ensures
        next_of(c, m).0.pos <= next_of(c, m).0.len,
        stream(c).len() == 0 ==> next_of(c, m).1 is None && next_of(c, m).0 == c,
        stream(c).len() > 0 ==> (next_of(c, m).1 matches Some(ch) && 1 <= chunk_items(ch).len()
            <= m && chunk_items(ch) + stream(next_of(c, m).0) == stream(c)),
{
    let (a, r) = next_of(c, m);
    let take = min_nat(m, c.len - c.pos);
    let silence = if take < m {
        min_nat(m - take, c.trailing_silence as int)
    } else {
        0
    };
    if stream(c).len() > 0 {
        let ch = r->0;
        let lhs = chunk_items(ch) + stream(a);
        assert(lhs.len() == stream(c).len());
        assert forall|i: int| 0 <= i < lhs.len() implies lhs[i] == stream(c)[i] by {
            if i < take {
            } else if i < take + silence {
            } else if i < take + (c.len - c.pos - take) + silence {
            } else {
            }
        }
        assert(lhs =~= stream(c));
    }
}

/// The calls made, in turn, with these room sizes: the cursor after them.
pub open spec fn after_calls(c: WavCursor, ms: Seq<int>) -> WavCursor
    decreases ms.len(),
{
    if ms.len() == 0 {
        c
    } else {
        next_of(after_calls(c, ms.drop_last()), ms.last()).0
    }
}

/// What those calls handed out, run together.
pub open spec fn handed_out(c: WavCursor, ms: Seq<int>) -> Seq<Option<int>>
    decreases ms.len(),
{
    if ms.len() == 0 {
        Seq::empty()
    } else {
        handed_out(c, ms.drop_last()) + match next_of(after_calls(c, ms.drop_last()), ms.last()).1 {
            Some(ch) => chunk_items(ch),
            None => Seq::empty(),
        }
    }
}

/// Over any run of calls, each with room for at least one frame, what was
/// handed out followed by what is still to come is everything: the samples
/// in order, then the trailing silence. From a fresh cursor, the calls
/// hand out all the samples, then the silence, and give `None` exactly
/// once all of it was handed out.
pub proof fn law_chunks_run_through(c: WavCursor, ms: Seq<int>)
    requires
        c.pos <= c.len,
        forall|i: int| 0 <= i < ms.len() ==> 0 < #[trigger] ms[i] <= usize::MAX,
    ensures
        after_calls(c, ms).pos <= after_calls(c, ms).len,
        handed_out(c, ms) + stream(after_calls(c, ms)) == stream(c),
    decreases ms.len(),
{
    if ms.len() > 0 {
        let prev = ms.drop_last();
        assert forall|i: int| 0 <= i < prev.len() implies 0 < #[trigger] prev[i] <= usize::MAX by {
            assert(prev[i] == ms[i]);
        }
        law_chunks_run_through(c, prev);
        let b = after_calls(c, prev);
        law_chunk_takes_next_items(b, ms.last());
        let items = match next_of(b, ms.last()).1 {
            Some(ch) => chunk_items(ch),
            None => Seq::empty(),
        };
        assert(items + stream(next_of(b, ms.last()).0) =~= stream(b));
        assert(handed_out(c, prev) + items + stream(after_calls(c, ms)) =~= handed_out(c, prev)
            + (items + stream(after_calls(c, ms))));
    }
}

} // verus!
