//! Chain-side decisions: which block range to scan next, the block height
//! agreed on by several samples, and the gas price to offer.

use crate::hex_text::{all_hex_digits, hex_digit_value};
use vstd::prelude::*;

verus! {

/// Largest number of blocks scanned in one batch.
pub const BLOCK_BATCH: u64 = 10;

/// Number of height samples whose minimum is taken as the chain height.
pub const HEIGHT_QUORUM: usize = 4;

/// The next range to scan after `last_handled`, when the chain is at `height`:
/// none when nothing new exists, else from the next block up to `width` blocks,
/// bounded by the height.
pub open spec fn block_range(last_handled: nat, height: nat, width: nat) -> Option<(nat, nat)> {
    if last_handled >= height {
        None
    } else if last_handled + width <= height {
        Some((last_handled + 1, last_handled + width))
    } else {
        Some((last_handled + 1, height))
    }
}

/// Watches the chain in bounded block ranges, keeping the last block whose
/// events were fully handled.
#[derive(Clone, Copy, Debug)]
pub struct EventMonitor {
    last_handled_block: u64,
    batch_width: u64,
}

impl EventMonitor {
    #[verifier::type_invariant]
    spec fn width_positive(self) -> bool {
        self.batch_width >= 1
    }

    /// The last block whose events were fully handled.
    pub closed spec fn watermark(self) -> nat {
        self.last_handled_block as nat
    }

    /// Largest number of blocks in one batch.
    pub closed spec fn width(self) -> nat {
        self.batch_width as nat
    }

    pub fn new(start_block: u64) -> (m: EventMonitor)
        ensures
            m.watermark() == start_block,
            m.width() == BLOCK_BATCH,
    {
        EventMonitor { last_handled_block: start_block, batch_width: BLOCK_BATCH }
    }

    pub fn last_handled_block(&self) -> (r: u64)
        ensures
            r == self.watermark(),
    {
        self.last_handled_block
    }

    /// The range to scan when the chain is at `height`, or `None` to wait. A
    /// range starts right after the watermark and never ends beyond `height`.
    pub fn plan_batch(&self, height: u64) -> (r: Option<(u64, u64)>)
        ensures
            match block_range(self.watermark(), height as nat, self.width()) {
                Some(range) => r == Some((range.0 as u64, range.1 as u64)),
                None => r is None,
            },
            r matches Some(range) ==> self.watermark() < range.0 <= range.1 <= height,
    {
        proof {
            use_type_invariant(self);
        }
        if self.last_handled_block >= height {
            None
        } else if height - self.last_handled_block >= self.batch_width {
            Some((self.last_handled_block + 1, self.last_handled_block + self.batch_width))
        } else {
            Some((self.last_handled_block + 1, height))
        }
    }

    /// Marks every block up to `end` as handled, once the batch that ends
    /// there has been processed. A failed batch is simply not reported, so the
    /// same range is planned again.
    pub fn batch_processed(&mut self, end: u64)
        requires
            old(self).watermark() < end,
        ensures
            final(self).watermark() == end,
            final(self).width() == old(self).width(),
    {
        proof {
            use_type_invariant(&*self);
        }
        self.last_handled_block = end;
    }
}

/// Least element of a non-empty sequence.
pub open spec fn seq_min(s: Seq<u64>) -> u64
    decreases s.len(),
{
    if s.len() <= 1 {
        s[0]
    } else {
        let rest = seq_min(s.drop_last());
        if s.last() < rest {
            s.last()
        } else {
            rest
        }
    }
}

proof fn lemma_seq_min_push(s: Seq<u64>, x: u64)
    requires
        s.len() >= 1,
    ensures
        seq_min(s.push(x)) == if x < seq_min(s) {
            x
        } else {
            seq_min(s)
        },
{
    assert(s.push(x).drop_last() =~= s);
}

/// Collects block-height samples from several endpoints; the height is the
/// least of `HEIGHT_QUORUM` samples, so a lagging or forked node cannot move
/// the monitor ahead of the others.
pub struct BlockHeightQuorum {
    samples: Vec<u64>,
    least: u64,
}

impl BlockHeightQuorum {
    pub closed spec fn sample_seq(&self) -> Seq<u64> {
        self.samples@
    }

    pub closed spec fn wf(&self) -> bool {
        &&& self.samples@.len() < HEIGHT_QUORUM
        &&& self.samples@.len() >= 1 ==> self.least == seq_min(self.samples@)
    }

    pub fn new() -> (q: BlockHeightQuorum)
        ensures
            q.wf(),
            q.sample_seq() == Seq::<u64>::empty(),
    {
        BlockHeightQuorum { samples: Vec::new(), least: 0 }
    }

    /// Adds one sample. Once `HEIGHT_QUORUM` samples are in, returns their
    /// least and starts over.
    pub fn record(&mut self, height: u64) -> (r: Option<u64>)
        requires
            old(self).wf(),
        ensures
            final(self).wf(),
            old(self).sample_seq().len() + 1 == HEIGHT_QUORUM ==> {
                &&& r == Some(seq_min(old(self).sample_seq().push(height)))
                &&& final(self).sample_seq() == Seq::<u64>::empty()
            },
            old(self).sample_seq().len() + 1 < HEIGHT_QUORUM ==> {
                &&& r is None
                &&& final(self).sample_seq() == old(self).sample_seq().push(height)
            },
    {
        proof {
            if self.samples@.len() >= 1 {
                lemma_seq_min_push(self.samples@, height);
            }
        }
        let least = if self.samples.len() == 0 || height < self.least {
            height
        } else {
            self.least
        };
        self.samples.push(height);
        self.least = least;
        if self.samples.len() >= HEIGHT_QUORUM {
            self.samples = Vec::new();
            self.least = 0;
            Some(least)
        } else {
            None
        }
    }
}

/// Value of a string of hexadecimal digits, most significant first.
pub open spec fn hex_value(s: Seq<char>) -> nat
    decreases s.len(),
{
    if s.len() == 0 {
        0
    } else {
        hex_value(s.drop_last()) * 16 + match hex_digit_value(s.last()) {
            Some(v) => v,
            None => 0,
        }
    }
}

/// A JSON-RPC quantity read as a block number: `0x` followed by at least one
/// hexadecimal digit, with a value that fits in 64 bits.
pub open spec fn block_number_of(s: Seq<char>) -> Option<nat> {
    let d = s.subrange(2, s.len() as int);
    if s.len() >= 3 && s[0] == '0' && s[1] == 'x' && all_hex_digits(d) && hex_value(d) <= u64::MAX {
        Some(hex_value(d))
    } else {
        None
    }
}

fn hex_digit(c: char) -> (r: Option<u64>)
    ensures
        match hex_digit_value(c) {
            Some(v) => r == Some(v as u64),
            None => r is None,
        },
{
    if '0' <= c && c <= '9' {
        Some((c as u32 - '0' as u32) as u64)
    } else if 'a' <= c && c <= 'f' {
        Some((c as u32 - 'a' as u32 + 10) as u64)
    } else if 'A' <= c && c <= 'F' {
        Some((c as u32 - 'A' as u32 + 10) as u64)
    } else {
        None
    }
}

proof fn lemma_hex_value_grows(s: Seq<char>, c: char)
    requires
        hex_digit_value(c) is Some,
    ensures
        hex_value(s.push(c)) == hex_value(s) * 16 + hex_digit_value(c)->0,
        hex_value(s.push(c)) >= hex_value(s),
{
    assert(s.push(c).drop_last() =~= s);
}

/// Reads the block number that an `eth_blockNumber` response reports.
pub fn parse_block_number(result: &str) -> (r: Option<u64>)
    ensures
        match block_number_of(result@) {
            Some(v) => r == Some(v as u64),
            None => r is None,
        },
{
    let n = result.unicode_len();
    if n < 3 || result.get_char(0) != '0' || result.get_char(1) != 'x' {
        return None;
    }
    let start: usize = 2;
    let ghost d = result@.subrange(start as int, n as int);
    let mut value: u64 = 0;
    let mut i: usize = start;
    while i < n
        invariant
            n == result@.len(),
            start <= i <= n,
            d == result@.subrange(start as int, n as int),
            block_number_of(result@) == (if all_hex_digits(d) && hex_value(d) <= u64::MAX {
                Some(hex_value(d))
            } else {
                None
            }),
            all_hex_digits(result@.subrange(start as int, i as int)),
            value == hex_value(result@.subrange(start as int, i as int)),
        decreases n - i,
    {
        let ghost prefix = result@.subrange(start as int, i as int);
        let c = result.get_char(i);
        assert(result@.subrange(start as int, i + 1) =~= prefix.push(c));
        match hex_digit(c) {
            None => {
                assert(d[i - start] == c);
                assert(hex_digit_value(d[i - start]) is None);
                return None;
            },
            Some(v) => {
                proof {
                    lemma_hex_value_grows(prefix, c);
                }
                if value > (u64::MAX - v) / 16 {
                    proof {
                        let rest = result@.subrange(i + 1, n as int);
                        assert(all_hex_digits(prefix.push(c))) by {
                            assert forall|q: int| 0 <= q < prefix.push(c).len() implies #[trigger] hex_digit_value(prefix.push(c)[q]) is Some by {
                                if q < prefix.len() {
                                    assert(prefix.push(c)[q] == prefix[q]);
                                }
                            }
                        }
                        lemma_hex_value_at_least_prefix(prefix.push(c), rest);
                        assert(prefix.push(c) + rest =~= d);
                        assert(value * 16 + v > u64::MAX) by (nonlinear_arith)
                            requires
                                value > (u64::MAX - v) / 16,
                                v < 16,
                        ;
                    }
                    return None;
                }
                assert(value * 16 + v <= u64::MAX) by (nonlinear_arith)
                    requires
                        value <= (u64::MAX - v) / 16,
                        v < 16,
                ;
                value = value * 16 + v;
            },
        }
        i = i + 1;
    }
    assert(result@.subrange(start as int, n as int) =~= d);
    Some(value)
}

proof fn lemma_hex_value_at_least_prefix(p: Seq<char>, rest: Seq<char>)
    requires
        all_hex_digits(p),
    ensures
        all_hex_digits(p + rest) ==> hex_value(p + rest) >= hex_value(p),
    decreases rest.len(),
{
    if rest.len() > 0 && all_hex_digits(p + rest) {
        let q = p + rest.drop_last();
        assert((p + rest).drop_last() =~= q);
        assert(all_hex_digits(q)) by {
            assert forall|i: int| 0 <= i < q.len() implies #[trigger] hex_digit_value(q[i]) is Some by {
                assert(q[i] == (p + rest)[i]);
            }
        }
        lemma_hex_value_at_least_prefix(p, rest.drop_last());
    }
}

/// The gas price offered for a transaction: twice the sampled network price,
/// as headroom against price movement before inclusion.
pub fn gas_price_with_headroom(network_price: u64) -> (r: u128)
    ensures
        r == 2 * network_price,
{
    network_price as u128 * 2
}

} // verus!
