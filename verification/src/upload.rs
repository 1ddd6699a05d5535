//! Upload orchestration state. Blobs are grouped into fixed-size batches in
//! collection order and sent strictly one after another; each batch is
//! retried with exponential backoff; after each successful batch a progress
//! event is produced and the driver yields so a cancellation can take effect
//! between, never inside, a batch. The network call itself is the driver's
//! job; every decision here is verified.

use vstd::prelude::*;
use vstd::arithmetic::mul::lemma_mul_inequality;
use vstd::arithmetic::power2::{lemma2_to64, lemma_pow2_strictly_increases, pow2};
use vstd::bits::lemma_u64_shl_is_mul;
use vstd::string::StringSliceAdditionalSpecFns;
use vstd::utf8::encode_utf8;
use crate::arith::{ceil_div, lemma_ceil_div_bounds, lemma_ceil_div_computed};
use crate::blob::{BlobUpload, BlobView};

verus! {

/// The progress event emitted after each successfully uploaded batch.
#[derive(Debug)]
pub struct UploadProgress {
    pub chunk_index: usize,
    pub chunks_total: usize,
    pub uploaded_items: usize,
    pub total_items: usize,
    pub chunk_items: usize,
    pub chunk_bytes: usize,
}

/// A bounded-retry policy: up to `retries` attempts per call; after the
/// 0-based failure number `f` (when another attempt is left) the driver
/// waits `base_delay_ms * 2^f` milliseconds.
pub struct RetryPolicy {
    pub retries: usize,
    pub base_delay_ms: u64,
}

impl RetryPolicy {
    /// Bounds that keep every backoff delay within `u64`.
    pub open spec fn wf(&self) -> bool {
        1 <= self.retries <= 32 && self.base_delay_ms <= 0x1_0000_0000
    }

    /// The policy batch uploads use: 3 attempts, 1000 ms base delay.
    pub fn upload_default() -> (r: RetryPolicy)
        ensures
            r.retries == 3,
            r.base_delay_ms == 1000,
            r.wf(),
    {
        RetryPolicy { retries: 3, base_delay_ms: 1000 }
    }

    /// The policy retrieval calls use: 3 attempts, 2000 ms base delay.
    pub fn retrieval_default() -> (r: RetryPolicy)
        ensures
            r.retries == 3,
            r.base_delay_ms == 2000,
            r.wf(),
    {
        RetryPolicy { retries: 3, base_delay_ms: 2000 }
    }

    /// After the 0-based failure number `failures`: the backoff delay before
    /// the next attempt, or `None` when the attempts are exhausted.
    pub fn delay_after_failure(&self, failures: usize) -> (r: Option<u64>)
        requires
            self.wf(),
        ensures
            r is Some <==> failures + 1 < self.retries,
            r matches Some(d) ==> d == self.base_delay_ms * pow2(failures as nat),
    {
        if failures < self.retries - 1 {
            proof {
                lemma2_to64();
                lemma_pow2_strictly_increases(failures as nat, 31);
                assert(self.base_delay_ms * pow2(failures as nat) <= 0x1_0000_0000 * 0x80000000)
                    by (nonlinear_arith)
                    requires
                        self.base_delay_ms <= 0x1_0000_0000
                            && pow2(failures as nat) <= 0x80000000,
                ;
                lemma_u64_shl_is_mul(self.base_delay_ms, failures as u64);
            }
            Some(self.base_delay_ms << (failures as u64))
        } else {
            None
        }
    }
}

/// The saturating sum (at `usize::MAX`) of the UTF-8 byte lengths of the
/// contents of `blobs[s..e]`.
pub open spec fn sum_content_bytes(blobs: Seq<BlobView>, s: int, e: int) -> int
    decreases e - s,
{
    if s >= e {
        0
    } else {
        let rest = sum_content_bytes(blobs, s, e - 1);
        let l = encode_utf8(blobs[e - 1].content).len() as usize;
        if rest + l > usize::MAX {
            usize::MAX as int
        } else {
            rest + l
        }
    }
}

/// The byte size of the batch `blobs[s..e]`, saturating at `usize::MAX`.
pub fn batch_bytes(blobs: &Vec<BlobUpload>, s: usize, e: usize) -> (r: usize)
    requires
        s <= e <= blobs@.len(),
    ensures
        r == sum_content_bytes(blobs.deep_view(), s as int, e as int),
{
    let mut acc: usize = 0;
    let mut j = s;
    while j < e
        invariant
            s <= j <= e <= blobs@.len(),
            acc == sum_content_bytes(blobs.deep_view(), s as int, j as int),
        decreases e - j,
    {
        let cstr = blobs[j].content.as_str();
        let l = cstr.len();
        if usize::MAX - acc < l {
            acc = usize::MAX;
        } else {
            acc = acc + l;
        }
        proof {
            let bs = blobs.deep_view();
            assert(bs[j as int] == blobs@[j as int]@);
            assert(cstr.spec_bytes() == encode_utf8(cstr@));
            assert(l == encode_utf8(bs[j as int].content).len() as usize);
            assert(acc == sum_content_bytes(bs, s as int, j + 1));
        }
        j = j + 1;
    }
    acc
}

/// One batched upload run for a fixed blob count and batch size: which batch
/// is next, how often it failed, and the backend identifiers collected from
/// the responses so far.
pub struct UploadRun {
    total: usize,
    batch_size: usize,
    policy: RetryPolicy,
    batches_done: usize,
    failures: usize,
    names: Vec<String>,
    failed: bool,
}

impl UploadRun {
    pub closed spec fn total(&self) -> usize {
        self.total
    }

    pub closed spec fn batch_size(&self) -> usize {
        self.batch_size
    }

    pub closed spec fn policy(&self) -> RetryPolicy {
        self.policy
    }

    pub closed spec fn batches_done(&self) -> usize {
        self.batches_done
    }

    pub closed spec fn failures(&self) -> usize {
        self.failures
    }

    /// The backend identifiers collected so far, in batch order.
    pub closed spec fn names(&self) -> Seq<Seq<char>> {
        self.names.deep_view()
    }

    pub closed spec fn is_failed(&self) -> bool {
        self.failed
    }

    /// The number of batches: `ceil(total / batch_size)`.
    pub open spec fn batches_total(&self) -> nat {
        ceil_div(self.total() as nat, self.batch_size() as nat)
    }

    /// Items in the batches already done (the batch size, except that the
    /// last batch may be short).
    pub open spec fn done_items(&self) -> int {
        if self.batches_done() * self.batch_size() <= self.total() {
            self.batches_done() * self.batch_size()
        } else {
            self.total() as int
        }
    }

    pub closed spec fn wf(&self) -> bool {
        &&& self.batch_size >= 1
        &&& self.total + self.batch_size <= usize::MAX
        &&& self.policy.wf()
        &&& self.batches_done <= self.batches_total()
        &&& (!self.failed ==> self.failures + 1 <= self.policy.retries)
    }

    /// Start a run over `total` blobs in batches of `batch_size`.
    pub fn new(total: usize, batch_size: usize, policy: RetryPolicy) -> (r: UploadRun)
        requires
            batch_size >= 1,
            total + batch_size <= usize::MAX,
            policy.wf(),
        ensures
            r.wf(),
            r.total() == total,
            r.batch_size() == batch_size,
            r.policy() == policy,
            r.batches_done() == 0,
            r.failures() == 0,
            r.names() == Seq::<Seq<char>>::empty(),
            !r.is_failed(),
    {
        let r = UploadRun {
            total,
            batch_size,
            policy,
            batches_done: 0,
            failures: 0,
            names: Vec::new(),
            failed: false,
        };
        proof {
            assert(r.names() =~= Seq::<Seq<char>>::empty());
        }
        r
    }

    /// The half-open item range of the next batch to send, or `None` when
    /// the run is over (all batches done, or given up after a failure).
    /// An empty run is over immediately: no batch, no network call.
    pub fn current_batch(&self) -> (r: Option<(usize, usize)>)
        requires
            self.wf(),
        ensures
            r is Some <==> (!self.is_failed() && self.batches_done() < self.batches_total()),
            r matches Some((s, e)) ==> {
                &&& s == self.done_items()
                &&& e == if s + self.batch_size() <= self.total() {
                    s + self.batch_size() as int
                } else {
                    self.total() as int
                }
                &&& s < e <= self.total()
            },
    {
        if self.failed {
            return None;
        }
        proof {
            lemma_ceil_div_bounds(self.total as nat, self.batch_size as nat);
            if self.total > 0 {
                lemma_ceil_div_computed(self.total as nat, self.batch_size as nat);
            }
        }
        let nb = if self.total == 0 {
            0
        } else {
            (self.total - 1) / self.batch_size + 1
        };
        if self.batches_done >= nb {
            return None;
        }
        proof {
            lemma_mul_inequality(
                self.batches_done as int,
                self.batches_total() - 1,
                self.batch_size as int,
            );
            assert(self.batches_done * self.batch_size < self.total);
        }
        let s = self.batches_done * self.batch_size;
        let e = if self.total - s < self.batch_size {
            self.total
        } else {
            s + self.batch_size
        };
        Some((s, e))
    }

    /// Record a successful batch: keep the backend identifiers from the
    /// response in order, advance to the next batch, reset the failure
    /// counter, and report the progress event for this batch.
    pub fn on_batch_success(&mut self, resp_names: Vec<String>, chunk_bytes: usize) -> (ev:
        UploadProgress)
        requires
            old(self).wf(),
            !old(self).is_failed(),
            old(self).batches_done() < old(self).batches_total(),
        ensures
            final(self).wf(),
            final(self).total() == old(self).total(),
            final(self).batch_size() == old(self).batch_size(),
            final(self).policy() == old(self).policy(),
            !final(self).is_failed(),
            final(self).batches_done() == old(self).batches_done() + 1,
            final(self).failures() == 0,
            final(self).names() == old(self).names() + resp_names.deep_view(),
            ev.chunk_index == old(self).batches_done() + 1,
            ev.chunks_total == old(self).batches_total(),
            ev.uploaded_items == final(self).done_items(),
            ev.total_items == old(self).total(),
            ev.chunk_items == final(self).done_items() - old(self).done_items(),
            ev.chunk_bytes == chunk_bytes,
    {
        proof {
            lemma_ceil_div_bounds(self.total as nat, self.batch_size as nat);
            lemma_ceil_div_computed(self.total as nat, self.batch_size as nat);
            lemma_mul_inequality(
                self.batches_done as int,
                self.batches_total() - 1,
                self.batch_size as int,
            );
            assert(self.batches_done * self.batch_size < self.total);
        }
        let nb = (self.total - 1) / self.batch_size + 1;
        let s = self.batches_done * self.batch_size;
        let e = if self.total - s < self.batch_size {
            self.total
        } else {
            s + self.batch_size
        };
        let ghost pre = self.names.deep_view();
        let ghost incoming = resp_names.deep_view();
        let mut moved = resp_names;
        self.names.append(&mut moved);
        proof {
            assert(self.names.deep_view() =~= pre + incoming);
            assert((self.batches_done + 1) * self.batch_size == self.batches_done
                * self.batch_size + self.batch_size) by (nonlinear_arith);
            lemma_mul_inequality(
                self.batches_done as int,
                self.batches_total() as int,
                self.batch_size as int,
            );
        }
        self.batches_done = self.batches_done + 1;
        self.failures = 0;
        UploadProgress {
            chunk_index: self.batches_done,
            chunks_total: nb,
            uploaded_items: e,
            total_items: self.total,
            chunk_items: e - s,
            chunk_bytes,
        }
    }

    /// Record a failed batch attempt: either another attempt is left, and
    /// the backoff delay before it is returned, or the run becomes failed
    /// and the remaining batches are abandoned.
    pub fn on_batch_failure(&mut self) -> (r: Option<u64>)
        requires
            old(self).wf(),
            !old(self).is_failed(),
        ensures
            final(self).wf(),
            final(self).total() == old(self).total(),
            final(self).batch_size() == old(self).batch_size(),
            final(self).policy() == old(self).policy(),
            final(self).batches_done() == old(self).batches_done(),
            final(self).names() == old(self).names(),
            r is Some <==> old(self).failures() + 1 < old(self).policy().retries,
            r matches Some(d) ==> {
                &&& d == old(self).policy().base_delay_ms * pow2(old(self).failures() as nat)
                &&& final(self).failures() == old(self).failures() + 1
                &&& !final(self).is_failed()
            },
            r is None ==> final(self).is_failed(),
    {
        let r = self.policy.delay_after_failure(self.failures);
        match r {
            Some(d) => {
                self.failures = self.failures + 1;
                Some(d)
            },
            None => {
                self.failed = true;
                None
            },
        }
    }

    /// Whether the run gave a batch up after exhausting its attempts.
    pub fn is_given_up(&self) -> (r: bool)
        ensures
            r == self.is_failed(),
    {
        self.failed
    }

    /// The collected backend identifiers, consuming the run.
    pub fn into_names(self) -> (r: Vec<String>)
        ensures
            r.deep_view() == self.names(),
    {
        self.names
    }
}

} // verus!
