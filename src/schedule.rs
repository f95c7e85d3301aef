//! Decisions of the two transform paths, apart from the device work: input
//! checks, the cancellation gate, the choice of path, and the sequence of
//! kernel launches with their geometry and buffer roles.

use crate::twiddle::MAX_RADIX_DEGREE;
use vstd::arithmetic::power2::{lemma2_to64, lemma_pow2_adds, lemma_pow2_subtracts, pow2};
use vstd::bits::{lemma_u64_pow2_no_overflow, lemma_u64_shl_is_mul, lemma_u64_shr_is_div};
use vstd::prelude::*;

verus! {

/// Log2 of the largest local work size of a radix stage (128).
pub const MAX_LOCAL_WORK_SIZE_DEGREE: u32 = 7;

/// Device memory, in bytes, above which the radix path is chosen (9 GiB).
pub const MIN_RADIX_MEMORY: u64 = 9 * 1024 * 1024 * 1024;

/// Log2 of the largest supported transform size, in the type of `lgn`.
pub const LOG2_MAX_SIZE: u32 = 32;

/// Why a transform call stops before it is done.
#[derive(Clone, Copy, Debug, PartialEq, Eq)]
pub enum FftError {
    /// A caller with priority wants the GPU.
    GpuTaken,
    /// `lgn` is outside `1..=32`, or the slice does not hold `2^lgn` elements.
    InvalidSize,
}

pub open spec fn min_nat(a: nat, b: nat) -> nat {
    if a <= b {
        a
    } else {
        b
    }
}

/// A slice of `len` elements can be transformed with `lgn`.
pub open spec fn valid_size(len: nat, lgn: nat) -> bool {
    1 <= lgn <= LOG2_MAX_SIZE && len == pow2(lgn)
}

/// A holder without priority gives way when the priority signal is set.
pub open spec fn spec_should_break(priority: bool, preempted: bool) -> bool {
    !priority && preempted
}

/// The cancellation gate: true when a holder with the given priority flag
/// must stop because the priority signal is set.
pub fn should_break(priority: bool, preempted: bool) -> (r: bool)
    ensures
        r == spec_should_break(priority, preempted),
{
    !priority && preempted
}

/// The radix path is chosen when the device has more than `MIN_RADIX_MEMORY`
/// bytes of memory; otherwise the in-place path.
pub fn prefers_radix(memory: u64) -> (r: bool)
    ensures
        r == (memory > MIN_RADIX_MEMORY),
{
    memory > MIN_RADIX_MEMORY
}

/// Checks that a slice of `len` elements fits a transform of size `2^lgn`.
pub fn check_size(len: usize, lgn: u32) -> (r: Result<(), FftError>)
    ensures
        r is Ok <==> valid_size(len as nat, lgn as nat),
        r is Err ==> r == Err::<(), FftError>(FftError::InvalidSize),
{
    if lgn < 1 || lgn > LOG2_MAX_SIZE {
        return Err(FftError::InvalidSize);
    }
    proof {
        lemma2_to64();
        lemma_u64_shl_is_mul(1, lgn as u64);
    }
    let n: u64 = 1u64 << (lgn as u64);
    if len as u64 == n && len as u64 as usize == len {
        Ok(())
    } else {
        Err(FftError::InvalidSize)
    }
}

/// Log2 of the local work size of a stage of degree `deg`.
pub open spec fn local_degree(deg: nat) -> nat {
    min_nat((deg - 1) as nat, MAX_LOCAL_WORK_SIZE_DEGREE as nat)
}

/// One launch of the `radix_fft` kernel.
#[derive(Clone, Copy, Debug, PartialEq, Eq)]
pub struct RadixRound {
    /// Transform size `2^lgn`, handed to the kernel.
    pub n: u64,
    /// Log2 of the butterfly stride at this stage.
    pub lgp: u32,
    /// Degree of this stage: radix `2^deg`.
    pub deg: u32,
    /// Largest degree that the twiddle tables were built for.
    pub max_deg: u32,
    /// The kernel reads the source buffer and writes the destination buffer
    /// when true, and the other way round when false.
    pub read_src: bool,
    pub global_work_size: u64,
    pub local_work_size: u64,
    /// Number of field elements of work-group local scratch: `2^deg`.
    pub local_scratch_len: u64,
}

/// The launch of a stage: global work size `(N >> deg) << lwsd` and local
/// work size `2^lwsd` with `lwsd = min(deg - 1, 7)`.
pub open spec fn spec_radix_round(lgn: nat, lgp: u32, deg: u32, max_deg: u32, in_src: bool) -> RadixRound {
    RadixRound {
        n: pow2(lgn) as u64,
        lgp,
        deg,
        max_deg,
        read_src: in_src,
        global_work_size: (pow2(lgn) / pow2(deg as nat) * pow2(local_degree(deg as nat))) as u64,
        local_work_size: pow2(local_degree(deg as nat)) as u64,
        local_scratch_len: pow2(deg as nat) as u64,
    }
}

/// Computes the launch of one radix stage.
pub fn radix_round(lgn: u32, lgp: u32, deg: u32, max_deg: u32, in_src: bool) -> (r: RadixRound)
    requires
        1 <= deg <= max_deg <= MAX_RADIX_DEGREE,
        lgp + deg <= lgn <= LOG2_MAX_SIZE,
    ensures
        r == spec_radix_round(lgn as nat, lgp, deg, max_deg, in_src),
        r.n == pow2(lgn as nat),
        r.global_work_size == pow2(lgn as nat) / pow2(deg as nat) * pow2(local_degree(deg as nat)),
        r.local_work_size == pow2(local_degree(deg as nat)),
        r.local_scratch_len == pow2(deg as nat),
{
    let lwsd: u32 = if deg - 1 < MAX_LOCAL_WORK_SIZE_DEGREE {
        deg - 1
    } else {
        MAX_LOCAL_WORK_SIZE_DEGREE
    };
    let ghost e = (lgn - deg) as nat;
    proof {
        lemma2_to64();
        lemma_u64_pow2_no_overflow(lgn as nat);
        lemma_u64_pow2_no_overflow(e + lwsd as nat);
        lemma_pow2_subtracts(deg as nat, lgn as nat);
        lemma_pow2_adds(e, lwsd as nat);
        lemma_u64_shl_is_mul(1, lgn as u64);
        lemma_u64_shl_is_mul(1, lwsd as u64);
        lemma_u64_shl_is_mul(1, deg as u64);
    }
    let n: u64 = 1u64 << (lgn as u64);
    let q: u64 = n >> (deg as u64);
    proof {
        lemma_u64_shr_is_div(n, deg as u64);
        assert(q == pow2(e));
        lemma_u64_shl_is_mul(q, lwsd as u64);
    }
    RadixRound {
        n,
        lgp,
        deg,
        max_deg,
        read_src: in_src,
        global_work_size: q << (lwsd as u64),
        local_work_size: 1u64 << (lwsd as u64),
        local_scratch_len: 1u64 << (deg as u64),
    }
}

/// Largest stage degree of a transform of size `2^lgn`.
pub open spec fn spec_max_degree(lgn: nat) -> nat {
    min_nat(MAX_RADIX_DEGREE as nat, lgn)
}

/// Number of stages of the radix path: `ceil(lgn / max_deg)`.
pub open spec fn stage_count(lgn: nat, max_deg: nat) -> nat {
    ((lgn + max_deg - 1) as nat) / max_deg
}

/// Largest stage degree of a transform of size `2^lgn`, which the twiddle
/// tables are built for: `min(MAX_RADIX_DEGREE, lgn)`.
pub fn max_degree(lgn: u32) -> (r: u32)
    ensures
        r == spec_max_degree(lgn as nat),
{
    if MAX_RADIX_DEGREE < lgn {
        MAX_RADIX_DEGREE
    } else {
        lgn
    }
}

/// What the radix path does next.
#[derive(Clone, Copy, Debug, PartialEq, Eq)]
pub enum RadixStep {
    /// Launch this stage.
    Launch(RadixRound),
    /// All stages ran: read the result back from the source buffer when
    /// `from_src`, else from the destination buffer.
    ReadBack { from_src: bool },
    /// Stop with `FftError::GpuTaken`; no further stage is launched.
    Cancelled,
}

/// Progress of one call of the radix path, which ping-pongs between a
/// source and a destination buffer, one stage per launch.
#[derive(Clone, Copy, Debug, PartialEq, Eq)]
pub struct RadixSchedule {
    pub lgn: u32,
    /// `min(MAX_RADIX_DEGREE, lgn)`: the twiddle tables are built for it.
    pub max_deg: u32,
    /// Log2 of the butterfly stride of the next stage.
    pub lgp: u32,
    /// The next stage reads the source buffer.
    pub in_src: bool,
    /// Stages launched so far.
    pub rounds: u32,
    /// The holder is not cancellable.
    pub priority: bool,
}

impl RadixSchedule {
    pub open spec fn wf(&self) -> bool {
        &&& 1 <= self.lgn <= LOG2_MAX_SIZE
        &&& self.max_deg == spec_max_degree(self.lgn as nat)
        &&& self.lgp == min_nat(self.rounds as nat * self.max_deg as nat, self.lgn as nat)
        &&& (self.rounds == 0 || (self.rounds - 1) * self.max_deg < self.lgn)
        &&& self.in_src == (self.rounds % 2 == 0)
    }

    /// Starts the radix path for a slice of `len` elements.
    pub fn new(len: usize, lgn: u32, priority: bool) -> (r: Result<RadixSchedule, FftError>)
        ensures
            r is Ok <==> valid_size(len as nat, lgn as nat),
            r is Err ==> r == Err::<RadixSchedule, FftError>(FftError::InvalidSize),
            r matches Ok(s) ==> {
                &&& s.wf()
                &&& s.lgn == lgn
                &&& s.lgp == 0
                &&& s.rounds == 0
                &&& s.in_src
                &&& s.priority == priority
            },
    {
        match check_size(len, lgn) {
            Err(e) => Err(e),
            Ok(()) => Ok(
                RadixSchedule { lgn, max_deg: max_degree(lgn), lgp: 0, in_src: true, rounds: 0, priority },
            ),
        }
    }

    /// Decides the next action. While stages remain, a holder without
    /// priority stops when `preempted`; otherwise the next stage has degree
    /// `min(max_deg, lgn - lgp)`, reads the buffer it is told to, and the
    /// roles of the buffers flip. When no stage remains, the result is read
    /// back from the buffer that the last stage wrote.
    pub fn step(&mut self, preempted: bool) -> (r: RadixStep)
        requires
            old(self).wf(),
        ensures
            final(self).wf(),
            final(self).lgn == old(self).lgn,
            final(self).max_deg == old(self).max_deg,
            final(self).priority == old(self).priority,
            old(self).lgp < old(self).lgn && spec_should_break(old(self).priority, preempted) ==> r
                == RadixStep::Cancelled && *final(self) == *old(self),
            old(self).lgp < old(self).lgn && !spec_should_break(old(self).priority, preempted) ==> {
                let deg = min_nat(old(self).max_deg as nat, (old(self).lgn - old(self).lgp) as nat);
                &&& r == RadixStep::Launch(
                    spec_radix_round(
                        old(self).lgn as nat,
                        old(self).lgp,
                        deg as u32,
                        old(self).max_deg,
                        old(self).in_src,
                    ),
                )
                &&& final(self).lgp == old(self).lgp + deg
                &&& final(self).in_src == !old(self).in_src
                &&& final(self).rounds == old(self).rounds + 1
            },
            old(self).lgp >= old(self).lgn ==> r == (RadixStep::ReadBack { from_src: old(self).in_src })
                && *final(self) == *old(self),
    {
        if self.lgp >= self.lgn {
            return RadixStep::ReadBack { from_src: self.in_src };
        }
        if should_break(self.priority, preempted) {
            return RadixStep::Cancelled;
        }
        let rest = self.lgn - self.lgp;
        let deg = if self.max_deg < rest {
            self.max_deg
        } else {
            rest
        };
        let ghost k = self.rounds as int;
        let ghost md = self.max_deg as int;
        let ghost lgn = self.lgn as int;
        proof {
            assert(self.lgp == k * md);
            assert(k < 32) by (nonlinear_arith)
                requires
                    k * md < lgn,
                    lgn <= 32,
                    md >= 1,
                    k >= 0,
            ;
            assert((k + 1) * md == k * md + md) by (nonlinear_arith);
        }
        let round = radix_round(self.lgn, self.lgp, deg, self.max_deg, self.in_src);
        self.lgp = self.lgp + deg;
        self.in_src = !self.in_src;
        self.rounds = self.rounds + 1;
        RadixStep::Launch(round)
    }
}

/// When the radix path has no stage left, `ceil(lgn / max_deg)` stages have
/// run, exactly one where `lgn <= MAX_RADIX_DEGREE`, and the result is in
/// the source buffer exactly when that count is even.
pub proof fn lemma_radix_readback(s: RadixSchedule)
    requires
        s.wf(),
        s.lgp == s.lgn,
    ensures
        s.rounds == stage_count(s.lgn as nat, s.max_deg as nat),
        s.in_src == (stage_count(s.lgn as nat, s.max_deg as nat) % 2 == 0),
        s.lgn <= MAX_RADIX_DEGREE ==> s.rounds == 1,
{
    let k = s.rounds as int;
    let md = s.max_deg as int;
    let lgn = s.lgn as int;
    assert(k >= 1) by {
        if k == 0 {
            assert(k * md == 0) by (nonlinear_arith)
                requires
                    k == 0,
            ;
            assert(s.lgp == 0);
        }
    }
    assert(k * md >= lgn);
    assert((k - 1) * md == k * md - md) by (nonlinear_arith);
    vstd::arithmetic::div_mod::lemma_fundamental_div_mod_converse(lgn + md - 1, md, k, lgn + md - 1 - k * md);
    if s.lgn <= MAX_RADIX_DEGREE {
        assert(md == lgn);
        assert(k == 1) by (nonlinear_arith)
            requires
                (k - 1) * md < lgn,
                md == lgn,
                md >= 1,
                k >= 1,
        ;
    }
}

/// What the in-place path does next.
#[derive(Clone, Copy, Debug, PartialEq, Eq)]
pub enum InplaceStep {
    /// Launch the `reverse_bits` kernel over the whole buffer.
    ReverseBits { global_work_size: u64, lgn: u32 },
    /// Launch the `inplace_fft` kernel for butterfly stage `lgm`.
    Butterfly { global_work_size: u64, lgn: u32, lgm: u32 },
    /// All kernels ran: read the buffer back.
    ReadBack,
}

/// Progress of one call of the in-place path: a bit-reversal permutation,
/// then `lgn` butterfly stages on one buffer.
#[derive(Clone, Copy, Debug, PartialEq, Eq)]
pub struct InplaceSchedule {
    pub lgn: u32,
    /// Kernels launched so far.
    pub launched: u32,
}

impl InplaceSchedule {
    pub open spec fn wf(&self) -> bool {
        1 <= self.lgn <= LOG2_MAX_SIZE && self.launched <= self.lgn + 1
    }

    /// Starts the in-place path for a slice of `len` elements. The priority
    /// signal is looked at here only: a holder without priority stops when
    /// `preempted`, before anything else.
    pub fn start(len: usize, lgn: u32, priority: bool, preempted: bool) -> (r: Result<
        InplaceSchedule,
        FftError,
    >)
        ensures
            spec_should_break(priority, preempted) ==> r == Err::<InplaceSchedule, FftError>(
                FftError::GpuTaken,
            ),
            !spec_should_break(priority, preempted) ==> (r is Ok <==> valid_size(len as nat, lgn as nat)),
            !spec_should_break(priority, preempted) && !valid_size(len as nat, lgn as nat) ==> r == Err::<
                InplaceSchedule,
                FftError,
            >(FftError::InvalidSize),
            r matches Ok(s) ==> s.wf() && s.lgn == lgn && s.launched == 0,
    {
        if should_break(priority, preempted) {
            return Err(FftError::GpuTaken);
        }
        match check_size(len, lgn) {
            Err(e) => Err(e),
            Ok(()) => Ok(InplaceSchedule { lgn, launched: 0 }),
        }
    }

    /// Decides the next kernel: first the bit reversal over `2^lgn` work
    /// items, then the butterfly stages `lgm = 0 .. lgn - 1` over `2^(lgn-1)`
    /// work items each, then the read-back.
    pub fn step(&mut self) -> (r: InplaceStep)
        requires
            old(self).wf(),
        ensures
            final(self).wf(),
            final(self).lgn == old(self).lgn,
            old(self).launched == 0 ==> r == (InplaceStep::ReverseBits {
                global_work_size: pow2(old(self).lgn as nat) as u64,
                lgn: old(self).lgn,
            }) && final(self).launched == 1,
            1 <= old(self).launched <= old(self).lgn ==> r == (InplaceStep::Butterfly {
                global_work_size: (pow2(old(self).lgn as nat) / 2) as u64,
                lgn: old(self).lgn,
                lgm: (old(self).launched - 1) as u32,
            }) && final(self).launched == old(self).launched + 1,
            old(self).launched > old(self).lgn ==> r == InplaceStep::ReadBack && *final(self) == *old(
                self,
            ),
    {
        if self.launched > self.lgn {
            return InplaceStep::ReadBack;
        }
        proof {
            lemma2_to64();
            lemma_u64_pow2_no_overflow(self.lgn as nat);
            lemma_u64_shl_is_mul(1, self.lgn as u64);
        }
        let n: u64 = 1u64 << (self.lgn as u64);
        let r = if self.launched == 0 {
            InplaceStep::ReverseBits { global_work_size: n, lgn: self.lgn }
        } else {
            proof {
                lemma_u64_shr_is_div(n, 1);
            }
            InplaceStep::Butterfly { global_work_size: n >> 1u64, lgn: self.lgn, lgm: self.launched - 1 }
        };
        self.launched = self.launched + 1;
        r
    }
}

} // verus!
