//! Fully virtualized ARM timer for deterministic execution.
//!
//! The ARM architected timer (CNTVCT_EL0) is the primary source of
//! non-determinism in a VM. All timer register accesses are trapped, and a
//! virtual counter advances by a fixed increment per read.
//!
//! On WFI (wait for interrupt), time warps directly to the next programmed
//! timer deadline instead of spinning. The counter is a 64-bit register:
//! it wraps like one.

use vstd::prelude::*;

verus! {

/// Fixed counter frequency advertised to the guest (matches Apple Silicon).
pub const COUNTER_FREQ_HZ: u64 = 24_000_000;

/// How many counter ticks to advance per CNTVCT read.
/// 24 ticks = 1 microsecond at 24 MHz.
pub const INCREMENT_PER_READ: u64 = 24;

/// Ticks that pass on a WFI with no timer armed: 10 ms.
pub const IDLE_WFI_TICKS: u64 = 240_000;

/// The deterministic timer of one VM.
#[derive(Clone, Copy, Debug, PartialEq, Eq, Structural)]
pub struct VirtualTimer {
    /// Current virtual counter value.
    pub counter: u64,
    /// The guest's programmed timer comparator value (CNTV_CVAL_EL0).
    pub cval: u64,
    /// CNTV_CTL_EL0: bit 0 = ENABLE, bit 1 = IMASK
    pub ctl: u64,
}

/// `x` modulo 2^64, as a register holds it.
pub open spec fn wrap64(x: int) -> u64 {
    (x % 0x1_0000_0000_0000_0000) as u64
}

/// The low 32 bits of `x` read as a signed number.
pub open spec fn low32_signed(x: u64) -> int {
    let low = x as int % 0x1_0000_0000;
    if low < 0x8000_0000 {
        low
    } else {
        low - 0x1_0000_0000
    }
}

/// Bit 0 of the control register.
pub open spec fn ctl_enabled(ctl: u64) -> bool {
    ctl % 2 == 1
}

/// Bit 1 of the control register.
pub open spec fn ctl_masked(ctl: u64) -> bool {
    (ctl / 2) % 2 == 1
}

/// `ctl` with bit 2 (ISTATUS) set.
pub open spec fn with_istatus(ctl: u64) -> u64 {
    if (ctl / 4) % 2 == 1 {
        ctl
    } else {
        (ctl + 4) as u64
    }
}

impl VirtualTimer {
    /// The deadline has been reached.
    pub open spec fn deadline_reached(self) -> bool {
        self.counter >= self.cval
    }

    /// The timer may raise an interrupt: enabled and not masked.
    pub open spec fn armed(self) -> bool {
        ctl_enabled(self.ctl) && !ctl_masked(self.ctl)
    }

    /// An interrupt is due.
    pub open spec fn pending(self) -> bool {
        self.armed() && self.deadline_reached()
    }

    /// The timer after one counter read.
    pub open spec fn after_counter_read(self) -> VirtualTimer {
        VirtualTimer { counter: wrap64(self.counter + INCREMENT_PER_READ), ..self }
    }

    /// The timer after `n` counter reads.
    pub open spec fn after_counter_reads(self, n: nat) -> VirtualTimer
        decreases n,
    {
        if n == 0 {
            self
        } else {
            self.after_counter_reads((n - 1) as nat).after_counter_read()
        }
    }

    /// The timer after `value` was written to CNTV_TVAL_EL0.
    pub open spec fn after_tval_write(self, value: u64) -> VirtualTimer {
        VirtualTimer { cval: wrap64(self.counter + low32_signed(value)), ..self }
    }

    /// What CNTV_CTL_EL0 reads as.
    pub open spec fn ctl_value(self) -> u64 {
        if self.deadline_reached() {
            with_istatus(self.ctl)
        } else {
            self.ctl
        }
    }

    /// What CNTV_TVAL_EL0 reads as: the ticks that are left, as a 32-bit
    /// signed number sign-extended to 64 bits.
    pub open spec fn tval_value(self) -> u64 {
        wrap64(low32_signed(wrap64(self.cval - self.counter)))
    }

    /// The timer after a WFI.
    pub open spec fn after_wfi(self) -> VirtualTimer {
        if !self.armed() {
            VirtualTimer { counter: wrap64(self.counter + IDLE_WFI_TICKS), ..self }
        } else if self.deadline_reached() {
            self
        } else {
            VirtualTimer { counter: self.cval, ..self }
        }
    }

    /// A timer at tick 0 with no deadline, disabled.
    pub fn new() -> (t: Self)
        ensures
            t.counter == 0,
            t.cval == u64::MAX,
            t.ctl == 0,
    {
        VirtualTimer { counter: 0, cval: u64::MAX, ctl: 0 }
    }

    /// Handle a trapped CNTVCT_EL0 or CNTPCT_EL0 read.
    /// Advances the counter by a fixed increment and returns the new value.
    pub fn read_counter(&mut self) -> (value: u64)
        ensures
            *final(self) == old(self).after_counter_read(),
            value == final(self).counter,
    {
        self.counter = self.counter.wrapping_add(INCREMENT_PER_READ);
        self.counter
    }

    /// Handle a trapped CNTV_CVAL_EL0 write (absolute deadline).
    pub fn write_cval(&mut self, value: u64)
        ensures
            *final(self) == (VirtualTimer { cval: value, ..*old(self) }),
    {
        self.cval = value;
    }

    /// Handle a trapped CNTV_TVAL_EL0 write (relative deadline).
    /// TVAL sets CVAL = counter + tval, where tval is a signed 32-bit value.
    pub fn write_tval(&mut self, value: u64)
        ensures
            *final(self) == old(self).after_tval_write(value),
    {
        let tval: u64 = sign_extend32(value);
        self.cval = self.counter.wrapping_add(tval);
    }

    /// Handle a trapped CNTV_CTL_EL0 write.
    pub fn write_ctl(&mut self, value: u64)
        ensures
            *final(self) == (VirtualTimer { ctl: value, ..*old(self) }),
    {
        self.ctl = value;
    }

    /// Read CNTV_CTL_EL0. Bit 2 (ISTATUS) is set when counter >= cval.
    pub fn read_ctl(&self) -> (value: u64)
        ensures
            value == self.ctl_value(),
    {
        proof {
            lemma_ctl_bits(self.ctl);
        }
        let mut val: u64 = self.ctl;
        if self.counter >= self.cval {
            val = val | 4;
        }
        val
    }

    /// Read CNTV_CVAL_EL0.
    pub fn read_cval(&self) -> (value: u64)
        ensures
            value == self.cval,
    {
        self.cval
    }

    /// Read CNTV_TVAL_EL0: the ticks left until the deadline.
    pub fn read_tval(&self) -> (value: u64)
        ensures
            value == self.tval_value(),
    {
        sign_extend32(self.cval.wrapping_sub(self.counter))
    }

    /// Is the timer enabled and unmasked?
    pub fn timer_enabled_unmasked(&self) -> (b: bool)
        ensures
            b == self.armed(),
    {
        proof {
            lemma_ctl_bits(self.ctl);
        }
        let enabled = (self.ctl & 1) != 0;
        let masked = (self.ctl & 2) != 0;
        enabled && !masked
    }

    /// Has the timer expired: may it fire, and is counter >= deadline?
    pub fn timer_expired(&self) -> (b: bool)
        ensures
            b == self.pending(),
    {
        self.timer_enabled_unmasked() && self.counter >= self.cval
    }

    /// Handle WFI: warp time to the next timer deadline.
    /// Returns true if a timer interrupt should be injected.
    pub fn handle_wfi(&mut self) -> (inject: bool)
        ensures
            *final(self) == old(self).after_wfi(),
            inject == old(self).armed(),
    {
        if !self.timer_enabled_unmasked() {
            // No timer active: advance a small amount, which prevents hangs.
            self.counter = self.counter.wrapping_add(IDLE_WFI_TICKS);
            return false;
        }
        if self.counter < self.cval {
            // Warp to the deadline
            self.counter = self.cval;
        }
        true
    }

    /// Check if a timer interrupt should be pending before VM entry.
    pub fn check_pending(&self) -> (b: bool)
        ensures
            b == self.pending(),
    {
        self.timer_expired()
    }
}

/// The low 32 bits of `x`, sign-extended to 64.
fn sign_extend32(x: u64) -> (r: u64)
    ensures
        r == wrap64(low32_signed(x)),
{
    let low: u64 = x % 0x1_0000_0000;
    if low < 0x8000_0000 {
        low
    } else {
        low + 0xffff_ffff_0000_0000
    }
}

/// What the masks of the control register say in arithmetic.
proof fn lemma_ctl_bits(ctl: u64)
    ensures
        ((ctl & 1) != 0) == ctl_enabled(ctl),
        ((ctl & 2) != 0) == ctl_masked(ctl),
        (ctl | 4) == with_istatus(ctl),
{
    assert(((ctl & 1) != 0) == (ctl % 2 == 1)) by (bit_vector);
    assert(((ctl & 2) != 0) == ((ctl / 2) % 2 == 1)) by (bit_vector);
    assert((ctl | 4) == (if (ctl / 4) % 2 == 1 {
        ctl as int
    } else {
        ctl + 4
    })) by (bit_vector);
}

// Laws

/// Any number of counter reads moves the counter forward by exactly one
/// increment each, and touches neither the deadline nor the control register.
/// The counter wraps like a 64-bit register.
pub proof fn law_counter_reads_are_evenly_spaced(t: VirtualTimer, n: nat)
    ensures
        t.after_counter_reads(n).counter == wrap64(t.counter + n * INCREMENT_PER_READ),
        t.counter + n * INCREMENT_PER_READ <= u64::MAX ==> t.after_counter_reads(n).counter
            == t.counter + n * INCREMENT_PER_READ,
        t.after_counter_reads(n).cval == t.cval,
        t.after_counter_reads(n).ctl == t.ctl,
    decreases n,
{
    if n > 0 {
        law_counter_reads_are_evenly_spaced(t, (n - 1) as nat);
    }
}

/// A WFI that injects an interrupt leaves the timer pending, so the guest
/// finds the interrupt it was waiting for; a second WFI does not move time.
pub proof fn law_wfi_leaves_the_deadline_reached(t: VirtualTimer)
    requires
        t.armed(),
    ensures
        t.after_wfi().pending(),
        t.after_wfi().after_wfi() == t.after_wfi(),
        t.after_wfi().counter >= t.counter,
        t.after_wfi().counter >= t.cval,
        t.after_wfi().counter == t.counter || t.after_wfi().counter == t.cval,
{
}

/// Reading TVAL right after writing it gives back the low 32 bits that were
/// written, sign-extended.
pub proof fn law_tval_read_returns_what_was_written(t: VirtualTimer, value: u64)
    ensures
        t.after_tval_write(value).tval_value() == wrap64(low32_signed(value)),
{
}

/// ISTATUS (bit 2) reads as set exactly when the guest wrote it as set, or
/// the deadline is reached; the other bits read as written.
pub proof fn law_istatus_reflects_expiry(t: VirtualTimer)
    ensures
        (t.ctl_value() / 4) % 2 == 1 <==> (t.ctl / 4) % 2 == 1 || t.deadline_reached(),
        t.ctl_value() % 4 == t.ctl % 4,
        t.ctl_value() / 8 == t.ctl / 8,
{
    let ctl = t.ctl;
    assert((with_istatus(ctl) / 4) % 2 == 1 && with_istatus(ctl) % 4 == ctl % 4 && with_istatus(ctl)
        / 8 == ctl / 8) by (bit_vector);
}

/// A masked or disabled timer is never pending, however late it is.
pub proof fn law_masked_timer_is_silent(t: VirtualTimer)
    requires
        ctl_masked(t.ctl) || !ctl_enabled(t.ctl),
    ensures
        !t.pending(),
{
}

/// The timer fires exactly when it is enabled (bit 0), not masked (bit 1), and
/// the counter has come to the deadline.
pub proof fn law_fires_at_the_deadline(t: VirtualTimer)
    ensures
        t.pending() <==> t.ctl % 2 == 1 && (t.ctl / 2) % 2 == 0 && t.counter >= t.cval,
        t.armed() <==> t.ctl % 4 == 1,
        (t.ctl_value() / 4) % 2 == 1 <==> (t.ctl / 4) % 2 == 1 || t.counter >= t.cval,
        t.counter < t.cval ==> t.ctl_value() == t.ctl,
{
    law_istatus_reflects_expiry(t);
}

/// A relative deadline counts from now: a value below 2^31 lies that many ticks
/// ahead, any other one as many ticks back as it is short of 2^32. The counter
/// and the control register stay as they are.
pub proof fn law_tval_counts_from_now(t: VirtualTimer, value: u64)
    ensures
        ({
            let low = value as int % 0x1_0000_0000;
            let ticks = if low < 0x8000_0000 {
                low
            } else {
                low - 0x1_0000_0000
            };
            let after = t.after_tval_write(value);
            &&& 0 <= t.counter + ticks <= u64::MAX ==> after.cval == t.counter + ticks
            &&& (after.cval - t.counter - ticks) % 0x1_0000_0000_0000_0000 == 0
            &&& after.counter == t.counter
            &&& after.ctl == t.ctl
            &&& after.tval_value() == if ticks >= 0 {
                ticks
            } else {
                ticks + 0x1_0000_0000_0000_0000
            }
        }),
{
}

/// The ticks that are left, as the guest reads them: with a deadline less than
/// 2^31 ticks ahead or back, the distance itself, in two's complement.
pub proof fn law_tval_reads_the_distance(t: VirtualTimer)
    requires
        -0x8000_0000 <= t.cval - t.counter < 0x8000_0000,
    ensures
        t.cval >= t.counter ==> t.tval_value() == t.cval - t.counter,
        t.cval < t.counter ==> t.tval_value() == t.cval - t.counter + 0x1_0000_0000_0000_0000,
{
}

/// An idle guest with an armed timer wakes at its deadline, or at once if that
/// has passed; with none it wakes 10 ms later (at 24 MHz). Nothing but the
/// counter moves.
pub proof fn law_idle_time(t: VirtualTimer)
    ensures
        t.ctl % 4 == 1 && t.counter < t.cval ==> t.after_wfi().counter == t.cval,
        t.ctl % 4 == 1 && t.counter >= t.cval ==> t.after_wfi().counter == t.counter,
        t.ctl % 4 != 1 && t.counter + 240_000 <= u64::MAX ==> t.after_wfi().counter == t.counter
            + 240_000,
        t.ctl % 4 != 1 ==> (t.after_wfi().counter - t.counter - 240_000)
            % 0x1_0000_0000_0000_0000 == 0,
        t.after_wfi().cval == t.cval,
        t.after_wfi().ctl == t.ctl,
        240_000 * 100 == COUNTER_FREQ_HZ,
{
}

/// A counter read is one microsecond (at 24 MHz).
pub proof fn law_a_read_is_a_microsecond(t: VirtualTimer)
    ensures
        t.counter + 24 <= u64::MAX ==> t.after_counter_read().counter == t.counter + 24,
        (t.after_counter_read().counter - t.counter - 24) % 0x1_0000_0000_0000_0000 == 0,
        24 * 1_000_000 == COUNTER_FREQ_HZ,
{
}

} // verus!
