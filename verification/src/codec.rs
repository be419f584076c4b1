//! Start-up of the audio codec's microphone path: the register program
//! that configures 16 kHz, 16-bit capture clocked from the bit clock, and
//! the bookkeeping that runs it on the control bus, stopping at the first
//! failed write.

use vstd::prelude::*;

verus! {

/// Control bus address of the codec (7 bits).
pub const CODEC_ADDR: u8 = 0x18;

/// Number of steps in the microphone program.
pub const MIC_INIT_STEPS: usize = 23;

/// Iterations of the busy wait that lets a reset settle.
pub const SETTLE_SPINS: u32 = 200_000;

/// One step of a codec register program.
#[derive(Debug, Clone, Copy, PartialEq, Eq, Structural)]
pub enum CodecStep {
    /// Write `val` to register `reg`.
    Write { reg: u8, val: u8 },
    /// Wait for the chip to settle.
    Settle,
}

/// The program that starts the microphone (ADC) path.
pub open spec fn mic_init_program() -> Seq<CodecStep> {
    seq![
        CodecStep::Write { reg: 0x00, val: 0x1F },
        CodecStep::Settle,
        CodecStep::Write { reg: 0x00, val: 0x00 },
        CodecStep::Write { reg: 0x00, val: 0x80 },
        CodecStep::Write { reg: 0x01, val: 0xBF },
        CodecStep::Write { reg: 0x02, val: 0x10 },
        CodecStep::Write { reg: 0x03, val: 0x10 },
        CodecStep::Write { reg: 0x04, val: 0x10 },
        CodecStep::Write { reg: 0x05, val: 0x00 },
        CodecStep::Write { reg: 0x06, val: 0x03 },
        CodecStep::Write { reg: 0x07, val: 0x00 },
        CodecStep::Write { reg: 0x08, val: 0xFF },
        CodecStep::Write { reg: 0x09, val: 0x0C },
        CodecStep::Write { reg: 0x0A, val: 0x0C },
        CodecStep::Write { reg: 0x0D, val: 0x01 },
        CodecStep::Write { reg: 0x0E, val: 0x02 },
        CodecStep::Write { reg: 0x14, val: 0x1A },
        CodecStep::Write { reg: 0x15, val: 0x00 },
        CodecStep::Write { reg: 0x16, val: 0x06 },
        CodecStep::Write { reg: 0x17, val: 0xC8 },
        CodecStep::Write { reg: 0x1B, val: 0x0A },
        CodecStep::Write { reg: 0x1C, val: 0x6A },
        CodecStep::Write { reg: 0x00, val: 0x80 },
    ]
}

/// Step `i` of the microphone program, or `None` past its end.
pub fn mic_init_step(i: usize) -> (step: Option<CodecStep>)
    ensures
        step == (if (i as int) < mic_init_program().len() {
            Some(mic_init_program()[i as int])
        } else {
            None
        }),
{
    assert(mic_init_program().len() == MIC_INIT_STEPS);
    match i {
        0 => Some(CodecStep::Write { reg: 0x00, val: 0x1F }),  // reset
        1 => Some(CodecStep::Settle),  // let the reset take effect
        2 => Some(CodecStep::Write { reg: 0x00, val: 0x00 }),  // leave reset
        3 => Some(CodecStep::Write { reg: 0x00, val: 0x80 }),  // power on
        4 => Some(CodecStep::Write { reg: 0x01, val: 0xBF }),  // clock manager: the bit clock drives the internal master clock
        5 => Some(CodecStep::Write { reg: 0x02, val: 0x10 }),  // pre-divider 1, pre-multiplier 4
        6 => Some(CodecStep::Write { reg: 0x03, val: 0x10 }),  // single speed, ADC oversampling 0x10
        7 => Some(CodecStep::Write { reg: 0x04, val: 0x10 }),  // DAC oversampling 0x10
        8 => Some(CodecStep::Write { reg: 0x05, val: 0x00 }),  // ADC and DAC dividers 1
        9 => Some(CodecStep::Write { reg: 0x06, val: 0x03 }),  // bit clock divider 4
        10 => Some(CodecStep::Write { reg: 0x07, val: 0x00 }),  // LR clock divider, high byte
        11 => Some(CodecStep::Write { reg: 0x08, val: 0xFF }),  // LR clock divider, low byte
        12 => Some(CodecStep::Write { reg: 0x09, val: 0x0C }),  // 16-bit serial data in
        13 => Some(CodecStep::Write { reg: 0x0A, val: 0x0C }),  // 16-bit serial data out
        14 => Some(CodecStep::Write { reg: 0x0D, val: 0x01 }),  // analog power on
        15 => Some(CodecStep::Write { reg: 0x0E, val: 0x02 }),  // PGA and ADC modulator
        16 => Some(CodecStep::Write { reg: 0x14, val: 0x1A }),  // analog microphone, maximum PGA gain
        17 => Some(CodecStep::Write { reg: 0x15, val: 0x00 }),
        18 => Some(CodecStep::Write { reg: 0x16, val: 0x06 }),  // microphone gain
        19 => Some(CodecStep::Write { reg: 0x17, val: 0xC8 }),  // ADC digital volume
        20 => Some(CodecStep::Write { reg: 0x1B, val: 0x0A }),
        21 => Some(CodecStep::Write { reg: 0x1C, val: 0x6A }),  // ADC equalizer bypass, DC offset removal
        22 => Some(CodecStep::Write { reg: 0x00, val: 0x80 }),  // power on again
        _ => None,
    }
}

/// The two bytes sent on the bus to write `val` to register `reg`.
pub fn register_frame(reg: u8, val: u8) -> (frame: [u8; 2])
    ensures
        frame@ == seq![reg, val],
{
    let frame = [reg, val];
    assert(frame@ =~= seq![reg, val]);
    frame
}

/// Where a codec program stands.
#[derive(Debug, Clone, Copy, PartialEq, Eq, Structural)]
pub enum ProgramStatus {
    /// Step `0` of the remaining program is due.
    Running,
    /// Every step succeeded.
    Done,
    /// A write failed; nothing more is done.
    Failed,
}

/// Runs the microphone program one step at a time.
pub struct MicInit {
    next: usize,
    failed: bool,
}

impl MicInit {
    /// Index of the next step.
    pub closed spec fn position(&self) -> int {
        self.next as int
    }

    /// A write has failed.
    pub closed spec fn has_failed(&self) -> bool {
        self.failed
    }

    /// The position never passes the end of the program.
    pub closed spec fn wf(&self) -> bool {
        self.next as int <= mic_init_program().len()
    }

    /// The step due now: `None` once the program is complete or a write
    /// failed.
    pub open spec fn due(&self) -> Option<CodecStep> {
        if !self.has_failed() && self.position() < mic_init_program().len() {
            Some(mic_init_program()[self.position()])
        } else {
            None
        }
    }

    /// The program at its first step.
    pub fn new() -> (m: Self)
        ensures
            m.wf(),
            m.position() == 0,
            !m.has_failed(),
    {
        MicInit { next: 0, failed: false }
    }

    /// The step to perform now, if any.
    pub fn action(&self) -> (step: Option<CodecStep>)
        requires
            self.wf(),
        ensures
            step == self.due(),
    {
        if self.failed {
            None
        } else {
            mic_init_step(self.next)
        }
    }

    /// Where the program stands.
    pub fn status(&self) -> (s: ProgramStatus)
        requires
            self.wf(),
        ensures
            s == (if self.has_failed() {
                ProgramStatus::Failed
            } else if self.position() == mic_init_program().len() {
                ProgramStatus::Done
            } else {
                ProgramStatus::Running
            }),
    {
        if self.failed {
            ProgramStatus::Failed
        } else if self.next == MIC_INIT_STEPS {
            ProgramStatus::Done
        } else {
            ProgramStatus::Running
        }
    }

    /// Reports the outcome of the due step (a settle step always
    /// succeeds): success moves to the next step, a failure ends the
    /// program.
    pub fn complete(&mut self, ok: bool)
        requires
            old(self).wf(),
            old(self).due() is Some,
        ensures
            final(self).wf(),
            ok ==> final(self).position() == old(self).position() + 1 && !final(self).has_failed(),
            !ok ==> final(self).position() == old(self).position() && final(self).has_failed(),
    {
        if ok {
            self.next = self.next + 1;
        } else {
            self.failed = true;
        }
    }
}

/// Once a write has failed the program performs nothing more.
pub proof fn lemma_failure_is_final(m: MicInit)
    requires
        m.has_failed(),
    ensures
        m.due() is None,
{
}

/// A run that never fails performs the program's steps in order and then
/// reports it complete: the steps due at positions `0, 1, ...` are the
/// program's steps.
pub proof fn lemma_program_order(m: MicInit)
    requires
        m.wf(),
        !m.has_failed(),
    ensures
        m.position() < mic_init_program().len() ==> m.due() == Some(mic_init_program()[m.position()]),
        m.position() == mic_init_program().len() ==> m.due() is None,
{
}

/// A short busy wait that lets the codec settle after a reset.
pub fn spin_delay() {
    let mut i: u32 = 0;
    while i < SETTLE_SPINS
        invariant
            i <= SETTLE_SPINS,
        decreases SETTLE_SPINS - i,
    {
        spin_hint();
        i += 1;
    }
}

/// Calls `core::hint::spin_loop`, which tells the processor that it is in
/// a busy-wait loop; it has no effect that the program can observe.
#[verifier::external_body]
fn spin_hint() {
    core::hint::spin_loop()
}

/// The codec on its control bus.
pub struct Es8311<I2C> {
    i2c: I2C,
}

impl<I2C> Es8311<I2C> {
    /// The bus the codec is on.
    pub closed spec fn bus(&self) -> I2C {
        self.i2c
    }

    /// The codec on `i2c`.
    pub fn new(i2c: I2C) -> (c: Self)
        ensures
            c.bus() == i2c,
    {
        Es8311 { i2c }
    }

    /// Gives the bus back, for sharing it with other devices.
    pub fn into_inner(self) -> (i2c: I2C)
        ensures
            i2c == self.bus(),
    {
        self.i2c
    }

    /// The bus, for performing the program's writes.
    pub fn bus_mut(&mut self) -> (i2c: &mut I2C)
        ensures
            *i2c == old(self).bus(),
            final(self).bus() == *final(i2c),
    {
        &mut self.i2c
    }
}

} // verus!
