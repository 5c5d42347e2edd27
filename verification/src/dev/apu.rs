#![allow(non_snake_case, non_camel_case_types)]

use crate::mem::{BankController, MMU, MemView, spec_bit, spec_with_bit, NR_10, NR_11, NR_12, NR_13,
    NR_14, NR_21, NR_22, NR_23, NR_24, NR_30, NR_31, NR_32, NR_33, NR_34, NR_41, NR_42, NR_43,
    NR_44, NR_51, NR_52};
use crate::bits::{lemma_and_le, lemma_shr_le, lemma_pow2_shift};
use super::Clocked;
use vstd::prelude::*;

verus! {

pub const CPU_FREQUENCY: u32 = 0x100000;
pub const SEQUENCER_FREQUENCY: u32 = 512;
pub const SEQUENCER_UPDATE_RATE: u16 = 2048;  // CPU_FREQUENCY / SEQUENCER_FREQUENCY
pub const SEQUENCER_STEP_COUNT: u16 = 8;
pub const DUTY_CYCLE_COUNT: u16 = 4;
pub const DUTY_CYCLE_STEPS: u16 = 8;
pub const BUFF_SIZE: usize = 1024;
pub const PLAYBACK_FREQUENCY: u32 = 44100;
pub const SAMPLE_APPEND_RATE: u16 = 24;  // CPU_FREQUENCY / PLAYBACK_FREQUENCY + 1
pub const WAVE_RAM_SAMPLE_COUNT: usize = 32;
pub const WAVE_RAM_BASE: u16 = 0xFF30;
pub const NOISE_LSFR_SIZE: usize = 16;

/// Whether step `step` of the 8-step waveform of duty pattern `duty` is high:
/// 12.5%, 25%, 50% and 75% of the period.
pub open spec fn spec_duty_on(duty: u8, step: u16) -> bool {
    if duty == 0 { step >= 1 }
    else if duty == 1 { step >= 2 }
    else if duty == 2 { step >= 4 }
    else { step >= 6 }
}

fn duty_on(duty: u8, step: u16) -> (res: bool)
    requires
        duty <= 3,
        step < DUTY_CYCLE_STEPS,
    ensures
        res == spec_duty_on(duty, step),
{
    let table: [[bool; 8]; 4] = [
        [false, true, true, true, true, true, true, true],  // 12.5%
        [false, false, true, true, true, true, true, true],  // 25%
        [false, false, false, false, true, true, true, true],  // 50%
        [false, false, false, false, false, false, true, true],  // 75%
    ];
    let row = table[duty as usize];
    row[step as usize]
}

/// An output sample: a fifteenth of the full scale per volume step when the wave is high.
pub open spec fn spec_sample(on: bool, volume: u16) -> i16 {
    if on { (2184 * volume) as i16 } else { 0 }
}

fn sample(on: bool, volume: u16) -> (res: i16)
    requires
        volume <= 0xF,
    ensures
        res == spec_sample(on, volume),
{
    if on {
        let unit: i16 = i16::MAX / 0xF;
        assert(unit == 2184);
        assert(2184 * (volume as i16) <= 32760);
        unit * (volume as i16)
    } else {
        0
    }
}

/// Access to the memory mapped registers of a square wave channel.
pub trait SquareWaveRegisters {
    spec fn spec_sweep_time(&self, io: Seq<u8>) -> u16;
    spec fn spec_sweep_shifts(&self, io: Seq<u8>) -> u8;
    spec fn spec_sweep_direction(&self, io: Seq<u8>) -> bool;
    spec fn spec_sound_length(&self, io: Seq<u8>) -> u16;
    spec fn spec_wave_duty(&self, io: Seq<u8>) -> u8;
    spec fn spec_envelope_shifts(&self, io: Seq<u8>) -> u8;
    spec fn spec_envelope_direction(&self, io: Seq<u8>) -> bool;
    spec fn spec_initial_volume(&self, io: Seq<u8>) -> u16;
    spec fn spec_freq(&self, io: Seq<u8>) -> u16;
    spec fn spec_counter_select(&self, io: Seq<u8>) -> bool;
    /// The register holding the trigger flag (bit 7).
    spec fn spec_control_reg(&self) -> u16;
    /// The channel's on/off bit in NR52.
    spec fn spec_enable_bit(&self) -> u8;

    fn SWEEP_TIME<B: BankController>(&self, mmu: &mut MMU<B>) -> (res: u16)
        requires old(mmu).inv(),
        ensures final(mmu).inv(), final(mmu)@ == old(mmu)@, res == self.spec_sweep_time(old(mmu)@.io);
    fn SWEEP_SHIFTS<B: BankController>(&self, mmu: &mut MMU<B>) -> (res: u8)
        requires old(mmu).inv(),
        ensures final(mmu).inv(), final(mmu)@ == old(mmu)@, res == self.spec_sweep_shifts(old(mmu)@.io), res < 8;
    fn SWEEP_DIRECTION<B: BankController>(&self, mmu: &mut MMU<B>) -> (res: bool)
        requires old(mmu).inv(),
        ensures final(mmu).inv(), final(mmu)@ == old(mmu)@, res == self.spec_sweep_direction(old(mmu)@.io);
    fn SOUND_LENGTH<B: BankController>(&self, mmu: &mut MMU<B>) -> (res: u16)
        requires old(mmu).inv(),
        ensures final(mmu).inv(), final(mmu)@ == old(mmu)@, res == self.spec_sound_length(old(mmu)@.io);
    fn WAVE_DUTY<B: BankController>(&self, mmu: &mut MMU<B>) -> (res: u8)
        requires old(mmu).inv(),
        ensures final(mmu).inv(), final(mmu)@ == old(mmu)@, res == self.spec_wave_duty(old(mmu)@.io), res <= 3;
    fn ENVELOPE_SHIFTS<B: BankController>(&self, mmu: &mut MMU<B>) -> (res: u8)
        requires old(mmu).inv(),
        ensures final(mmu).inv(), final(mmu)@ == old(mmu)@, res == self.spec_envelope_shifts(old(mmu)@.io);
    fn ENVELOPE_DIRECTION<B: BankController>(&self, mmu: &mut MMU<B>) -> (res: bool)
        requires old(mmu).inv(),
        ensures final(mmu).inv(), final(mmu)@ == old(mmu)@, res == self.spec_envelope_direction(old(mmu)@.io);
    fn INITIAL_VOLUME<B: BankController>(&self, mmu: &mut MMU<B>) -> (res: u16)
        requires old(mmu).inv(),
        ensures final(mmu).inv(), final(mmu)@ == old(mmu)@, res == self.spec_initial_volume(old(mmu)@.io), res <= 0xF;
    fn FREQ<B: BankController>(&self, mmu: &mut MMU<B>) -> (res: u16)
        requires old(mmu).inv(),
        ensures final(mmu).inv(), final(mmu)@ == old(mmu)@, res == self.spec_freq(old(mmu)@.io), res <= 0x7FF;
    fn COUNTER_CONSECUTIVE_SELECT<B: BankController>(&self, mmu: &mut MMU<B>) -> (res: bool)
        requires old(mmu).inv(),
        ensures final(mmu).inv(), final(mmu)@ == old(mmu)@, res == self.spec_counter_select(old(mmu)@.io);
    fn INITIAL<B: BankController>(&self, mmu: &mut MMU<B>) -> (res: bool)
        requires old(mmu).inv(),
        ensures final(mmu).inv(), final(mmu)@ == old(mmu)@,
            res == spec_bit(old(mmu)@.reg(self.spec_control_reg()), 7);
    fn _INITIAL<B: BankController>(&self, mmu: &mut MMU<B>, value: bool)
        requires old(mmu).inv(),
        ensures final(mmu).inv(),
            final(mmu)@ == old(mmu)@.poke(self.spec_control_reg(),
                spec_with_bit(old(mmu)@.reg(self.spec_control_reg()), 7, value));
    fn ENABLED<B: BankController>(&self, mmu: &mut MMU<B>) -> (res: bool)
        requires old(mmu).inv(),
        ensures final(mmu).inv(), final(mmu)@ == old(mmu)@,
            res == spec_bit(old(mmu)@.reg(NR_52), self.spec_enable_bit());
    fn _ENABLED<B: BankController>(&self, mmu: &mut MMU<B>, value: bool)
        requires old(mmu).inv(),
        ensures final(mmu).inv(),
            final(mmu)@ == old(mmu)@.poke(NR_52, spec_with_bit(old(mmu)@.reg(NR_52), self.spec_enable_bit(), value));
}
pub struct Channel1Regs;

impl SquareWaveRegisters for Channel1Regs {
    // NR10 - sweep register
    open spec fn spec_sweep_time(&self, io: Seq<u8>) -> u16 { (io[NR_10 - 0xFF00] >> 4u8) as u16 }
    open spec fn spec_sweep_shifts(&self, io: Seq<u8>) -> u8 { io[NR_10 - 0xFF00] & 7 }
    open spec fn spec_sweep_direction(&self, io: Seq<u8>) -> bool { spec_bit(io[NR_10 - 0xFF00], 3) }
    // length and wave duty
    open spec fn spec_sound_length(&self, io: Seq<u8>) -> u16 { (io[NR_11 - 0xFF00] & 0x3F) as u16 }
    open spec fn spec_wave_duty(&self, io: Seq<u8>) -> u8 { io[NR_11 - 0xFF00] >> 6u8 }
    // volume envelope
    open spec fn spec_envelope_shifts(&self, io: Seq<u8>) -> u8 { io[NR_12 - 0xFF00] & 7 }
    open spec fn spec_envelope_direction(&self, io: Seq<u8>) -> bool { spec_bit(io[NR_22 - 0xFF00], 3) }
    open spec fn spec_initial_volume(&self, io: Seq<u8>) -> u16 { (io[NR_12 - 0xFF00] >> 4u8) as u16 }
    // frequency: 3 high bits and 8 low bits
    open spec fn spec_freq(&self, io: Seq<u8>) -> u16 { (((io[NR_14 - 0xFF00] & 7) as u16) * 256 + io[NR_13 - 0xFF00] as u16) as u16 }
    open spec fn spec_counter_select(&self, io: Seq<u8>) -> bool { spec_bit(io[NR_14 - 0xFF00], 6) }
    open spec fn spec_control_reg(&self) -> u16 { NR_14 }
    open spec fn spec_enable_bit(&self) -> u8 { 0 }

    fn SWEEP_TIME<B: BankController>(&self, mmu: &mut MMU<B>) -> (res: u16) {
        (mmu.read(NR_10) >> 4u8) as u16
    }

    fn SWEEP_SHIFTS<B: BankController>(&self, mmu: &mut MMU<B>) -> (res: u8) {
        let r = mmu.read(NR_10);
        proof { lemma_and_le(r, 7); }
        r & 7
    }

    fn SWEEP_DIRECTION<B: BankController>(&self, mmu: &mut MMU<B>) -> (res: bool) {
        mmu.read_bit(NR_10, 3)
    }

    fn SOUND_LENGTH<B: BankController>(&self, mmu: &mut MMU<B>) -> (res: u16) {
        (mmu.read(NR_11) & 0x3F) as u16
    }

    fn WAVE_DUTY<B: BankController>(&self, mmu: &mut MMU<B>) -> (res: u8) {
        let r = mmu.read(NR_11);
        proof { lemma_shr_le(r, 6); }
        r >> 6u8
    }

    fn ENVELOPE_SHIFTS<B: BankController>(&self, mmu: &mut MMU<B>) -> (res: u8) {
        mmu.read(NR_12) & 7
    }

    fn ENVELOPE_DIRECTION<B: BankController>(&self, mmu: &mut MMU<B>) -> (res: bool) {
        mmu.read_bit(NR_22, 3)
    }

    fn INITIAL_VOLUME<B: BankController>(&self, mmu: &mut MMU<B>) -> (res: u16) {
        let r = mmu.read(NR_12);
        proof { lemma_shr_le(r, 4); }
        (r >> 4u8) as u16
    }

    fn FREQ<B: BankController>(&self, mmu: &mut MMU<B>) -> (res: u16) {
        let hi = mmu.read(NR_14) & 7;
        let lo = mmu.read(NR_13);
        proof { lemma_and_le(old(mmu)@.reg(NR_14), 7); }
        (hi as u16) * 256 + lo as u16
    }

    fn COUNTER_CONSECUTIVE_SELECT<B: BankController>(&self, mmu: &mut MMU<B>) -> (res: bool) {
        mmu.read_bit(NR_14, 6)
    }

    fn INITIAL<B: BankController>(&self, mmu: &mut MMU<B>) -> (res: bool) {
        mmu.read_bit(NR_14, 7)
    }

    fn _INITIAL<B: BankController>(&self, mmu: &mut MMU<B>, value: bool) {
        mmu.set_bit(NR_14, 7, value)
    }

    // NR52 - sound on/off
    fn ENABLED<B: BankController>(&self, mmu: &mut MMU<B>) -> (res: bool) {
        mmu.read_bit(NR_52, 0)
    }

    fn _ENABLED<B: BankController>(&self, mmu: &mut MMU<B>, value: bool) {
        mmu.set_bit(NR_52, 0, value)
    }
}

pub struct Channel2Regs;

impl SquareWaveRegisters for Channel2Regs {
    // No sweep in channel 2
    open spec fn spec_sweep_time(&self, io: Seq<u8>) -> u16 { 0 }
    open spec fn spec_sweep_shifts(&self, io: Seq<u8>) -> u8 { 0 }
    open spec fn spec_sweep_direction(&self, io: Seq<u8>) -> bool { false }
    // length and wave duty
    open spec fn spec_sound_length(&self, io: Seq<u8>) -> u16 { (io[NR_21 - 0xFF00] & 0x3F) as u16 }
    open spec fn spec_wave_duty(&self, io: Seq<u8>) -> u8 { io[NR_21 - 0xFF00] >> 6u8 }
    // volume envelope
    open spec fn spec_envelope_shifts(&self, io: Seq<u8>) -> u8 { io[NR_22 - 0xFF00] & 7 }
    open spec fn spec_envelope_direction(&self, io: Seq<u8>) -> bool { spec_bit(io[NR_22 - 0xFF00], 3) }
    open spec fn spec_initial_volume(&self, io: Seq<u8>) -> u16 { (io[NR_22 - 0xFF00] >> 4u8) as u16 }
    // frequency: 3 high bits and 8 low bits
    open spec fn spec_freq(&self, io: Seq<u8>) -> u16 { (((io[NR_24 - 0xFF00] & 7) as u16) * 256 + io[NR_23 - 0xFF00] as u16) as u16 }
    open spec fn spec_counter_select(&self, io: Seq<u8>) -> bool { spec_bit(io[NR_24 - 0xFF00], 6) }
    open spec fn spec_control_reg(&self) -> u16 { NR_24 }
    open spec fn spec_enable_bit(&self) -> u8 { 1 }

    fn SWEEP_TIME<B: BankController>(&self, mmu: &mut MMU<B>) -> (res: u16) {
        0
    }

    fn SWEEP_SHIFTS<B: BankController>(&self, mmu: &mut MMU<B>) -> (res: u8) {
        0
    }

    fn SWEEP_DIRECTION<B: BankController>(&self, mmu: &mut MMU<B>) -> (res: bool) {
        false
    }

    fn SOUND_LENGTH<B: BankController>(&self, mmu: &mut MMU<B>) -> (res: u16) {
        (mmu.read(NR_21) & 0x3F) as u16
    }

    fn WAVE_DUTY<B: BankController>(&self, mmu: &mut MMU<B>) -> (res: u8) {
        let r = mmu.read(NR_21);
        proof { lemma_shr_le(r, 6); }
        r >> 6u8
    }

    fn ENVELOPE_SHIFTS<B: BankController>(&self, mmu: &mut MMU<B>) -> (res: u8) {
        mmu.read(NR_22) & 7
    }

    fn ENVELOPE_DIRECTION<B: BankController>(&self, mmu: &mut MMU<B>) -> (res: bool) {
        mmu.read_bit(NR_22, 3)
    }

    fn INITIAL_VOLUME<B: BankController>(&self, mmu: &mut MMU<B>) -> (res: u16) {
        let r = mmu.read(NR_22);
        proof { lemma_shr_le(r, 4); }
        (r >> 4u8) as u16
    }

    fn FREQ<B: BankController>(&self, mmu: &mut MMU<B>) -> (res: u16) {
        let hi = mmu.read(NR_24) & 7;
        let lo = mmu.read(NR_23);
        proof { lemma_and_le(old(mmu)@.reg(NR_24), 7); }
        (hi as u16) * 256 + lo as u16
    }

    fn COUNTER_CONSECUTIVE_SELECT<B: BankController>(&self, mmu: &mut MMU<B>) -> (res: bool) {
        mmu.read_bit(NR_24, 6)
    }

    fn INITIAL<B: BankController>(&self, mmu: &mut MMU<B>) -> (res: bool) {
        mmu.read_bit(NR_24, 7)
    }

    fn _INITIAL<B: BankController>(&self, mmu: &mut MMU<B>, value: bool) {
        mmu.set_bit(NR_24, 7, value)
    }

    // NR52 - sound on/off
    fn ENABLED<B: BankController>(&self, mmu: &mut MMU<B>) -> (res: bool) {
        mmu.read_bit(NR_52, 1)
    }

    fn _ENABLED<B: BankController>(&self, mmu: &mut MMU<B>, value: bool) {
        mmu.set_bit(NR_52, 1, value)
    }
}

pub struct SquareView {
    pub frequency: u16,
    pub volume: u16,
    pub length: u16,
    pub timer: u16,
    pub duty_cycle: u16,
    pub sweep_timer: u16,
    pub envelope_count: u8,
    pub buff: Seq<i16>,
    pub sample_counter: u16,
}

/// A square wave channel with optional frequency sweep and volume envelope.
pub struct SquareWaveChannel<R: SquareWaveRegisters> {
    /* frequency, as transformed by the sweep */
    pub frequency: u16,
    /* volume, as transformed by the envelope */
    pub volume: u16,
    /* decremented by the frame sequencer at 256Hz */
    pub length: u16,
    /* loaded with 2048 - frequency, decremented every CPU cycle; at 0 the duty step advances */
    pub timer: u16,
    /* position in the 8 step waveform */
    pub duty_cycle: u16,
    pub sweep_timer: u16,
    pub envelope_count: u8,
    /* output samples */
    pub buff: Vec<i16>,
    /* counts CPU cycles between samples at the playback rate */
    pub sample_counter: u16,
    /* access to the channel's memory mapped registers */
    pub regs: R,
}

impl<R: SquareWaveRegisters> View for SquareWaveChannel<R> {
    type V = SquareView;

    open spec fn view(&self) -> SquareView {
        SquareView {
            frequency: self.frequency,
            volume: self.volume,
            length: self.length,
            timer: self.timer,
            duty_cycle: self.duty_cycle,
            sweep_timer: self.sweep_timer,
            envelope_count: self.envelope_count,
            buff: self.buff@,
            sample_counter: self.sample_counter,
        }
    }
}

pub open spec fn square_inv(v: SquareView) -> bool {
    &&& v.frequency <= 0x7FF
    &&& v.volume <= 0xF
    &&& v.duty_cycle < DUTY_CYCLE_STEPS
    &&& v.sample_counter < SAMPLE_APPEND_RATE
    &&& v.timer <= 2048
}

/// NR52 with channel bit `bit` switched on or off.
pub open spec fn spec_set_enabled<B: BankController>(m: MemView<B>, bit: u8, on: bool) -> MemView<B> {
    m.poke(NR_52, spec_with_bit(m.reg(NR_52), bit, on))
}

pub open spec fn spec_enabled<B: BankController>(m: MemView<B>, bit: u8) -> bool {
    spec_bit(m.reg(NR_52), bit)
}

/// A register with its trigger flag (bit 7) cleared and the channel switched on.
pub open spec fn spec_trigger<B: BankController>(m: MemView<B>, ctl: u16, bit: u8) -> MemView<B> {
    let m1 = m.poke(ctl, spec_with_bit(m.reg(ctl), 7, false));
    spec_set_enabled(m1, bit, true)
}

/// The length counter after a frame sequencer tick; at zero, a channel in counter
/// mode switches itself off.
pub open spec fn spec_length_tick<B: BankController>(length: u16, counter: bool, m: MemView<B>, bit: u8) -> (u16, MemView<B>) {
    if !spec_enabled(m, bit) {
        (length, m)
    } else {
        let l: u16 = if length > 0 { (length - 1) as u16 } else { 0 };
        if l == 0 && counter { (l, spec_set_enabled(m, bit, false)) } else { (l, m) }
    }
}

/// The volume after an envelope tick: up (direction bit clear) or down, clamped to 0-15.
pub open spec fn spec_envelope_volume(volume: u16, down: bool) -> u16 {
    if !down {
        if volume < 0xF { (volume + 1) as u16 } else { volume }
    } else {
        if volume > 0 { (volume - 1) as u16 } else { volume }
    }
}

impl<R: SquareWaveRegisters> SquareWaveChannel<R> {
    pub open spec fn spec_reset(v: SquareView, r: R, io: Seq<u8>) -> SquareView {
        SquareView {
            buff: Seq::empty(),
            frequency: r.spec_freq(io),
            volume: r.spec_initial_volume(io),
            length: r.spec_sound_length(io),
            timer: (2048 - r.spec_freq(io)) as u16,
            duty_cycle: 0,
            sweep_timer: r.spec_sweep_time(io),
            envelope_count: r.spec_envelope_shifts(io),
            sample_counter: v.sample_counter,
        }
    }

    /// One CPU cycle: a set trigger flag restarts the channel; an enabled channel
    /// advances its waveform and emits a sample every SAMPLE_APPEND_RATE cycles.
    pub open spec fn spec_tick<B: BankController>(v: SquareView, r: R, m: MemView<B>) -> (SquareView, MemView<B>) {
        let ctl = r.spec_control_reg();
        let (v1, m1) = if spec_bit(m.reg(ctl), 7) {
            (Self::spec_reset(v, r, m.io), spec_trigger(m, ctl, r.spec_enable_bit()))
        } else {
            (v, m)
        };
        if !spec_enabled(m1, r.spec_enable_bit()) {
            (v1, m1)
        } else {
            let t1: u16 = if v1.timer > 0 { (v1.timer - 1) as u16 } else { 0 };
            let duty: u16 = if t1 == 0 { ((v1.duty_cycle + 1) % 8) as u16 } else { v1.duty_cycle };
            let timer: u16 = if t1 == 0 { (2048 - v1.frequency) as u16 } else { t1 };
            let sc = v1.sample_counter + 1;
            if sc == SAMPLE_APPEND_RATE {
                let s = spec_sample(spec_duty_on(r.spec_wave_duty(m1.io), duty), v1.volume);
                (SquareView { timer, duty_cycle: duty, buff: v1.buff.push(s), sample_counter: 0, ..v1 }, m1)
            } else {
                (SquareView { timer, duty_cycle: duty, sample_counter: sc as u16, ..v1 }, m1)
            }
        }
    }

    pub open spec fn spec_length<B: BankController>(v: SquareView, r: R, m: MemView<B>) -> (SquareView, MemView<B>) {
        let (l, m1) = spec_length_tick(v.length, r.spec_counter_select(m.io), m, r.spec_enable_bit());
        (SquareView { length: l, ..v }, m1)
    }

    /// A sweep tick is defined when the channel is off or its sweep timer is running.
    pub open spec fn spec_sweep_ok<B: BankController>(v: SquareView, r: R, m: MemView<B>) -> bool {
        spec_enabled(m, r.spec_enable_bit()) ==> v.sweep_timer > 0
    }

    /// Sweep tick: when the sweep timer expires the frequency moves by frequency / 2^shifts,
    /// down, or up unless that would pass 0x7FF, which switches the channel off.
    pub open spec fn spec_sweep<B: BankController>(v: SquareView, r: R, m: MemView<B>) -> (SquareView, MemView<B>) {
        if !spec_enabled(m, r.spec_enable_bit()) {
            (v, m)
        } else {
            let st = (v.sweep_timer - 1) as u16;
            if st == 0 {
                let delta = v.frequency / (1u16 << r.spec_sweep_shifts(m.io));
                if r.spec_sweep_direction(m.io) {
                    let f: u16 = if v.frequency >= delta { (v.frequency - delta) as u16 } else { v.frequency };
                    (SquareView { frequency: f, sweep_timer: r.spec_sweep_time(m.io), ..v }, m)
                } else if v.frequency + delta > 0x7FF {
                    let m1 = spec_set_enabled(m, r.spec_enable_bit(), false);
                    (SquareView { sweep_timer: r.spec_sweep_time(m1.io), ..v }, m1)
                } else {
                    (SquareView { frequency: (v.frequency + delta) as u16, sweep_timer: r.spec_sweep_time(m.io), ..v }, m)
                }
            } else {
                (SquareView { sweep_timer: st, ..v }, m)
            }
        }
    }

    pub open spec fn spec_envelope<B: BankController>(v: SquareView, r: R, m: MemView<B>) -> SquareView {
        if !spec_enabled(m, r.spec_enable_bit()) || v.envelope_count == 0 {
            v
        } else {
            SquareView {
                volume: spec_envelope_volume(v.volume, r.spec_envelope_direction(m.io)),
                envelope_count: (v.envelope_count - 1) as u8,
                ..v
            }
        }
    }

    fn new<B: BankController>(mmu: &mut MMU<B>, regs: R) -> (res: Self)
        requires
            old(mmu).inv(),
        ensures
            final(mmu).inv(),
            final(mmu)@ == old(mmu)@,
            square_inv(res@),
            res@ == Self::spec_reset(SquareView { sample_counter: 0, ..res@ }, regs, old(mmu)@.io),
            res.regs == regs,
    {
        let frequency = regs.FREQ(mmu);
        let volume = regs.INITIAL_VOLUME(mmu);
        let length = regs.SOUND_LENGTH(mmu);
        let sweep_timer = regs.SWEEP_TIME(mmu);
        let envelope_count = regs.ENVELOPE_SHIFTS(mmu);
        Self {
            frequency,
            volume,
            length,
            timer: 2048 - frequency,
            duty_cycle: 0,
            sweep_timer,
            envelope_count,
            buff: Vec::with_capacity(BUFF_SIZE),
            sample_counter: 0,
            regs,
        }
    }

    fn reset<B: BankController>(&mut self, mmu: &mut MMU<B>)
        requires
            old(mmu).inv(),
            square_inv(old(self)@),
        ensures
            final(mmu).inv(),
            final(mmu)@ == old(mmu)@,
            square_inv(final(self)@),
            final(self)@ == Self::spec_reset(old(self)@, old(self).regs, old(mmu)@.io),
            final(self).regs == old(self).regs,
    {
        self.buff.clear();
        self.frequency = self.regs.FREQ(mmu);
        self.volume = self.regs.INITIAL_VOLUME(mmu);
        self.length = self.regs.SOUND_LENGTH(mmu);
        self.timer = 2048 - self.frequency;
        self.duty_cycle = 0;
        self.sweep_timer = self.regs.SWEEP_TIME(mmu);
        self.envelope_count = self.regs.ENVELOPE_SHIFTS(mmu);
    }

    fn tick<B: BankController>(&mut self, mmu: &mut MMU<B>)
        requires
            old(mmu).inv(),
            square_inv(old(self)@),
        ensures
            final(mmu).inv(),
            square_inv(final(self)@),
            (final(self)@, final(mmu)@) == Self::spec_tick(old(self)@, old(self).regs, old(mmu)@),
            final(self).regs == old(self).regs,
    {
        // Restart when triggered.
        if self.regs.INITIAL(mmu) {
            self.reset(mmu);
            self.regs._INITIAL(mmu, false);
            self.regs._ENABLED(mmu, true);
        }
        if !self.regs.ENABLED(mmu) {
            return;
        }
        // Advance the timer and the duty step.
        if self.timer > 0 {
            self.timer -= 1;
        }
        if self.timer == 0 {
            self.duty_cycle = (self.duty_cycle + 1) % DUTY_CYCLE_STEPS;
            self.timer = 2048 - self.frequency;
        }
        // Emit a sample at the playback rate.
        self.sample_counter += 1;
        if self.sample_counter == SAMPLE_APPEND_RATE {
            let duty = self.regs.WAVE_DUTY(mmu);
            let is_on = duty_on(duty, self.duty_cycle);
            let s = sample(is_on, self.volume);
            self.buff.push(s);
            self.sample_counter = 0;
        }
    }

    fn buffer(&mut self) -> (res: &mut Vec<i16>)
        ensures
            *res == old(self).buff,
            final(self).buff == *final(res),
            final(self).frequency == old(self).frequency,
            final(self).volume == old(self).volume,
            final(self).length == old(self).length,
            final(self).timer == old(self).timer,
            final(self).duty_cycle == old(self).duty_cycle,
            final(self).sweep_timer == old(self).sweep_timer,
            final(self).envelope_count == old(self).envelope_count,
            final(self).sample_counter == old(self).sample_counter,
            final(self).regs == old(self).regs,
    {
        &mut self.buff
    }

    fn length<B: BankController>(&mut self, mmu: &mut MMU<B>)
        requires
            old(mmu).inv(),
            square_inv(old(self)@),
        ensures
            final(mmu).inv(),
            square_inv(final(self)@),
            (final(self)@, final(mmu)@) == Self::spec_length(old(self)@, old(self).regs, old(mmu)@),
            final(self).regs == old(self).regs,
    {
        if !self.regs.ENABLED(mmu) {
            return;
        }
        if self.length > 0 {
            self.length -= 1;
        }
        if self.length == 0 {
            if self.regs.COUNTER_CONSECUTIVE_SELECT(mmu) {
                self.regs._ENABLED(mmu, false);
            }
        }
    }

    fn sweep<B: BankController>(&mut self, mmu: &mut MMU<B>)
        requires
            old(mmu).inv(),
            square_inv(old(self)@),
            Self::spec_sweep_ok(old(self)@, old(self).regs, old(mmu)@),
        ensures
            final(mmu).inv(),
            square_inv(final(self)@),
            (final(self)@, final(mmu)@) == Self::spec_sweep(old(self)@, old(self).regs, old(mmu)@),
            final(self).regs == old(self).regs,
    {
        if !self.regs.ENABLED(mmu) {
            return;
        }
        self.sweep_timer -= 1;
        if self.sweep_timer == 0 {
            let shifts = self.regs.SWEEP_SHIFTS(mmu);
            proof {
                lemma_pow2_shift(shifts);
            }
            let delta = self.frequency / (1u16 << shifts);
            if self.regs.SWEEP_DIRECTION(mmu) {
                if self.frequency >= delta {
                    self.frequency -= delta;
                }
            } else if self.frequency + delta > 0x7FF {
                self.regs._ENABLED(mmu, false);
            } else {
                self.frequency += delta;
            }
            self.sweep_timer = self.regs.SWEEP_TIME(mmu);
        }
    }

    fn envelope<B: BankController>(&mut self, mmu: &mut MMU<B>)
        requires
            old(mmu).inv(),
            square_inv(old(self)@),
        ensures
            final(mmu).inv(),
            final(mmu)@ == old(mmu)@,
            square_inv(final(self)@),
            final(self)@ == Self::spec_envelope(old(self)@, old(self).regs, old(mmu)@),
            final(self).regs == old(self).regs,
    {
        if !self.regs.ENABLED(mmu) || self.envelope_count == 0 {
            return;
        }
        if !self.regs.ENVELOPE_DIRECTION(mmu) {
            if self.volume < 0xF {
                self.volume += 1;
            }
        } else {
            if self.volume > 0 {
                self.volume -= 1
            }
        }
        self.envelope_count -= 1;
    }
}


pub struct WaveView {
    pub length: u16,
    pub frequency: u16,
    pub timer: u16,
    pub position_counter: usize,
    pub sample_counter: u16,
    pub buff: Seq<i16>,
}

/// The channel that plays the 32 four bit samples of wave RAM (0xFF30-0xFF3F).
pub struct WaveRamChannel {
    pub length: u16,
    pub frequency: u16,
    pub timer: u16,
    pub position_counter: usize,
    pub sample_counter: u16,
    pub buff: Vec<i16>,
}

impl View for WaveRamChannel {
    type V = WaveView;

    open spec fn view(&self) -> WaveView {
        WaveView {
            length: self.length,
            frequency: self.frequency,
            timer: self.timer,
            position_counter: self.position_counter,
            sample_counter: self.sample_counter,
            buff: self.buff@,
        }
    }
}

pub open spec fn wave_inv(v: WaveView) -> bool {
    &&& v.frequency <= 0x7FF
    &&& v.position_counter < WAVE_RAM_SAMPLE_COUNT
    &&& v.sample_counter < SAMPLE_APPEND_RATE
}

/// NR33/NR34: the 11 bit frequency of the wave channel.
pub open spec fn spec_wave_freq(io: Seq<u8>) -> u16 {
    (((io[NR_34 - 0xFF00] & 7) as u16) * 256 + io[NR_33 - 0xFF00] as u16) as u16
}

/// The 4 bit level of wave sample `pos`: high nibble first.
pub open spec fn spec_wave_level<B: BankController>(m: MemView<B>, pos: usize) -> u8 {
    let byte = m.reg((WAVE_RAM_BASE + pos / 2) as u16);
    if pos % 2 == 0 { byte >> 4u8 } else { byte & 0xF }
}

/// The level scaled by the output level of NR32: mute, 100%, 50%, 25%.
pub open spec fn spec_wave_output(level: u8, out: u8) -> u8 {
    if out == 0 { 0 } else if out == 1 { level } else if out == 2 { level >> 1u8 } else { level >> 2u8 }
}

impl WaveRamChannel {
    pub open spec fn spec_reset(v: WaveView, io: Seq<u8>) -> WaveView {
        WaveView {
            length: io[NR_31 - 0xFF00] as u16,
            frequency: spec_wave_freq(io),
            timer: ((2048 - spec_wave_freq(io)) / 2) as u16,
            ..v
        }
    }

    /// One CPU cycle: trigger handling, then, while on and outputting, the walk through
    /// wave RAM and a sample every SAMPLE_APPEND_RATE cycles.
    pub open spec fn spec_tick<B: BankController>(v: WaveView, m: MemView<B>) -> (WaveView, MemView<B>) {
        let (v1, m1) = if spec_bit(m.reg(NR_34), 7) {
            (Self::spec_reset(v, m.io), spec_trigger(m, NR_34, 2))
        } else {
            (v, m)
        };
        if !spec_enabled(m1, 2) || !spec_bit(m1.reg(NR_30), 7) {
            (v1, m1)
        } else {
            let t1: u16 = if v1.timer > 0 { (v1.timer - 1) as u16 } else { 0 };
            let pos: usize = if t1 == 0 { ((v1.position_counter + 1) % 32) as usize } else { v1.position_counter };
            let timer: u16 = if t1 == 0 { ((2048 - v1.frequency) / 2) as u16 } else { t1 };
            let sc = v1.sample_counter + 1;
            if sc == SAMPLE_APPEND_RATE {
                let level = spec_wave_output(spec_wave_level(m1, pos), (m1.reg(NR_32) >> 5u8) & 3);
                let s = spec_sample(true, level as u16);
                (WaveView { timer, position_counter: pos, buff: v1.buff.push(s), sample_counter: 0, ..v1 }, m1)
            } else {
                (WaveView { timer, position_counter: pos, sample_counter: sc as u16, ..v1 }, m1)
            }
        }
    }

    pub open spec fn spec_length<B: BankController>(v: WaveView, m: MemView<B>) -> (WaveView, MemView<B>) {
        let (l, m1) = spec_length_tick(v.length, spec_bit(m.reg(NR_34), 6), m, 2);
        (WaveView { length: l, ..v }, m1)
    }

    fn new<B: BankController>(mmu: &mut MMU<B>) -> (res: Self)
        requires
            old(mmu).inv(),
        ensures
            final(mmu).inv(),
            final(mmu)@ == old(mmu)@,
            wave_inv(res@),
            res@ == (WaveView {
                length: old(mmu)@.reg(NR_31) as u16,
                frequency: spec_wave_freq(old(mmu)@.io),
                timer: (2048 - spec_wave_freq(old(mmu)@.io)) as u16,
                position_counter: 0,
                sample_counter: 0,
                buff: Seq::empty(),
            }),
    {
        let length = Self::SOUND_LENGTH(mmu);
        let frequency = Self::FREQ(mmu);
        Self {
            length,
            frequency,
            timer: 2048 - frequency,
            sample_counter: 0,
            position_counter: 0,
            buff: Vec::with_capacity(BUFF_SIZE),
        }
    }

    fn reset<B: BankController>(&mut self, mmu: &mut MMU<B>)
        requires
            old(mmu).inv(),
            wave_inv(old(self)@),
        ensures
            final(mmu).inv(),
            final(mmu)@ == old(mmu)@,
            wave_inv(final(self)@),
            final(self)@ == Self::spec_reset(old(self)@, old(mmu)@.io),
    {
        self.length = Self::SOUND_LENGTH(mmu);
        self.frequency = Self::FREQ(mmu);
        self.timer = (2048 - self.frequency) / 2;
    }

    fn tick<B: BankController>(&mut self, mmu: &mut MMU<B>)
        requires
            old(mmu).inv(),
            wave_inv(old(self)@),
        ensures
            final(mmu).inv(),
            wave_inv(final(self)@),
            (final(self)@, final(mmu)@) == Self::spec_tick(old(self)@, old(mmu)@),
    {
        // Restart when triggered.
        if Self::INITIAL(mmu) {
            self.reset(mmu);
            Self::_INITIAL(mmu, false);
            Self::_ENABLED(mmu, true);
        }
        if !Self::ENABLED(mmu) || !Self::OUTPUTTING(mmu) {
            return;
        }
        // Advance the timer and the position in wave RAM.
        if self.timer > 0 {
            self.timer -= 1;
        }
        if self.timer == 0 {
            self.position_counter = (self.position_counter + 1) % WAVE_RAM_SAMPLE_COUNT;
            self.timer = (2048 - self.frequency) / 2;
        }
        // Emit a sample at the playback rate.
        self.sample_counter += 1;
        if self.sample_counter == SAMPLE_APPEND_RATE {
            let offset = (self.position_counter as u16) / 2;
            let sample_byte = mmu.read(WAVE_RAM_BASE + offset);
            proof {
                lemma_shr_le(sample_byte, 4);
                lemma_and_le(sample_byte, 0xF);
            }
            let mut volume = if self.position_counter % 2 == 0 { sample_byte >> 4u8 } else { sample_byte & 0xF };
            let level = Self::OUTPUT_LEVEL(mmu);
            proof {
                lemma_shr_le(volume, 1);
                lemma_shr_le(volume, 2);
            }
            volume = if level == 0 { 0 } else if level == 1 { volume } else if level == 2 { volume >> 1u8 } else { volume >> 2u8 };
            let s = sample(true, volume as u16);
            self.buff.push(s);
            self.sample_counter = 0;
        }
    }

    fn length<B: BankController>(&mut self, mmu: &mut MMU<B>)
        requires
            old(mmu).inv(),
            wave_inv(old(self)@),
        ensures
            final(mmu).inv(),
            wave_inv(final(self)@),
            (final(self)@, final(mmu)@) == Self::spec_length(old(self)@, old(mmu)@),
    {
        if !Self::ENABLED(mmu) {
            return;
        }
        if self.length > 0 {
            self.length -= 1;
        }
        if self.length == 0 {
            if Self::COUNTER_CONSECUTIVE_SELECT(mmu) {
                Self::_ENABLED(mmu, false);
            }
        }
    }

    fn buffer(&mut self) -> (res: &mut Vec<i16>)
        ensures
            *res == old(self).buff,
            final(self).buff == *final(res),
            final(self).length == old(self).length,
            final(self).frequency == old(self).frequency,
            final(self).timer == old(self).timer,
            final(self).position_counter == old(self).position_counter,
            final(self).sample_counter == old(self).sample_counter,
    {
        &mut self.buff
    }

    // NR30 - sound on/off
    fn OUTPUTTING<B: BankController>(mmu: &mut MMU<B>) -> (res: bool)
        requires old(mmu).inv(),
        ensures final(mmu).inv(), final(mmu)@ == old(mmu)@, res == spec_bit(old(mmu)@.reg(NR_30), 7),
    {
        mmu.read_bit(NR_30, 7)
    }

    fn _OUTPUTTING<B: BankController>(mmu: &mut MMU<B>, value: bool)
        requires old(mmu).inv(),
        ensures final(mmu).inv(), final(mmu)@ == old(mmu)@.poke(NR_30, spec_with_bit(old(mmu)@.reg(NR_30), 7, value)),
    {
        mmu.set_bit(NR_30, 7, value)
    }

    // NR31 - sound length
    fn SOUND_LENGTH<B: BankController>(mmu: &mut MMU<B>) -> (res: u16)
        requires old(mmu).inv(),
        ensures final(mmu).inv(), final(mmu)@ == old(mmu)@, res == old(mmu)@.reg(NR_31) as u16,
    {
        mmu.read(NR_31) as u16
    }

    // NR32 - output level
    fn OUTPUT_LEVEL<B: BankController>(mmu: &mut MMU<B>) -> (res: u8)
        requires old(mmu).inv(),
        ensures final(mmu).inv(), final(mmu)@ == old(mmu)@, res == (old(mmu)@.reg(NR_32) >> 5u8) & 3, res <= 3,
    {
        let r = (mmu.read(NR_32) >> 5u8) & 3;
        proof {
            lemma_and_le(old(mmu)@.reg(NR_32) >> 5u8, 3);
        }
        r
    }

    // NR33 and NR34 - frequency
    fn FREQ<B: BankController>(mmu: &mut MMU<B>) -> (res: u16)
        requires old(mmu).inv(),
        ensures final(mmu).inv(), final(mmu)@ == old(mmu)@, res == spec_wave_freq(old(mmu)@.io), res <= 0x7FF,
    {
        let hi = mmu.read(NR_34) & 7;
        let lo = mmu.read(NR_33);
        proof {
            lemma_and_le(old(mmu)@.reg(NR_34), 7);
        }
        (hi as u16) * 256 + lo as u16
    }

    fn COUNTER_CONSECUTIVE_SELECT<B: BankController>(mmu: &mut MMU<B>) -> (res: bool)
        requires old(mmu).inv(),
        ensures final(mmu).inv(), final(mmu)@ == old(mmu)@, res == spec_bit(old(mmu)@.reg(NR_34), 6),
    {
        mmu.read_bit(NR_34, 6)
    }

    fn INITIAL<B: BankController>(mmu: &mut MMU<B>) -> (res: bool)
        requires old(mmu).inv(),
        ensures final(mmu).inv(), final(mmu)@ == old(mmu)@, res == spec_bit(old(mmu)@.reg(NR_34), 7),
    {
        mmu.read_bit(NR_34, 7)
    }

    fn _INITIAL<B: BankController>(mmu: &mut MMU<B>, value: bool)
        requires old(mmu).inv(),
        ensures final(mmu).inv(), final(mmu)@ == old(mmu)@.poke(NR_34, spec_with_bit(old(mmu)@.reg(NR_34), 7, value)),
    {
        mmu.set_bit(NR_34, 7, value)
    }

    // NR52 - sound on/off
    fn ENABLED<B: BankController>(mmu: &mut MMU<B>) -> (res: bool)
        requires old(mmu).inv(),
        ensures final(mmu).inv(), final(mmu)@ == old(mmu)@, res == spec_enabled(old(mmu)@, 2),
    {
        mmu.read_bit(NR_52, 2)
    }

    fn _ENABLED<B: BankController>(mmu: &mut MMU<B>, value: bool)
        requires old(mmu).inv(),
        ensures final(mmu).inv(), final(mmu)@ == spec_set_enabled(old(mmu)@, 2, value),
    {
        mmu.set_bit(NR_52, 2, value)
    }
}


pub struct NoiseView {
    pub volume: u16,
    pub length: u16,
    pub envelope_count: u8,
    pub timer: u16,
    pub sample_counter: u16,
    pub lsfr: Seq<bool>,
    pub buff: Seq<i16>,
}

/// The noise channel: a 15 (or 7) bit linear feedback shift register.
pub struct NoiseChannel {
    pub volume: u16,
    pub length: u16,
    pub envelope_count: u8,
    pub timer: u16,
    pub sample_counter: u16,
    pub lsfr: [bool; 16],
    pub buff: Vec<i16>,
}

impl View for NoiseChannel {
    type V = NoiseView;

    open spec fn view(&self) -> NoiseView {
        NoiseView {
            volume: self.volume,
            length: self.length,
            envelope_count: self.envelope_count,
            timer: self.timer,
            sample_counter: self.sample_counter,
            lsfr: self.lsfr@,
            buff: self.buff@,
        }
    }
}

pub open spec fn noise_inv(v: NoiseView) -> bool {
    &&& v.volume <= 0xF
    &&& v.sample_counter < SAMPLE_APPEND_RATE
    &&& v.lsfr.len() == NOISE_LSFR_SIZE
}

/// NR43 bits 0-2: the divisor, 8 for code 0 and 8 * code otherwise.
pub open spec fn spec_freq_ratio(io: Seq<u8>) -> u16 {
    let x = (io[NR_43 - 0xFF00] & 7) as u16;
    if x == 0 { 8 } else { (8 * x) as u16 }
}

/// NR43 bits 4-7: the shift of the clock.
pub open spec fn spec_freq_shift(io: Seq<u8>) -> u16 {
    (io[NR_43 - 0xFF00] >> 4u8) as u16
}

/// Reload value of the noise timer.
pub open spec fn spec_noise_period(io: Seq<u8>) -> u16 {
    spec_freq_ratio(io) << spec_freq_shift(io)
}

/// The shift register after one clock: every bit moves down by one, the last bit is
/// kept, and the xor of the two lowest bits enters at bit 14 (or bit 6 in 7 bit mode).
pub open spec fn spec_lsfr_shift(l: Seq<bool>, seven_bit: bool) -> Seq<bool> {
    let fed = l[1] != l[0];
    let shifted = Seq::new(NOISE_LSFR_SIZE as nat, |i: int| if i < NOISE_LSFR_SIZE - 1 { l[i + 1] } else { l[i] });
    shifted.update(if seven_bit { (NOISE_LSFR_SIZE - 1) / 2 } else { NOISE_LSFR_SIZE - 1 }, fed)
}

impl NoiseChannel {
    pub open spec fn spec_reset(v: NoiseView, io: Seq<u8>) -> NoiseView {
        NoiseView {
            buff: Seq::empty(),
            volume: (io[NR_42 - 0xFF00] >> 4u8) as u16,
            length: (io[NR_41 - 0xFF00] & 0x3F) as u16,
            timer: spec_noise_period(io),
            envelope_count: io[NR_42 - 0xFF00] & 7,
            sample_counter: 0,
            ..v
        }
    }

    pub open spec fn spec_tick<B: BankController>(v: NoiseView, m: MemView<B>) -> (NoiseView, MemView<B>) {
        let (v1, m1) = if spec_bit(m.reg(NR_44), 7) {
            (Self::spec_reset(v, m.io), spec_trigger(m, NR_44, 3))
        } else {
            (v, m)
        };
        if !spec_enabled(m1, 3) {
            (v1, m1)
        } else {
            let t1: u16 = if v1.timer > 0 { (v1.timer - 1) as u16 } else { 0 };
            let lsfr = if t1 == 0 { spec_lsfr_shift(v1.lsfr, spec_bit(m1.reg(NR_43), 3)) } else { v1.lsfr };
            let timer: u16 = if t1 == 0 { spec_noise_period(m1.io) } else { t1 };
            let sc = v1.sample_counter + 1;
            if sc == SAMPLE_APPEND_RATE {
                let s = spec_sample(!lsfr[0], v1.volume);
                (NoiseView { timer, lsfr, buff: v1.buff.push(s), sample_counter: 0, ..v1 }, m1)
            } else {
                (NoiseView { timer, lsfr, sample_counter: sc as u16, ..v1 }, m1)
            }
        }
    }

    pub open spec fn spec_length<B: BankController>(v: NoiseView, m: MemView<B>) -> (NoiseView, MemView<B>) {
        let (l, m1) = spec_length_tick(v.length, spec_bit(m.reg(NR_44), 6), m, 3);
        (NoiseView { length: l, ..v }, m1)
    }

    pub open spec fn spec_envelope<B: BankController>(v: NoiseView, m: MemView<B>) -> NoiseView {
        if !spec_enabled(m, 3) || v.envelope_count == 0 {
            v
        } else {
            NoiseView {
                volume: spec_envelope_volume(v.volume, spec_bit(m.reg(NR_42), 3)),
                envelope_count: (v.envelope_count - 1) as u8,
                ..v
            }
        }
    }

    fn new<B: BankController>(mmu: &mut MMU<B>) -> (res: Self)
        requires
            old(mmu).inv(),
        ensures
            final(mmu).inv(),
            final(mmu)@ == old(mmu)@,
            noise_inv(res@),
            res@ == (NoiseView {
                volume: (old(mmu)@.reg(NR_42) >> 4u8) as u16,
                length: (old(mmu)@.reg(NR_41) & 0x3F) as u16,
                envelope_count: old(mmu)@.reg(NR_42) & 7,
                timer: spec_noise_period(old(mmu)@.io),
                sample_counter: 0,
                lsfr: Seq::new(NOISE_LSFR_SIZE as nat, |i: int| false),
                buff: Seq::empty(),
            }),
    {
        let volume = Self::INITIAL_VOLUME(mmu);
        let length = Self::SOUND_LENGTH(mmu);
        let envelope_count = Self::ENVELOPE_SHIFTS(mmu);
        let ratio = Self::FREQ_RATIO(mmu);
        let shift = Self::FREQ_SHIFT_CLOCK(mmu);
        let res = Self {
            volume,
            length,
            envelope_count,
            timer: ratio << shift,
            sample_counter: 0,
            lsfr: [false; 16],
            buff: Vec::with_capacity(BUFF_SIZE),
        };
        assert(res.lsfr@ =~= Seq::new(NOISE_LSFR_SIZE as nat, |i: int| false));
        res
    }

    fn reset<B: BankController>(&mut self, mmu: &mut MMU<B>)
        requires
            old(mmu).inv(),
            noise_inv(old(self)@),
        ensures
            final(mmu).inv(),
            final(mmu)@ == old(mmu)@,
            noise_inv(final(self)@),
            final(self)@ == Self::spec_reset(old(self)@, old(mmu)@.io),
    {
        self.buff.clear();
        self.volume = Self::INITIAL_VOLUME(mmu);
        self.length = Self::SOUND_LENGTH(mmu);
        let ratio = Self::FREQ_RATIO(mmu);
        let shift = Self::FREQ_SHIFT_CLOCK(mmu);
        self.timer = ratio << shift;
        self.envelope_count = Self::ENVELOPE_SHIFTS(mmu);
        self.sample_counter = 0;
    }

    fn tick<B: BankController>(&mut self, mmu: &mut MMU<B>)
        requires
            old(mmu).inv(),
            noise_inv(old(self)@),
        ensures
            final(mmu).inv(),
            noise_inv(final(self)@),
            (final(self)@, final(mmu)@) == Self::spec_tick(old(self)@, old(mmu)@),
    {
        // Restart when triggered.
        if Self::INITIAL(mmu) {
            self.reset(mmu);
            Self::_INITIAL(mmu, false);
            Self::_ENABLED(mmu, true);
        }
        if !Self::ENABLED(mmu) {
            return;
        }
        // Advance the timer and clock the shift register.
        if self.timer > 0 {
            self.timer -= 1;
        }
        if self.timer == 0 {
            let mut l = self.lsfr;
            let ghost l0 = l@;
            let new = l[1] ^ l[0];
            // Shift it right
            let mut i: usize = 1;
            while i < NOISE_LSFR_SIZE
                invariant
                    1 <= i <= NOISE_LSFR_SIZE,
                    l@.len() == NOISE_LSFR_SIZE,
                    l0.len() == NOISE_LSFR_SIZE,
                    forall|k: int| 0 <= k < i - 1 ==> l@[k] == l0[k + 1],
                    forall|k: int| i - 1 <= k < NOISE_LSFR_SIZE ==> l@[k] == l0[k],
                decreases NOISE_LSFR_SIZE - i,
            {
                let b = l[i];
                l[i - 1] = b;
                i += 1;
            }
            // Feed in at the top
            let seven = Self::LSFR_7BIT(mmu);
            if seven {
                l[(NOISE_LSFR_SIZE - 1) / 2] = new;
            } else {
                l[NOISE_LSFR_SIZE - 1] = new;
            }
            assert(l@ =~= spec_lsfr_shift(l0, seven));
            self.lsfr = l;
            let ratio = Self::FREQ_RATIO(mmu);
            let shift = Self::FREQ_SHIFT_CLOCK(mmu);
            self.timer = ratio << shift;
        }
        // Emit a sample at the playback rate.
        self.sample_counter += 1;
        if self.sample_counter == SAMPLE_APPEND_RATE {
            let s = sample(!self.lsfr[0], self.volume);
            self.buff.push(s);
            self.sample_counter = 0;
        }
    }

    fn length<B: BankController>(&mut self, mmu: &mut MMU<B>)
        requires
            old(mmu).inv(),
            noise_inv(old(self)@),
        ensures
            final(mmu).inv(),
            noise_inv(final(self)@),
            (final(self)@, final(mmu)@) == Self::spec_length(old(self)@, old(mmu)@),
    {
        if !Self::ENABLED(mmu) {
            return;
        }
        if self.length > 0 {
            self.length -= 1;
        }
        if self.length == 0 {
            if Self::COUNTER_CONSECUTIVE_SELECT(mmu) {
                Self::_ENABLED(mmu, false);
            }
        }
    }

    fn envelope<B: BankController>(&mut self, mmu: &mut MMU<B>)
        requires
            old(mmu).inv(),
            noise_inv(old(self)@),
        ensures
            final(mmu).inv(),
            final(mmu)@ == old(mmu)@,
            noise_inv(final(self)@),
            final(self)@ == Self::spec_envelope(old(self)@, old(mmu)@),
    {
        if !Self::ENABLED(mmu) || self.envelope_count == 0 {
            return;
        }
        if !Self::ENVELOPE_DIRECTION(mmu) {
            if self.volume < 0xF {
                self.volume += 1;
            }
        } else {
            if self.volume > 0 {
                self.volume -= 1
            }
        }
        self.envelope_count -= 1;
    }

    fn buffer(&mut self) -> (res: &mut Vec<i16>)
        ensures
            *res == old(self).buff,
            final(self).buff == *final(res),
            final(self).volume == old(self).volume,
            final(self).length == old(self).length,
            final(self).envelope_count == old(self).envelope_count,
            final(self).timer == old(self).timer,
            final(self).sample_counter == old(self).sample_counter,
            final(self).lsfr == old(self).lsfr,
    {
        &mut self.buff
    }

    // NR41 - length
    fn SOUND_LENGTH<B: BankController>(mmu: &mut MMU<B>) -> (res: u16)
        requires old(mmu).inv(),
        ensures final(mmu).inv(), final(mmu)@ == old(mmu)@, res == (old(mmu)@.reg(NR_41) & 0x3F) as u16,
    {
        (mmu.read(NR_41) & 0x3F) as u16
    }

    // NR42 - volume envelope
    fn ENVELOPE_SHIFTS<B: BankController>(mmu: &mut MMU<B>) -> (res: u8)
        requires old(mmu).inv(),
        ensures final(mmu).inv(), final(mmu)@ == old(mmu)@, res == old(mmu)@.reg(NR_42) & 7,
    {
        mmu.read(NR_42) & 7
    }

    fn ENVELOPE_DIRECTION<B: BankController>(mmu: &mut MMU<B>) -> (res: bool)
        requires old(mmu).inv(),
        ensures final(mmu).inv(), final(mmu)@ == old(mmu)@, res == spec_bit(old(mmu)@.reg(NR_42), 3),
    {
        mmu.read_bit(NR_42, 3)
    }

    fn INITIAL_VOLUME<B: BankController>(mmu: &mut MMU<B>) -> (res: u16)
        requires old(mmu).inv(),
        ensures final(mmu).inv(), final(mmu)@ == old(mmu)@, res == (old(mmu)@.reg(NR_42) >> 4u8) as u16, res <= 0xF,
    {
        let r = mmu.read(NR_42);
        proof {
            lemma_shr_le(r, 4);
        }
        (r >> 4u8) as u16
    }

    // NR43 - frequency
    fn FREQ_RATIO<B: BankController>(mmu: &mut MMU<B>) -> (res: u16)
        requires old(mmu).inv(),
        ensures final(mmu).inv(), final(mmu)@ == old(mmu)@, res == spec_freq_ratio(old(mmu)@.io),
    {
        let r = mmu.read(NR_43);
        proof {
            lemma_and_le(r, 7);
        }
        let x = (r & 7) as u16;
        if x == 0 { 8 } else { 8 * x }
    }

    fn LSFR_7BIT<B: BankController>(mmu: &mut MMU<B>) -> (res: bool)
        requires old(mmu).inv(),
        ensures final(mmu).inv(), final(mmu)@ == old(mmu)@, res == spec_bit(old(mmu)@.reg(NR_43), 3),
    {
        mmu.read_bit(NR_43, 3)
    }

    fn FREQ_SHIFT_CLOCK<B: BankController>(mmu: &mut MMU<B>) -> (res: u16)
        requires old(mmu).inv(),
        ensures final(mmu).inv(), final(mmu)@ == old(mmu)@, res == spec_freq_shift(old(mmu)@.io), res < 16,
    {
        let r = mmu.read(NR_43);
        proof {
            lemma_shr_le(r, 4);
        }
        (r >> 4u8) as u16
    }

    // NR44 - counter/consecutive selection and trigger
    fn COUNTER_CONSECUTIVE_SELECT<B: BankController>(mmu: &mut MMU<B>) -> (res: bool)
        requires old(mmu).inv(),
        ensures final(mmu).inv(), final(mmu)@ == old(mmu)@, res == spec_bit(old(mmu)@.reg(NR_44), 6),
    {
        mmu.read_bit(NR_44, 6)
    }

    fn INITIAL<B: BankController>(mmu: &mut MMU<B>) -> (res: bool)
        requires old(mmu).inv(),
        ensures final(mmu).inv(), final(mmu)@ == old(mmu)@, res == spec_bit(old(mmu)@.reg(NR_44), 7),
    {
        mmu.read_bit(NR_44, 7)
    }

    fn _INITIAL<B: BankController>(mmu: &mut MMU<B>, value: bool)
        requires old(mmu).inv(),
        ensures final(mmu).inv(), final(mmu)@ == old(mmu)@.poke(NR_44, spec_with_bit(old(mmu)@.reg(NR_44), 7, value)),
    {
        mmu.set_bit(NR_44, 7, value)
    }

    // NR52 - sound on/off
    fn ENABLED<B: BankController>(mmu: &mut MMU<B>) -> (res: bool)
        requires old(mmu).inv(),
        ensures final(mmu).inv(), final(mmu)@ == old(mmu)@, res == spec_enabled(old(mmu)@, 3),
    {
        mmu.read_bit(NR_52, 3)
    }

    fn _ENABLED<B: BankController>(mmu: &mut MMU<B>, value: bool)
        requires old(mmu).inv(),
        ensures final(mmu).inv(), final(mmu)@ == spec_set_enabled(old(mmu)@, 3, value),
    {
        mmu.set_bit(NR_52, 3, value)
    }
}


pub struct APUView {
    pub sequencer_cycle: u16,
    pub sequencer_step: u16,
    pub chan1: SquareView,
    pub chan2: SquareView,
    pub chan3: WaveView,
    pub chan4: NoiseView,
}

/// The audio unit: two square wave channels, the wave RAM channel and the noise
/// channel, driven by a frame sequencer that clocks the length counters (256Hz),
/// the frequency sweep (128Hz) and the volume envelopes (64Hz).
pub struct APU {
    /* CPU cycles since the last sequencer step; a step every CPU_FREQUENCY / 512 cycles */
    pub sequencer_cycle: u16,
    /* the sequencer step, 0-7, wrapping around */
    pub sequencer_step: u16,
    pub chan1: SquareWaveChannel<Channel1Regs>,
    pub chan2: SquareWaveChannel<Channel2Regs>,
    pub chan3: WaveRamChannel,
    pub chan4: NoiseChannel,
}

impl View for APU {
    type V = APUView;

    open spec fn view(&self) -> APUView {
        APUView {
            sequencer_cycle: self.sequencer_cycle,
            sequencer_step: self.sequencer_step,
            chan1: self.chan1@,
            chan2: self.chan2@,
            chan3: self.chan3@,
            chan4: self.chan4@,
        }
    }
}

impl APU {
    /// Every channel ticks once, in order 1 to 4.
    pub open spec fn spec_ticks<B: BankController>(v: APUView, m: MemView<B>) -> (APUView, MemView<B>) {
        let (c1, m1) = SquareWaveChannel::<Channel1Regs>::spec_tick(v.chan1, Channel1Regs, m);
        let (c2, m2) = SquareWaveChannel::<Channel2Regs>::spec_tick(v.chan2, Channel2Regs, m1);
        let (c3, m3) = WaveRamChannel::spec_tick(v.chan3, m2);
        let (c4, m4) = NoiseChannel::spec_tick(v.chan4, m3);
        (APUView { chan1: c1, chan2: c2, chan3: c3, chan4: c4, ..v }, m4)
    }

    /// Every length counter ticks once, in order 1 to 4.
    pub open spec fn spec_lengths<B: BankController>(v: APUView, m: MemView<B>) -> (APUView, MemView<B>) {
        let (c1, m1) = SquareWaveChannel::<Channel1Regs>::spec_length(v.chan1, Channel1Regs, m);
        let (c2, m2) = SquareWaveChannel::<Channel2Regs>::spec_length(v.chan2, Channel2Regs, m1);
        let (c3, m3) = WaveRamChannel::spec_length(v.chan3, m2);
        let (c4, m4) = NoiseChannel::spec_length(v.chan4, m3);
        (APUView { chan1: c1, chan2: c2, chan3: c3, chan4: c4, ..v }, m4)
    }

    /// The state after the length step of the sequencer (even steps only).
    pub open spec fn spec_after_lengths<B: BankController>(v: APUView, m: MemView<B>) -> (APUView, MemView<B>) {
        if v.sequencer_step % 2 == 0 { Self::spec_lengths(v, m) } else { (v, m) }
    }

    /// A sequencer step: lengths on even steps, the sweep of channel 1 on steps 2
    /// and 6, the envelopes of channels 1, 2 and 4 on step 7; then the next step.
    pub open spec fn spec_sequence<B: BankController>(v: APUView, m: MemView<B>) -> (APUView, MemView<B>) {
        let s = v.sequencer_step;
        let (v1, m1) = Self::spec_after_lengths(v, m);
        let (v2, m2) = if s == 2 || s == 6 {
            let (c1, mm) = SquareWaveChannel::<Channel1Regs>::spec_sweep(v1.chan1, Channel1Regs, m1);
            (APUView { chan1: c1, ..v1 }, mm)
        } else {
            (v1, m1)
        };
        let v3 = if s == 7 {
            APUView {
                chan1: SquareWaveChannel::<Channel1Regs>::spec_envelope(v2.chan1, Channel1Regs, m2),
                chan2: SquareWaveChannel::<Channel2Regs>::spec_envelope(v2.chan2, Channel2Regs, m2),
                chan4: NoiseChannel::spec_envelope(v2.chan4, m2),
                ..v2
            }
        } else {
            v2
        };
        (APUView { sequencer_cycle: 0, sequencer_step: ((s + 1) % 8) as u16, ..v3 }, m2)
    }
}

/// The audio unit at power-on, its channels loaded from the registers in `io`.
pub open spec fn spec_apu_new(io: Seq<u8>) -> APUView {
    let idle = SquareView {
        frequency: 0,
        volume: 0,
        length: 0,
        timer: 0,
        duty_cycle: 0,
        sweep_timer: 0,
        envelope_count: 0,
        buff: Seq::empty(),
        sample_counter: 0,
    };
    APUView {
        sequencer_cycle: 0,
        sequencer_step: 0,
        chan1: SquareWaveChannel::<Channel1Regs>::spec_reset(idle, Channel1Regs, io),
        chan2: SquareWaveChannel::<Channel2Regs>::spec_reset(idle, Channel2Regs, io),
        chan3: WaveView {
            length: io[NR_31 - 0xFF00] as u16,
            frequency: spec_wave_freq(io),
            timer: (2048 - spec_wave_freq(io)) as u16,
            position_counter: 0,
            sample_counter: 0,
            buff: Seq::empty(),
        },
        chan4: NoiseView {
            volume: (io[NR_42 - 0xFF00] >> 4u8) as u16,
            length: (io[NR_41 - 0xFF00] & 0x3F) as u16,
            envelope_count: io[NR_42 - 0xFF00] & 7,
            timer: spec_noise_period(io),
            sample_counter: 0,
            lsfr: Seq::new(NOISE_LSFR_SIZE as nat, |i: int| false),
            buff: Seq::empty(),
        },
    }
}

impl<T: BankController> Clocked<T> for APU {
    open spec fn dev_inv(v: APUView) -> bool {
        &&& v.sequencer_cycle < SEQUENCER_UPDATE_RATE
        &&& v.sequencer_step < SEQUENCER_STEP_COUNT
        &&& square_inv(v.chan1)
        &&& square_inv(v.chan2)
        &&& wave_inv(v.chan3)
        &&& noise_inv(v.chan4)
    }

    /// The sweep of channel 1 needs a running sweep timer while the channel is on.
    open spec fn can_step(v: APUView, m: MemView<T>) -> bool {
        let (v1, m1) = Self::spec_ticks(v, m);
        let (v2, m2) = Self::spec_after_lengths(v1, m1);
        (v1.sequencer_cycle + 1 == SEQUENCER_UPDATE_RATE && (v1.sequencer_step == 2 || v1.sequencer_step == 6))
            ==> SquareWaveChannel::<Channel1Regs>::spec_sweep_ok(v2.chan1, Channel1Regs, m2)
    }

    open spec fn spec_next_time(v: APUView, m: MemView<T>) -> u64 {
        1
    }

    open spec fn spec_step(v: APUView, m: MemView<T>) -> (APUView, MemView<T>) {
        let (v1, m1) = Self::spec_ticks(v, m);
        if v1.sequencer_cycle + 1 == SEQUENCER_UPDATE_RATE {
            Self::spec_sequence(v1, m1)
        } else {
            (APUView { sequencer_cycle: (v1.sequencer_cycle + 1) as u16, ..v1 }, m1)
        }
    }

    /* The audio unit can always catch up one cycle at a time. */
    fn next_time(&self, mmu: &mut MMU<T>) -> (res: u64) {
        1
    }

    fn step(&mut self, mmu: &mut MMU<T>) {
        self.chan1.tick(mmu);
        self.chan2.tick(mmu);
        self.chan3.tick(mmu);
        self.chan4.tick(mmu);
        let ghost v1 = self@;
        let ghost m1 = mmu@;
        self.sequencer_cycle += 1;
        if self.sequencer_cycle == SEQUENCER_UPDATE_RATE {
            let step = self.sequencer_step;
            if step == 0 || step == 2 || step == 4 || step == 6 {
                self.chan1.length(mmu);
                self.chan2.length(mmu);
                self.chan3.length(mmu);
                self.chan4.length(mmu);
            }
            assert((self@, mmu@) == (APUView { sequencer_cycle: self.sequencer_cycle, ..Self::spec_after_lengths(v1, m1).0 }, Self::spec_after_lengths(v1, m1).1));
            if step == 2 || step == 6 {
                // No sweep on channels 2, 3 and 4.
                self.chan1.sweep(mmu);
            }
            if step == 7 {
                // No envelope on channel 3.
                self.chan1.envelope(mmu);
                self.chan2.envelope(mmu);
                self.chan4.envelope(mmu);
            }
            self.sequencer_cycle = 0;
            self.sequencer_step = (self.sequencer_step + 1) % SEQUENCER_STEP_COUNT;
        }
    }
}

impl APU {
    pub fn new<B: BankController>(mmu: &mut MMU<B>) -> (res: Self)
        requires
            old(mmu).inv(),
        ensures
            final(mmu).inv(),
            final(mmu)@ == old(mmu)@,
            <APU as Clocked<B>>::dev_inv(res@),
            res@ == spec_apu_new(old(mmu)@.io),
    {
        let chan1 = SquareWaveChannel::new(mmu, Channel1Regs);
        let chan2 = SquareWaveChannel::new(mmu, Channel2Regs);
        let chan3 = WaveRamChannel::new(mmu);
        let chan4 = NoiseChannel::new(mmu);
        Self { sequencer_cycle: 0, sequencer_step: 0, chan1, chan2, chan3, chan4 }
    }

    /* Is the channel (1-4) connected to output terminal 1? */
    pub fn SO1<B: BankController>(mmu: &mut MMU<B>, chan: u8) -> (res: bool)
        requires
            old(mmu).inv(),
        ensures
            final(mmu).inv(),
            final(mmu)@ == old(mmu)@,
            res == (1 <= chan <= 4 && spec_bit(old(mmu)@.reg(NR_51), (chan - 1) as u8)),
    {
        if chan > 4 || chan == 0 {
            return false;
        }
        let chan = chan - 1;
        let nr_51 = mmu.read(NR_51);
        (nr_51 & (1u8 << chan)) != 0
    }

    /* Is the channel (1-4) connected to output terminal 2? */
    pub fn SO2<B: BankController>(mmu: &mut MMU<B>, chan: u8) -> (res: bool)
        requires
            old(mmu).inv(),
        ensures
            final(mmu).inv(),
            final(mmu)@ == old(mmu)@,
            res == (1 <= chan <= 4 && spec_bit(old(mmu)@.reg(NR_51) >> 4u8, (chan - 1) as u8)),
    {
        if chan > 4 || chan == 0 {
            return false;
        }
        let chan = chan - 1;
        let nr_51 = mmu.read(NR_51) >> 4u8;
        (nr_51 & (1u8 << chan)) != 0
    }

    pub fn chan1_disable<B: BankController>(&mut self, mmu: &mut MMU<B>)
        requires
            old(mmu).inv(),
        ensures
            final(mmu).inv(),
            final(mmu)@ == spec_set_enabled(old(mmu)@, 0, false),
            final(self)@ == old(self)@,
    {
        self.chan1.regs._ENABLED(mmu, false);
    }

    pub fn chan2_disable<B: BankController>(&mut self, mmu: &mut MMU<B>)
        requires
            old(mmu).inv(),
        ensures
            final(mmu).inv(),
            final(mmu)@ == spec_set_enabled(old(mmu)@, 1, false),
            final(self)@ == old(self)@,
    {
        self.chan2.regs._ENABLED(mmu, false);
    }

    pub fn chan3_disable<B: BankController>(&mut self, mmu: &mut MMU<B>)
        requires
            old(mmu).inv(),
        ensures
            final(mmu).inv(),
            final(mmu)@ == spec_set_enabled(old(mmu)@, 2, false),
            final(self)@ == old(self)@,
    {
        WaveRamChannel::_ENABLED(mmu, false);
    }

    pub fn chan4_disable<B: BankController>(&mut self, mmu: &mut MMU<B>)
        requires
            old(mmu).inv(),
        ensures
            final(mmu).inv(),
            final(mmu)@ == spec_set_enabled(old(mmu)@, 3, false),
            final(self)@ == old(self)@,
    {
        NoiseChannel::_ENABLED(mmu, false);
    }

    pub fn chan1_samples(&mut self) -> (res: &mut Vec<i16>)
        ensures
            *res == old(self).chan1.buff,
            final(self)@ == (APUView { chan1: SquareView { buff: final(res)@, ..old(self)@.chan1 }, ..old(self)@ }),
    {
        self.chan1.buffer()
    }

    pub fn chan2_samples(&mut self) -> (res: &mut Vec<i16>)
        ensures
            *res == old(self).chan2.buff,
            final(self)@ == (APUView { chan2: SquareView { buff: final(res)@, ..old(self)@.chan2 }, ..old(self)@ }),
    {
        self.chan2.buffer()
    }

    pub fn chan3_samples(&mut self) -> (res: &mut Vec<i16>)
        ensures
            *res == old(self).chan3.buff,
            final(self)@ == (APUView { chan3: WaveView { buff: final(res)@, ..old(self)@.chan3 }, ..old(self)@ }),
    {
        self.chan3.buffer()
    }

    pub fn chan4_samples(&mut self) -> (res: &mut Vec<i16>)
        ensures
            *res == old(self).chan4.buff,
            final(self)@ == (APUView { chan4: NoiseView { buff: final(res)@, ..old(self)@.chan4 }, ..old(self)@ }),
    {
        self.chan4.buffer()
    }

    pub fn chan1_reset<B: BankController>(&mut self, mmu: &mut MMU<B>)
        requires
            old(mmu).inv(),
            square_inv(old(self)@.chan1),
        ensures
            final(mmu).inv(),
            final(mmu)@ == old(mmu)@,
            final(self)@ == (APUView {
                chan1: SquareWaveChannel::<Channel1Regs>::spec_reset(old(self)@.chan1, Channel1Regs, old(mmu)@.io),
                ..old(self)@
            }),
    {
        self.chan1.reset(mmu);
    }

    pub fn chan2_reset<B: BankController>(&mut self, mmu: &mut MMU<B>)
        requires
            old(mmu).inv(),
            square_inv(old(self)@.chan2),
        ensures
            final(mmu).inv(),
            final(mmu)@ == old(mmu)@,
            final(self)@ == (APUView {
                chan2: SquareWaveChannel::<Channel2Regs>::spec_reset(old(self)@.chan2, Channel2Regs, old(mmu)@.io),
                ..old(self)@
            }),
    {
        self.chan2.reset(mmu);
    }

    pub fn chan3_reset<B: BankController>(&mut self, mmu: &mut MMU<B>)
        requires
            old(mmu).inv(),
            wave_inv(old(self)@.chan3),
        ensures
            final(mmu).inv(),
            final(mmu)@ == old(mmu)@,
            final(self)@ == (APUView { chan3: WaveRamChannel::spec_reset(old(self)@.chan3, old(mmu)@.io), ..old(self)@ }),
    {
        self.chan3.reset(mmu);
    }

    /* The noise channel restarts only through its trigger flag. */
    pub fn chan4_reset<B: BankController>(&mut self, mmu: &mut MMU<B>)
        ensures
            final(mmu)@ == old(mmu)@,
            final(self)@ == old(self)@,
    {
    }
}

/// The newest BUFF_SIZE samples once at least that many have collected: the
/// buffer is then emptied. With fewer, nothing is taken and the buffer stays.
pub fn take_audio_chunk(samples: &mut Vec<i16>) -> (res: Option<Vec<i16>>)
    ensures
        old(samples)@.len() >= BUFF_SIZE ==> {
            &&& res is Some
            &&& res->0@ == old(samples)@.subrange(old(samples)@.len() - BUFF_SIZE, old(samples)@.len() as int)
            &&& final(samples)@ == Seq::<i16>::empty()
        },
        old(samples)@.len() < BUFF_SIZE ==> res is None && final(samples)@ == old(samples)@,
{
    let n = samples.len();
    if n < BUFF_SIZE {
        return None;
    }
    let mut chunk: Vec<i16> = Vec::with_capacity(BUFF_SIZE);
    let mut i: usize = n - BUFF_SIZE;
    while i < n
        invariant
            n == samples@.len(),
            n >= BUFF_SIZE,
            n - BUFF_SIZE <= i <= n,
            chunk@ == samples@.subrange(n - BUFF_SIZE, i as int),
        decreases n - i,
    {
        chunk.push(samples[i]);
        i += 1;
    }
    samples.clear();
    Some(chunk)
}


/// The audio unit and memory after `n` steps with nothing else touching them.
pub open spec fn spec_apu_run<T: BankController>(v: APUView, m: MemView<T>, n: nat) -> (APUView, MemView<T>)
    decreases n,
{
    if n == 0 {
        (v, m)
    } else {
        let (v1, m1) = spec_apu_run(v, m, (n - 1) as nat);
        <APU as Clocked<T>>::spec_step(v1, m1)
    }
}

/// The frame sequencer moves on once every 2048 steps (512Hz of the 1MHz machine
/// clock): from the start of a period it keeps its step for 2047 steps, and the
/// 2048th step moves it to the next of its eight steps, 7 wrapping to 0.
pub proof fn lemma_sequencer_period<T: BankController>(v: APUView, m: MemView<T>, k: nat)
    requires
        v.sequencer_cycle == 0,
        v.sequencer_step < SEQUENCER_STEP_COUNT,
        k <= SEQUENCER_UPDATE_RATE,
    ensures
        ({
            let v2 = spec_apu_run(v, m, k).0;
            if k < SEQUENCER_UPDATE_RATE {
                v2.sequencer_cycle == k && v2.sequencer_step == v.sequencer_step
            } else {
                v2.sequencer_cycle == 0 && v2.sequencer_step == (v.sequencer_step + 1) % 8
            }
        }),
    decreases k,
{
    if k > 0 {
        lemma_sequencer_period(v, m, (k - 1) as nat);
    }
}

} // verus!
