//! A square wave that grows louder and slower from frame to frame.

use crate::blipbuffer::{BlipBuffer, BlipError};
use crate::laws::lemma_add_delta_keeps_invariant;
use crate::model::{rates_valid, BlipModel};
use vstd::prelude::*;

verus! {

/// Samples per second that the wave is rendered at.
pub const SAMPLE_RATE: u64 = 44100;

/// Clock ticks per second of the wave.
pub const CLOCK_RATE: u64 = 3579545;

/// Clock ticks of one frame: a 60th of a second.
pub const FRAME_CLOCKS: u32 = 59659;

/// The wave and its buffer as plain values.
pub struct WaveModel {
    /// Clock tick of the next step, within the current frame.
    pub time: u32,
    /// Clock ticks between two steps.
    pub period: u32,
    /// Which way the next step goes: `1` up, `-1` down.
    pub phase: i32,
    /// Level that the wave steps to, above and below zero.
    pub volume: u32,
    /// Amplitude that the wave last stepped to.
    pub amplitude: i64,
    pub buffer: BlipModel,
}

/// What an operation on the wave leaves behind.
pub struct Waved {
    pub wave: WaveModel,
    pub result: Result<(), BlipError>,
}

/// What rendering a frame leaves behind, and the samples of the frame.
pub struct Rendered {
    pub wave: WaveModel,
    pub result: Result<Seq<int>, BlipError>,
}

impl WaveModel {
    /// The invariant of a wave.
    pub open spec fn wf(self) -> bool {
        &&& self.buffer.wf()
        &&& self.period >= 1
        &&& self.phase == 1 || self.phase == -1
    }

    /// The wave as it is built: silent, one tick to a step, and a buffer
    /// for a tenth of a second.
    pub open spec fn fresh() -> WaveModel {
        WaveModel {
            time: 0,
            period: 1,
            phase: 1,
            volume: 0,
            amplitude: 0,
            buffer: BlipModel::fresh(4410),
        }
    }

    /// The height of the next step.
    pub open spec fn next_delta(self) -> int {
        self.phase * self.volume - self.amplitude
    }

    /// Whether the wave can take its next step: the step has a height that
    /// the buffer takes, and the time of the step after it is later and in
    /// range.
    pub open spec fn step_accepted(self) -> bool {
        &&& i32::MIN <= self.next_delta() <= i32::MAX
        &&& self.period >= 1
        &&& self.time + self.period <= u32::MAX
    }

    /// The wave after its next step.
    pub open spec fn stepped(self) -> WaveModel {
        WaveModel {
            time: (self.time + self.period) as u32,
            phase: (-self.phase) as i32,
            amplitude: (self.phase * self.volume) as i64,
            buffer: self.buffer.add_delta(self.time as nat, self.next_delta()),
            ..self
        }
    }

    /// Clock ticks from the wave's time to `clocks`.
    pub open spec fn ticks_left(self, clocks: int) -> nat {
        if clocks > self.time {
            (clocks - self.time) as nat
        } else {
            0
        }
    }

    /// The wave after it stepped until its time reached `clocks`, or until a
    /// step was refused. A refused step changes nothing.
    pub open spec fn run_wave(self, clocks: int) -> Waved
        decreases self.ticks_left(clocks),
    {
        if self.time >= clocks {
            Waved { wave: self, result: Ok(()) }
        } else if !self.step_accepted() {
            Waved { wave: self, result: Err(BlipError::Argument) }
        } else if !self.buffer.delta_fits(self.time as nat) {
            Waved { wave: self, result: Err(BlipError::Capacity) }
        } else {
            self.stepped().run_wave(clocks)
        }
    }

    /// The wave after a frame of `clocks` ticks was closed, with its time
    /// counted from the end of that frame. A refused frame changes nothing.
    pub open spec fn end_wave(self, clocks: int) -> Waved {
        if !(0 <= clocks <= self.time) {
            Waved { wave: self, result: Err(BlipError::Argument) }
        } else if !self.buffer.frame_fits(clocks as nat) {
            Waved { wave: self, result: Err(BlipError::Capacity) }
        } else {
            Waved {
                wave: WaveModel {
                    time: (self.time - clocks) as u32,
                    buffer: self.buffer.end_frame(clocks as nat),
                    ..self
                },
                result: Ok(()),
            }
        }
    }

    /// The wave with everything read that was readable.
    pub open spec fn drained(self) -> WaveModel {
        WaveModel { buffer: self.buffer.read_samples(self.buffer.avail), ..self }
    }

    /// One frame of `FRAME_CLOCKS` ticks: the wave runs to its end, the
    /// frame is closed, all its samples are read, and the wave is modified
    /// for the next frame. Stops at the first thing refused.
    pub open spec fn render_frame(self) -> Rendered {
        let ran = self.run_wave(FRAME_CLOCKS as int);
        let ended = ran.wave.end_wave(FRAME_CLOCKS as int);
        if ran.result is Err {
            Rendered { wave: ran.wave, result: Err(ran.result->Err_0) }
        } else if ended.result is Err {
            Rendered { wave: ended.wave, result: Err(ended.result->Err_0) }
        } else if ended.wave.drained().modify_wave() is None {
            Rendered { wave: ended.wave.drained(), result: Err(BlipError::Argument) }
        } else {
            Rendered {
                wave: ended.wave.drained().modify_wave()->0,
                result: Ok(ended.wave.buffer.output(ended.wave.buffer.avail, false)),
            }
        }
    }

    /// The wave a little louder and slower, if both still fit in 32 bits.
    pub open spec fn modify_wave(self) -> Option<WaveModel> {
        if self.volume + 100 <= u32::MAX && self.period + (self.period / 28 + 3) <= u32::MAX {
            Some(
                WaveModel {
                    volume: (self.volume + 100) as u32,
                    period: (self.period + (self.period / 28 + 3)) as u32,
                    ..self
                },
            )
        } else {
            None
        }
    }
}

/// A wave that ran without a refusal has reached the end of the frame.
/// Whether refused or not, a run never moves the wave back in time, keeps
/// its period and volume and its invariant, and changes neither the frame
/// nor the count of readable samples of its buffer.
pub proof fn lemma_run_wave_reaches_end(wave: WaveModel, clocks: int)
    requires
        wave.wf(),
    ensures
        wave.run_wave(clocks).result is Ok ==> wave.run_wave(clocks).wave.time >= clocks,
        wave.run_wave(clocks).wave.time >= wave.time,
        wave.run_wave(clocks).wave.period == wave.period,
        wave.run_wave(clocks).wave.volume == wave.volume,
        wave.run_wave(clocks).wave.wf(),
        wave.run_wave(clocks).wave.buffer.avail == wave.buffer.avail,
        wave.run_wave(clocks).wave.buffer.offset == wave.buffer.offset,
        wave.run_wave(clocks).wave.buffer.factor == wave.buffer.factor,
        wave.run_wave(clocks).wave.buffer.integrator == wave.buffer.integrator,
    decreases wave.ticks_left(clocks),
{
    if wave.time < clocks && wave.step_accepted() && wave.buffer.delta_fits(wave.time as nat) {
        lemma_add_delta_keeps_invariant(wave.buffer, wave.time as nat, wave.next_delta());
        lemma_run_wave_reaches_end(wave.stepped(), clocks);
    }
}

/// A square wave and the buffer it is rendered into.
pub struct Demo1 {
    time: u32,
    period: u32,
    phase: i32,
    volume: u32,
    amplitude: i64,
    blip_buffer: BlipBuffer,
}

impl View for Demo1 {
    type V = WaveModel;

    closed spec fn view(&self) -> WaveModel {
        WaveModel {
            time: self.time,
            period: self.period,
            phase: self.phase,
            volume: self.volume,
            amplitude: self.amplitude,
            buffer: self.blip_buffer@,
        }
    }
}

impl Demo1 {
    /// The invariant that every operation keeps.
    pub open spec fn wf(&self) -> bool {
        self@.wf()
    }

    /// A silent wave.
    pub fn new() -> (demo: Demo1)
        ensures
            demo.wf(),
            demo@ == WaveModel::fresh(),
    {
        Demo1 {
            time: 0,
            period: 1,
            phase: 1,
            volume: 0,
            amplitude: 0,
            blip_buffer: BlipBuffer::new(4410),
        }
    }

    /// Installs the rates of the wave's clock and of its output in the
    /// buffer.
    pub fn set_rates(&mut self, clock_rate: u64, sample_rate: u64) -> (result: Result<
        (),
        BlipError,
    >)
        requires
            old(self).wf(),
        ensures
            final(self).wf(),
            rates_valid(clock_rate as nat, sample_rate as nat) ==> result == Ok::<(), BlipError>(
                (),
            ) && final(self)@ == (WaveModel {
                buffer: old(self)@.buffer.set_rates(clock_rate as nat, sample_rate as nat),
                ..old(self)@
            }),
            !rates_valid(clock_rate as nat, sample_rate as nat) ==> result == Err::<
                (),
                BlipError,
            >(BlipError::Configuration) && final(self)@ == old(self)@,
    {
        self.blip_buffer.set_rates(clock_rate, sample_rate)
    }

    /// Steps the wave into the buffer until its time reaches `clocks`.
    pub fn run_wave(&mut self, clocks: i128) -> (result: Result<(), BlipError>)
        requires
            old(self).wf(),
        ensures
            final(self).wf(),
            final(self)@.buffer.avail == old(self)@.buffer.avail,
            (Waved { wave: final(self)@, result }) == old(self)@.run_wave(clocks as int),
            result is Ok ==> final(self)@.time >= clocks,
            final(self)@.time >= old(self)@.time,
    {
        proof {
            lemma_run_wave_reaches_end(self@, clocks as int);
        }
        while (self.time as i128) < clocks
            invariant
                self.wf(),
                self@.buffer.avail == old(self)@.buffer.avail,
                self@.run_wave(clocks as int) == old(self)@.run_wave(clocks as int),
                old(self)@.run_wave(clocks as int).wave.time >= old(self)@.time,
            decreases self@.ticks_left(clocks as int),
        {
            let level: i64 = self.phase as i64 * self.volume as i64;
            let delta: i128 = level as i128 - self.amplitude as i128;
            let time: u64 = self.time as u64 + self.period as u64;
            if delta < -0x8000_0000 || delta > 0x7FFF_FFFF || time > 0xFFFF_FFFF {
                return Err(BlipError::Argument);
            }
            match self.blip_buffer.add_delta(self.time, delta as i32) {
                Ok(()) => {},
                Err(e) => {
                    return Err(e);
                },
            }
            self.amplitude = level;
            self.phase = -self.phase;
            self.time = time as u32;
        }
        Ok(())
    }

    /// Closes a frame of `clocks` ticks and counts the wave's time from its
    /// end on.
    pub fn end_wave(&mut self, clocks: i128) -> (result: Result<(), BlipError>)
        requires
            old(self).wf(),
        ensures
            final(self).wf(),
            final(self)@.buffer.avail >= old(self)@.buffer.avail,
            (Waved { wave: final(self)@, result }) == old(self)@.end_wave(clocks as int),
    {
        if clocks < 0 || clocks > self.time as i128 {
            return Err(BlipError::Argument);
        }
        let frame: u32 = clocks as u32;
        match self.blip_buffer.end_frame(frame) {
            Ok(()) => {},
            Err(e) => {
                return Err(e);
            },
        }
        self.time = self.time - frame;
        Ok(())
    }

    /// Makes the wave louder by 100 and its period longer by a 28th and 3
    /// ticks.
    pub fn modify_wave(&mut self) -> (result: Result<(), BlipError>)
        requires
            old(self).wf(),
        ensures
            final(self).wf(),
            match old(self)@.modify_wave() {
                Some(modified) => result == Ok::<(), BlipError>(()) && final(self)@ == modified,
                None => result == Err::<(), BlipError>(BlipError::Argument) && final(self)@
                    == old(self)@,
            },
    {
        let volume: u64 = self.volume as u64 + 100;
        let period: u64 = self.period as u64 + (self.period as u64 / 28 + 3);
        if volume > 0xFFFF_FFFF || period > 0xFFFF_FFFF {
            return Err(BlipError::Argument);
        }
        self.volume = volume as u32;
        self.period = period as u32;
        Ok(())
    }

    /// Whether there are samples to read.
    pub fn samples_available(&self) -> (ready: bool)
        requires
            self.wf(),
        ensures
            ready == (self@.buffer.avail > 0),
    {
        self.blip_buffer.samples_available() > 0
    }

    /// Reads up to `count` samples of the wave.
    pub fn read_samples(&mut self, count: u32) -> (result: (u32, Vec<i16>))
        requires
            old(self).wf(),
        ensures
            final(self).wf(),
            final(self)@ == (WaveModel {
                buffer: old(self)@.buffer.read_samples(count as nat),
                ..old(self)@
            }),
            result.0 == old(self)@.buffer.readable(count as nat),
            result.1.len() == result.0,
            result.1@.map_values(|s: i16| s as int) == old(self)@.buffer.output(
                count as nat,
                false,
            ),
    {
        self.blip_buffer.read_samples(count, false)
    }

    /// Renders the next frame: `FRAME_CLOCKS` ticks of the wave, all of its
    /// samples, and the wave modified for the frame after it.
    pub fn render_frame(&mut self) -> (result: Result<Vec<i16>, BlipError>)
        requires
            old(self).wf(),
        ensures
            final(self).wf(),
            final(self)@ == old(self)@.render_frame().wave,
            match result {
                Ok(samples) => old(self)@.render_frame().result == Ok::<Seq<int>, BlipError>(
                    samples@.map_values(|s: i16| s as int),
                ),
                Err(e) => old(self)@.render_frame().result == Err::<Seq<int>, BlipError>(e),
            },
    {
        match self.run_wave(FRAME_CLOCKS as i128) {
            Ok(()) => {},
            Err(e) => {
                return Err(e);
            },
        }
        match self.end_wave(FRAME_CLOCKS as i128) {
            Ok(()) => {},
            Err(e) => {
                return Err(e);
            },
        }
        let available: u32 = self.blip_buffer.samples_available();
        let (_, samples) = self.read_samples(available);
        match self.modify_wave() {
            Ok(()) => Ok(samples),
            Err(e) => Err(e),
        }
    }
}

} // verus!
