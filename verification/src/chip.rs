//! A small sound chip that drives a buffer: two square waves, a triangle
//! and a noise channel, each a generator of amplitude steps.

use crate::blipbuffer::{BlipBuffer, BlipError};
use crate::event::LogEvent;
use crate::fixed::{lemma_wrap_slot_absorbs, lemma_wrap_slot_in_range, wrap_slot};
use crate::laws::{lemma_add_delta_keeps_invariant, lemma_integration_superposes_nearly};
use crate::model::{mixed, rates_valid, raw_sample, BlipModel};
use vstd::prelude::*;

verus! {

/// Samples per second that the chip renders.
pub const SAMPLE_RATE: u64 = 44100;

/// Clock ticks per second of the chip.
pub const CLOCK_RATE: u64 = 1789772;

/// Amplitude of a channel at full gain: the 16-bit range over 15 levels.
pub const MASTER_VOLUME: u32 = 4369;

/// The wave that a channel generates.
#[derive(Clone, Copy, Debug, PartialEq, Eq, Structural)]
pub enum ChannelType {
    Square,
    Triangle,
    Noise,
}

/// A channel as plain values.
pub struct ChannelModel {
    pub kind: ChannelType,
    /// Amplitude of one level of the wave.
    pub gain: u32,
    /// Clock ticks between two steps of the wave.
    pub period: u32,
    /// Level of the wave where it is high.
    pub volume: u32,
    /// Duty of a square wave, in eighths; feedback taps of the noise.
    pub timbre: u32,
    /// Clock tick of the last step, within the current frame.
    pub time: u32,
    /// Where the wave stands in its cycle.
    pub phase: u32,
    /// Amplitude that the channel last stepped to.
    pub amplitude: u64,
}

/// What running a channel, or playing an event, leaves behind.
pub struct Run {
    pub channel: ChannelModel,
    pub buffer: BlipModel,
    pub result: Result<(), BlipError>,
}

/// The shift register of the noise channel after one shift: the bit that
/// drops out at the bottom feeds the taps of `timbre` back in.
pub open spec fn noise_shift(phase: u32, timbre: u32) -> u32 {
    (if phase & 1 == 1 {
        timbre
    } else {
        0u32
    }) ^ (phase >> 1)
}

impl ChannelModel {
    /// A channel of `kind` at rest, with the gain for `gain` percent.
    pub open spec fn fresh(kind: ChannelType, gain: u16, period: u32) -> ChannelModel {
        ChannelModel {
            kind,
            gain: (4369 * gain / 100) as u32,
            period,
            volume: 0,
            timbre: 0,
            time: 0,
            phase: 0,
            amplitude: 0,
        }
    }

    /// Where the wave stands after its next step.
    pub open spec fn next_phase(self) -> u32 {
        match self.kind {
            ChannelType::Square => ((self.phase + 1) % 8) as u32,
            ChannelType::Triangle => if self.volume != 0 {
                ((self.phase + 1) % 32) as u32
            } else {
                self.phase
            },
            ChannelType::Noise => noise_shift(self.phase, self.timbre),
        }
    }

    /// The level of the wave after its next step.
    pub open spec fn next_level(self) -> int {
        let phase = self.next_phase();
        match self.kind {
            ChannelType::Square => if phase < self.timbre {
                0
            } else {
                self.volume as int
            },
            ChannelType::Triangle => if phase < 16 {
                phase as int
            } else {
                31 - phase
            },
            ChannelType::Noise => if phase & 1 == 1 {
                self.volume as int
            } else {
                0
            },
        }
    }

    /// Whether the next step changes the output. A triangle without volume
    /// keeps time and nothing else.
    pub open spec fn emits(self) -> bool {
        self.kind == ChannelType::Triangle ==> self.volume != 0
    }

    /// The height of the next step.
    pub open spec fn next_delta(self) -> int {
        self.next_level() * self.gain - self.amplitude
    }

    /// Whether the channel can take its next step: time moves on and stays
    /// in range, and the step has a height that the buffer takes.
    pub open spec fn tick_accepted(self) -> bool {
        &&& self.period >= 1
        &&& self.time + self.period <= u32::MAX
        &&& self.emits() ==> i32::MIN <= self.next_delta() <= i32::MAX
    }

    /// The channel after its next step.
    pub open spec fn tick(self) -> ChannelModel {
        ChannelModel {
            time: (self.time + self.period) as u32,
            phase: self.next_phase(),
            amplitude: if self.emits() {
                (self.next_level() * self.gain) as u64
            } else {
                self.amplitude
            },
            ..self
        }
    }

    /// Clock ticks from the channel's time to `end_time`.
    pub open spec fn ticks_left(self, end_time: int) -> nat {
        if end_time > self.time {
            (end_time - self.time) as nat
        } else {
            0
        }
    }

    /// One step of the channel into `buffer`. A channel that cannot take the
    /// step is left as it was. One whose step the buffer refuses has taken
    /// it all the same.
    pub open spec fn step(self, buffer: BlipModel) -> Run {
        if !self.tick_accepted() {
            Run { channel: self, buffer, result: Err(BlipError::Argument) }
        } else if !self.emits() {
            Run { channel: self.tick(), buffer, result: Ok(()) }
        } else if !buffer.delta_fits(self.tick().time as nat) {
            Run { channel: self.tick(), buffer, result: Err(BlipError::Capacity) }
        } else {
            Run {
                channel: self.tick(),
                buffer: buffer.add_delta(self.tick().time as nat, self.next_delta()),
                result: Ok(()),
            }
        }
    }

    /// The channel and the buffer after the channel stepped until its time
    /// reached `end_time`, or until a step was refused.
    pub open spec fn run_from(self, buffer: BlipModel, end_time: int) -> Run
        decreases self.ticks_left(end_time),
    {
        if self.time >= end_time {
            Run { channel: self, buffer, result: Ok(()) }
        } else if self.step(buffer).result is Err {
            self.step(buffer)
        } else {
            self.tick().run_from(self.step(buffer).buffer, end_time)
        }
    }

    /// What the run up to `end_time` adds to slot `i` of `buffer`, before
    /// wrapping: the sum of what its steps add.
    pub open spec fn run_increment(self, buffer: BlipModel, end_time: int, i: int) -> int
        decreases self.ticks_left(end_time),
    {
        if self.time >= end_time || self.step(buffer).result is Err {
            0
        } else {
            (if self.emits() {
                buffer.increment(self.tick().time as nat, self.next_delta(), i)
            } else {
                0
            }) + self.tick().run_increment(self.step(buffer).buffer, end_time, i)
        }
    }

    /// The channel as `run` starts it: a noise register that is empty gets
    /// its first bit.
    pub open spec fn primed(self) -> ChannelModel {
        if self.kind == ChannelType::Noise && self.phase == 0 {
            ChannelModel { phase: 1, ..self }
        } else {
            self
        }
    }

    /// The channel and the buffer after `run`.
    pub open spec fn run(self, buffer: BlipModel, end_time: int) -> Run {
        self.primed().run_from(buffer, end_time)
    }

    /// The channel after a write of `data` to a register, if there is such
    /// a register and it takes `data`.
    pub open spec fn write(self, register_index: i8, data: i128) -> Option<ChannelModel> {
        if 0 <= data <= u32::MAX {
            if register_index == 0 {
                Some(ChannelModel { period: data as u32, ..self })
            } else if register_index == 1 {
                Some(ChannelModel { volume: data as u32, ..self })
            } else if register_index == 2 {
                Some(ChannelModel { timbre: data as u32, ..self })
            } else {
                None
            }
        } else {
            None
        }
    }

    /// The channel with its time counted from the start of the next frame,
    /// if that time is in range.
    pub open spec fn close(self, end_time: int) -> Option<ChannelModel> {
        if 0 <= self.time - end_time <= u32::MAX {
            Some(ChannelModel { time: (self.time - end_time) as u32, ..self })
        } else {
            None
        }
    }
}

/// A channel that ran without a refusal has reached the end of the frame.
/// Whether refused or not, a run never moves the channel back in time,
/// changes neither its wave, its gain nor its registers, and leaves the
/// buffer with its invariant, its frame and its count of readable samples.
pub proof fn lemma_run_reaches_end(channel: ChannelModel, buffer: BlipModel, end_time: int)
    requires
        buffer.wf(),
    ensures
        channel.run(buffer, end_time).result is Ok ==> channel.run(buffer, end_time).channel.time
            >= end_time,
        channel.run(buffer, end_time).channel.time >= channel.time,
        channel.run(buffer, end_time).channel.kind == channel.kind,
        channel.run(buffer, end_time).channel.gain == channel.gain,
        channel.run(buffer, end_time).channel.period == channel.period,
        channel.run(buffer, end_time).channel.volume == channel.volume,
        channel.run(buffer, end_time).channel.timbre == channel.timbre,
        channel.run(buffer, end_time).buffer.wf(),
        channel.run(buffer, end_time).buffer.avail == buffer.avail,
        channel.run(buffer, end_time).buffer.offset == buffer.offset,
        channel.run(buffer, end_time).buffer.factor == buffer.factor,
        channel.run(buffer, end_time).buffer.integrator == buffer.integrator,
{
    lemma_run_from_reaches_end(channel.primed(), buffer, end_time);
}

/// The same of a channel that is past its start.
proof fn lemma_run_from_reaches_end(channel: ChannelModel, buffer: BlipModel, end_time: int)
    requires
        buffer.wf(),
    ensures
        channel.run_from(buffer, end_time).result is Ok ==> channel.run_from(
            buffer,
            end_time,
        ).channel.time >= end_time,
        channel.run_from(buffer, end_time).channel.time >= channel.time,
        channel.run_from(buffer, end_time).channel.kind == channel.kind,
        channel.run_from(buffer, end_time).channel.gain == channel.gain,
        channel.run_from(buffer, end_time).channel.period == channel.period,
        channel.run_from(buffer, end_time).channel.volume == channel.volume,
        channel.run_from(buffer, end_time).channel.timbre == channel.timbre,
        channel.run_from(buffer, end_time).buffer.wf(),
        channel.run_from(buffer, end_time).buffer.avail == buffer.avail,
        channel.run_from(buffer, end_time).buffer.offset == buffer.offset,
        channel.run_from(buffer, end_time).buffer.factor == buffer.factor,
        channel.run_from(buffer, end_time).buffer.integrator == buffer.integrator,
    decreases channel.ticks_left(end_time),
{
    if channel.time < end_time && channel.step(buffer).result is Ok {
        let once = channel.step(buffer);
        if channel.emits() {
            lemma_add_delta_keeps_invariant(
                buffer,
                channel.tick().time as nat,
                channel.next_delta(),
            );
        }
        lemma_run_from_reaches_end(channel.tick(), once.buffer, end_time);
    }
}

/// Whether two buffers have the same frame: the same factor and offset, as
/// many readable samples and as many slots.
pub open spec fn same_frame(a: BlipModel, b: BlipModel) -> bool {
    &&& a.factor == b.factor
    &&& a.offset == b.offset
    &&& a.avail == b.avail
    &&& a.slots.len() == b.slots.len()
}

/// A run leaves in each slot what the slot held plus what the run adds to
/// it, wrapped to 64 bits.
pub proof fn lemma_run_adds_increment(
    channel: ChannelModel,
    buffer: BlipModel,
    end_time: int,
    i: int,
)
    requires
        buffer.wf(),
        0 <= i < buffer.slots.len(),
    ensures
        channel.run_from(buffer, end_time).buffer.slots[i] == wrap_slot(
            buffer.slots[i] + channel.run_increment(buffer, end_time, i),
        ),
    decreases channel.ticks_left(end_time),
{
    lemma_wrap_slot_in_range(buffer.slots[i]);
    if channel.time < end_time && channel.step(buffer).result is Ok {
        let once = channel.step(buffer);
        if channel.emits() {
            lemma_add_delta_keeps_invariant(
                buffer,
                channel.tick().time as nat,
                channel.next_delta(),
            );
            lemma_wrap_slot_absorbs(
                buffer.slots[i] + buffer.increment(
                    channel.tick().time as nat,
                    channel.next_delta(),
                    i,
                ),
                channel.tick().run_increment(once.buffer, end_time, i),
            );
        }
        lemma_run_adds_increment(channel.tick(), once.buffer, end_time, i);
    }
}

/// A run looks at the frame of its buffer only: into two buffers with the
/// same frame a channel runs the same way, ends the same and adds the same.
pub proof fn lemma_run_reads_frame_only(
    channel: ChannelModel,
    a: BlipModel,
    b: BlipModel,
    end_time: int,
    i: int,
)
    requires
        a.wf(),
        b.wf(),
        same_frame(a, b),
    ensures
        channel.run_from(a, end_time).channel == channel.run_from(b, end_time).channel,
        channel.run_from(a, end_time).result == channel.run_from(b, end_time).result,
        channel.run_increment(a, end_time, i) == channel.run_increment(b, end_time, i),
        same_frame(channel.run_from(a, end_time).buffer, a),
    decreases channel.ticks_left(end_time),
{
    if channel.time < end_time && channel.step(a).result is Ok {
        if channel.emits() {
            lemma_add_delta_keeps_invariant(a, channel.tick().time as nat, channel.next_delta());
            lemma_add_delta_keeps_invariant(b, channel.tick().time as nat, channel.next_delta());
        }
        lemma_run_reads_frame_only(
            channel.tick(),
            channel.step(a).buffer,
            channel.step(b).buffer,
            end_time,
            i,
        );
    }
}

/// The order of two channels does not matter. Run into one buffer one
/// after the other, two channels end as each would alone, and leave the
/// same buffer in either order.
pub proof fn lemma_runs_commute(
    first: ChannelModel,
    second: ChannelModel,
    buffer: BlipModel,
    first_end: int,
    second_end: int,
)
    requires
        buffer.wf(),
    ensures
        ({
            let one = first.run(buffer, first_end);
            let two = second.run(buffer, second_end);
            let one_two = second.run(one.buffer, second_end);
            let two_one = first.run(two.buffer, first_end);
            &&& one_two.channel == two.channel
            &&& one_two.result == two.result
            &&& two_one.channel == one.channel
            &&& two_one.result == one.result
            &&& one_two.buffer == two_one.buffer
        }),
{
    let a = first.primed();
    let b = second.primed();
    let one = a.run_from(buffer, first_end);
    let two = b.run_from(buffer, second_end);
    let one_two = b.run_from(one.buffer, second_end);
    let two_one = a.run_from(two.buffer, first_end);
    lemma_run_from_reaches_end(a, buffer, first_end);
    lemma_run_from_reaches_end(b, buffer, second_end);
    lemma_run_from_reaches_end(b, one.buffer, second_end);
    lemma_run_from_reaches_end(a, two.buffer, first_end);
    lemma_run_reads_frame_only(a, buffer, buffer, first_end, 0);
    lemma_run_reads_frame_only(b, buffer, buffer, second_end, 0);
    lemma_run_reads_frame_only(b, one.buffer, buffer, second_end, 0);
    lemma_run_reads_frame_only(a, two.buffer, buffer, first_end, 0);
    assert forall|i: int| 0 <= i < buffer.slots.len() implies one_two.buffer.slots[i]
        == two_one.buffer.slots[i] by {
        lemma_run_reads_frame_only(b, one.buffer, buffer, second_end, i);
        lemma_run_reads_frame_only(a, two.buffer, buffer, first_end, i);
        lemma_run_adds_increment(a, buffer, first_end, i);
        lemma_run_adds_increment(b, buffer, second_end, i);
        lemma_run_adds_increment(b, one.buffer, second_end, i);
        lemma_run_adds_increment(a, two.buffer, first_end, i);
        lemma_wrap_slot_absorbs(
            buffer.slots[i] + a.run_increment(buffer, first_end, i),
            b.run_increment(buffer, second_end, i),
        );
        lemma_wrap_slot_absorbs(
            buffer.slots[i] + b.run_increment(buffer, second_end, i),
            a.run_increment(buffer, first_end, i),
        );
    }
    assert(one_two.buffer.slots =~= two_one.buffer.slots);
}

/// Channels mix by addition. Run two channels into a silent buffer, one
/// after the other, and each sample is, before saturation, within 1 of the
/// sum of the samples that each channel gives alone, provided the slots of
/// the two, added up, nowhere exceed 64 bits.
pub proof fn lemma_channels_mix(
    first: ChannelModel,
    second: ChannelModel,
    buffer: BlipModel,
    first_end: int,
    second_end: int,
    i: nat,
)
    requires
        buffer.wf(),
        buffer.silent(),
        i <= buffer.slots.len(),
        forall|j: int|
            0 <= j < buffer.slots.len() ==> i64::MIN <= #[trigger] first.run(
                buffer,
                first_end,
            ).buffer.slots[j] + second.run(buffer, second_end).buffer.slots[j] <= i64::MAX,
    ensures
        ({
            let one = first.run(buffer, first_end).buffer;
            let two = second.run(buffer, second_end).buffer;
            let both = second.run(one, second_end).buffer;
            -1 <= raw_sample(0, both.slots, i) - raw_sample(0, one.slots, i) - raw_sample(
                0,
                two.slots,
                i,
            ) <= 1
        }),
{
    let a = first.primed();
    let b = second.primed();
    let one = a.run_from(buffer, first_end).buffer;
    let two = b.run_from(buffer, second_end).buffer;
    let both = b.run_from(one, second_end).buffer;
    lemma_run_from_reaches_end(a, buffer, first_end);
    lemma_run_from_reaches_end(b, buffer, second_end);
    lemma_run_from_reaches_end(b, one, second_end);
    lemma_run_reads_frame_only(a, buffer, buffer, first_end, 0);
    lemma_run_reads_frame_only(b, buffer, buffer, second_end, 0);
    lemma_run_reads_frame_only(b, one, buffer, second_end, 0);
    assert forall|j: int| 0 <= j < buffer.slots.len() implies both.slots[j] == mixed(
        one.slots,
        two.slots,
    )[j] by {
        lemma_run_reads_frame_only(b, one, buffer, second_end, j);
        lemma_run_adds_increment(a, buffer, first_end, j);
        lemma_run_adds_increment(b, buffer, second_end, j);
        lemma_run_adds_increment(b, one, second_end, j);
        lemma_wrap_slot_absorbs(
            a.run_increment(buffer, first_end, j),
            b.run_increment(buffer, second_end, j),
        );
        lemma_wrap_slot_absorbs(
            b.run_increment(buffer, second_end, j),
            wrap_slot(a.run_increment(buffer, first_end, j)),
        );
        lemma_wrap_slot_in_range(one.slots[j] + two.slots[j]);
    }
    assert(both.slots =~= mixed(one.slots, two.slots));
    lemma_integration_superposes_nearly(0, one.slots, 0, two.slots, i);
}

#[derive(Clone, Copy)]
struct ChannelRegister {
    period: u32,
    volume: u32,
    timbre: u32,
}

/// One generator of the chip.
#[derive(Clone, Copy)]
pub struct Channel {
    channel_type: ChannelType,
    gain: u32,
    registers: ChannelRegister,
    time: u32,
    phase: u32,
    amplitude: u64,
}

impl View for Channel {
    type V = ChannelModel;

    closed spec fn view(&self) -> ChannelModel {
        ChannelModel {
            kind: self.channel_type,
            gain: self.gain,
            period: self.registers.period,
            volume: self.registers.volume,
            timbre: self.registers.timbre,
            time: self.time,
            phase: self.phase,
            amplitude: self.amplitude,
        }
    }
}

impl Channel {
    /// A channel at rest. `gain` is in percent of `MASTER_VOLUME`.
    pub fn new(channel_type: ChannelType, gain: u16, period: u32) -> (channel: Channel)
        ensures
            channel@ == ChannelModel::fresh(channel_type, gain, period),
    {
        Channel {
            channel_type,
            gain: MASTER_VOLUME * (gain as u32) / 100,
            registers: ChannelRegister { period, volume: 0, timbre: 0 },
            time: 0,
            phase: 0,
            amplitude: 0,
        }
    }

    /// Steps the wave into `blip_buffer` until the channel's time reaches
    /// `end_time`. Stops at the first step that is refused.
    pub fn run(&mut self, blip_buffer: &mut BlipBuffer, end_time: i128) -> (result: Result<
        (),
        BlipError,
    >)
        requires
            old(blip_buffer).wf(),
        ensures
            final(blip_buffer).wf(),
            final(blip_buffer)@.avail == old(blip_buffer)@.avail,
            (Run { channel: final(self)@, buffer: final(blip_buffer)@, result }) == old(self)@.run(
                old(blip_buffer)@,
                end_time as int,
            ),
            result is Ok ==> final(self)@.time >= end_time,
            final(self)@.time >= old(self)@.time,
    {
        proof {
            lemma_run_reaches_end(self@, blip_buffer@, end_time as int);
        }
        match self.channel_type {
            ChannelType::Square => self.run_square(blip_buffer, end_time),
            ChannelType::Triangle => self.run_triangle(blip_buffer, end_time),
            ChannelType::Noise => self.run_noise(blip_buffer, end_time),
        }
    }

    /// Writes `data` to the period, volume or timbre register.
    pub fn update_register(&mut self, register_index: i8, data: i128) -> (result: Result<
        (),
        BlipError,
    >)
        ensures
            match old(self)@.write(register_index, data) {
                Some(written) => result == Ok::<(), BlipError>(()) && final(self)@ == written,
                None => result == Err::<(), BlipError>(BlipError::Argument)
                    && final(self)@ == old(self)@,
            },
    {
        if data < 0 || data > 0xFFFF_FFFF {
            return Err(BlipError::Argument);
        }
        let value: u32 = data as u32;
        match register_index {
            0 => {
                self.registers.period = value;
                Ok(())
            },
            1 => {
                self.registers.volume = value;
                Ok(())
            },
            2 => {
                self.registers.timbre = value;
                Ok(())
            },
            _ => Err(BlipError::Argument),
        }
    }

    /// Runs a square wave: 8 steps to a cycle, low while its phase is below
    /// `timbre` and at `volume` for the rest.
    fn run_square(&mut self, blip_buffer: &mut BlipBuffer, end_time: i128) -> (result: Result<
        (),
        BlipError,
    >)
        requires
            old(self)@.kind == ChannelType::Square,
            old(blip_buffer).wf(),
        ensures
            final(blip_buffer).wf(),
            final(blip_buffer)@.avail == old(blip_buffer)@.avail,
            (Run { channel: final(self)@, buffer: final(blip_buffer)@, result }) == old(self)@.run(
                old(blip_buffer)@,
                end_time as int,
            ),
    {
        while (self.time as i128) < end_time
            invariant
                self@.kind == ChannelType::Square,
                blip_buffer.wf(),
                blip_buffer@.avail == old(blip_buffer)@.avail,
                self@.run_from(blip_buffer@, end_time as int) == old(self)@.run(
                    old(blip_buffer)@,
                    end_time as int,
                ),
            decreases self@.ticks_left(end_time as int),
        {
            let phase: u32 = ((self.phase as u64 + 1) % 8) as u32;
            let level: u32 = if phase < self.registers.timbre {
                0
            } else {
                self.registers.volume
            };
            match self.step(blip_buffer, phase, Some(level)) {
                Ok(()) => {},
                Err(e) => {
                    return Err(e);
                },
            }
        }
        Ok(())
    }

    /// Runs the noise: a shift register with feedback taps `timbre`, at
    /// `volume` while its bottom bit is set.
    fn run_noise(&mut self, blip_buffer: &mut BlipBuffer, end_time: i128) -> (result: Result<
        (),
        BlipError,
    >)
        requires
            old(self)@.kind == ChannelType::Noise,
            old(blip_buffer).wf(),
        ensures
            final(blip_buffer).wf(),
            final(blip_buffer)@.avail == old(blip_buffer)@.avail,
            (Run { channel: final(self)@, buffer: final(blip_buffer)@, result }) == old(self)@.run(
                old(blip_buffer)@,
                end_time as int,
            ),
    {
        if self.phase == 0 {
            self.phase = 1;
        }
        while (self.time as i128) < end_time
            invariant
                self@.kind == ChannelType::Noise,
                blip_buffer.wf(),
                blip_buffer@.avail == old(blip_buffer)@.avail,
                self@.run_from(blip_buffer@, end_time as int) == old(self)@.run(
                    old(blip_buffer)@,
                    end_time as int,
                ),
            decreases self@.ticks_left(end_time as int),
        {
            let register: u32 = self.phase;
            let low: u32 = register & 1;
            assert(low == 0 || low == 1) by (bit_vector)
                requires
                    low == register & 1,
            ;
            let phase: u32 = (low * self.registers.timbre) ^ (register >> 1);
            let bit: u32 = phase & 1;
            assert(bit == 0 || bit == 1) by (bit_vector)
                requires
                    bit == phase & 1,
            ;
            let level: u32 = bit * self.registers.volume;
            match self.step(blip_buffer, phase, Some(level)) {
                Ok(()) => {},
                Err(e) => {
                    return Err(e);
                },
            }
        }
        Ok(())
    }

    /// Runs a triangle wave: 32 steps to a cycle, up over 16 levels and
    /// down again. Without volume it keeps time and is silent.
    fn run_triangle(&mut self, blip_buffer: &mut BlipBuffer, end_time: i128) -> (result: Result<
        (),
        BlipError,
    >)
        requires
            old(self)@.kind == ChannelType::Triangle,
            old(blip_buffer).wf(),
        ensures
            final(blip_buffer).wf(),
            final(blip_buffer)@.avail == old(blip_buffer)@.avail,
            (Run { channel: final(self)@, buffer: final(blip_buffer)@, result }) == old(self)@.run(
                old(blip_buffer)@,
                end_time as int,
            ),
    {
        while (self.time as i128) < end_time
            invariant
                self@.kind == ChannelType::Triangle,
                blip_buffer.wf(),
                blip_buffer@.avail == old(blip_buffer)@.avail,
                self@.run_from(blip_buffer@, end_time as int) == old(self)@.run(
                    old(blip_buffer)@,
                    end_time as int,
                ),
            decreases self@.ticks_left(end_time as int),
        {
            let stepped = if self.registers.volume != 0 {
                let phase: u32 = ((self.phase as u64 + 1) % 32) as u32;
                let level: u32 = if phase < 16 {
                    phase
                } else {
                    31 - phase
                };
                self.step(blip_buffer, phase, Some(level))
            } else {
                self.step(blip_buffer, self.phase, None)
            };
            match stepped {
                Ok(()) => {},
                Err(e) => {
                    return Err(e);
                },
            }
        }
        Ok(())
    }

    /// Takes one step of the wave to `phase` and, where the wave emits, to
    /// `level`: moves the channel's time on by its period and hands the
    /// change of amplitude to the buffer.
    fn step(&mut self, blip_buffer: &mut BlipBuffer, phase: u32, level: Option<u32>) -> (result:
        Result<(), BlipError>)
        requires
            old(blip_buffer).wf(),
            phase == old(self)@.next_phase(),
            old(self)@.emits() ==> level == Some(old(self)@.next_level() as u32),
            old(self)@.emits() ==> 0 <= old(self)@.next_level() <= u32::MAX,
            !old(self)@.emits() ==> level is None,
        ensures
            final(blip_buffer).wf(),
            final(blip_buffer)@.avail == old(blip_buffer)@.avail,
            (Run { channel: final(self)@, buffer: final(blip_buffer)@, result }) == old(self)@.step(
                old(blip_buffer)@,
            ),
    {
        if self.registers.period == 0 {
            return Err(BlipError::Argument);
        }
        let time: u64 = self.time as u64 + self.registers.period as u64;
        if time > 0xFFFF_FFFF {
            return Err(BlipError::Argument);
        }
        match level {
            Some(level) => {
                assert(level * self.gain <= 0xFFFF_FFFF * 0xFFFF_FFFF) by (nonlinear_arith)
                    requires
                        0 <= level <= 0xFFFF_FFFF,
                        0 <= self.gain <= 0xFFFF_FFFF,
                ;
                let target: u64 = level as u64 * self.gain as u64;
                let delta: i128 = target as i128 - self.amplitude as i128;
                if delta < -0x8000_0000 || delta > 0x7FFF_FFFF {
                    return Err(BlipError::Argument);
                }
                self.time = time as u32;
                self.phase = phase;
                let delta: i32 = self.update_amplitude(level);
                blip_buffer.add_delta(self.time, delta)
            },
            None => {
                self.time = time as u32;
                self.phase = phase;
                Ok(())
            },
        }
    }

    /// Moves the amplitude to `level` times the gain and gives the change.
    fn update_amplitude(&mut self, level: u32) -> (delta: i32)
        requires
            i32::MIN <= level * old(self).gain - old(self).amplitude <= i32::MAX,
        ensures
            delta == level * old(self).gain - old(self).amplitude,
            final(self).amplitude == level * old(self).gain,
            final(self).channel_type == old(self).channel_type,
            final(self).gain == old(self).gain,
            final(self).registers == old(self).registers,
            final(self).time == old(self).time,
            final(self).phase == old(self).phase,
    {
        assert(level * self.gain <= 0xFFFF_FFFF * 0xFFFF_FFFF) by (nonlinear_arith)
            requires
                0 <= level <= 0xFFFF_FFFF,
                0 <= self.gain <= 0xFFFF_FFFF,
        ;
        let target: u64 = level as u64 * self.gain as u64;
        let delta: i128 = target as i128 - self.amplitude as i128;
        self.amplitude = target;
        delta as i32
    }

    /// Counts the channel's time from the end of a frame of `end_time`
    /// ticks on.
    pub fn close(&mut self, end_time: i128) -> (result: Result<(), BlipError>)
        ensures
            match old(self)@.close(end_time as int) {
                Some(closed) => result == Ok::<(), BlipError>(()) && final(self)@ == closed,
                None => result == Err::<(), BlipError>(BlipError::Argument)
                    && final(self)@ == old(self)@,
            },
    {
        if end_time > self.time as i128 || end_time < self.time as i128 - 0xFFFF_FFFF {
            return Err(BlipError::Argument);
        }
        self.time = (self.time as i128 - end_time) as u32;
        Ok(())
    }
}

/// A chip as plain values: its channels and its buffer.
pub struct ChipModel {
    pub channels: Seq<ChannelModel>,
    pub buffer: BlipModel,
}

/// What an operation of the chip leaves behind.
pub struct Played {
    pub chip: ChipModel,
    pub result: Result<(), BlipError>,
}

/// What rendering an event leaves behind, and the samples that the event
/// completed.
pub struct Rendered {
    pub chip: ChipModel,
    pub result: Result<Seq<int>, BlipError>,
}

impl ChipModel {
    /// The invariant of a chip.
    pub open spec fn wf(self) -> bool {
        &&& self.buffer.wf()
        &&& self.channels.len() <= u8::MAX
    }

    /// The chip as it is built: two square waves, a triangle and noise, and
    /// a buffer for a tenth of a second.
    pub open spec fn fresh() -> ChipModel {
        ChipModel {
            channels: seq![
                ChannelModel::fresh(ChannelType::Square, 26, 10),
                ChannelModel::fresh(ChannelType::Square, 26, 10),
                ChannelModel::fresh(ChannelType::Triangle, 30, 10),
                ChannelModel::fresh(ChannelType::Noise, 18, 10),
            ],
            buffer: BlipModel::fresh(4410),
        }
    }

    /// The chip with channel `index` and the buffer replaced.
    pub open spec fn with(self, index: int, channel: ChannelModel, buffer: BlipModel) -> ChipModel {
        ChipModel { channels: self.channels.update(index, channel), buffer }
    }

    /// The chip after a register write at `end_time`: the channel runs up to
    /// that time, then takes the write. Stops at the first thing refused.
    pub open spec fn run_channel(
        self,
        channel_id: u8,
        end_time: int,
        address: i128,
        data: i128,
    ) -> Played {
        if channel_id >= self.channels.len() {
            Played { chip: self, result: Err(BlipError::Argument) }
        } else {
            let ran = self.channels[channel_id as int].run(self.buffer, end_time);
            if ran.result is Err {
                Played {
                    chip: self.with(channel_id as int, ran.channel, ran.buffer),
                    result: ran.result,
                }
            } else {
                match ran.channel.write(address as i8, data) {
                    Some(written) => Played {
                        chip: self.with(channel_id as int, written, ran.buffer),
                        result: Ok(()),
                    },
                    None => Played {
                        chip: self.with(channel_id as int, ran.channel, ran.buffer),
                        result: Err(BlipError::Argument),
                    },
                }
            }
        }
    }

    /// The chip after the channels from `from` on ran up to `end_time` and
    /// were closed, one after the other. Stops at the first thing refused.
    pub open spec fn close_from(self, from: nat, end_time: int) -> Played
        decreases self.channels.len() - from,
    {
        if from >= self.channels.len() {
            Played { chip: self, result: Ok(()) }
        } else {
            let ran = self.channels[from as int].run(self.buffer, end_time);
            if ran.result is Err {
                Played { chip: self.with(from as int, ran.channel, ran.buffer), result: ran.result }
            } else {
                match ran.channel.close(end_time) {
                    Some(closed) => self.with(from as int, closed, ran.buffer).close_from(
                        from + 1,
                        end_time,
                    ),
                    None => Played {
                        chip: self.with(from as int, ran.channel, ran.buffer),
                        result: Err(BlipError::Argument),
                    },
                }
            }
        }
    }

    /// The chip after a frame of `end_time` ticks was closed: every channel
    /// ran to its end and was closed, then the buffer's frame was.
    pub open spec fn close_channels(self, end_time: int) -> Played {
        let closed = self.close_from(0, end_time);
        if closed.result is Err {
            closed
        } else if !(0 <= end_time <= u32::MAX) {
            Played { chip: closed.chip, result: Err(BlipError::Argument) }
        } else if !closed.chip.buffer.frame_fits(end_time as nat) {
            Played { chip: closed.chip, result: Err(BlipError::Capacity) }
        } else {
            Played {
                chip: ChipModel {
                    buffer: closed.chip.buffer.end_frame(end_time as nat),
                    ..closed.chip
                },
                result: Ok(()),
            }
        }
    }

    /// The chip after an event of the log and a read of everything that the
    /// event made readable. A refused event leaves what it made readable
    /// before it was refused.
    pub open spec fn render_event(self, event: LogEvent) -> Rendered {
        let played = self.play(event);
        if played.result is Err {
            Rendered { chip: played.chip, result: Err(played.result->Err_0) }
        } else {
            Rendered {
                chip: ChipModel {
                    buffer: played.chip.buffer.read_samples(played.chip.buffer.avail),
                    ..played.chip
                },
                result: Ok(played.chip.buffer.output(played.chip.buffer.avail, false)),
            }
        }
    }

    /// The chip after an event of the log: a register write where the event
    /// names a channel, the end of the frame where it names none.
    pub open spec fn play(self, event: LogEvent) -> Played {
        if event.channel < self.channels.len() {
            self.run_channel(event.channel, event.time as int, event.address, event.data)
        } else {
            self.close_channels(event.time as int)
        }
    }
}

/// Four channels that share one buffer. The channels stand in the order of
/// their numbers, and the end of a frame runs them in that order; by
/// `lemma_runs_commute` any other order would leave the same buffer.
pub struct DemoChip {
    channels: Vec<Channel>,
    blip_buffer: BlipBuffer,
}

impl View for DemoChip {
    type V = ChipModel;

    closed spec fn view(&self) -> ChipModel {
        ChipModel {
            channels: self.channels@.map_values(|c: Channel| c@),
            buffer: self.blip_buffer@,
        }
    }
}

impl DemoChip {
    /// The invariant that every operation keeps.
    pub open spec fn wf(&self) -> bool {
        self@.wf()
    }

    /// A chip at rest.
    pub fn new() -> (chip: DemoChip)
        ensures
            chip.wf(),
            chip@ == ChipModel::fresh(),
    {
        let mut channels: Vec<Channel> = Vec::new();
        channels.push(Channel::new(ChannelType::Square, 26, 10));
        channels.push(Channel::new(ChannelType::Square, 26, 10));
        channels.push(Channel::new(ChannelType::Triangle, 30, 10));
        channels.push(Channel::new(ChannelType::Noise, 18, 10));
        let chip = DemoChip { channels, blip_buffer: BlipBuffer::new(4410) };
        assert(chip@.channels =~= ChipModel::fresh().channels);
        chip
    }

    /// Installs the rates of the chip's clock and of its output in the
    /// buffer.
    pub fn set_rates(&mut self, clock_rate: u64, sample_rate: u64) -> (result: Result<
        (),
        BlipError,
    >)
        requires
            old(self).wf(),
        ensures
            final(self).wf(),
            final(self)@.channels == old(self)@.channels,
            rates_valid(clock_rate as nat, sample_rate as nat) ==> result == Ok::<(), BlipError>(
                (),
            ) && final(self)@.buffer == old(self)@.buffer.set_rates(
                clock_rate as nat,
                sample_rate as nat,
            ),
            !rates_valid(clock_rate as nat, sample_rate as nat) ==> result == Err::<
                (),
                BlipError,
            >(BlipError::Configuration) && final(self)@ == old(self)@,
    {
        self.blip_buffer.set_rates(clock_rate, sample_rate)
    }

    /// How many channels the chip has.
    pub fn channel_count(&self) -> (count: u8)
        requires
            self.wf(),
        ensures
            count == self@.channels.len(),
    {
        self.channels.len() as u8
    }

    /// Runs channel `channel_id` up to `end_time`, then writes `data` to its
    /// register `address`.
    pub fn run_channel(
        &mut self,
        channel_id: u8,
        end_time: i128,
        address: i128,
        data: i128,
    ) -> (result: Result<(), BlipError>)
        requires
            old(self).wf(),
        ensures
            final(self).wf(),
            final(self)@.buffer.avail == old(self)@.buffer.avail,
            (Played { chip: final(self)@, result }) == old(self)@.run_channel(
                channel_id,
                end_time as int,
                address,
                data,
            ),
    {
        let index: usize = channel_id as usize;
        if index >= self.channels.len() {
            return Err(BlipError::Argument);
        }
        let mut channel: Channel = self.channels[index];
        let ran = channel.run(&mut self.blip_buffer, end_time);
        let result = match ran {
            Ok(()) => channel.update_register(#[verifier::truncate] (address as i8), data),
            Err(e) => Err(e),
        };
        self.channels.set(index, channel);
        proof {
            let target = old(self)@.run_channel(channel_id, end_time as int, address, data);
            assert(self@.channels =~= target.chip.channels);
        }
        result
    }

    /// Ends a frame of `end_time` ticks: runs every channel up to its end,
    /// counts the channel's time from there on, and closes the frame of the
    /// buffer.
    pub fn close_channels(&mut self, end_time: i128) -> (result: Result<(), BlipError>)
        requires
            old(self).wf(),
        ensures
            final(self).wf(),
            final(self)@.buffer.avail >= old(self)@.buffer.avail,
            (Played { chip: final(self)@, result }) == old(self)@.close_channels(end_time as int),
    {
        let count: usize = self.channels.len();
        let mut index: usize = 0;
        while index < count
            invariant
                index <= count,
                count == self.channels.len(),
                self.wf(),
                self@.buffer.avail == old(self)@.buffer.avail,
                self@.close_from(index as nat, end_time as int) == old(self)@.close_from(
                    0,
                    end_time as int,
                ),
            decreases count - index,
        {
            let ghost before = self@;
            let mut channel: Channel = self.channels[index];
            let ran = channel.run(&mut self.blip_buffer, end_time);
            let closed = match ran {
                Ok(()) => channel.close(end_time),
                Err(e) => Err(e),
            };
            self.channels.set(index, channel);
            assert(self@.channels =~= before.channels.update(index as int, channel@));
            match closed {
                Ok(()) => {},
                Err(e) => {
                    return Err(e);
                },
            }
            index = index + 1;
        }
        if end_time < 0 || end_time > 0xFFFF_FFFF {
            return Err(BlipError::Argument);
        }
        self.blip_buffer.end_frame(end_time as u32)
    }

    /// Whether there are samples to read.
    pub fn samples_available(&self) -> (ready: bool)
        requires
            self.wf(),
        ensures
            ready == (self@.buffer.avail > 0),
    {
        self.blip_buffer.samples_available() > 0
    }

    /// Reads up to `count` samples of the mix of all channels.
    pub fn read_samples(&mut self, count: u32) -> (result: (u32, Vec<i16>))
        requires
            old(self).wf(),
        ensures
            final(self).wf(),
            final(self)@.channels == old(self)@.channels,
            final(self)@.buffer == old(self)@.buffer.read_samples(count as nat),
            result.0 == old(self)@.buffer.readable(count as nat),
            result.1.len() == result.0,
            result.1@.map_values(|s: i16| s as int) == old(self)@.buffer.output(
                count as nat,
                false,
            ),
    {
        self.blip_buffer.read_samples(count, false)
    }

    /// Plays one event of the log.
    pub fn play(&mut self, event: LogEvent) -> (result: Result<(), BlipError>)
        requires
            old(self).wf(),
        ensures
            final(self).wf(),
            final(self)@.buffer.avail >= old(self)@.buffer.avail,
            (Played { chip: final(self)@, result }) == old(self)@.play(event),
    {
        if event.channel < self.channel_count() {
            self.run_channel(event.channel, event.time, event.address, event.data)
        } else {
            self.close_channels(event.time)
        }
    }

    /// Plays one event of the log and reads all the samples that it
    /// completed.
    pub fn render_event(&mut self, event: LogEvent) -> (result: Result<Vec<i16>, BlipError>)
        requires
            old(self).wf(),
        ensures
            final(self).wf(),
            final(self)@ == old(self)@.render_event(event).chip,
            match result {
                Ok(samples) => old(self)@.render_event(event).result == Ok::<Seq<int>, BlipError>(
                    samples@.map_values(|s: i16| s as int),
                ),
                Err(e) => old(self)@.render_event(event).result == Err::<Seq<int>, BlipError>(e),
            },
    {
        match self.play(event) {
            Ok(()) => {},
            Err(e) => {
                return Err(e);
            },
        }
        let available: u32 = self.blip_buffer.samples_available();
        let (_, samples) = self.read_samples(available);
        Ok(samples)
    }
}

} // verus!
