//! A tone for the audio output: whole periods of a sine, the same in both channels.

use vstd::prelude::*;

verus! {

/// Bytes of a frame: two channels of two bytes.
pub const BYTES_PER_FRAME: usize = 4;

/// A quarter of a sine in 64 steps, of 32767.
pub const QUARTER: [i16; 65] = [
    0, 804, 1608, 2410, 3212, 4011, 4808, 5602, 6393, 7179, 7962, 8739, 9512, 10278, 11039,
    11793, 12539, 13279, 14010, 14732, 15446, 16151, 16846, 17530, 18204, 18868, 19519, 20159,
    20787, 21403, 22005, 22594, 23170, 23731, 24279, 24811, 25329, 25832, 26319, 26790, 27245,
    27683, 28105, 28510, 28898, 29268, 29621, 29956, 30273, 30571, 30852, 31113, 31356, 31580,
    31785, 31971, 32137, 32285, 32412, 32521, 32609, 32678, 32728, 32757, 32767,
];

/// A sine in 256 steps, of 32767.
pub open spec fn sine_spec(phase: int) -> int {
    if phase <= 64 {
        QUARTER@[phase] as int
    } else if phase <= 128 {
        QUARTER@[128 - phase] as int
    } else if phase <= 192 {
        -(QUARTER@[phase - 128] as int)
    } else {
        -(QUARTER@[256 - phase] as int)
    }
}

fn quarter(i: usize) -> (r: i32)
    requires
        i <= 64,
    ensures
        r == QUARTER@[i as int],
        0 <= r <= 32767,
{
    QUARTER[i] as i32
}

/// The sine at one of 256 phases.
pub fn sine(phase: usize) -> (r: i32)
    requires
        phase < 256,
    ensures
        r == sine_spec(phase as int),
        -32767 <= r <= 32767,
{
    if phase <= 64 {
        quarter(phase)
    } else if phase <= 128 {
        quarter(128 - phase)
    } else if phase <= 192 {
        -quarter(phase - 128)
    } else {
        -quarter(256 - phase)
    }
}

/// The sample of a frame: the sine at its place in the period, at a quarter of full scale, rounded
/// down.
pub open spec fn sample_spec(frame: int, period: int) -> int {
    sine_spec(frame % period * 256 / period) * 8192 / 32768
}

fn sample(frame: usize, period: u32) -> (r: i32)
    requires
        0 < period <= 0x0100_0000,
    ensures
        r == sample_spec(frame as int, period as int),
        -8192 <= r <= 8191,
{
    let place: u32 = (frame % period as usize) as u32;
    let phase: u32 = place * 256 / period;
    assert(phase < 256) by (nonlinear_arith)
        requires
            0 <= place < period,
            phase == place * 256 / period as int,
    ;
    let raw: i32 = sine(phase as usize);
    if raw >= 0 {
        raw / 4
    } else {
        -((3 - raw) / 4)
    }
}

/// The low byte of a sample.
pub open spec fn low_byte(sample: int) -> u8 {
    (sample % 256) as u8
}

/// The high byte of a sample.
pub open spec fn high_byte(sample: int) -> u8 {
    (sample % 65536 / 256) as u8
}

/// A frame of the tone: the sample with its low byte first, in both channels.
pub open spec fn is_frame(bytes: Seq<u8>, frame: int, period: int) -> bool {
    &&& bytes[frame * 4] == low_byte(sample_spec(frame, period))
    &&& bytes[frame * 4 + 1] == high_byte(sample_spec(frame, period))
    &&& bytes[frame * 4 + 2] == low_byte(sample_spec(frame, period))
    &&& bytes[frame * 4 + 3] == high_byte(sample_spec(frame, period))
}

/// Bytes that whole periods take of a buffer: as many as fit.
pub open spec fn tone_bytes(len: int, period: int) -> int {
    len / (period * 4) * (period * 4)
}

/// Writes whole periods of a sine and says how many bytes they take. Only whole periods: the
/// buffer is replayed end to end, and a part of one would be heard at every lap.
pub fn fill_tone(buf: &mut [u8], period_samples: u32) -> (used: usize)
    requires
        0 < period_samples,
        period_samples * 4 <= usize::MAX,
        period_samples <= 0x0100_0000 || old(buf).len() < period_samples * 4,
    ensures
        final(buf)@.len() == old(buf)@.len(),
        used == tone_bytes(old(buf)@.len() as int, period_samples as int),
        forall|frame: int|
            0 <= frame < used / 4 ==> #[trigger] is_frame(
                final(buf)@,
                frame,
                period_samples as int,
            ),
        forall|i: int| used <= i < old(buf)@.len() ==> final(buf)@[i] == old(buf)@[i],
{
    let ghost before = buf@;
    let len: usize = buf.len();
    let period_bytes: usize = period_samples as usize * BYTES_PER_FRAME;
    let periods: usize = len / period_bytes;
    assert(periods * period_bytes <= len) by (nonlinear_arith)
        requires
            period_bytes > 0,
            periods == len / period_bytes,
    ;
    assert(periods * period_samples * 4 == periods * period_bytes) by (nonlinear_arith)
        requires
            period_bytes == period_samples * 4,
    ;
    assert(periods * period_samples >= 0) by (nonlinear_arith)
        requires
            periods >= 0,
            period_samples >= 0,
    ;
    assert(len < period_bytes ==> periods * period_samples == 0) by (nonlinear_arith)
        requires
            period_bytes > 0,
            0 <= len,
            periods == len / period_bytes,
    ;
    let frames: usize = periods * period_samples as usize;
    let mut frame: usize = 0;
    while frame < frames
        invariant
            frame <= frames,
            frames * 4 <= len,
            len == buf.len(),
            0 < period_samples,
            frames > 0 ==> period_samples <= 0x0100_0000,
            before.len() == len,
            forall|f: int| 0 <= f < frame ==> #[trigger] is_frame(buf@, f, period_samples as int),
            forall|i: int| frame * 4 <= i < len ==> buf@[i] == before[i],
        decreases frames - frame,
    {
        let value: i32 = sample(frame, period_samples);
        let bits: i32 = if value < 0 {
            value + 65536
        } else {
            value
        };
        let low: u8 = (bits % 256) as u8;
        let high: u8 = (bits / 256) as u8;
        let at: usize = frame * BYTES_PER_FRAME;
        let ghost earlier = buf@;
        buf[at] = low;
        buf[at + 1] = high;
        buf[at + 2] = low;
        buf[at + 3] = high;
        assert(is_frame(buf@, frame as int, period_samples as int));
        assert forall|f: int| 0 <= f < frame implies #[trigger] is_frame(
            buf@,
            f,
            period_samples as int,
        ) by {
            assert(is_frame(earlier, f, period_samples as int));
        }
        frame = frame + 1;
    }
    frames * BYTES_PER_FRAME
}

/// The tone has no seam: what is written ends where a period ends, so the frame after the last is
/// the first again, and every period sounds like the one before it.
pub proof fn the_tone_has_no_seam(len: int, period: int, frame: int)
    requires
        0 < period,
        0 <= len,
        0 <= frame,
    ensures
        tone_bytes(len, period) / 4 % period == 0,
        sample_spec(frame + period, period) == sample_spec(frame, period),
        sample_spec(tone_bytes(len, period) / 4, period) == sample_spec(0, period),
{
    let periods = len / (period * 4);
    assert(tone_bytes(len, period) == periods * period * 4) by (nonlinear_arith)
        requires
            tone_bytes(len, period) == periods * (period * 4),
    ;
    assert(periods * period * 4 / 4 == periods * period);
    vstd::arithmetic::div_mod::lemma_mod_multiples_basic(periods, period);
    vstd::arithmetic::div_mod::lemma_mod_add_multiples_vanish(frame, period);
    assert((frame + period) % period == frame % period) by {
        vstd::arithmetic::div_mod::lemma_mod_add_multiples_vanish(frame, period);
    }
    assert(0int % period == 0) by (nonlinear_arith)
        requires
            period > 0,
    ;
}

/// As much of the buffer as holds whole periods is used.
pub proof fn no_period_more_would_fit(len: int, period: int)
    requires
        0 < period,
        0 <= len,
    ensures
        0 <= tone_bytes(len, period) <= len,
        tone_bytes(len, period) + period * 4 > len,
{
    vstd::arithmetic::div_mod::lemma_fundamental_div_mod(len, period * 4);
    vstd::arithmetic::div_mod::lemma_mod_bound(len, period * 4);
    assert(len / (period * 4) * (period * 4) == (period * 4) * (len / (period * 4)))
        by (nonlinear_arith);
    assert(len / (period * 4) >= 0) by (nonlinear_arith)
        requires
            len >= 0,
            period > 0,
    ;
    assert(tone_bytes(len, period) >= 0) by (nonlinear_arith)
        requires
            tone_bytes(len, period) == len / (period * 4) * (period * 4),
            len / (period * 4) >= 0,
            period > 0,
    ;
}

/// The four notes, as samples to a period: a rising figure and then the octave.
pub fn note_periods() -> (r: [u32; 4])
    ensures
        r@ == seq![100u32, 80, 66, 50],
{
    let r: [u32; 4] = [100, 80, 66, 50];
    assert(r@ =~= seq![100u32, 80, 66, 50]);
    r
}

/// The wave is a sine: it starts at nothing, is highest a quarter of the way on, mirrors its first
/// quarter in its second, and turns its first half over in its second.
#[verifier::spinoff_prover]
pub proof fn the_wave_turns_like_a_sine(phase: int)
    requires
        0 <= phase < 128,
    ensures
        sine_spec(0) == 0,
        sine_spec(64) == 32767,
        sine_spec(128) == 0,
        phase <= 64 ==> sine_spec(128 - phase) == sine_spec(phase),
        0 < phase ==> sine_spec(phase + 128) == -sine_spec(phase),
        sine_spec(phase) >= 0,
{
    quarters_rise(
        if phase <= 64 {
            phase
        } else {
            128 - phase
        },
        64,
    );
    if phase <= 64 {
        quarters_rise(0, phase);
    } else {
        quarters_rise(0, 128 - phase);
    }
}

/// The wave rises all through its first quarter.
pub proof fn quarters_rise(a: int, b: int)
    requires
        0 <= a <= b <= 64,
    ensures
        sine_spec(a) <= sine_spec(b),
        a < b ==> sine_spec(a) < sine_spec(b),
    decreases b - a,
{
    if a < b {
        assert(QUARTER@[a] < QUARTER@[a + 1]);
        quarters_rise(a + 1, b);
    }
}

/// A sample is a quarter of the sine, rounded down, at the phase that is as far through the 256 as the
/// frame is through its period.
#[verifier::spinoff_prover]
pub proof fn a_sample_is_a_quarter_of_the_sine(frame: int, period: int)
    requires
        0 <= frame,
        0 < period,
    ensures
        exists|phase: int|
            0 <= phase < 256 && phase * period <= 256 * (frame % period) < phase * period + period
                && 4 * sample_spec(frame, period) <= #[trigger] sine_spec(phase) < 4 * sample_spec(
                frame,
                period,
            ) + 4,
{
    let at = frame % period;
    let phase = at * 256 / period;
    assert(0 <= at < period);
    assert(0 <= phase < 256 && phase * period <= 256 * at < phase * period + period)
        by (nonlinear_arith)
        requires
            phase == at * 256 / period,
            0 <= at < period,
    ;
    assert(4 * sample_spec(frame, period) <= sine_spec(phase) < 4 * sample_spec(frame, period) + 4);
}

/// A frame holds its sample twice, once for each ear, the low byte first and in two's complement.
#[verifier::spinoff_prover]
pub proof fn a_frame_holds_its_sample_twice(bytes: Seq<u8>, frame: int, period: int)
    requires
        is_frame(bytes, frame, period),
    ensures
        bytes[4 * frame] + 256 * bytes[4 * frame + 1] == sample_spec(frame, period) % 65536,
        bytes[4 * frame + 2] == bytes[4 * frame],
        bytes[4 * frame + 3] == bytes[4 * frame + 1],
{
}

} // verus!
