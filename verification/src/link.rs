//! The wire to the other chip: frames of a magic byte, a command, a length and so many bytes,
//! found again in a stream that may begin anywhere.

use vstd::prelude::*;

verus! {

/// Bytes before a frame's data: magic, command, and the length with its low byte first.
pub const HEADER: usize = 4;

/// The most data a sender puts into a frame.
pub const MAX_LEN: usize = 1020;

/// How many bytes of data are kept.
pub const KEEP: usize = 32;

/// The first byte of a frame from the other chip.
pub const FROM_ESP32: u8 = 0xBD;

/// The first byte of a frame from this one.
pub const FROM_S3: u8 = 0xA3;

pub const EVENT_CLOCKWISE: u8 = 7;

pub const EVENT_ANTICLOCKWISE: u8 = 8;

/// The state byte that asks for a mode of the encoder, with its reports on or off.
pub open spec fn state_spec(mode: u8, on: bool) -> int {
    2 * mode % 256 + (if on {
        1int
    } else {
        0
    })
}

pub fn state(mode: u8, on: bool) -> (r: u8)
    ensures
        r == state_spec(mode, on),
{
    let bit: u8 = if on {
        1
    } else {
        0
    };
    assert(((mode << 1) | bit) == (2 * (mode as u16)) % 256 + (bit as u16)) by (bit_vector)
        requires
            bit <= 1,
    ;
    (mode << 1) | bit
}

/// A frame to the other chip: a command and four bytes.
pub fn frame(cmd: u8, data: [u8; 4]) -> (r: [u8; 8])
    ensures
        r@ == seq![0xA3u8, cmd, 4, 0] + data@,
{
    let r: [u8; 8] = [FROM_S3, cmd, 4, 0, data[0], data[1], data[2], data[3]];
    assert(r@ =~= seq![0xA3u8, cmd, 4, 0] + data@);
    r
}

/// Whether an error of the receiver is worth a line: the first eight, and then every hundredth.
pub fn worth_a_line(errors: u32) -> (r: bool)
    ensures
        errors <= 8 ==> r,
        errors > 8 && r ==> errors % 100 == 0,
        errors % 100 == 0 ==> r,
        r == (errors <= 8 || errors % 100 == 0),
{
    errors <= 8 || errors % 100 == 0
}

/// What a state byte asks for: the mode, and whether the encoder is on.
pub open spec fn asked_for(state: int) -> (int, bool) {
    (state / 2 % 8, state % 2 == 1)
}

pub fn mode_of(state: u8) -> (r: (u8, bool))
    ensures
        (r.0 as int, r.1) == asked_for(state as int),
{
    (state / 2 % 8, state % 2 == 1)
}

/// A state byte says what it was built from.
pub proof fn a_state_says_its_mode(mode: u8, on: bool)
    requires
        mode < 8,
    ensures
        asked_for(state_spec(mode, on)) == (mode as int, on),
{
}

/// What a frame from the other chip says.
#[derive(Clone, Copy, Debug, PartialEq, Eq, Structural)]
pub enum Frame {
    /// This chip's own, echoed.
    Own,
    /// Its encoder turned; how often since the counters were cleared.
    Clockwise(u32),
    Anticlockwise(u32),
    /// Its state and volume, and whether they are new.
    Status { state: u8, volume: u8, new: bool },
    /// It offers a cover.
    Cover { len: usize },
    Other { cmd: u8, len: usize },
}

/// Frames found in a stream.
pub struct Link {
    pub buf: [u8; 36],
    pub seen: usize,
    pub want: usize,
    /// Turns either way since the counters were cleared.
    pub events: [u32; 2],
    /// The last status, so that a repeated one is known as such.
    pub last_status: [u8; 2],
}

/// A frame in the making: the bytes kept of it, how many were seen, and how many it has once its
/// header is whole.
#[verifier::ext_equal]
pub struct Making {
    pub kept: Seq<u8>,
    pub seen: int,
    pub want: int,
}

/// No frame begun.
pub open spec fn nothing() -> Making {
    Making { kept: Seq::empty(), seen: 0, want: 0 }
}

/// The length a header claims.
pub open spec fn claimed(kept: Seq<u8>) -> int {
    kept[2] + 256 * kept[3]
}

/// What a byte makes of a frame in the making, and the bytes kept of a frame that it finished. A
/// byte that cannot begin a frame is passed over, and a header that claims more than any sender
/// builds is thrown away.
pub open spec fn pushed(making: Making, byte: u8) -> (Making, Option<Seq<u8>>) {
    if making.seen == 0 && byte != 0xBD && byte != 0xA3 {
        (making, None)
    } else {
        let kept = if making.seen < 36 {
            making.kept.push(byte)
        } else {
            making.kept
        };
        let seen = making.seen + 1;
        if making.seen < 3 {
            (Making { kept, seen, want: 0 }, None)
        } else if making.seen == 3 {
            if claimed(kept) > 1020 {
                (nothing(), None)
            } else if claimed(kept) == 0 {
                (nothing(), Some(kept))
            } else {
                (Making { kept, seen, want: 4 + claimed(kept) }, None)
            }
        } else if seen == making.want {
            (nothing(), Some(kept))
        } else {
            (Making { kept, seen, want: making.want }, None)
        }
    }
}

/// What a finished frame says, by the bytes kept of it.
pub open spec fn says(kept: Seq<u8>, events: Seq<u32>, last: Seq<u8>) -> Frame {
    let len = claimed(kept) as usize;
    if kept[0] != 0xBD {
        Frame::Own
    } else if kept[1] == 7 {
        Frame::Clockwise((events[0] + 1) as u32)
    } else if kept[1] == 8 {
        Frame::Anticlockwise((events[1] + 1) as u32)
    } else if kept[1] == 5 && kept.len() >= 6 {
        Frame::Status {
            state: kept[4],
            volume: kept[5],
            new: kept[4] != last[0] || kept[5] != last[1],
        }
    } else if kept[1] == 1 {
        Frame::Cover { len }
    } else {
        Frame::Other { cmd: kept[1], len }
    }
}

/// Whether the counters have room for a frame, by the bytes kept of it: only a turn is counted.
pub open spec fn has_room(kept: Seq<u8>, events: Seq<u32>) -> bool {
    kept[0] == 0xBD ==> (kept[1] == 7 ==> events[0] < u32::MAX) && (kept[1] == 8 ==> events[1]
        < u32::MAX)
}

/// All that a link remembers between bytes: the frame in the making, the turns either way, and the
/// last status.
#[verifier::ext_equal]
pub struct Heard {
    pub making: Making,
    pub events: Seq<u32>,
    pub last: Seq<u8>,
}

/// What a byte makes of what was heard: a frame that it finishes is counted if it is a turn, and
/// remembered if it is a status.
pub open spec fn heard(before: Heard, byte: u8) -> Heard {
    let (making, finished) = pushed(before.making, byte);
    match finished {
        None => Heard { making, ..before },
        Some(kept) => match says(kept, before.events, before.last) {
            Frame::Clockwise(n) => Heard { making, events: before.events.update(0, n), ..before },
            Frame::Anticlockwise(n) => Heard {
                making,
                events: before.events.update(1, n),
                ..before
            },
            Frame::Status { state, volume, .. } => Heard {
                making,
                last: seq![state, volume],
                ..before
            },
            _ => Heard { making, ..before },
        },
    }
}

impl Link {
    /// What it remembers.
    pub open spec fn remembers(&self) -> Heard {
        Heard { making: self.making(), events: self.events@, last: self.last_status@ }
    }

    /// The frame in the making.
    pub open spec fn making(&self) -> Making {
        Making {
            kept: self.buf@.take(
                if self.seen < 36 {
                    self.seen as int
                } else {
                    36
                },
            ),
            seen: self.seen as int,
            want: self.want as int,
        }
    }

    pub open spec fn wf(&self) -> bool {
        &&& self.seen < 4 ==> self.want == 0
        &&& self.seen >= 4 ==> self.seen < self.want <= 1024 && self.want == 4 + claimed(self.buf@)
        &&& self.seen > 0 ==> self.buf@[0] == 0xBD || self.buf@[0] == 0xA3
    }

    pub fn new() -> (r: Self)
        ensures
            r.wf(),
            r.buf@ == Seq::new(36, |i: int| 0u8),
            r.making() == nothing(),
            r.events@ == seq![0u32, 0],
            r.last_status@ == seq![0xFFu8, 0xFF],
    {
        let r = Link { buf: [0; 36], seen: 0, want: 0, events: [0; 2], last_status: [0xFF; 2] };
        assert(r.buf@ =~= Seq::new(36, |i: int| 0u8));
        assert(r.making() =~= nothing());
        assert(r.events@ =~= seq![0u32, 0]);
        assert(r.last_status@ =~= seq![0xFFu8, 0xFF]);
        r
    }

    /// Throws away a frame in the making, after a deliberate pause.
    pub fn reset_sync(&mut self)
        ensures
            final(self).wf(),
            final(self).making() == nothing(),
            final(self).buf == old(self).buf,
            final(self).events == old(self).events,
            final(self).last_status == old(self).last_status,
    {
        self.seen = 0;
        self.want = 0;
        assert(self.making() =~= nothing());
    }

    /// Forgets the last status, so that the next one is new.
    pub fn forget_status(&mut self)
        requires
            old(self).wf(),
        ensures
            final(self).wf(),
            final(self).making() == old(self).making(),
            final(self).buf == old(self).buf,
            final(self).events == old(self).events,
            final(self).last_status@ == seq![0xFFu8, 0xFF],
    {
        self.last_status = [0xFF; 2];
        assert(self.last_status@ =~= seq![0xFFu8, 0xFF]);
    }

    /// Takes a byte; says what the frame says that it finished, if it did. The bytes kept of it stay
    /// in `buf` until the next frame begins.
    pub fn push(&mut self, byte: u8) -> (r: Option<Frame>)
        requires
            old(self).wf(),
            (pushed(old(self).making(), byte).1 matches Some(kept) ==> has_room(
                kept,
                old(self).events@,
            )),
        ensures
            final(self).wf(),
            final(self).remembers() == heard(old(self).remembers(), byte),
            (pushed(old(self).making(), byte).1 matches Some(kept) ==> final(self).buf@.take(
                kept.len() as int,
            ) == kept),
            r is Some <==> pushed(old(self).making(), byte).1 is Some,
            r is Some ==> r->0 == says(
                pushed(old(self).making(), byte).1->0,
                old(self).events@,
                old(self).last_status@,
            ),
    {
        let ghost before = *self;
        let ghost making = self.making();
        if self.seen == 0 && byte != FROM_ESP32 && byte != FROM_S3 {
            return None;
        }
        if self.seen < 36 {
            self.buf[self.seen] = byte;
        }
        let ghost kept = if making.seen < 36 {
            making.kept.push(byte)
        } else {
            making.kept
        };
        self.seen = self.seen + 1;
        assert(kept =~= self.buf@.take(
            if self.seen < 36 {
                self.seen as int
            } else {
                36
            },
        ));
        if self.seen < HEADER {
            assert(self.making() =~= pushed(making, byte).0);
            return None;
        }
        if self.seen == HEADER {
            let len: usize = self.buf[2] as usize + 256 * self.buf[3] as usize;
            assert(len == claimed(kept));
            if len > MAX_LEN {
                self.seen = 0;
                assert(self.making() =~= nothing());
                return None;
            }
            self.want = HEADER + len;
            if len > 0 {
                assert(self.making() =~= pushed(making, byte).0);
                return None;
            }
            return Some(self.complete(Ghost(kept)));
        }
        if self.seen == self.want {
            return Some(self.complete(Ghost(kept)));
        }
        assert(self.making() =~= pushed(making, byte).0);
        None
    }

    fn complete(&mut self, Ghost(kept): Ghost<Seq<u8>>) -> (r: Frame)
        requires
            4 <= old(self).seen <= 1024,
            old(self).want == old(self).seen,
            old(self).want == 4 + claimed(kept),
            kept == old(self).buf@.take(
                if old(self).seen < 36 {
                    old(self).seen as int
                } else {
                    36
                },
            ),
            kept[0] == 0xBD || kept[0] == 0xA3,
            has_room(kept, old(self).events@),
        ensures
            final(self).wf(),
            final(self).buf == old(self).buf,
            final(self).making() == nothing(),
            r == says(kept, old(self).events@, old(self).last_status@),
            final(self).events@ == (match r {
                Frame::Clockwise(n) => old(self).events@.update(0, n),
                Frame::Anticlockwise(n) => old(self).events@.update(1, n),
                _ => old(self).events@,
            }),
            final(self).last_status@ == (match r {
                Frame::Status { state, volume, .. } => seq![state, volume],
                _ => old(self).last_status@,
            }),
    {
        let magic: u8 = self.buf[0];
        let cmd: u8 = self.buf[1];
        let len: usize = self.want - HEADER;
        let has_status = self.seen >= 6;
        self.seen = 0;
        self.want = 0;
        assert(self.making() =~= nothing());
        if magic != FROM_ESP32 {
            return Frame::Own;
        }
        if cmd == EVENT_CLOCKWISE {
            self.events[0] = self.events[0] + 1;
            Frame::Clockwise(self.events[0])
        } else if cmd == EVENT_ANTICLOCKWISE {
            self.events[1] = self.events[1] + 1;
            Frame::Anticlockwise(self.events[1])
        } else if cmd == 5 && has_status {
            let state: u8 = self.buf[4];
            let volume: u8 = self.buf[5];
            let new = state != self.last_status[0] || volume != self.last_status[1];
            self.last_status = [state, volume];
            assert(self.last_status@ =~= seq![state, volume]);
            Frame::Status { state, volume, new }
        } else if cmd == 1 {
            Frame::Cover { len }
        } else {
            Frame::Other { cmd, len }
        }
    }
}

/// A frame as a sender builds it: a magic byte, a command, the length of the data, the data.
pub open spec fn well_formed(frame: Seq<u8>) -> bool {
    &&& 4 <= frame.len() <= 1024
    &&& frame[0] == 0xBD || frame[0] == 0xA3
    &&& frame.len() == 4 + claimed(frame)
}

/// What is in the making after the first `n` bytes of a stream, and the frames they finished.
pub open spec fn after(making: Making, bytes: Seq<u8>) -> (Making, Seq<Seq<u8>>)
    decreases bytes.len(),
{
    if bytes.len() == 0 {
        (making, Seq::empty())
    } else {
        let (before, done) = after(making, bytes.drop_last());
        let (now, finished) = pushed(before, bytes.last());
        (
            now,
            match finished {
                Some(kept) => done.push(kept),
                None => done,
            },
        )
    }
}

proof fn frame_grows(frame: Seq<u8>, n: int)
    requires
        well_formed(frame),
        0 <= n < frame.len(),
    ensures
        after(nothing(), frame.take(n)).1 == Seq::<Seq<u8>>::empty(),
        after(nothing(), frame.take(n)).0 == (Making {
            kept: frame.take(
                if n < 36 {
                    n
                } else {
                    36
                },
            ),
            seen: n,
            want: if n < 4 {
                0
            } else {
                frame.len() as int
            },
        }),
    decreases n,
{
    if n == 0 {
        assert(frame.take(0) =~= Seq::<u8>::empty());
    } else {
        frame_grows(frame, n - 1);
        assert(frame.take(n).drop_last() =~= frame.take(n - 1));
        assert(frame.take(n).last() == frame[n - 1]);
        let before = after(nothing(), frame.take(n - 1)).0;
        if n <= 36 {
            assert(frame.take(n - 1).push(frame[n - 1]) =~= frame.take(n));
        }
        if n == 4 {
            assert(claimed(frame.take(4)) == claimed(frame));
        }
        let (now, finished) = pushed(before, frame[n - 1]);
        assert(finished is None);
    }
}

/// A frame that a sender builds is found whole, and once: fed from where no frame is begun, it is
/// finished by its last byte and by none before, its first 36 bytes are kept, and nothing is
/// left over for the next frame to stumble on.
pub proof fn a_sent_frame_is_found(frame: Seq<u8>)
    requires
        well_formed(frame),
    ensures
        after(nothing(), frame).0 == nothing(),
        after(nothing(), frame).1 == seq![
            frame.take(
                if frame.len() < 36 {
                    frame.len() as int
                } else {
                    36
                },
            ),
        ],
{
    let n = frame.len() as int;
    frame_grows(frame, n - 1);
    assert(frame.drop_last() =~= frame.take(n - 1));
    let before = after(nothing(), frame.take(n - 1)).0;
    if n <= 36 {
        assert(frame.take(n - 1).push(frame[n - 1]) =~= frame.take(n));
    }
    if n == 4 {
        assert(claimed(frame.take(4)) == claimed(frame));
    }
    assert(pushed(before, frame[n - 1]).1 is Some);
}

/// What was heard after a stream of bytes.
pub open spec fn heard_all(before: Heard, bytes: Seq<u8>) -> Heard
    decreases bytes.len(),
{
    if bytes.len() == 0 {
        before
    } else {
        heard(heard_all(before, bytes.drop_last()), bytes.last())
    }
}

proof fn unfinished_changes_no_count(before: Heard, bytes: Seq<u8>)
    ensures
        heard_all(before, bytes).making == after(before.making, bytes).0,
        after(before.making, bytes).1.len() == 0 ==> heard_all(before, bytes).events
            == before.events && heard_all(before, bytes).last == before.last,
    decreases bytes.len(),
{
    if bytes.len() > 0 {
        unfinished_changes_no_count(before, bytes.drop_last());
    }
}

/// A frame is counted once and by its last byte: until then it is in the making and nothing is
/// counted, and after it nothing is in the making and exactly a turn's own counter is one more. An
/// echo of this chip's own frames counts nothing.
pub proof fn a_frame_is_counted_once(before: Heard, frame: Seq<u8>, n: int)
    requires
        before.making == nothing(),
        before.events.len() == 2,
        well_formed(frame),
        has_room(frame, before.events),
        0 < n < frame.len(),
    ensures
        heard_all(before, frame.take(n)).making.seen == n,
        heard_all(before, frame.take(n)).events == before.events,
        heard_all(before, frame).making == nothing(),
        heard_all(before, frame).events[0] == before.events[0] + (if frame[0] == 0xBD && frame[1]
            == 7 {
            1int
        } else {
            0
        }),
        heard_all(before, frame).events[1] == before.events[1] + (if frame[0] == 0xBD && frame[1]
            == 8 {
            1int
        } else {
            0
        }),
{
    let len = frame.len() as int;
    frame_grows(frame, n);
    unfinished_changes_no_count(before, frame.take(n));
    frame_grows(frame, len - 1);
    unfinished_changes_no_count(before, frame.take(len - 1));
    a_sent_frame_is_found(frame);
    unfinished_changes_no_count(before, frame);
    assert(frame.drop_last() =~= frame.take(len - 1));
    let ahead = heard_all(before, frame.drop_last());
    let kept = frame.take(
        if len < 36 {
            len
        } else {
            36
        },
    );
    assert(after(nothing(), frame).1.last() == kept);
    assert(pushed(ahead.making, frame.last()).1 == Some(kept)) by {
        let (_, done) = after(nothing(), frame.drop_last());
        assert(done.len() == 0);
        assert(after(nothing(), frame).1.len() == 1);
    }
    assert(kept[0] == frame[0] && kept[1] == frame[1]);
}

/// A header that claims more than any sender builds is thrown away: nothing is in the making after
/// it, and nothing was counted.
pub proof fn an_oversized_header_is_thrown_away(before: Heard, header: Seq<u8>)
    requires
        before.making == nothing(),
        header.len() == 4,
        header[0] == 0xBD || header[0] == 0xA3,
        claimed(header) > 1020,
    ensures
        heard_all(before, header) == before,
{
    let h3 = header.drop_last();
    let h2 = h3.drop_last();
    let h1 = h2.drop_last();
    assert(h1.drop_last() =~= Seq::<u8>::empty());
    let m1 = heard(before, header[0]);
    let m2 = heard(m1, header[1]);
    let m3 = heard(m2, header[2]);
    let m4 = heard(m3, header[3]);
    assert(heard_all(before, h1.drop_last()) == before);
    assert(heard_all(before, h1) == m1);
    assert(heard_all(before, h2) == m2);
    assert(heard_all(before, h3) == m3);
    assert(heard_all(before, header) == m4);
    assert(m3.making.kept.push(header[3]) =~= header);
    assert(m4 =~= before);
}

/// Noise between frames is passed over: bytes that cannot begin a frame leave everything as it was.
pub proof fn noise_is_passed_over(before: Heard, noise: Seq<u8>)
    requires
        before.making == nothing(),
        forall|i: int| 0 <= i < noise.len() ==> noise[i] != 0xBD && noise[i] != 0xA3,
    ensures
        after(nothing(), noise) == (nothing(), Seq::<Seq<u8>>::empty()),
        heard_all(before, noise) == before,
    decreases noise.len(),
{
    if noise.len() > 0 {
        noise_is_passed_over(before, noise.drop_last());
    }
}

/// A state byte holds the mode above its lowest bit, which says whether the encoder is on; three
/// bits of the mode are read back.
#[verifier::spinoff_prover]
pub proof fn a_state_holds_its_mode_above_its_bit(mode: u8, on: bool)
    ensures
        state_spec(mode, on) % 2 == 1 <==> on,
        state_spec(mode, on) / 2 == mode % 128,
        asked_for(state_spec(mode, on)).0 == mode % 8,
        asked_for(state_spec(mode, on)).1 == on,
{
}

/// A header claims its length low byte first.
#[verifier::spinoff_prover]
pub proof fn a_length_stands_low_byte_first(kept: Seq<u8>)
    ensures
        claimed(kept) % 256 == kept[2],
        claimed(kept) / 256 == kept[3],
{
}

/// What a whole frame of the other chip says, by its bytes as they were sent: a turn is told with how
/// often it went that way so far, a status with its state before its volume and as new unless both
/// were told before, a cover and anything else with the length that was sent. A frame of this chip's
/// own says nothing.
pub proof fn a_frame_says_what_was_sent(frame: Seq<u8>, events: Seq<u32>, last: Seq<u8>)
    requires
        well_formed(frame),
        events.len() == 2,
        last.len() == 2,
        has_room(frame, events),
    ensures
        ({
            let kept = frame.take(
                if frame.len() < 36 {
                    frame.len() as int
                } else {
                    36
                },
            );
            let said = says(kept, events, last);
            &&& frame[0] == 0xA3 ==> said == Frame::Own
            &&& frame[0] == 0xBD && frame[1] == 7 ==> (said matches Frame::Clockwise(n) && n
                == events[0] + 1)
            &&& frame[0] == 0xBD && frame[1] == 8 ==> (said matches Frame::Anticlockwise(n) && n
                == events[1] + 1)
            &&& frame[0] == 0xBD && frame[1] == 5 && frame.len() >= 6 ==> said == (Frame::Status {
                state: frame[4],
                volume: frame[5],
                new: last != seq![frame[4], frame[5]],
            })
            &&& frame[0] == 0xBD && frame[1] == 1 ==> said == (Frame::Cover {
                len: (frame.len() - 4) as usize,
            })
            &&& frame[0] == 0xBD && frame[1] == 5 && frame.len() < 6 ==> said == (Frame::Other {
                cmd: 5,
                len: (frame.len() - 4) as usize,
            })
            &&& frame[0] == 0xBD && frame[1] != 1 && frame[1] != 5 && frame[1] != 7 && frame[1] != 8
                ==> said == (Frame::Other { cmd: frame[1], len: (frame.len() - 4) as usize })
        }),
{
    if last[0] == frame[4] && last[1] == frame[5] {
        assert(last =~= seq![frame[4], frame[5]]);
    } else {
        assert(seq![frame[4], frame[5]][0] == frame[4] && seq![frame[4], frame[5]][1] == frame[5]);
    }
}

/// A status is remembered as it was sent, so that the same one is told as new once and no more; no
/// other frame touches what is remembered of it.
pub proof fn a_status_is_new_once(before: Heard, frame: Seq<u8>)
    requires
        before.making == nothing(),
        before.events.len() == 2,
        before.last.len() == 2,
        well_formed(frame),
        has_room(frame, before.events),
    ensures
        frame[0] == 0xBD && frame[1] == 5 && frame.len() >= 6 ==> heard_all(before, frame).last
            == seq![frame[4], frame[5]],
        !(frame[0] == 0xBD && frame[1] == 5 && frame.len() >= 6) ==> heard_all(before, frame).last
            == before.last,
{
    let start = frame.drop_last();
    assert(start =~= frame.take(frame.len() - 1));
    frame_grows(frame, frame.len() - 1);
    unfinished_changes_no_count(before, start);
    a_sent_frame_is_found(frame);
    let (making, finished) = pushed(after(nothing(), start).0, frame.last());
    assert(finished is Some);
    let kept = finished->0;
    assert(kept =~= frame.take(
        if frame.len() < 36 {
            frame.len() as int
        } else {
            36
        },
    ));
    a_frame_says_what_was_sent(frame, before.events, before.last);
}

/// Room is wanted only for the counter of the turn that a frame reports.
pub proof fn only_a_turn_wants_room(kept: Seq<u8>, events: Seq<u32>)
    ensures
        kept[0] != 0xBD ==> has_room(kept, events),
        kept[1] != 7 && kept[1] != 8 ==> has_room(kept, events),
        events[0] < u32::MAX && events[1] < u32::MAX ==> has_room(kept, events),
{
}

} // verus!
