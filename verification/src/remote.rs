//! Driving the phone through the other chip: from the screen, one key at a time, and once and for
//! all.

use vstd::prelude::*;

use crate::device::CompanionStatus;

verus! {

/// Something done every so often. Times are in microseconds.
#[derive(Clone, Copy, Debug, PartialEq, Eq, Structural)]
pub struct Every {
    pub next: u64,
    pub period: u64,
}

impl Every {
    /// Due from a moment on.
    pub fn new(first: u64, period: u64) -> (r: Self)
        ensures
            r == (Every { next: first, period }),
    {
        Every { next: first, period }
    }

    /// Whether it is due; if so, it is due again a period from now.
    pub fn due(&mut self, now: u64) -> (r: bool)
        requires
            now + old(self).period <= u64::MAX,
        ensures
            !r ==> now < old(self).next && *final(self) == *old(self),
            r ==> final(self).next - now == old(self).period,
            final(self).period == old(self).period,
            r == (now >= old(self).next),
            *final(self) == (if now >= old(self).next {
                Every { next: (now + old(self).period) as u64, period: old(self).period }
            } else {
                *old(self)
            }),
    {
        if now >= self.next {
            self.next = now + self.period;
            true
        } else {
            false
        }
    }
}

/// A gesture, as the hand sees it with the port pointing away.
#[derive(Clone, Copy, Debug, PartialEq, Eq, Structural)]
pub enum Gesture {
    SlideLeft,
    SlideRight,
    SlideUp,
    SlideDown,
    SingleTap,
    Other,
}

/// What a gesture sends.
#[derive(Clone, Copy, Debug, PartialEq, Eq, Structural)]
pub enum Action {
    /// A key to the other chip's own dispatcher.
    QueueNext,
    QueuePrevious,
    /// The next track as a report of a wireless keyboard.
    KeyNext,
    /// Play or pause.
    TogglePlayback,
    /// Flow control on the audio stream itself.
    SuspendStream,
}

/// What a gesture sends: left and right skip, a tap plays or pauses, down sends the next track
/// the other way, and up suspends the stream.
pub fn action(gesture: Option<Gesture>) -> (r: Option<Action>)
    ensures
        gesture is None ==> r is None,
        r == Some(Action::QueueNext) ==> gesture == Some(Gesture::SlideLeft),
        r == Some(Action::QueuePrevious) ==> gesture == Some(Gesture::SlideRight),
        r == Some(Action::KeyNext) ==> gesture == Some(Gesture::SlideDown),
        r == Some(Action::SuspendStream) ==> gesture == Some(Gesture::SlideUp),
        r == Some(Action::TogglePlayback) ==> gesture == Some(Gesture::SingleTap),
        r is None ==> gesture is None || gesture == Some(Gesture::Other),
        r == (match gesture {
            Some(Gesture::SlideLeft) => Some(Action::QueueNext),
            Some(Gesture::SlideRight) => Some(Action::QueuePrevious),
            Some(Gesture::SlideDown) => Some(Action::KeyNext),
            Some(Gesture::SlideUp) => Some(Action::SuspendStream),
            Some(Gesture::SingleTap) => Some(Action::TogglePlayback),
            _ => None,
        }),
{
    match gesture {
        Some(Gesture::SlideLeft) => Some(Action::QueueNext),
        Some(Gesture::SlideRight) => Some(Action::QueuePrevious),
        Some(Gesture::SlideDown) => Some(Action::KeyNext),
        Some(Gesture::SlideUp) => Some(Action::SuspendStream),
        Some(Gesture::SingleTap) => Some(Action::TogglePlayback),
        _ => None,
    }
}

/// What is known of the other chip.
#[derive(Clone, Copy, Debug, PartialEq, Eq, Structural)]
pub struct Heard {
    /// Detents clockwise less detents anticlockwise.
    pub position: i32,
    pub status: Option<CompanionStatus>,
}

impl Heard {
    pub fn new() -> (r: Self)
        ensures
            r == (Heard { position: 0, status: None }),
    {
        Heard { position: 0, status: None }
    }

    /// Takes a detent of its encoder; says the command byte it came as.
    pub fn detent(&mut self, clockwise: bool) -> (frame: u8)
        requires
            if clockwise {
                old(self).position < i32::MAX
            } else {
                old(self).position > i32::MIN
            },
        ensures
            frame == (if clockwise {
                7
            } else {
                8u8
            }),
            *final(self) == (Heard {
                position: (old(self).position + (if clockwise {
                    1int
                } else {
                    -1
                })) as i32,
                ..*old(self)
            }),
    {
        if clockwise {
            self.position = self.position + 1;
            7
        } else {
            self.position = self.position - 1;
            8
        }
    }

    /// Takes a status; says whether it is a new one.
    pub fn status(&mut self, status: CompanionStatus) -> (new: bool)
        ensures
            new == (old(self).status != Some(status)),
            *final(self) == (Heard { status: Some(status), ..*old(self) }),
    {
        let new = match self.status {
            Some(last) => last != status,
            None => true,
        };
        self.status = Some(status);
        new
    }
}

/// What the hand asked for.
#[derive(Clone, Copy, Debug, PartialEq, Eq, Structural)]
pub enum Step {
    Next,
    Repeat,
    Quit,
}

/// Whether a step is made again: only if somebody is there and asks for it.
pub fn repeats(attended: bool, step: Step) -> (r: bool)
    ensures
        r == (attended && step == Step::Repeat),
{
    attended && step == Step::Repeat
}

/// Whether the other chip is made to forget its phone: only if somebody is there, and turns the
/// knob.
pub fn forgets(attended: bool, step: Step) -> (r: bool)
    ensures
        r == (attended && step == Step::Next),
{
    attended && step == Step::Next
}

/// What is sent to make the other chip forget.
#[derive(Clone, Copy, Debug, PartialEq, Eq, Structural)]
pub enum Forget {
    /// Clear its bonds.
    Bonds,
    /// Forget the stored phone.
    Peer,
    /// Ask for its status.
    Status,
}

/// What is sent, and how many milliseconds the line is listened to after each.
pub open spec fn forgetting_spec(go: bool) -> Seq<(Forget, u64)> {
    if go {
        seq![(Forget::Bonds, 500u64), (Forget::Peer, 500u64), (Forget::Status, 0u64)]
    } else {
        Seq::empty()
    }
}

pub fn forgetting(go: bool) -> (r: Vec<(Forget, u64)>)
    ensures
        r@ == forgetting_spec(go),
{
    let mut r: Vec<(Forget, u64)> = Vec::new();
    if go {
        r.push((Forget::Bonds, 500));
        r.push((Forget::Peer, 500));
        r.push((Forget::Status, 0));
    }
    assert(r@ =~= forgetting_spec(go));
    r
}

/// A run without anybody there sends nothing, and neither does a hand that taps or leaves.
pub proof fn nothing_is_forgotten_unasked(attended: bool, step: Step)
    requires
        !attended || step != Step::Next,
    ensures
        forgetting_spec(attended && step == Step::Next).len() == 0,
{
}

/// How many keys the other chip can send.
pub const KEYS: usize = 10;

/// A key of the other chip's wireless keyboard, in the order they are tried. The last may lock
/// the phone.
#[derive(Clone, Copy, Debug, PartialEq, Eq, Structural)]
pub enum MediaKey {
    PlayPause,
    Next,
    Previous,
    Play,
    Pause,
    Stop,
    FastForward,
    Rewind,
    Record,
    Power,
}

pub open spec fn key_spec(n: int) -> MediaKey {
    if n == 0 {
        MediaKey::PlayPause
    } else if n == 1 {
        MediaKey::Next
    } else if n == 2 {
        MediaKey::Previous
    } else if n == 3 {
        MediaKey::Play
    } else if n == 4 {
        MediaKey::Pause
    } else if n == 5 {
        MediaKey::Stop
    } else if n == 6 {
        MediaKey::FastForward
    } else if n == 7 {
        MediaKey::Rewind
    } else if n == 8 {
        MediaKey::Record
    } else {
        MediaKey::Power
    }
}

/// The key at a place of the list.
pub fn key(n: usize) -> (r: MediaKey)
    requires
        n < 10,
    ensures
        r == key_spec(n as int),
{
    match n {
        0 => MediaKey::PlayPause,
        1 => MediaKey::Next,
        2 => MediaKey::Previous,
        3 => MediaKey::Play,
        4 => MediaKey::Pause,
        5 => MediaKey::Stop,
        6 => MediaKey::FastForward,
        7 => MediaKey::Rewind,
        8 => MediaKey::Record,
        _ => MediaKey::Power,
    }
}

/// Every key stands in the list once.
pub proof fn keys_differ(a: int, b: int)
    requires
        0 <= a < b < 10,
    ensures
        key_spec(a) != key_spec(b),
{
}

/// Keys tried one at a time. Times are in milliseconds.
pub struct KeyRun {
    /// The key selected.
    pub n: usize,
    /// How often each was sent, and when last.
    pub sent: Vec<u32>,
    pub last: Vec<Option<u64>>,
}

/// What a step of the run does.
#[derive(Clone, Copy, Debug, PartialEq, Eq, Structural)]
pub enum KeyStep {
    /// Send the key; how often it was sent with this, and how long after the time before.
    Send { key: MediaKey, press: u32, gap: Option<u64> },
    /// Another key is selected; nothing is sent.
    Select(usize),
    Done,
}

impl KeyRun {
    pub open spec fn wf(&self) -> bool {
        &&& self.n < 10
        &&& self.sent@.len() == 10
        &&& self.last@.len() == 10
    }

    pub fn new() -> (r: Self)
        ensures
            r.wf(),
            r.n == 0,
            r.sent@ == Seq::new(10, |i: int| 0u32),
            r.last@ == Seq::new(10, |i: int| None::<u64>),
    {
        let mut sent: Vec<u32> = Vec::new();
        let mut last: Vec<Option<u64>> = Vec::new();
        while sent.len() < KEYS
            invariant
                sent@.len() <= 10,
                sent@.len() == last@.len(),
                forall|i: int| 0 <= i < sent@.len() ==> #[trigger] sent@[i] == 0,
                forall|i: int| 0 <= i < last@.len() ==> #[trigger] last@[i] == None::<u64>,
            decreases 10 - sent@.len(),
        {
            sent.push(0);
            last.push(None);
        }
        assert(sent@ =~= Seq::new(10, |i: int| 0u32));
        assert(last@ =~= Seq::new(10, |i: int| None::<u64>));
        KeyRun { n: 0, sent, last }
    }

    /// Takes what the hand asked for: a tap sends the selected key, a turn selects the next and
    /// starts over after the last.
    pub fn step(&mut self, step: Step, now: u64) -> (r: KeyStep)
        requires
            old(self).wf(),
            old(self).sent@[old(self).n as int] < u32::MAX,
            old(self).last@[old(self).n as int] is Some ==> old(self).last@[old(self).n as int]->0
                <= now,
        ensures
            r is Send <==> step == Step::Repeat,
            r is Done <==> step == Step::Quit,
            step != Step::Next ==> final(self).n == old(self).n,
            step != Step::Repeat ==> final(self).sent == old(self).sent && final(self).last == old(
                self,
            ).last,
            final(self).wf(),
            (match step {
                Step::Repeat => {
                    let n = old(self).n as int;
                    &&& r == (KeyStep::Send {
                        key: key_spec(n),
                        press: (old(self).sent@[n] + 1) as u32,
                        gap: match old(self).last@[n] {
                            Some(before) => Some((now - before) as u64),
                            None => None,
                        },
                    })
                    &&& final(self).n == n
                    &&& final(self).sent@ == old(self).sent@.update(
                        n,
                        (old(self).sent@[n] + 1) as u32,
                    )
                    &&& final(self).last@ == old(self).last@.update(n, Some(now))
                },
                Step::Next => {
                    &&& r == KeyStep::Select(final(self).n)
                    &&& final(self).n == (old(self).n + 1) % 10
                    &&& final(self).sent == old(self).sent
                    &&& final(self).last == old(self).last
                },
                Step::Quit => r == KeyStep::Done && *final(self) == *old(self),
            }),
    {
        match step {
            Step::Repeat => {
                let n: usize = self.n;
                let press: u32 = self.sent[n] + 1;
                let gap: Option<u64> = match self.last[n] {
                    Some(before) => Some(now - before),
                    None => None,
                };
                self.sent.set(n, press);
                self.last.set(n, Some(now));
                KeyStep::Send { key: key(n), press, gap }
            },
            Step::Next => {
                self.n = (self.n + 1) % KEYS;
                KeyStep::Select(self.n)
            },
            Step::Quit => KeyStep::Done,
        }
    }
}

/// The key selected after so many turns.
pub open spec fn turned_to(n: int, turns: nat) -> int
    decreases turns,
{
    if turns == 0 {
        n
    } else {
        (turned_to(n, (turns - 1) as nat) + 1) % 10
    }
}

proof fn turning_counts(n: int, turns: nat)
    requires
        0 <= n < 10,
    ensures
        turned_to(n, turns) == (n + turns) % 10,
    decreases turns,
{
    if turns > 0 {
        turning_counts(n, (turns - 1) as nat);
    }
}

/// A hand that turned too far comes round to the key again.
pub proof fn turning_on_comes_round(n: int, turns: nat)
    requires
        0 <= n < 10,
        turns % 10 == 0,
    ensures
        turned_to(n, turns) == n,
{
    turning_counts(n, turns);
}

/// The other chip is made to forget its bonds before its phone, each with half a second to do it in,
/// and is asked how it stands last, with no wait behind it.
pub proof fn forgetting_takes_its_time(go: bool)
    ensures
        go ==> forgetting_spec(go).len() == 3,
        go ==> forgetting_spec(go)[0] == (Forget::Bonds, 500u64),
        go ==> forgetting_spec(go)[1] == (Forget::Peer, 500u64),
        go ==> forgetting_spec(go)[2] == (Forget::Status, 0u64),
        !go ==> forgetting_spec(go).len() == 0,
{
}

/// The keys are tried from the harmless to the one that may lock the phone.
pub proof fn keys_stand_in_order(n: int)
    requires
        0 <= n < 10,
    ensures
        key_spec(n) == seq![
            MediaKey::PlayPause,
            MediaKey::Next,
            MediaKey::Previous,
            MediaKey::Play,
            MediaKey::Pause,
            MediaKey::Stop,
            MediaKey::FastForward,
            MediaKey::Rewind,
            MediaKey::Record,
            MediaKey::Power,
        ][n],
{
}

} // verus!
