//! The player: the phone's two lines and their one run past the edge of the screen, and the
//! layout of the screen around them.

use vstd::prelude::*;
use vstd::string::*;
use crate::overview::Overview;
use crate::screens::{Font, Ink, Line, LineView, views};

verus! {

pub const WIDTH: i32 = 360;

pub const HEIGHT: i32 = 360;

/// How far from the middle the player's text may reach, inside the volume arc.
pub const TEXT_RADIUS: i32 = 156;

/// How often a running line moves, in microseconds.
pub const RUN_PERIOD: u64 = 100_000;

/// How far a running line moves in a period, in pixels.
pub const RUN_STEP: i32 = 4;

/// How many periods a run stands still at its start, and again at its end.
pub const RUN_HOLD: i32 = 15;

/// `i32::isqrt` of std: the square root, rounded down. It panics below zero.
pub assume_specification[ i32::isqrt ](n: i32) -> (r: i32)
    requires
        n >= 0,
    ensures
        is_root(r as int, n as int),
;

/// `r` is the square root of `n`, rounded down.
pub open spec fn is_root(r: int, n: int) -> bool {
    0 <= r && r * r <= n && n < (r + 1) * (r + 1)
}

/// Half of `n`, rounded towards zero.
pub open spec fn halved(n: int) -> int {
    if n < 0 {
        -((-n) / 2)
    } else {
        n / 2
    }
}

pub open spec fn at_least(n: int, least: int) -> int {
    if n < least {
        least
    } else {
        n
    }
}

pub open spec fn at_most(n: int, most: int) -> int {
    if n > most {
        most
    } else {
        n
    }
}

/// One of the phone's two lines: how far below the middle it stands, and how far its typeface
/// reaches above and below the line.
#[derive(Clone, Copy, Debug, PartialEq, Eq, Structural)]
pub struct PlayerLine {
    pub below: i16,
    pub ascent: i8,
    pub descent: i8,
}

/// How far below the middle the title stands.
pub const TITLE_BELOW: i16 = 52;

/// How far below the middle the artist stands.
pub const ARTIST_BELOW: i16 = 76;

/// How a line is drawn.
#[derive(Debug)]
pub enum Drawn {
    /// Whole, centred.
    Centred,
    /// Whole, with its middle at `x`, and only what lies in the room shows.
    Shifted { x: i32, left: i32, room: i32 },
    /// Cut to this text, centred.
    Cut(String),
}

impl PlayerLine {
    /// How far from the middle the farther edge of the text lies.
    pub open spec fn far(self) -> int {
        self.below + halved(self.ascent - self.descent)
    }

    /// The square of half the room: what the circle leaves at the text's farther edge.
    pub open spec fn across_squared(self) -> int {
        at_least(156 * 156 - self.far() * self.far(), 0)
    }

    /// The part of the line's row inside the circle, as left edge and width. Measured at the
    /// edge of the text farther from the middle, where the circle is narrower.
    pub fn room(&self) -> (r: (i32, i32))
        ensures
            r.1 % 2 == 0,
            is_root(r.1 as int / 2, self.across_squared()),
            r.0 == 180 - r.1 as int / 2,
            0 <= r.1 <= 312,
    {
        let half: i32 = (self.ascent as i32 - self.descent as i32) / 2;
        let far: i32 = self.below as i32 + half;
        assert(far == self.far());
        assert(-33100 <= far <= 33100);
        assert(0 <= far * far <= 33100 * 33100) by (nonlinear_arith)
            requires
                -33100 <= far <= 33100,
        ;
        let left_over: i32 = TEXT_RADIUS * TEXT_RADIUS - far * far;
        let across: i32 = if left_over < 0 {
            0i32.isqrt()
        } else {
            left_over.isqrt()
        };
        assert(across <= 156) by (nonlinear_arith)
            requires
                across * across <= 156 * 156,
                across >= 0,
        ;
        (WIDTH / 2 - across, 2 * across)
    }

    /// How much wider than its room a text `width` pixels wide is, or 0 if it fits.
    pub fn overflow(&self, width: i32) -> (r: i32)
        requires
            width >= 0,
        ensures
            exists|room: int|
                is_root(room, self.across_squared()) && r == at_least(width - 2 * room, 0),
    {
        let room: i32 = self.room().1;
        assert(is_root(room as int / 2, self.across_squared()));
        if width > room {
            width - room
        } else {
            0
        }
    }

    /// Where the line stands, from the top of the screen.
    pub fn y(&self) -> (r: i32)
        ensures
            r == 180 + self.below,
    {
        HEIGHT / 2 + self.below as i32
    }

    /// How a text `width` pixels wide is drawn. `start` is the part of it that fits with an
    /// ellipsis after it, or `None` if the whole fits. A text that does not fit is shifted left
    /// by the run while it lasts, no farther than its own end, and cut once it is over.
    pub fn draw(&self, width: i32, start: Option<&str>, run: Option<i32>) -> (r: Drawn)
        requires
            0 <= width,
            run is Some ==> 0 <= run->0,
        ensures
            start is None ==> r is Centred,
            start is Some && run is None ==> (r matches Drawn::Cut(text) && text@ == start->0@
                + "..."@),
            start is Some && run is Some ==> {
                &&& r matches Drawn::Shifted { x, left, room }
                &&& room % 2 == 0
                &&& is_root(room as int / 2, self.across_squared())
                &&& left == 180 - room as int / 2
                &&& x == left - at_most(run->0 as int, width - room) + width as int / 2
            },
    {
        match (run, start) {
            (_, None) => Drawn::Centred,
            (Some(offset), Some(_)) => {
                let (left, room) = self.room();
                let most: i32 = width - room;
                let shift: i32 = if offset < most {
                    offset
                } else {
                    most
                };
                Drawn::Shifted { x: left - shift + width / 2, left, room }
            },
            (None, Some(start)) => {
                let mut cut = start.to_owned();
                cut.append("...");
                Drawn::Cut(cut)
            },
        }
    }
}

/// The corners of a line's room lie inside the circle, wherever the line stands within it.
pub proof fn room_lies_in_the_circle(line: PlayerLine, across: int)
    requires
        is_root(across, line.across_squared()),
        -156 <= line.far() <= 156,
    ensures
        across * across + line.far() * line.far() <= 156 * 156,
{
    assert(line.far() * line.far() <= 156 * 156) by (nonlinear_arith)
        requires
            -156 <= line.far() <= 156,
    ;
}

/// The room does not depend on how the root was found: there is one.
pub proof fn root_is_unique(r: int, s: int, n: int)
    requires
        is_root(r, n),
        is_root(s, n),
    ensures
        r == s,
{
    if r < s {
        assert((r + 1) * (r + 1) <= s * s) by (nonlinear_arith)
            requires
                0 <= r < s,
        ;
    } else if s < r {
        assert((s + 1) * (s + 1) <= r * r) by (nonlinear_arith)
            requires
                0 <= s < r,
        ;
    }
}

/// The one run of the player's long lines, after each change of track and each time the player
/// comes back on the screen.
#[derive(Clone, Copy, Debug, PartialEq, Eq, Structural)]
pub struct Run {
    /// Microseconds the run has had on the screen.
    pub elapsed: u64,
    /// How far the longer line overhangs its room. 0 means no run.
    pub overflow: i32,
}

impl Run {
    pub open spec fn wf(self) -> bool {
        &&& 0 <= self.overflow <= i32::MAX - 60
        &&& self.elapsed / 100_000 <= 536_870_926
    }

    /// Pixels the lines have moved by now, if nothing stopped them.
    pub open spec fn moved(self) -> int {
        at_least(self.elapsed as int / 100_000 - 15, 0) * 4
    }

    /// How far the lines stand shifted: at the start for 15 periods, then 4 pixels a period to
    /// the end of the longer line, and there for 15 periods more.
    pub open spec fn offset_spec(self) -> Option<int> {
        if self.overflow == 0 || self.moved() >= self.overflow + 60 {
            None
        } else {
            Some(at_most(self.moved(), self.overflow as int))
        }
    }

    /// A run for a title and an artist that overhang their rooms by so much. Without a title the
    /// player names the device instead, and that fits.
    pub fn new(titled: bool, title_overflow: i32, artist_overflow: i32) -> (r: Self)
        requires
            0 <= title_overflow <= i32::MAX - 60,
            0 <= artist_overflow <= i32::MAX - 60,
        ensures
            r.wf(),
            r.elapsed == 0,
            r.overflow == (if !titled {
                0
            } else {
                at_least(title_overflow as int, artist_overflow as int)
            }),
    {
        let overflow: i32 = if !titled {
            0
        } else if title_overflow > artist_overflow {
            title_overflow
        } else {
            artist_overflow
        };
        Run { elapsed: 0, overflow }
    }

    /// How far the lines stand shifted, or `None` when there is no run or it is over.
    pub fn offset(&self) -> (r: Option<i32>)
        requires
            self.wf(),
        ensures
            r is Some <==> self.offset_spec() is Some,
            r is Some ==> r->0 == self.offset_spec()->0,
    {
        if self.overflow == 0 {
            return None;
        }
        let periods: i32 = (self.elapsed / RUN_PERIOD) as i32;
        let past: i32 = if periods > RUN_HOLD {
            periods - RUN_HOLD
        } else {
            0
        };
        let moved: i32 = past * RUN_STEP;
        if moved >= self.overflow + RUN_HOLD * RUN_STEP {
            None
        } else if moved < self.overflow {
            Some(moved)
        } else {
            Some(self.overflow)
        }
    }
}

/// The run from pass to pass of the loop. Times are in microseconds.
pub struct Playing {
    pub run: Run,
    /// Whether the player was on the screen in the last pass.
    pub up: bool,
    /// When the last pass was.
    pub last: u64,
}

/// The run of a title and an artist that overhang their rooms by so much.
pub open spec fn fresh_run(title: Seq<char>, overhang: (i32, i32)) -> Run {
    Run {
        elapsed: 0,
        overflow: if title.len() == 0 {
            0
        } else {
            at_least(overhang.0 as int, overhang.1 as int) as i32
        },
    }
}

/// The run once a pass is taken: coming back to the player starts it again, time counts only
/// while the player is on the screen, and a pass counts one period at most.
pub open spec fn passed(
    playing: Playing,
    on_player: bool,
    now: u64,
    title: Seq<char>,
    overhang: (i32, i32),
) -> Run {
    let run = if on_player && !playing.up {
        fresh_run(title, overhang)
    } else {
        playing.run
    };
    Run {
        elapsed: if on_player {
            (run.elapsed + at_most(now - playing.last, 100_000)) as u64
        } else {
            run.elapsed
        },
        ..run
    }
}

impl Playing {
    pub open spec fn wf(&self) -> bool {
        self.run.wf()
    }

    pub fn new(now: u64) -> (r: Self)
        ensures
            r.wf(),
            r.run == (Run { elapsed: 0, overflow: 0 }),
            !r.up,
            r.last == now,
    {
        Playing { run: Run { elapsed: 0, overflow: 0 }, up: false, last: now }
    }

    /// Takes what plays, with how far the title and the artist overhang their rooms; says whether
    /// it is another track. Only another one starts a run.
    pub fn track(
        &mut self,
        state: &mut Overview,
        title: String,
        artist: String,
        overhang: (i32, i32),
    ) -> (new: bool)
        requires
            old(self).wf(),
            0 <= overhang.0 <= i32::MAX - 60,
            0 <= overhang.1 <= i32::MAX - 60,
        ensures
            final(self).wf(),
            final(self).up == old(self).up,
            final(self).last == old(self).last,
            new == (title@ != old(state).title@ || artist@ != old(state).artist@),
            new ==> final(self).run == fresh_run(title@, overhang) && *final(state) == (Overview {
                title,
                artist,
                ..*old(state)
            }),
            !new ==> final(self).run == old(self).run && *final(state) == *old(state),
    {
        if title == state.title && artist == state.artist {
            return false;
        }
        self.run = Run::new(!title.as_str().is_empty(), overhang.0, overhang.1);
        state.title = title;
        state.artist = artist;
        true
    }

    /// Whether a pass at `now` can be taken: the clock goes on, and the run has not lasted beyond
    /// what can be counted.
    pub open spec fn in_time_spec(&self, now: u64) -> bool {
        &&& self.run.elapsed / 100_000 < 536_870_926
        &&& self.last <= now
    }

    pub fn in_time(&self, now: u64) -> (r: bool)
        ensures
            r == self.in_time_spec(now),
    {
        self.run.elapsed / 100_000 < 536_870_926 && self.last <= now
    }

    /// Takes a pass of the loop into the state.
    pub fn pass(&mut self, state: &mut Overview, on_player: bool, now: u64, overhang: (i32, i32))
        requires
            old(self).wf(),
            old(self).in_time_spec(now),
            0 <= overhang.0 <= i32::MAX - 60,
            0 <= overhang.1 <= i32::MAX - 60,
        ensures
            final(self).wf(),
            final(self).up == on_player,
            final(self).last == now,
            final(self).run == passed(*old(self), on_player, now, old(state).title@, overhang),
            *final(state) == (Overview { run: final(state).run, ..*old(state) }),
            final(state).run is Some <==> final(self).run.offset_spec() is Some,
            final(state).run is Some ==> final(state).run->0 == final(self).run.offset_spec()->0,
    {
        if on_player && !self.up {
            self.run = Run::new(!state.title.as_str().is_empty(), overhang.0, overhang.1);
        }
        if on_player {
            let step: u64 = if now - self.last < RUN_PERIOD {
                now - self.last
            } else {
                RUN_PERIOD
            };
            self.run = Run { elapsed: self.run.elapsed + step, overflow: self.run.overflow };
        }
        self.up = on_player;
        self.last = now;
        state.run = self.run.offset();
    }
}

/// A run nobody could see is not spent: while the player is off the screen it does not move, and
/// coming back starts it over.
pub proof fn an_unseen_run_is_not_spent(
    playing: Playing,
    now: u64,
    title: Seq<char>,
    overhang: (i32, i32),
)
    requires
        playing.last <= now,
    ensures
        passed(playing, false, now, title, overhang) == playing.run,
        !playing.up ==> passed(playing, true, now, title, overhang).elapsed <= 100_000,
{
}

/// A run never shifts its lines past their end or before their start, it only moves on, and
/// once it is over it stays over.
pub proof fn run_moves_on(early: Run, late: Run)
    requires
        early.wf(),
        late.wf(),
        early.overflow == late.overflow,
        early.elapsed <= late.elapsed,
    ensures
        early.offset_spec() is Some ==> 0 <= early.offset_spec()->0 <= early.overflow,
        early.offset_spec() is Some && late.offset_spec() is Some ==> early.offset_spec()->0
            <= late.offset_spec()->0,
        early.offset_spec() is None ==> late.offset_spec() is None,
{
}

/// Both ends of a long line can be read: for a second and a half the run stands at its start,
/// and for as long at its end.
pub proof fn run_holds_both_ends(run: Run)
    requires
        run.wf(),
        run.overflow > 0,
    ensures
        run.elapsed < 1_600_000 ==> run.offset_spec() == Some(0int),
        run.overflow <= run.moved() < run.overflow + 60 ==> run.offset_spec() == Some(
            run.overflow as int,
        ),
{
}

/// What the player's screen is made of.
#[derive(Debug)]
pub struct StatusScreen {
    /// Lines by their distance from the middle; the phone's two are not among them.
    pub lines: Vec<Line>,
    /// Whether the phone's two lines stand on the screen.
    pub phone: bool,
    /// Rows to dim, with a picture behind the text: from the first to before the second.
    pub dim: Option<(usize, usize)>,
    /// The share of the volume arc to draw over its track, of 127, and whether it is dimmed.
    pub volume: Option<(u8, bool)>,
}

/// What the player says while nothing plays: the device's name and its gestures.
pub open spec fn idle_lines() -> Seq<LineView> {
    seq![
        LineView { dy: -24, text: "TeeToTum"@, font: Font::Large, ink: Ink::White },
        LineView { dy: 8, text: "nothing playing"@, font: Font::Small, ink: Ink::Gray },
        LineView { dy: 40, text: "tap to play  swipe to skip"@, font: Font::Small, ink: Ink::Gray },
        LineView { dy: 58, text: "turn for volume"@, font: Font::Small, ink: Ink::Gray },
    ]
}

/// The rows the text stands in: from 16 above the middle of the first line to 10 below that of
/// the last.
pub open spec fn dimmed(playing: bool) -> (usize, usize) {
    if playing {
        ((180 + 52 - 16) as usize, (180 + 76 + 10) as usize)
    } else {
        ((180 - 24 - 16) as usize, (180 + 58 + 10) as usize)
    }
}

/// The screen after boot: a player. The volume runs round the rim; it is dimmed while nothing
/// streams, because the other chip then takes no step, and not drawn at nothing.
pub fn status_screen(state: &Overview, over_picture: bool) -> (screen: StatusScreen)
    ensures
        screen.phone ==> screen.lines@.len() == 0,
        !screen.phone ==> screen.lines@.len() == 4,
        screen.dim is Some <==> over_picture,
        (screen.volume matches Some((share, dim)) ==> 0 < share <= 127 && (dim <==> !state.streaming)
            && state.volume is Some && share <= state.volume->0),
        (state.volume matches Some(volume) ==> volume > 0 ==> screen.volume is Some),
        screen.phone == (state.title@.len() > 0),
        views(screen.lines@) == (if screen.phone {
            Seq::empty()
        } else {
            idle_lines()
        }),
        screen.dim == (if over_picture {
            Some(dimmed(screen.phone))
        } else {
            None
        }),
        screen.volume == (match state.volume {
            Some(volume) => if volume == 0 {
                None
            } else {
                Some((at_most(volume as int, 127) as u8, !state.streaming))
            },
            None => None,
        }),
{
    let playing = !state.title.as_str().is_empty();
    let mut lines: Vec<Line> = Vec::new();
    if !playing {
        lines.push(
            Line { dy: -24, text: "TeeToTum".to_owned(), font: Font::Large, ink: Ink::White },
        );
        lines.push(
            Line { dy: 8, text: "nothing playing".to_owned(), font: Font::Small, ink: Ink::Gray },
        );
        lines.push(
            Line {
                dy: 40,
                text: "tap to play  swipe to skip".to_owned(),
                font: Font::Small,
                ink: Ink::Gray,
            },
        );
        lines.push(
            Line { dy: 58, text: "turn for volume".to_owned(), font: Font::Small, ink: Ink::Gray },
        );
    }
    assert(views(lines@) =~= if playing {
        Seq::empty()
    } else {
        idle_lines()
    });
    let dim = if !over_picture {
        None
    } else if playing {
        let top: i32 = HEIGHT / 2 + TITLE_BELOW as i32 - 16;
        let foot: i32 = HEIGHT / 2 + ARTIST_BELOW as i32 + 10;
        Some((top as usize, foot as usize))
    } else {
        Some((140usize, 248usize))
    };
    let volume = match state.volume {
        None => None,
        Some(volume) => {
            let share: u8 = if volume < 127 {
                volume
            } else {
                127
            };
            if share > 0 {
                Some((share, !state.streaming))
            } else {
                None
            }
        },
    };
    StatusScreen { lines, phone: playing, dim, volume }
}

/// The larger and the smaller of two numbers: never beyond either, and always one of them. Half of a
/// number is cut towards nothing, the same either way.
pub proof fn bounds_and_halves(a: int, b: int)
    ensures
        a <= at_least(a, b) && b <= at_least(a, b),
        at_least(a, b) == a || at_least(a, b) == b,
        at_most(a, b) <= a && at_most(a, b) <= b,
        at_most(a, b) == a || at_most(a, b) == b,
        halved(-a) == -halved(a),
        a >= 0 ==> 2 * halved(a) <= a <= 2 * halved(a) + 1,
{
}

/// Nothing of a line's text lies outside the circle, whichever of its rows is looked at, and no
/// wider room would have fitted.
#[verifier::spinoff_prover]
pub proof fn the_text_stays_in_the_circle(line: PlayerLine, across: int, row: int)
    requires
        is_root(across, line.across_squared()),
        line.below >= 0,
        line.ascent >= line.descent,
        line.below + halved(line.ascent - line.descent) <= 156,
        line.below - halved(line.ascent - line.descent) <= row <= line.below + halved(
            line.ascent - line.descent,
        ),
    ensures
        across * across + row * row <= 156 * 156,
        (across + 1) * (across + 1) + line.far() * line.far() > 156 * 156,
{
    let far = line.far();
    room_lies_in_the_circle(line, across);
    assert(-far <= row <= far);
    assert(row * row <= far * far) by (nonlinear_arith)
        requires
            -far <= row <= far,
    ;
    assert(far * far <= 156 * 156) by (nonlinear_arith)
        requires
            0 <= far <= 156,
    ;
}

/// Between its two stops a run goes four pixels every tenth of a second, and it is over a second and
/// a half after it came to the end of the longer line; without a line that overhangs there is none.
#[verifier::spinoff_prover]
pub proof fn a_run_goes_at_its_pace(run: Run, tenths: int)
    requires
        run.wf(),
        tenths == run.elapsed as int / 100_000,
    ensures
        run.overflow == 0 ==> run.offset_spec() is None,
        run.overflow > 0 && tenths <= 15 ==> run.offset_spec() == Some(0int),
        run.overflow > 0 && tenths > 15 && 4 * (tenths - 15) <= run.overflow ==> run.offset_spec()
            == Some(4 * (tenths - 15)),
        run.overflow > 0 && run.overflow <= 4 * (tenths - 15) < run.overflow + 4 * 15
            ==> run.offset_spec() == Some(run.overflow as int),
        run.overflow > 0 && 4 * (tenths - 15) >= run.overflow + 4 * 15 ==> run.offset_spec()
            is None,
{
}

/// A new run starts at its beginning and is as long as the longer of the two lines asks for; without
/// a title there is nothing to run.
pub proof fn a_fresh_run_fits_the_longer_line(title: Seq<char>, overhang: (i32, i32))
    requires
        0 <= overhang.0,
        0 <= overhang.1,
    ensures
        fresh_run(title, overhang).elapsed == 0,
        title.len() == 0 ==> fresh_run(title, overhang).overflow == 0,
        title.len() > 0 ==> {
            let long = fresh_run(title, overhang).overflow;
            &&& overhang.0 <= long && overhang.1 <= long
            &&& long == overhang.0 || long == overhang.1
        },
{
}

/// Time counts only while the player is on the screen, no more than has gone by and no more than a
/// tenth of a second a pass; the run goes on with its line until the player comes back, and starts
/// over with the line there is then.
#[verifier::spinoff_prover]
pub proof fn a_run_counts_the_time_it_is_seen(
    playing: Playing,
    on_player: bool,
    now: u64,
    title: Seq<char>,
    overhang: (i32, i32),
)
    requires
        playing.wf(),
        playing.in_time_spec(now),
    ensures
        ({
            let run = passed(playing, on_player, now, title, overhang);
            let gap = now - playing.last;
            &&& !on_player ==> run == playing.run
            &&& on_player && playing.up ==> run.overflow == playing.run.overflow
            &&& on_player && playing.up && gap <= 100_000 ==> run.elapsed == playing.run.elapsed
                + gap
            &&& on_player && playing.up && gap >= 100_000 ==> run.elapsed == playing.run.elapsed
                + 100_000
            &&& on_player && !playing.up ==> run.overflow == fresh_run(title, overhang).overflow
            &&& on_player && !playing.up && gap <= 100_000 ==> run.elapsed == gap
            &&& on_player && !playing.up && gap >= 100_000 ==> run.elapsed == 100_000
        }),
{
}

/// What the player says while nothing plays names the device and the three things a hand can do, and
/// the rows dimmed behind a text reach past each of its lines on both sides.
pub proof fn the_idle_player_tells_its_gestures(n: int)
    ensures
        idle_lines().len() == 4,
        idle_lines()[0].text == "TeeToTum"@,
        idle_lines()[1].text == "nothing playing"@,
        idle_lines()[2].text == "tap to play  swipe to skip"@,
        idle_lines()[3].text == "turn for volume"@,
        0 <= n < 4 ==> dimmed(false).0 + 16 <= 180 + idle_lines()[n].dy && 180 + idle_lines()[n].dy
            + 10 <= dimmed(false).1,
        dimmed(true).0 + 16 == 180 + TITLE_BELOW,
        dimmed(true).1 == 180 + ARTIST_BELOW + 10,
{
}

/// The name of the device stands large and white over the hints of the idle player, which are small
/// and grey.
pub proof fn the_idle_player_is_set_to_be_read(n: int)
    requires
        0 < n < 4,
    ensures
        idle_lines()[0].dy == -24,
        idle_lines()[1].dy == 8,
        idle_lines()[2].dy == 40,
        idle_lines()[3].dy == 58,
        idle_lines()[0].font == Font::Large && idle_lines()[0].ink == Ink::White,
        idle_lines()[n].font == Font::Small && idle_lines()[n].ink == Ink::Gray,
{
}

} // verus!
