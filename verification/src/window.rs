//! The countdown window's state and its reaction to each window message,
//! and where the window and its button are placed.

use vstd::prelude::*;

use crate::countdown::{countdown_text, format_countdown, lemma_started_iff_reached, started_text};
use crate::paint::{drawn_lines, MAX_PAINT_LINES, heights_in_order, paint_lines, split_lines, texts_of, PaintLine};
use crate::quotes::{pick_quote, quote_text, QUOTE_COUNT};
use crate::time::{local_now, LocalDateTime, Timestamp};

verus! {

/// The window is being destroyed.
pub const WM_DESTROY: u32 = 0x0002;

/// The window's client area needs painting.
pub const WM_PAINT: u32 = 0x000F;

/// A control (here the button) sent a command.
pub const WM_COMMAND: u32 = 0x0111;

/// A timer of the window fired.
pub const WM_TIMER: u32 = 0x0113;

/// Identifier of the once-a-second timer.
pub const TIMER_ID: usize = 1;

/// Period of the timer in milliseconds.
pub const TIMER_INTERVAL_MS: u32 = 1000;

/// Command identifier of the button.
pub const BUTTON_ID: i32 = 1001;

/// Outer width of the window.
pub const WINDOW_WIDTH: i32 = 400;

/// Outer height of the window.
pub const WINDOW_HEIGHT: i32 = 250;

/// Width of the button.
pub const BUTTON_WIDTH: i32 = 120;

/// Height of the button.
pub const BUTTON_HEIGHT: i32 = 30;

/// Gap between the button and the bottom of the client area.
pub const BUTTON_MARGIN: i32 = 20;

/// What a window message asks of the countdown window.
#[derive(Clone, Copy, Debug, PartialEq, Eq)]
pub enum MessageKind {
    /// The button was pressed.
    Button,
    /// The countdown timer fired.
    Tick,
    /// The client area is to be painted.
    Paint,
    /// The window is going away.
    Destroy,
    /// Anything else, left to the default window procedure.
    Unhandled,
}

/// The kind of the message `msg` with first parameter `wparam`: a command
/// counts only when the low 16 bits of `wparam` are the button's identifier,
/// a timer message only for the countdown timer.
pub open spec fn message_kind(msg: u32, wparam: usize) -> MessageKind {
    if msg == WM_COMMAND && wparam % 0x10000 == BUTTON_ID {
        MessageKind::Button
    } else if msg == WM_TIMER && wparam == TIMER_ID {
        MessageKind::Tick
    } else if msg == WM_PAINT {
        MessageKind::Paint
    } else if msg == WM_DESTROY {
        MessageKind::Destroy
    } else {
        MessageKind::Unhandled
    }
}

/// Decides what the message `msg` with first parameter `wparam` asks for.
pub fn classify_message(msg: u32, wparam: usize) -> (k: MessageKind)
    ensures
        k == message_kind(msg, wparam),
{
    if msg == WM_COMMAND {
        let command_id: u32 = (wparam as u32) & 0xFFFF;
        assert(((wparam as u32) & 0xFFFF) as int == wparam % 0x10000) by (bit_vector);
        if command_id == BUTTON_ID as u32 {
            return MessageKind::Button;
        }
    } else if msg == WM_TIMER {
        if wparam == TIMER_ID {
            return MessageKind::Tick;
        }
    } else if msg == WM_PAINT {
        return MessageKind::Paint;
    } else if msg == WM_DESTROY {
        return MessageKind::Destroy;
    }
    MessageKind::Unhandled
}

/// What the window is to do for a message.
#[derive(Debug)]
pub enum Reaction {
    /// Show this saying in a message box.
    ShowQuote(&'static str),
    /// Repaint the window; when `finished`, also announce the school start
    /// and leave the message loop.
    Redraw { finished: bool },
    /// Draw these lines of text.
    Paint(Vec<PaintLine>),
    /// Leave the message loop.
    Quit,
    /// Hand the message to the default window procedure.
    Default,
}

/// The lines are those that painting `text` draws, at their heights.
pub open spec fn paints(lines: Seq<PaintLine>, text: Seq<char>) -> bool {
    &&& texts_of(lines) == drawn_lines(split_lines(text))
    &&& heights_in_order(lines)
}

/// The countdown window's state: the target moment, when there is one,
/// and the text last computed for it.
pub struct Countdown {
    pub target: Option<LocalDateTime>,
    pub text: String,
}

impl Countdown {
    /// The target, when set, is a well-formed moment.
    pub open spec fn wf(&self) -> bool {
        self.target matches Some(t) ==> t.wf()
    }

    /// The text after a refresh at `now`: the countdown text for the
    /// target, or the old text when there is no target.
    pub open spec fn refreshed(&self, now: Timestamp) -> Seq<char> {
        match self.target {
            Some(t) => countdown_text(t, now),
            None => self.text@,
        }
    }

    /// Whether the countdown has run out at `now`.
    pub open spec fn due(&self, now: Timestamp) -> bool {
        self.target matches Some(t) && now.not_before(t.instant)
    }

    /// A countdown to `target` with no text yet.
    pub fn new(target: Option<LocalDateTime>) -> (c: Self)
        ensures
            c.target == target,
            c.text@ == Seq::<char>::empty(),
    {
        Countdown { target, text: String::new() }
    }

    /// Recomputes the text for the time `now`.
    pub fn refresh_text(&mut self, now: &Timestamp)
        requires
            old(self).wf(),
            now.wf(),
        ensures
            final(self).target == old(self).target,
            final(self).text@ == old(self).refreshed(*now),
    {
        match &self.target {
            Some(t) => {
                self.text = format_countdown(t, now);
            },
            None => {},
        }
    }

    /// Recomputes the text for the current time, read from the clock.
    ///
    /// The clock is read only when there is a target. The time read is not
    /// known in advance; the text is the countdown text at some well-formed
    /// instant, or unchanged without a target.
    pub fn update_countdown_text(&mut self)
        requires
            old(self).wf(),
        ensures
            final(self).target == old(self).target,
            exists|now: Timestamp| now.wf() && final(self).text@ == old(self).refreshed(now),
    {
        if self.target.is_some() {
            let now = local_now();
            self.refresh_text(&now.instant);
        } else {
            let ghost epoch = Timestamp { secs: 0, nanos: 0 };
            assert(epoch.wf() && self.text@ == old(self).refreshed(epoch));
        }
    }

    /// Whether the target is set and `now` has reached it.
    pub fn is_due(&self, now: &Timestamp) -> (r: bool)
        ensures
            r == self.due(*now),
    {
        match &self.target {
            Some(t) => now.is_not_before(&t.instant),
            None => false,
        }
    }

    /// One timer tick: the text is recomputed for `text_time`, and the
    /// countdown is found over when the target is set and `check_time` has
    /// reached it.
    pub fn timer_tick(&mut self, text_time: &Timestamp, check_time: &Timestamp) -> (finished: bool)
        requires
            old(self).wf(),
            text_time.wf(),
            check_time.wf(),
        ensures
            final(self).target == old(self).target,
            final(self).text@ == old(self).refreshed(*text_time),
            finished == old(self).due(*check_time),
    {
        self.refresh_text(text_time);
        self.is_due(check_time)
    }

    /// The window procedure: handles the message `msg` with first parameter
    /// `wparam` and says what the window is to do.
    ///
    /// The button shows a saying picked at random; a tick of the countdown
    /// timer recomputes the text from the clock, asks for a repaint, and
    /// finishes the countdown once a second reading of the clock has reached
    /// the target; painting draws the text's non-blank lines; destruction
    /// leaves the message loop; everything else goes to the default window
    /// procedure.
    pub fn window_procedure(&mut self, msg: u32, wparam: usize) -> (r: Reaction)
        requires
            old(self).wf(),
            message_kind(msg, wparam) == MessageKind::Paint ==> drawn_lines(
                split_lines(old(self).text@),
            ).len() <= MAX_PAINT_LINES,
        ensures
            final(self).target == old(self).target,
            message_kind(msg, wparam) != MessageKind::Tick ==> final(self).text@ == old(self).text@,
            match message_kind(msg, wparam) {
                MessageKind::Button => r matches Reaction::ShowQuote(q) && exists|i: int|
                    0 <= i < QUOTE_COUNT && q@ == quote_text(i),
                MessageKind::Tick => r matches Reaction::Redraw { finished } && {
                    &&& exists|now: Timestamp| now.wf() && final(self).text@ == old(self).refreshed(now)
                    &&& exists|now: Timestamp| now.wf() && finished == old(self).due(now)
                },
                MessageKind::Paint => r matches Reaction::Paint(lines) && paints(lines@, old(self).text@),
                MessageKind::Destroy => r matches Reaction::Quit,
                MessageKind::Unhandled => r matches Reaction::Default,
            },
    {
        match classify_message(msg, wparam) {
            MessageKind::Button => Reaction::ShowQuote(pick_quote()),
            MessageKind::Tick => {
                let text_time = local_now();
                let check_time = local_now();
                let finished = self.timer_tick(&text_time.instant, &check_time.instant);
                Reaction::Redraw { finished }
            },
            MessageKind::Paint => Reaction::Paint(paint_lines(self.text.as_str())),
            MessageKind::Destroy => Reaction::Quit,
            MessageKind::Unhandled => Reaction::Default,
        }
    }
}

/// With a target set, a tick whose two clock readings agree finishes the
/// countdown exactly when the refreshed text is the started message.
pub proof fn lemma_finish_matches_text(c: Countdown, now: Timestamp)
    requires
        c.target is Some,
    ensures
        c.due(now) <==> c.refreshed(now) == started_text(),
{
    lemma_started_iff_reached(c.target->0, now);
}

/// `a / 2` rounded toward zero, as integer division does.
pub open spec fn half_toward_zero(a: int) -> int {
    if a >= 0 {
        a / 2
    } else {
        -((-a) / 2)
    }
}

/// Where the window goes on a screen of the given size: centred, each
/// coordinate half the room left over, rounded toward zero.
pub fn window_origin(screen_width: i32, screen_height: i32) -> (r: (i32, i32))
    requires
        screen_width - WINDOW_WIDTH >= i32::MIN,
        screen_height - WINDOW_HEIGHT >= i32::MIN,
    ensures
        r.0 == half_toward_zero(screen_width - WINDOW_WIDTH),
        r.1 == half_toward_zero(screen_height - WINDOW_HEIGHT),
        -1 <= (screen_width - (r.0 + WINDOW_WIDTH)) - r.0 <= 1,
        -1 <= (screen_height - (r.1 + WINDOW_HEIGHT)) - r.1 <= 1,
{
    ((screen_width - WINDOW_WIDTH) / 2, (screen_height - WINDOW_HEIGHT) / 2)
}

/// Where the button goes in a client rectangle: centred across, its bottom
/// `BUTTON_MARGIN` above the bottom of the client area.
pub fn button_origin(left: i32, top: i32, right: i32, bottom: i32) -> (r: (i32, i32))
    requires
        i32::MIN <= right - left <= i32::MAX,
        (right - left) - BUTTON_WIDTH >= i32::MIN,
        i32::MIN <= bottom - top <= i32::MAX,
        (bottom - top) - BUTTON_HEIGHT - BUTTON_MARGIN >= i32::MIN,
    ensures
        r.0 == half_toward_zero((right - left) - BUTTON_WIDTH),
        r.1 == (bottom - top) - BUTTON_HEIGHT - BUTTON_MARGIN,
        -1 <= ((right - left) - (r.0 + BUTTON_WIDTH)) - r.0 <= 1,
        r.1 + BUTTON_HEIGHT + BUTTON_MARGIN == bottom - top,
{
    let window_width: i32 = right - left;
    let window_height: i32 = bottom - top;
    ((window_width - BUTTON_WIDTH) / 2, window_height - BUTTON_HEIGHT - BUTTON_MARGIN)
}

} // verus!
