//! Button handling: which command each configured pin sends, and the timer behind
//! the long press that shuts the box down.
use vstd::prelude::*;

use crate::command::{Command, CommandView};
use crate::config::GpioConfig;

verus! {

/// How long the shutdown button must be held, in milliseconds.
pub const SHUTDOWN_HOLD_MS: u64 = 5000;

/// A press timer counted by generations: arming hands out a token, and a token
/// fires only while no later arm or reset has come.
pub struct Timer {
    duration_ms: u64,
    generation: u64,
}

/// The generation after `g`, wrapping round.
pub open spec fn next_generation(g: u64) -> u64 {
    if g == u64::MAX {
        0
    } else {
        (g + 1) as u64
    }
}

impl Timer {
    pub closed spec fn generation(&self) -> u64 {
        self.generation
    }

    pub closed spec fn duration(&self) -> u64 {
        self.duration_ms
    }

    pub fn new(duration_ms: u64) -> (r: Timer)
        ensures
            r.generation() == 0,
            r.duration() == duration_ms,
    {
        Timer { duration_ms, generation: 0 }
    }

    pub fn duration_ms(&self) -> (r: u64)
        ensures
            r == self.duration(),
    {
        self.duration_ms
    }

    /// Starts a new generation and hands out its token.
    pub fn arm(&mut self) -> (token: u64)
        ensures
            final(self).generation() == next_generation(old(self).generation()),
            final(self).duration() == old(self).duration(),
            token == final(self).generation(),
    {
        self.bump();
        self.generation
    }

    /// Makes every token handed out so far stale.
    pub fn reset(&mut self)
        ensures
            final(self).generation() == next_generation(old(self).generation()),
            final(self).duration() == old(self).duration(),
    {
        self.bump();
    }

    fn bump(&mut self)
        ensures
            final(self).generation() == next_generation(old(self).generation()),
            final(self).duration() == old(self).duration(),
    {
        if self.generation == u64::MAX {
            self.generation = 0;
        } else {
            self.generation = self.generation + 1;
        }
    }

    /// Whether the timer armed with `token` should fire now.
    pub fn should_fire(&self, token: u64) -> (r: bool)
        ensures
            r == (token == self.generation()),
    {
        token == self.generation
    }
}

/// A reset after an arm keeps that arm from firing.
pub proof fn lemma_reset_cancels_arm(g: u64)
    ensures
        next_generation(next_generation(g)) != next_generation(g),
{
}

/// A button: its pin, the command it sends, and how long it must be held, if at all.
pub struct ButtonBinding {
    pub pin: u8,
    pub command: Command,
    pub hold_ms: Option<u64>,
}

/// A button binding with its command seen as a view.
pub open spec fn binding_view(b: ButtonBinding) -> (u8, CommandView, Option<u64>) {
    (b.pin, b.command@, b.hold_ms)
}

/// The one-element list for a pin, if it is configured.
pub open spec fn pin_button(pin: Option<u8>, c: CommandView, hold: Option<u64>) -> Seq<
    (u8, CommandView, Option<u64>),
> {
    match pin {
        Some(p) => seq![(p, c, hold)],
        None => Seq::empty(),
    }
}

/// The buttons of a configuration, in the order play, next, prev, volume up, volume
/// down, shutdown; play toggles play and pause, shutdown needs a long press.
pub open spec fn buttons_of(config: GpioConfig) -> Seq<(u8, CommandView, Option<u64>)> {
    pin_button(config.play, CommandView::PlayPause { filter: None }, None) + pin_button(
        config.next,
        CommandView::Next,
        None,
    ) + pin_button(config.prev, CommandView::Prev, None) + pin_button(
        config.volume_up,
        CommandView::VolumeUp,
        None,
    ) + pin_button(config.volume_down, CommandView::VolumeDown, None) + pin_button(
        config.shutdown,
        CommandView::Shutdown,
        Some(SHUTDOWN_HOLD_MS),
    )
}

fn push_button(out: &mut Vec<ButtonBinding>, pin: Option<u8>, command: Command, hold_ms: Option<u64>)
    ensures
        final(out)@.map_values(|b: ButtonBinding| binding_view(b)) == old(out)@.map_values(
            |b: ButtonBinding| binding_view(b),
        ) + pin_button(pin, command@, hold_ms),
{
    let ghost before = out@.map_values(|b: ButtonBinding| binding_view(b));
    let ghost c = command@;
    match pin {
        Some(p) => {
            out.push(ButtonBinding { pin: p, command, hold_ms });
        },
        None => {},
    }
    assert(out@.map_values(|b: ButtonBinding| binding_view(b)) =~= before + pin_button(
        pin,
        c,
        hold_ms,
    ));
}

/// Whether any button pin is configured.
pub fn pins_configured(config: &GpioConfig) -> (r: bool)
    ensures
        r == (buttons_of(*config).len() > 0),
{
    config.play.is_some() || config.next.is_some() || config.prev.is_some()
        || config.volume_up.is_some() || config.volume_down.is_some() || config.shutdown.is_some()
}

/// The buttons to set up for a configuration.
pub fn gpio_buttons(config: &GpioConfig) -> (r: Vec<ButtonBinding>)
    ensures
        r@.map_values(|b: ButtonBinding| binding_view(b)) == buttons_of(*config),
{
    let mut out: Vec<ButtonBinding> = Vec::new();
    assert(out@.map_values(|b: ButtonBinding| binding_view(b)) =~= Seq::empty());
    push_button(&mut out, config.play, Command::PlayPause { filter: None }, None);
    push_button(&mut out, config.next, Command::Next, None);
    push_button(&mut out, config.prev, Command::Prev, None);
    push_button(&mut out, config.volume_up, Command::VolumeUp, None);
    push_button(&mut out, config.volume_down, Command::VolumeDown, None);
    push_button(&mut out, config.shutdown, Command::Shutdown, Some(SHUTDOWN_HOLD_MS));
    out
}

} // verus!
