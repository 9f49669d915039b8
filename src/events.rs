use vstd::prelude::*;

verus! {

/// A key press, as far as the monitor tells keys apart.
#[derive(Clone, Copy, Debug, PartialEq, Eq, Structural)]
pub enum Key {
    Char(char),
    Ctrl(char),
    Alt(char),
    Esc,
    Other,
}

/// What the display loop is woken by: a key press or the timer.
#[derive(Clone, Copy, Debug)]
pub enum Event<I> {
    Input(I),
    Tick,
}

/// How the event sources are set up.
#[derive(Clone, Copy, Debug)]
pub struct Config {
    /// The key that ends the program.
    pub exit_key: Key,
    /// Milliseconds between two timer events.
    pub tick_rate_ms: u64,
}

impl Default for Config {
    fn default() -> (r: Config)
        ensures
            r.exit_key == Key::Char('q'),
            r.tick_rate_ms == 50,
    {
        Config { exit_key: Key::Char('q'), tick_rate_ms: 50 }
    }
}

/// Whether the keyboard listener goes on reading after forwarding `key`:
/// it stops after the exit key, unless the exit key is switched off.
pub fn input_continues(config: &Config, ignore_exit_key: bool, key: Key) -> (r: bool)
    ensures
        r <==> (ignore_exit_key || key != config.exit_key),
{
    ignore_exit_key || key != config.exit_key
}

/// Whether an event is the press of the given exit key.
pub open spec fn is_exit(event: Event<Key>, exit_key: Key) -> bool {
    event == Event::Input(exit_key)
}

/// What the display loop does after an event.
#[derive(Clone, Copy, Debug, PartialEq, Eq, Structural)]
pub enum Action {
    Redraw,
    Exit,
}

/// The display loop's state: running until the exit key is seen.
pub struct RenderLoop {
    exit_key: Key,
    running: bool,
}

impl RenderLoop {
    pub closed spec fn exit_key_spec(&self) -> Key {
        self.exit_key
    }

    pub closed spec fn is_running(&self) -> bool {
        self.running
    }

    /// A running loop that ends on the configured exit key.
    pub fn new(config: &Config) -> (r: RenderLoop)
        ensures
            r.is_running(),
            r.exit_key_spec() == config.exit_key,
    {
        RenderLoop { exit_key: config.exit_key, running: true }
    }

    pub fn running(&self) -> (r: bool)
        ensures
            r == self.is_running(),
    {
        self.running
    }

    /// Takes one event: the exit key ends the loop at once, whatever else is
    /// pending; any other event, a tick or another key, asks for a redraw.
    pub fn step(&mut self, event: Event<Key>) -> (a: Action)
        requires
            old(self).is_running(),
        ensures
            final(self).exit_key_spec() == old(self).exit_key_spec(),
            is_exit(event, old(self).exit_key_spec()) ==> a == Action::Exit && !final(self).is_running(),
            !is_exit(event, old(self).exit_key_spec()) ==> a == Action::Redraw && final(self).is_running(),
    {
        let exit = match event {
            Event::Input(k) => k == self.exit_key,
            Event::Tick => false,
        };
        if exit {
            self.running = false;
            Action::Exit
        } else {
            Action::Redraw
        }
    }
}

} // verus!
