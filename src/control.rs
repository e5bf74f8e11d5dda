//! Translation of key states into a walking direction and an edge-triggered power action.
use vstd::prelude::*;

verus! {

/// The keys the game listens to.
#[derive(Clone, Copy, Debug, PartialEq, Eq, Structural)]
pub enum Key {
    W,
    A,
    S,
    D,
    Space,
    Tab,
}

/// One of the eight walking directions.
#[derive(Clone, Copy, Debug, PartialEq, Eq, Structural)]
pub enum Direction {
    Up,
    Down,
    Left,
    Right,
    UpLeft,
    UpRight,
    DownLeft,
    DownRight,
}

#[derive(Clone, Copy, Debug, PartialEq, Eq, Structural)]
pub enum Walk {
    NoInput,
    Walk(Direction),
}

#[derive(Clone, Copy, Debug, PartialEq, Eq, Structural)]
pub enum Power {
    NoInput,
    Use,
    Select,
}

/// Which of the game's keys are held.
#[derive(Clone, Copy, Debug, PartialEq, Eq, Structural)]
pub struct Keys {
    pub w: bool,
    pub a: bool,
    pub s: bool,
    pub d: bool,
    pub tab: bool,
    pub space: bool,
}

/// The walking direction the held keys ask for; two opposite keys cancel on their axis.
pub open spec fn walk_of(k: Keys) -> Walk {
    let up = k.w && !k.s;
    let down = k.s && !k.w;
    let left = k.a && !k.d;
    let right = k.d && !k.a;
    if up && left {
        Walk::Walk(Direction::UpLeft)
    } else if up && right {
        Walk::Walk(Direction::UpRight)
    } else if down && left {
        Walk::Walk(Direction::DownLeft)
    } else if down && right {
        Walk::Walk(Direction::DownRight)
    } else if up {
        Walk::Walk(Direction::Up)
    } else if down {
        Walk::Walk(Direction::Down)
    } else if left {
        Walk::Walk(Direction::Left)
    } else if right {
        Walk::Walk(Direction::Right)
    } else {
        Walk::NoInput
    }
}

/// The power action the held keys ask for; Tab wins over Space.
pub open spec fn power_of(k: Keys) -> Power {
    if k.tab {
        Power::Select
    } else if k.space {
        Power::Use
    } else {
        Power::NoInput
    }
}

impl Keys {
    pub fn new() -> (r: Keys)
        ensures
            r == (Keys { w: false, a: false, s: false, d: false, tab: false, space: false }),
    {
        Keys { w: false, a: false, s: false, d: false, tab: false, space: false }
    }

    pub open spec fn with(self, key: Key, pressed: bool) -> Keys {
        match key {
            Key::W => Keys { w: pressed, ..self },
            Key::A => Keys { a: pressed, ..self },
            Key::S => Keys { s: pressed, ..self },
            Key::D => Keys { d: pressed, ..self },
            Key::Space => Keys { space: pressed, ..self },
            Key::Tab => Keys { tab: pressed, ..self },
        }
    }

    /// Records a key going down (`pressed`) or up.
    pub fn update(&mut self, key: Key, pressed: bool)
        ensures
            *final(self) == old(self).with(key, pressed),
    {
        match key {
            Key::W => self.w = pressed,
            Key::A => self.a = pressed,
            Key::S => self.s = pressed,
            Key::D => self.d = pressed,
            Key::Space => self.space = pressed,
            Key::Tab => self.tab = pressed,
        }
    }
}

/// The mathematical state of the controls.
pub struct ControlsState {
    pub keys: Keys,
    pub walk: Walk,
    pub prev_power: Power,
    pub current_power: Power,
}

impl ControlsState {
    /// The power action reported on the next read: the current one if it
    /// differs from the one last reported, else `NoInput`.
    pub open spec fn power_edge(self) -> Power {
        if self.prev_power != self.current_power {
            self.current_power
        } else {
            Power::NoInput
        }
    }
}

/// Semantic input: the walking direction and the power action, derived from key edges.
pub struct Controls {
    keys: Keys,
    walk: Walk,
    prev_power: Power,
    current_power: Power,
}

impl View for Controls {
    type V = ControlsState;

    closed spec fn view(&self) -> ControlsState {
        ControlsState {
            keys: self.keys,
            walk: self.walk,
            prev_power: self.prev_power,
            current_power: self.current_power,
        }
    }
}

impl Controls {
    pub fn new() -> (r: Controls)
        ensures
            r@ == (ControlsState {
                keys: Keys { w: false, a: false, s: false, d: false, tab: false, space: false },
                walk: Walk::NoInput,
                prev_power: Power::NoInput,
                current_power: Power::NoInput,
            }),
    {
        Controls {
            keys: Keys::new(),
            walk: Walk::NoInput,
            prev_power: Power::NoInput,
            current_power: Power::NoInput,
        }
    }

    pub fn walk(&self) -> (r: Walk)
        ensures
            r == self@.walk,
    {
        self.walk
    }

    /// The power action, reported once per change: a new action is returned
    /// (and remembered); while it stays the same, `NoInput` is returned.
    pub fn power(&mut self) -> (r: Power)
        ensures
            r == old(self)@.power_edge(),
            final(self)@ == (ControlsState { prev_power: old(self)@.current_power, ..old(self)@ }),
    {
        if self.prev_power != self.current_power {
            self.prev_power = self.current_power;
            self.prev_power
        } else {
            Power::NoInput
        }
    }

    /// Takes one key edge and recomputes the actions from the held keys.
    pub fn update(&mut self, key: Key, pressed: bool)
        ensures
            final(self)@.keys == old(self)@.keys.with(key, pressed),
            final(self)@.walk == walk_of(final(self)@.keys),
            final(self)@.prev_power == old(self)@.current_power,
            final(self)@.current_power == power_of(final(self)@.keys),
    {
        self.keys.update(key, pressed);
        self.prev_power = self.current_power;
        let k = self.keys;
        let up = k.w && !k.s;
        let down = k.s && !k.w;
        let left = k.a && !k.d;
        let right = k.d && !k.a;
        self.walk = if up && left {
            Walk::Walk(Direction::UpLeft)
        } else if up && right {
            Walk::Walk(Direction::UpRight)
        } else if down && left {
            Walk::Walk(Direction::DownLeft)
        } else if down && right {
            Walk::Walk(Direction::DownRight)
        } else if up {
            Walk::Walk(Direction::Up)
        } else if down {
            Walk::Walk(Direction::Down)
        } else if left {
            Walk::Walk(Direction::Left)
        } else if right {
            Walk::Walk(Direction::Right)
        } else {
            Walk::NoInput
        };
        self.current_power = if k.tab {
            Power::Select
        } else if k.space {
            Power::Use
        } else {
            Power::NoInput
        };
    }
}

} // verus!
