//! The course of a game: playing, and the pause after a win or a loss.
//!
//! A change of state is asked for first and takes effect when the machine
//! settles, which the world does at the end of each step. While a change is
//! waiting, further requests are ignored.

use vstd::prelude::*;

verus! {

/// The state of the game. A game starts out `Playing`.
#[derive(Clone, Copy, Debug, PartialEq, Eq, Structural)]
pub enum GameState {
    Playing,
    Win,
    Lose,
}

/// How long a win or a loss is shown before play resumes: four seconds, in
/// microseconds.
pub const TERMINAL_MICROS: u32 = 4000000;

/// A countdown, in microseconds.
#[derive(Clone, Copy, Debug, PartialEq, Eq, Structural)]
pub struct GameTimer {
    pub remaining: u32,
}

impl GameTimer {
    /// The timer after `micros` microseconds: it stops at zero.
    pub open spec fn ticked(self, micros: u32) -> GameTimer {
        GameTimer {
            remaining: if micros >= self.remaining {
                0u32
            } else {
                (self.remaining - micros) as u32
            },
        }
    }

    /// A timer has run out when nothing remains on it.
    pub open spec fn expired(self) -> bool {
        self.remaining == 0
    }

    /// A timer with `micros` microseconds to go.
    pub fn new(micros: u32) -> (timer: GameTimer)
        ensures
            timer.remaining == micros,
    {
        GameTimer { remaining: micros }
    }

    /// Counts `micros` microseconds down.
    pub fn tick(&mut self, micros: u32)
        ensures
            *final(self) == old(self).ticked(micros),
    {
        if micros >= self.remaining {
            self.remaining = 0;
        } else {
            self.remaining = self.remaining - micros;
        }
    }

    /// Tells whether the timer has run out.
    pub fn is_expired(&self) -> (b: bool)
        ensures
            b == self.expired(),
    {
        self.remaining == 0
    }
}

/// The changes of state that exist: from play to a win or a loss, and from
/// either back to play.
pub open spec fn permits(from: GameState, to: GameState) -> bool {
    (from == GameState::Playing) != (to == GameState::Playing)
}

/// What the population asks for while the game is played: a win as soon as
/// no enemy is left, else a loss once the player is gone. The win is looked
/// for first, so it prevails where both have happened.
pub open spec fn verdict(enemies: nat, player_alive: bool) -> Option<GameState> {
    if enemies == 0 {
        Some(GameState::Win)
    } else if !player_alive {
        Some(GameState::Lose)
    } else {
        None
    }
}

/// Decides what the population asks for while the game is played.
pub fn judge(enemies: usize, player_alive: bool) -> (asked: Option<GameState>)
    ensures
        asked == verdict(enemies as nat, player_alive),
{
    if enemies == 0 {
        Some(GameState::Win)
    } else if !player_alive {
        Some(GameState::Lose)
    } else {
        None
    }
}

/// The state machine of the game.
#[derive(Clone, Copy, Debug, PartialEq, Eq, Structural)]
pub struct Machine {
    /// The state that is in effect.
    pub state: GameState,
    /// The state that was asked for and takes effect when the machine settles.
    pub pending: Option<GameState>,
    /// The countdown of a win or a loss; none during play.
    pub timer: Option<GameTimer>,
}

impl Machine {
    /// What holds of every machine: a timer runs exactly while a win or a
    /// loss is shown, and only a change that exists can be waiting.
    pub open spec fn wf(self) -> bool {
        &&& self.timer is Some <==> self.state != GameState::Playing
        &&& self.pending matches Some(target) ==> permits(self.state, target)
    }

    /// The machine at the start of a game.
    pub open spec fn initial() -> Machine {
        Machine { state: GameState::Playing, pending: None, timer: None }
    }

    /// Whether a request for `target` is taken up: the change must exist,
    /// and no other may be waiting.
    pub open spec fn accepts(self, target: GameState) -> bool {
        self.pending is None && permits(self.state, target)
    }

    /// The machine after a request for `target`; unchanged where the request
    /// is not taken up.
    pub open spec fn requested(self, target: GameState) -> Machine {
        if self.accepts(target) {
            Machine { pending: Some(target), ..self }
        } else {
            self
        }
    }

    /// The machine after the population was looked at: during play the
    /// verdict is asked for, otherwise nothing happens.
    pub open spec fn judged(self, enemies: nat, player_alive: bool) -> Machine {
        match verdict(enemies, player_alive) {
            Some(target) => if self.state == GameState::Playing {
                self.requested(target)
            } else {
                self
            },
            None => self,
        }
    }

    /// The machine after `micros` microseconds: a running timer counts down
    /// and, once it has run out, asks for play to resume.
    pub open spec fn ticked(self, micros: u32) -> Machine {
        match self.timer {
            Some(timer) => {
                let counted = Machine { timer: Some(timer.ticked(micros)), ..self };
                if timer.ticked(micros).expired() {
                    counted.requested(GameState::Playing)
                } else {
                    counted
                }
            },
            None => self,
        }
    }

    /// The timer that runs in `state`: a full one for a win or a loss, none
    /// during play.
    pub open spec fn timer_for(state: GameState) -> Option<GameTimer> {
        if state == GameState::Playing {
            None
        } else {
            Some(GameTimer { remaining: TERMINAL_MICROS })
        }
    }

    /// The machine after the waiting change, if any, has taken effect: the
    /// timer of the state that is left is gone, and the state that is
    /// entered has its own.
    pub open spec fn settled(self) -> Machine {
        match self.pending {
            Some(target) => Machine { state: target, pending: None, timer: Self::timer_for(target) },
            None => self,
        }
    }

    /// A machine at the start of a game.
    pub fn new() -> (machine: Machine)
        ensures
            machine == Machine::initial(),
            machine.wf(),
    {
        Machine { state: GameState::Playing, pending: None, timer: None }
    }

    /// Asks for a change to `target` and tells whether the request was
    /// taken up. A request for the state in effect, for a change that does
    /// not exist, or made while another is waiting, changes nothing.
    pub fn request(&mut self, target: GameState) -> (accepted: bool)
        ensures
            *final(self) == old(self).requested(target),
            accepted == old(self).accepts(target),
            old(self).wf() ==> final(self).wf(),
    {
        let exists = match (self.state, target) {
            (GameState::Playing, GameState::Playing) => false,
            (GameState::Playing, _) => true,
            (_, GameState::Playing) => true,
            _ => false,
        };
        if exists && self.pending.is_none() {
            self.pending = Some(target);
            true
        } else {
            false
        }
    }

    /// Looks at the population: during play, asks for a win when no enemy
    /// is left, else for a loss when the player is gone.
    pub fn observe(&mut self, enemies: usize, player_alive: bool)
        ensures
            *final(self) == old(self).judged(enemies as nat, player_alive),
            old(self).wf() ==> final(self).wf(),
    {
        if let GameState::Playing = self.state {
            if let Some(target) = judge(enemies, player_alive) {
                self.request(target);
            }
        }
    }

    /// Lets `micros` microseconds pass: a running timer counts down and,
    /// once it has run out, asks for play to resume.
    pub fn tick(&mut self, micros: u32)
        ensures
            *final(self) == old(self).ticked(micros),
            old(self).wf() ==> final(self).wf(),
    {
        if let Some(timer) = self.timer {
            let mut counted = timer;
            counted.tick(micros);
            self.timer = Some(counted);
            if counted.is_expired() {
                self.request(GameState::Playing);
            }
        }
    }

    /// Lets the waiting change, if any, take effect, and returns the state
    /// that was left.
    pub fn settle(&mut self) -> (left: Option<GameState>)
        ensures
            *final(self) == old(self).settled(),
            left == if old(self).pending is Some {
                Some(old(self).state)
            } else {
                None
            },
            old(self).wf() ==> final(self).wf(),
    {
        match self.pending {
            Some(target) => {
                let left = self.state;
                self.state = target;
                self.pending = None;
                self.timer = match target {
                    GameState::Playing => None,
                    _ => Some(GameTimer { remaining: TERMINAL_MICROS }),
                };
                Some(left)
            },
            None => None,
        }
    }
}

/// A request made twice is made once: the second changes nothing, and the
/// machine settles in the same state with the same single timer.
pub proof fn lemma_request_idempotent(machine: Machine, target: GameState)
    ensures
        machine.requested(target).requested(target) == machine.requested(target),
        machine.requested(target).requested(target).settled() == machine.requested(target).settled(),
{
}

/// While a change is waiting, any further request changes nothing.
pub proof fn lemma_first_request_stands(machine: Machine, first: GameState, second: GameState)
    requires
        machine.accepts(first),
    ensures
        machine.requested(first).requested(second) == machine.requested(first),
        machine.requested(first).requested(second).settled().state == first,
{
}

/// A request for the state in effect changes nothing.
pub proof fn lemma_request_for_current_state(machine: Machine)
    ensures
        machine.requested(machine.state) == machine,
{
}

/// With no enemy left the verdict is a win, whether the player lives or not.
pub proof fn lemma_win_prevails(player_alive: bool)
    ensures
        verdict(0, player_alive) == Some(GameState::Win),
        Machine::initial().judged(0, player_alive).settled().state == GameState::Win,
{
}

/// A machine that settles into a win or a loss starts a full timer, and one
/// that settles into play has none.
pub proof fn lemma_settling_sets_timer(machine: Machine)
    requires
        machine.pending is Some,
    ensures
        machine.settled().state == machine.pending.unwrap(),
        machine.settled().state != GameState::Playing ==> machine.settled().timer == Some(
            GameTimer { remaining: TERMINAL_MICROS },
        ),
        machine.settled().state == GameState::Playing ==> machine.settled().timer is None,
        machine.settled().wf(),
{
}

} // verus!
