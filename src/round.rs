use vstd::prelude::*;
use crate::arena::{clear_of, has_clear_spot, in_arena, place_clear_of, Arena};
use crate::speed::{added, room_for, Speed, THRUST_SPEED};
use crate::timer::Timer;
use crate::world::{
    boundary_pass, escaped_shots, id_not_in, ids_of, lemma_ids_without, player_pos,
    players_at_origin, Entity, EntityId, Kind, Registry,
};

verus! {

broadcast use vstd::seq_lib::group_seq_properties;

/// Reload time between two shots, in milliseconds.
pub const RELOAD_TIME: u64 = 150;

/// Time between two accepted bursts of thrust, in milliseconds.
pub const THRUST_TIME: u64 = 200;

/// Period of the displayed clock, in milliseconds.
pub const CLOCK_TIME: u64 = 1000;

/// Number of meteoroids in a spawn batch.
pub const METEOROID_COUNT: u64 = 8;

/// Whether a round is being played or has ended.
#[derive(Clone, Copy, Debug, PartialEq, Eq, Structural)]
pub enum Mode {
    Playing,
    Ended,
}

/// How a round ended.
#[derive(Clone, Copy, Debug, PartialEq, Eq, Structural)]
pub enum Outcome {
    Lost,
    Won,
}

/// The keys held during a frame.
#[derive(Clone, Copy, Debug)]
pub struct Command {
    pub fire: bool,
    pub left: bool,
    pub right: bool,
    pub thrust: bool,
    pub restart: bool,
    pub quit: bool,
}

/// What the host has to do after the input of a frame.
#[derive(Clone, Copy, Debug, PartialEq, Eq, Structural)]
pub enum Action {
    Idle,
    /// A shot was accepted; it appears in `end_frame`.
    Fire,
    RotateLeft,
    RotateRight,
    /// A burst of thrust was accepted (play its cue).
    Thrust,
    /// A new round began.
    Restart,
    /// The player asked to quit.
    Quit,
}

/// An overlap event between two entities: its start, or its end.
#[derive(Clone, Copy, Debug)]
pub struct Collision {
    pub a: EntityId,
    pub b: EntityId,
    pub started: bool,
}

/// What an overlap means.
#[derive(Clone, Copy, Debug, PartialEq, Eq, Structural)]
pub enum Contact {
    /// Nothing happens.
    Ignore,
    /// The ship met a meteoroid.
    Lethal,
    /// A shot hit the meteoroid with this number.
    Hit(u64),
}

/// The meaning of an overlap of `a` and `b`, in either order.
pub open spec fn contact(a: EntityId, b: EntityId) -> Contact {
    if a.kind == Kind::Player || b.kind == Kind::Player {
        if a.kind == Kind::Shot || b.kind == Kind::Shot {
            Contact::Ignore
        } else if a.kind == Kind::Meteoroid || b.kind == Kind::Meteoroid {
            Contact::Lethal
        } else {
            Contact::Ignore
        }
    } else if a.kind == Kind::Shot && b.kind == Kind::Meteoroid {
        Contact::Hit(b.index)
    } else if a.kind == Kind::Meteoroid && b.kind == Kind::Shot {
        Contact::Hit(a.index)
    } else {
        Contact::Ignore
    }
}

/// `x` is not `m`.
pub open spec fn other_than(m: u64) -> spec_fn(u64) -> bool {
    |x: u64| x != m
}

/// The result of the events of a frame from the `i`-th on, given the alive
/// meteoroids and the pending labels: whether the ship was hit, and the alive
/// meteoroids and pending labels after them. Ends of overlaps are skipped; a
/// lethal contact stops the processing.
pub open spec fn resolve_from(
    events: Seq<Collision>,
    i: int,
    alive: Seq<u64>,
    pending: Seq<EntityId>,
) -> (bool, Seq<u64>, Seq<EntityId>)
    decreases events.len() - i,
{
    if i < 0 || i >= events.len() {
        (false, alive, pending)
    } else if !events[i].started {
        resolve_from(events, i + 1, alive, pending)
    } else {
        match contact(events[i].a, events[i].b) {
            Contact::Lethal => (true, alive, pending),
            Contact::Hit(m) => resolve_from(
                events,
                i + 1,
                alive.filter(other_than(m)),
                pending.push(events[i].a).push(events[i].b),
            ),
            Contact::Ignore => resolve_from(events, i + 1, alive, pending),
        }
    }
}

/// The running time of a round started at `start`, at `now` (seconds).
pub open spec fn running_time(start: u64, now: u64) -> u64 {
    if now >= start {
        (now - start) as u64
    } else {
        0
    }
}

/// The best time after a win in `running` seconds; zero means none yet.
pub open spec fn best_after(best: u64, running: u64) -> u64 {
    if best == 0 || running < best {
        running
    } else {
        best
    }
}

/// The meaning of an overlap of `a` and `b`.
pub fn classify(a: EntityId, b: EntityId) -> (r: Contact)
    ensures
        r == contact(a, b),
{
    if a.kind == Kind::Player || b.kind == Kind::Player {
        if a.kind == Kind::Shot || b.kind == Kind::Shot {
            Contact::Ignore
        } else if a.kind == Kind::Meteoroid || b.kind == Kind::Meteoroid {
            Contact::Lethal
        } else {
            Contact::Ignore
        }
    } else if a.kind == Kind::Shot && b.kind == Kind::Meteoroid {
        Contact::Hit(b.index)
    } else if a.kind == Kind::Meteoroid && b.kind == Kind::Shot {
        Contact::Hit(a.index)
    } else {
        Contact::Ignore
    }
}

/// `alive` without the number `m`.
pub fn without_number(alive: &Vec<u64>, m: u64) -> (r: Vec<u64>)
    ensures
        r@ == alive@.filter(other_than(m)),
{
    let ghost p = other_than(m);
    let mut kept: Vec<u64> = Vec::new();
    let mut i: usize = 0;
    while i < alive.len()
        invariant
            0 <= i <= alive.len(),
            p == other_than(m),
            kept@ == alive@.take(i as int).filter(p),
        decreases alive.len() - i,
    {
        let x = alive[i];
        assert(alive@.take(i + 1) =~= alive@.take(i as int).push(x));
        proof {
            alive@.take(i as int).lemma_filter_push(x, p);
        }
        if x != m {
            kept.push(x);
        }
        i += 1;
    }
    assert(alive@.take(alive@.len() as int) =~= alive@);
    kept
}

/// Everything the game keeps between frames.
pub struct GameState {
    pub mode: Mode,
    /// How the last round ended, while it is over.
    pub outcome: Option<Outcome>,
    /// Best winning time in seconds; zero while there is none.
    pub high_score: u64,
    /// Start of the current round, in seconds since the host started.
    pub start_time: u64,
    /// Numbers of the meteoroids still alive.
    pub meteoroids: Vec<u64>,
    /// Number of shots fired in this round; the last shot is labelled by it.
    pub shot_counter: u64,
    pub shot_timer: Timer,
    pub thrust_timer: Timer,
    pub stop_timer: Timer,
    pub speed: Speed,
    /// Labels to remove at the end of the frame.
    pub sprites_to_delete: Vec<EntityId>,
    /// A shot was accepted this frame and is still to appear.
    pub shoot: bool,
    pub arena: Arena,
}

/// A meteoroid batch appended to a registry: `batch` has `METEOROID_COUNT`
/// entities numbered from zero, each in the arena and clear of the origin when
/// the arena has room for that.
pub open spec fn fresh_batch(a: Arena, batch: Seq<Entity>) -> bool {
    &&& batch.len() == METEOROID_COUNT
    &&& forall|i: int|
        0 <= i < batch.len() ==> {
            let e = #[trigger] batch[i];
            &&& e.id == EntityId { kind: Kind::Meteoroid, index: i as u64 }
            &&& in_arena(a, e.x as int, e.y as int)
            &&& has_clear_spot(a, 0, 0) ==> clear_of(0, 0, e.x as int, e.y as int)
        }
}

/// The numbers `0 .. n`.
pub open spec fn numbers_below(n: nat) -> Seq<u64> {
    Seq::new(n, |i: int| i as u64)
}

/// A timer of `duration` that has just been reset.
pub open spec fn fresh_timer(duration: u64) -> Timer {
    Timer { duration, elapsed: 0, finished: false }
}

/// `s1` and `r1` are the state and registry of a round that began at `now`
/// after `s0` and `r0`: shots and meteoroids gone, the player at the origin, a
/// fresh meteoroid batch, counters, timers and speed back to zero; the best
/// time and the arena are kept.
pub open spec fn restarted(
    s0: &GameState,
    r0: Seq<Entity>,
    s1: &GameState,
    r1: Seq<Entity>,
    now: u64,
) -> bool {
    let kept = players_at_origin(r0);
    &&& s1.wf()
    &&& s1.mode == Mode::Playing
    &&& s1.outcome.is_none()
    &&& s1.high_score == s0.high_score
    &&& s1.start_time == now
    &&& s1.meteoroids@ == numbers_below(METEOROID_COUNT as nat)
    &&& s1.shot_counter == 0
    &&& s1.timers_fresh()
    &&& s1.speed@.len() == 0
    &&& s1.sprites_to_delete@.len() == 0
    &&& !s1.shoot
    &&& s1.arena == s0.arena
    &&& r1.len() == kept.len() + METEOROID_COUNT
    &&& r1.take(kept.len() as int) == kept
    &&& fresh_batch(s0.arena, r1.skip(kept.len() as int))
}

impl GameState {
    /// The timers keep their durations and the parts are well formed.
    pub open spec fn wf(&self) -> bool {
        &&& self.arena.wf()
        &&& self.speed.wf()
        &&& self.shot_timer.wf()
        &&& self.thrust_timer.wf()
        &&& self.stop_timer.wf()
        &&& self.shot_timer.duration == RELOAD_TIME
        &&& self.thrust_timer.duration == THRUST_TIME
        &&& self.stop_timer.duration == CLOCK_TIME
    }

    /// All three timers are fresh.
    pub open spec fn timers_fresh(&self) -> bool {
        self.shot_timer.is_fresh() && self.thrust_timer.is_fresh() && self.stop_timer.is_fresh()
    }

    /// A game on `arena` whose first round starts at `now`, with no meteoroid
    /// spawned yet.
    pub fn new(arena: Arena, now: u64) -> (r: GameState)
        requires
            arena.wf(),
        ensures
            r.wf(),
            r.mode == Mode::Playing,
            r.outcome.is_none(),
            r.high_score == 0,
            r.start_time == now,
            r.meteoroids@.len() == 0,
            r.shot_counter == 0,
            r.timers_fresh(),
            r.speed@.len() == 0,
            r.sprites_to_delete@.len() == 0,
            !r.shoot,
            r.arena == arena,
    {
        GameState {
            mode: Mode::Playing,
            outcome: None,
            high_score: 0,
            start_time: now,
            meteoroids: Vec::new(),
            shot_counter: 0,
            shot_timer: Timer::new(RELOAD_TIME),
            thrust_timer: Timer::new(THRUST_TIME),
            stop_timer: Timer::new(CLOCK_TIME),
            speed: Speed::new(),
            sprites_to_delete: Vec::new(),
            shoot: false,
            arena,
        }
    }

    /// Spawns a batch of meteoroids placed clear of the ship at the origin,
    /// and makes them the alive ones.
    pub fn spawn_meteoroids(&mut self, reg: &mut Registry)
        requires
            old(self).wf(),
        ensures
            final(reg).entities@.len() == old(reg).entities@.len() + METEOROID_COUNT,
            final(reg).entities@.take(old(reg).entities@.len() as int) == old(reg).entities@,
            fresh_batch(
                old(self).arena,
                final(reg).entities@.skip(old(reg).entities@.len() as int),
            ),
            final(self).meteoroids@ == numbers_below(METEOROID_COUNT as nat),
            *final(self) == (GameState { meteoroids: final(self).meteoroids, ..*old(self) }),
    {
        let ghost r0 = reg.entities@;
        let mut alive: Vec<u64> = Vec::new();
        let mut i: u64 = 0;
        while i < METEOROID_COUNT
            invariant
                self.arena.wf(),
                0 <= i <= METEOROID_COUNT,
                alive@ == numbers_below(i as nat),
                reg.entities@.len() == r0.len() + i,
                reg.entities@.take(r0.len() as int) == r0,
                forall|k: int|
                    0 <= k < i ==> {
                        let e = #[trigger] reg.entities@[r0.len() + k];
                        &&& e.id == EntityId { kind: Kind::Meteoroid, index: k as u64 }
                        &&& in_arena(self.arena, e.x as int, e.y as int)
                        &&& has_clear_spot(self.arena, 0, 0) ==> clear_of(
                            0,
                            0,
                            e.x as int,
                            e.y as int,
                        )
                    },
            decreases METEOROID_COUNT - i,
        {
            let (x, y) = place_clear_of(self.arena, 0, 0);
            let ghost before = reg.entities@;
            reg.add(Entity { id: EntityId { kind: Kind::Meteoroid, index: i }, x, y });
            assert(reg.entities@.take(r0.len() as int) =~= before.take(r0.len() as int));
            alive.push(i);
            assert(alive@ =~= numbers_below((i + 1) as nat));
            i += 1;
        }
        let ghost batch = reg.entities@.skip(r0.len() as int);
        assert forall|k: int| 0 <= k < batch.len() implies #[trigger] batch[k] == reg.entities@[r0.len() + k] by {}
        self.meteoroids = alive;
    }

    /// Begins a new round at `now`.
    pub fn restart(&mut self, reg: &mut Registry, now: u64)
        requires
            old(self).wf(),
        ensures
            restarted(old(self), old(reg).entities@, final(self), final(reg).entities@, now),
    {
        reg.keep_players_at_origin();
        self.speed = Speed::new();
        self.sprites_to_delete = Vec::new();
        self.spawn_meteoroids(reg);
        self.shot_counter = 0;
        self.shot_timer.reset();
        self.thrust_timer.reset();
        self.stop_timer.reset();
        self.start_time = now;
        self.shoot = false;
        self.outcome = None;
        self.mode = Mode::Playing;
    }

    /// Reads the keys of a frame of `delta` milliseconds; `rotation` is the
    /// ship's heading.
    ///
    /// After the round has ended only restart and quit are read, and nothing
    /// else changes. While playing, the timers tick first; then a shot is
    /// accepted when the reload timer has finished, else a turn, else a burst
    /// of thrust when the thrust timer has finished (the burst is added to
    /// the speed when it fits).
    pub fn handle_input(
        &mut self,
        reg: &mut Registry,
        cmd: Command,
        delta: u64,
        rotation: u32,
        now: u64,
    ) -> (r: Action)
        requires
            old(self).wf(),
        ensures
            final(self).wf(),
            old(self).mode == Mode::Playing && !old(self).shot_timer.ticked(delta).finished ==> {
                &&& r != Action::Fire
                &&& final(self).shoot == old(self).shoot
                &&& final(self).shot_counter == old(self).shot_counter
            },
            old(self).mode == Mode::Ended && cmd.restart ==> r == Action::Restart && restarted(
                old(self),
                old(reg).entities@,
                final(self),
                final(reg).entities@,
                now,
            ),
            old(self).mode == Mode::Ended && !cmd.restart ==> {
                &&& r == if cmd.quit {
                    Action::Quit
                } else {
                    Action::Idle
                }
                &&& *final(self) == *old(self)
                &&& final(reg).entities@ == old(reg).entities@
            },
            old(self).mode == Mode::Playing ==> {
                let st = old(self).shot_timer.ticked(delta);
                let tt = old(self).thrust_timer.ticked(delta);
                &&& r == if cmd.fire && st.finished {
                    Action::Fire
                } else if cmd.left {
                    Action::RotateLeft
                } else if cmd.right {
                    Action::RotateRight
                } else if cmd.thrust && tt.finished {
                    Action::Thrust
                } else {
                    Action::Idle
                }
                &&& final(self).shot_timer == if r == Action::Fire {
                    fresh_timer(RELOAD_TIME)
                } else {
                    st
                }
                &&& final(self).thrust_timer == if r == Action::Thrust {
                    fresh_timer(THRUST_TIME)
                } else {
                    tt
                }
                &&& final(self).stop_timer == old(self).stop_timer.ticked(delta)
                &&& final(self).shoot == (old(self).shoot || r == Action::Fire)
                &&& final(self).speed@ == if r == Action::Thrust && room_for(
                    old(self).speed@,
                    THRUST_SPEED as nat,
                    rotation,
                ) {
                    added(old(self).speed@, THRUST_SPEED as nat, rotation)
                } else {
                    old(self).speed@
                }
                &&& *final(self) == (GameState {
                    shot_timer: final(self).shot_timer,
                    thrust_timer: final(self).thrust_timer,
                    stop_timer: final(self).stop_timer,
                    shoot: final(self).shoot,
                    speed: final(self).speed,
                    ..*old(self)
                })
                &&& final(reg).entities@ == old(reg).entities@
            },
    {
        if self.mode == Mode::Ended {
            if cmd.restart {
                self.restart(reg, now);
                return Action::Restart;
            } else if cmd.quit {
                return Action::Quit;
            }
            return Action::Idle;
        }
        self.shot_timer.tick(delta);
        self.thrust_timer.tick(delta);
        self.stop_timer.tick(delta);
        if cmd.fire && self.shot_timer.finished() {
            self.shoot = true;
            self.shot_timer.reset();
            Action::Fire
        } else if cmd.left {
            Action::RotateLeft
        } else if cmd.right {
            Action::RotateRight
        } else if cmd.thrust && self.thrust_timer.finished() {
            self.thrust_timer.reset();
            if self.speed.room_for_thrust(rotation) {
                self.speed.give_thrust(rotation);
            }
            Action::Thrust
        } else {
            Action::Idle
        }
    }

    /// Adds the shot accepted this frame, labelled with the next count, at the
    /// ship's position `(px, py)`. Once the counter is at its largest no shot
    /// is added.
    pub fn spawn_shot(&mut self, reg: &mut Registry, px: i64, py: i64)
        ensures
            old(self).shoot && old(self).shot_counter < u64::MAX ==> {
                &&& final(self).shot_counter == old(self).shot_counter + 1
                &&& final(reg).entities@ == old(reg).entities@.push(
                    Entity {
                        id: EntityId { kind: Kind::Shot, index: final(self).shot_counter },
                        x: px,
                        y: py,
                    },
                )
            },
            !(old(self).shoot && old(self).shot_counter < u64::MAX) ==> {
                &&& final(self).shot_counter == old(self).shot_counter
                &&& final(reg).entities@ == old(reg).entities@
            },
            *final(self) == (GameState {
                shoot: false,
                shot_counter: final(self).shot_counter,
                ..*old(self)
            }),
    {
        if self.shoot && self.shot_counter < u64::MAX {
            self.shot_counter = self.shot_counter + 1;
            reg.add(
                Entity { id: EntityId { kind: Kind::Shot, index: self.shot_counter }, x: px, y: py },
            );
        }
        self.shoot = false;
    }

    /// Applies the overlap events of a frame (see `resolve_from`) to the alive
    /// meteoroids and the pending labels; returns whether the ship was hit.
    pub fn resolve_collisions(&mut self, events: &Vec<Collision>) -> (lost: bool)
        ensures
            ({
                let res = resolve_from(
                    events@,
                    0,
                    old(self).meteoroids@,
                    old(self).sprites_to_delete@,
                );
                &&& lost == res.0
                &&& final(self).meteoroids@ == res.1
                &&& final(self).sprites_to_delete@ == res.2
            }),
            *final(self) == (GameState {
                meteoroids: final(self).meteoroids,
                sprites_to_delete: final(self).sprites_to_delete,
                ..*old(self)
            }),
    {
        let ghost goal = resolve_from(
            events@,
            0,
            self.meteoroids@,
            self.sprites_to_delete@,
        );
        let mut lost = false;
        let mut i: usize = 0;
        while i < events.len()
            invariant_except_break
                !lost,
                resolve_from(events@, i as int, self.meteoroids@, self.sprites_to_delete@)
                    == goal,
            invariant
                0 <= i <= events.len(),
                *self == (GameState {
                    meteoroids: self.meteoroids,
                    sprites_to_delete: self.sprites_to_delete,
                    ..*old(self)
                }),
            ensures
                lost ==> goal == (true, self.meteoroids@, self.sprites_to_delete@),
                !lost ==> goal == (false, self.meteoroids@, self.sprites_to_delete@),
            decreases events.len() - i,
        {
            let ev = events[i];
            if ev.started {
                match classify(ev.a, ev.b) {
                    Contact::Lethal => {
                        lost = true;
                        break;
                    },
                    Contact::Hit(m) => {
                        self.meteoroids = without_number(&self.meteoroids, m);
                        self.sprites_to_delete.push(ev.a);
                        self.sprites_to_delete.push(ev.b);
                    },
                    Contact::Ignore => {},
                }
            }
            i += 1;
        }
        lost
    }

    /// Ends the round when the ship was hit (`lost`) or no meteoroid is
    /// alive; a win in a new best time becomes the best time.
    pub fn conclude(&mut self, lost: bool, now: u64) -> (r: Option<Outcome>)
        ensures
            old(self).mode == Mode::Playing && (lost || old(self).meteoroids@.len() == 0) ==> {
                let o = if lost {
                    Outcome::Lost
                } else {
                    Outcome::Won
                };
                &&& r == Some(o)
                &&& *final(self) == (GameState {
                    mode: Mode::Ended,
                    outcome: Some(o),
                    high_score: if lost {
                        old(self).high_score
                    } else {
                        best_after(
                            old(self).high_score,
                            running_time(old(self).start_time, now),
                        )
                    },
                    ..*old(self)
                })
            },
            !(old(self).mode == Mode::Playing && (lost || old(self).meteoroids@.len() == 0)) ==> {
                &&& r.is_none()
                &&& *final(self) == *old(self)
            },
    {
        if self.mode == Mode::Playing && (lost || self.meteoroids.len() == 0) {
            self.mode = Mode::Ended;
            if lost {
                self.outcome = Some(Outcome::Lost);
            } else {
                self.outcome = Some(Outcome::Won);
                let running = if now >= self.start_time {
                    now - self.start_time
                } else {
                    0
                };
                if self.high_score == 0 || running < self.high_score {
                    self.high_score = running;
                }
            }
            self.outcome
        } else {
            None
        }
    }

    /// The rest of a frame, after the host has moved the entities: the
    /// boundary rule (`boundary_pass`) with the ship where the registry has
    /// it, the accepted shot, the overlap events, the removal of every pending
    /// label, and the end of the round. Nothing happens once the round has
    /// ended.
    pub fn end_frame(&mut self, reg: &mut Registry, events: &Vec<Collision>, now: u64) -> (r:
        Option<Outcome>)
        requires
            old(self).wf(),
            player_pos(old(reg).entities@).is_some(),
        ensures
            final(self).wf(),
            old(self).mode == Mode::Ended ==> {
                &&& r.is_none()
                &&& *final(self) == *old(self)
                &&& final(reg).entities@ == old(reg).entities@
            },
            old(self).mode == Mode::Playing ==> {
                let fire = old(self).shoot && old(self).shot_counter < u64::MAX;
                let counter = if fire {
                    (old(self).shot_counter + 1) as u64
                } else {
                    old(self).shot_counter
                };
                let shot = if fire {
                    seq![EntityId { kind: Kind::Shot, index: counter }]
                } else {
                    Seq::<EntityId>::empty()
                };
                let res = resolve_from(
                    events@,
                    0,
                    old(self).meteoroids@,
                    old(self).sprites_to_delete@ + escaped_shots(
                        old(reg).entities@,
                        old(self).arena,
                    ),
                );
                let ended = res.0 || res.1.len() == 0;
                &&& ids_of(final(reg).entities@) == (ids_of(old(reg).entities@) + shot).filter(
                    id_not_in(res.2),
                )
                &&& final(self).meteoroids@ == res.1
                &&& final(self).sprites_to_delete@.len() == 0
                &&& final(self).shot_counter == counter
                &&& !final(self).shoot
                &&& final(self).mode == if ended {
                    Mode::Ended
                } else {
                    Mode::Playing
                }
                &&& r == if ended {
                    Some(
                        if res.0 {
                            Outcome::Lost
                        } else {
                            Outcome::Won
                        },
                    )
                } else {
                    None
                }
                &&& final(self).outcome == if ended {
                    r
                } else {
                    old(self).outcome
                }
                &&& final(self).high_score == if ended && !res.0 {
                    best_after(old(self).high_score, running_time(old(self).start_time, now))
                } else {
                    old(self).high_score
                }
                &&& final(self).start_time == old(self).start_time
                &&& final(self).shot_timer == old(self).shot_timer
                &&& final(self).thrust_timer == old(self).thrust_timer
                &&& final(self).stop_timer == old(self).stop_timer
                &&& final(self).speed == old(self).speed
                &&& final(self).arena == old(self).arena
            },
    {
        if self.mode == Mode::Ended {
            return None;
        }
        let (px, py) = match reg.player_position() {
            Some(p) => p,
            None => (0, 0),
        };
        let ghost r0 = reg.entities@;
        boundary_pass(reg, self.arena, px, py, &mut self.sprites_to_delete);
        let ghost r1 = reg.entities@;
        assert(ids_of(r1) =~= ids_of(r0));
        self.spawn_shot(reg, px, py);
        let ghost r2 = reg.entities@;
        assert(ids_of(r2) =~= ids_of(r0) + (if r2.len() > r1.len() {
            seq![EntityId { kind: Kind::Shot, index: self.shot_counter }]
        } else {
            Seq::<EntityId>::empty()
        }));
        let lost = self.resolve_collisions(events);
        reg.remove_labels(&self.sprites_to_delete);
        proof {
            lemma_ids_without(r2, self.sprites_to_delete@);
        }
        self.sprites_to_delete = Vec::new();
        self.conclude(lost, now)
    }

    /// The running time to display, once a clock period has passed while
    /// playing; the clock timer then starts over.
    pub fn refresh_clock(&mut self, now: u64) -> (r: Option<u64>)
        requires
            old(self).wf(),
        ensures
            final(self).wf(),
            old(self).mode == Mode::Playing && old(self).stop_timer.finished ==> {
                &&& r == Some(running_time(old(self).start_time, now))
                &&& *final(self) == (GameState {
                    stop_timer: fresh_timer(CLOCK_TIME),
                    ..*old(self)
                })
            },
            !(old(self).mode == Mode::Playing && old(self).stop_timer.finished) ==> {
                &&& r.is_none()
                &&& *final(self) == *old(self)
            },
    {
        if self.mode == Mode::Playing && self.stop_timer.finished() {
            self.stop_timer.reset();
            let running = if now >= self.start_time {
                now - self.start_time
            } else {
                0
            };
            Some(running)
        } else {
            None
        }
    }
}

} // verus!
