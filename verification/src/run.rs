use vstd::prelude::*;

use crate::flick::{next_commanded_yaw, yaw_choices};
use crate::ids::{format_target_id, padded};
use crate::rng::{index_from_state, lcg_next};
use crate::flick::{FLICK_DEMAND_TASK_VERSION, FLICK_DEMAND_TRIAL_TYPE};
use crate::gridshot::{GRIDSHOT_TASK_VERSION, GRIDSHOT_TRIAL_TYPE};
use crate::replay::TargetEventKind;
use crate::task_config::{
    flick_demand_task_config_json, flick_demand_task_config_text, gridshot_task_config_json,
    gridshot_task_config_text, one_wall_six_task_config_json, one_wall_six_task_config_text,
    static_click_task_config_json, static_click_task_config_text, tracking_task_config_json,
    tracking_task_config_text, AIM_TRIAL_TYPE, ONE_WALL_SIX_TASK_VERSION, ONE_WALL_SIX_TRIAL_TYPE,
    STATIC_CLICK_TASK_VERSION, TRACKING_TASK_VERSION, TRACKING_TRIAL_TYPE,
};
use crate::tracking::{
    emit_rapid_fire, end_tracking_pause, fire_next, fire_times, on_target_dt_ns, shifted, tick_dt,
    tracking_tick_dt_ns, TrackingState,
};
use crate::trial::{
    active_elapsed, active_elapsed_ns, begin_aim_pause, end_aim_pause, paused_clock, resumed_clock,
    sat_sub, tracking_should_end, AimClock, AimPhase, AimTaskKind,
    AIM_HITS_TO_FINISH, FLICK_DEMAND_DURATION_NS, GRIDSHOT_DURATION_NS, ONE_WALL_SIX_DURATION_NS,
    TRACKING_DURATION_NS,
};

verus! {

pub const AIM_APP_VERSION: &'static str = "0.1.0";
pub const AIM_EXPERIMENT_ID: &'static str = "aim_lab";
pub const AIM_EXPERIMENT_VERSION: &'static str = "0.9.0";

/// One shot of a run, reduced to what the run's bookkeeping decides.
#[derive(Debug, Clone, PartialEq)]
pub struct ShotEntry {
    pub shot_index: u32,
    pub timestamp_ns: u64,
    pub hit: bool,
    pub target_id: String,
}

pub struct ShotView {
    pub shot_index: u32,
    pub timestamp_ns: u64,
    pub hit: bool,
    pub target_id: Seq<char>,
}

impl View for ShotEntry {
    type V = ShotView;

    open spec fn view(&self) -> ShotView {
        ShotView {
            shot_index: self.shot_index,
            timestamp_ns: self.timestamp_ns,
            hit: self.hit,
            target_id: self.target_id@,
        }
    }
}

/// One target lifecycle event of a run. FLICK_DEMAND spawns carry the
/// commanded yaw offset.
#[derive(Debug, Clone, PartialEq)]
pub struct EventEntry {
    pub target_id: String,
    pub event_index: u32,
    pub timestamp_ns: u64,
    pub kind: TargetEventKind,
    pub commanded_yaw_deg: Option<i32>,
}

pub struct EventView {
    pub target_id: Seq<char>,
    pub event_index: u32,
    pub timestamp_ns: u64,
    pub kind: TargetEventKind,
    pub commanded_yaw_deg: Option<i32>,
}

impl View for EventEntry {
    type V = EventView;

    open spec fn view(&self) -> EventView {
        EventView {
            target_id: self.target_id@,
            event_index: self.event_index,
            timestamp_ns: self.timestamp_ns,
            kind: self.kind,
            commanded_yaw_deg: self.commanded_yaw_deg,
        }
    }
}

pub open spec fn shot_views(s: Seq<ShotEntry>) -> Seq<ShotView> {
    s.map_values(|e: ShotEntry| e@)
}

pub open spec fn event_views(s: Seq<EventEntry>) -> Seq<EventView> {
    s.map_values(|e: EventEntry| e@)
}

pub open spec fn id_views(s: Seq<String>) -> Seq<Seq<char>> {
    s.map_values(|e: String| e@)
}

/// The identifier of the target with ordinal `n`.
pub open spec fn target_id_text(n: u32) -> Seq<char> {
    "target_"@ + padded(n as nat, 3)
}

pub open spec fn sat_inc(x: u32) -> u32 {
    if x == u32::MAX {
        x
    } else {
        (x + 1) as u32
    }
}

/// The shot recorded as the `index`-th of a run (its index kept as a `u32`).
pub open spec fn shot_at(index: nat, ts: u64, hit: bool, id: Seq<char>) -> ShotView {
    ShotView { shot_index: #[verifier::truncate] (index as u32), timestamp_ns: ts, hit, target_id: id }
}

/// The event recorded as the `index`-th of a run (its index kept as a `u32`).
pub open spec fn event_at(index: nat, id: Seq<char>, ts: u64, kind: TargetEventKind, yaw: Option<i32>) -> EventView {
    EventView {
        target_id: id,
        event_index: #[verifier::truncate] (index as u32),
        timestamp_ns: ts,
        kind,
        commanded_yaw_deg: yaw,
    }
}

pub open spec fn with_shot(s: Seq<ShotView>, ts: u64, hit: bool, id: Seq<char>) -> Seq<ShotView> {
    s.push(shot_at(s.len(), ts, hit, id))
}

pub open spec fn with_event(s: Seq<EventView>, id: Seq<char>, ts: u64, kind: TargetEventKind, yaw: Option<i32>) -> Seq<EventView> {
    s.push(event_at(s.len(), id, ts, kind, yaw))
}

/// Every entry of a log carries its position as its index.
pub open spec fn shots_numbered(s: Seq<ShotView>) -> bool {
    forall|i: int| 0 <= i < s.len() ==> #[trigger] s[i].shot_index == #[verifier::truncate] (i as u32)
}

pub open spec fn events_numbered(s: Seq<EventView>) -> bool {
    forall|i: int| 0 <= i < s.len() ==> #[trigger] s[i].event_index == #[verifier::truncate] (i as u32)
}

/// The bookkeeping of an aim run: its clock, task, score counters, shot log,
/// target lifecycle log and the targets now on screen (by id). Geometry
/// (target centres, look angles) is kept by the caller beside it.
#[derive(Debug)]
pub struct AimRun {
    pub clock: AimClock,
    pub task_kind: AimTaskKind,
    pub hits: u32,
    pub last_hit: Option<bool>,
    pub last_timestamp_ns: u64,
    pub score_ns: Option<u64>,
    pub shots: Vec<ShotEntry>,
    pub events: Vec<EventEntry>,
    pub live: Vec<String>,
    pub current_target_id: String,
    pub next_target_ordinal: u32,
    pub random_seed: u64,
    pub rng_state: u64,
    pub start_unix_ms: i64,
}

/// The run's logs are numbered by position and it never counted more hits
/// than shots.
pub open spec fn run_consistent(r: AimRun) -> bool {
    &&& shots_numbered(shot_views(r.shots@))
    &&& events_numbered(event_views(r.events@))
    &&& r.hits as nat <= r.shots@.len()
}

/// A run just started for task `kind` at `now_ns`, before its targets spawn.
pub open spec fn fresh_run(r: AimRun, kind: AimTaskKind, now_ns: u64, start_unix_ms: i64, seed: u64) -> bool {
    &&& r.clock == AimClock {
        phase: AimPhase::Armed,
        start_timestamp_ns: now_ns,
        accumulated_pause_ns: 0,
        paused_at_qpc: None,
    }
    &&& r.task_kind == kind
    &&& r.hits == 0
    &&& r.last_hit is None
    &&& r.score_ns is None
    &&& r.shots@.len() == 0
    &&& r.random_seed == seed
    &&& r.start_unix_ms == start_unix_ms
}

/// The run's task and generator are as they were: a click or a log entry
/// never draws from the seeded generator.
pub open spec fn same_task_and_generator(o: AimRun, n: AimRun) -> bool {
    &&& n.task_kind == o.task_kind
    &&& n.random_seed == o.random_seed
    &&& n.rng_state == o.rng_state
    &&& n.start_unix_ms == o.start_unix_ms
}

/// A run may start only when no validation is running and no run is armed.
pub open spec fn may_start(validation_running: bool, r: AimRun) -> bool {
    !validation_running && r.clock.phase != AimPhase::Armed
}

fn push_shot(shots: &mut Vec<ShotEntry>, ts: u64, hit: bool, target_id: String)
    ensures
        final(shots)@.len() == old(shots)@.len() + 1,
        shots_numbered(shot_views(old(shots)@)) ==> shots_numbered(shot_views(final(shots)@)),
        shot_views(final(shots)@) == with_shot(shot_views(old(shots)@), ts, hit, target_id@),
{
    let ghost before = shots@;
    #[verifier::truncate]
    let index = shots.len() as u32;
    shots.push(ShotEntry { shot_index: index, timestamp_ns: ts, hit, target_id });
    assert(shot_views(shots@) =~= with_shot(shot_views(before), ts, hit, target_id@));
}

fn push_event(events: &mut Vec<EventEntry>, target_id: String, ts: u64, kind: TargetEventKind, yaw: Option<i32>)
    ensures
        events_numbered(event_views(old(events)@)) ==> events_numbered(event_views(final(events)@)),
        event_views(final(events)@) == with_event(event_views(old(events)@), target_id@, ts, kind, yaw),
{
    let ghost before = events@;
    #[verifier::truncate]
    let index = events.len() as u32;
    events.push(
        EventEntry { target_id, event_index: index, timestamp_ns: ts, kind, commanded_yaw_deg: yaw },
    );
    assert(event_views(events@) =~= with_event(event_views(before), target_id@, ts, kind, yaw));
}

fn alloc_target_id(ordinal: &mut u32) -> (id: String)
    ensures
        id@ == target_id_text(*old(ordinal)),
        *final(ordinal) == sat_inc(*old(ordinal)),
{
    let id = format_target_id(*ordinal);
    *ordinal = ordinal.saturating_add(1);
    id
}

impl AimRun {
    /// An idle run with nothing recorded; target ordinals start at 1.
    pub fn new() -> (r: Self)
        ensures
            run_consistent(r),
            r.clock.phase == AimPhase::Idle,
            r.clock.paused_at_qpc is None,
            r.task_kind == AimTaskKind::StaticClick,
            r.hits == 0,
            r.last_hit is None,
            r.score_ns is None,
            r.shots@.len() == 0,
            r.events@.len() == 0,
            r.live@.len() == 0,
            r.current_target_id@.len() == 0,
            r.next_target_ordinal == 1,
            r.random_seed == 0,
            r.rng_state == 0xC0FFEE,
    {
        AimRun {
            clock: AimClock {
                phase: AimPhase::Idle,
                start_timestamp_ns: 0,
                accumulated_pause_ns: 0,
                paused_at_qpc: None,
            },
            task_kind: AimTaskKind::StaticClick,
            hits: 0,
            last_hit: None,
            last_timestamp_ns: 0,
            score_ns: None,
            shots: Vec::new(),
            events: Vec::new(),
            live: Vec::new(),
            current_target_id: String::new(),
            next_target_ordinal: 1,
            random_seed: 0,
            rng_state: 0xC0FFEE,
            start_unix_ms: 0,
        }
    }

    /// Reset for a new run of `kind`; the caller has checked `may_start`.
    fn begin(&mut self, kind: AimTaskKind, now_ns: u64, start_unix_ms: i64, seed: u64)
        ensures
            fresh_run(*final(self), kind, now_ns, start_unix_ms, seed),
            final(self).rng_state == seed,
            final(self).events@.len() == 0,
            final(self).live@.len() == 0,
            final(self).current_target_id@.len() == 0,
            final(self).next_target_ordinal == 1,
            final(self).last_timestamp_ns == old(self).last_timestamp_ns,
    {
        self.random_seed = seed;
        self.rng_state = seed;
        self.task_kind = kind;
        self.live.clear();
        self.clock.phase = AimPhase::Armed;
        self.hits = 0;
        self.last_hit = None;
        self.score_ns = None;
        self.shots.clear();
        self.events.clear();
        self.next_target_ordinal = 1;
        self.current_target_id = String::new();
        self.clock.start_timestamp_ns = now_ns;
        self.clock.accumulated_pause_ns = 0;
        self.clock.paused_at_qpc = None;
        self.start_unix_ms = start_unix_ms;
    }

    /// Give the current target a fresh id and record its spawn.
    fn spawn_current(&mut self, ts: u64, yaw: Option<i32>)
        ensures
            events_numbered(event_views(old(self).events@)) ==> events_numbered(event_views(final(self).events@)),
            final(self).current_target_id@ == target_id_text(old(self).next_target_ordinal),
            final(self).next_target_ordinal == sat_inc(old(self).next_target_ordinal),
            event_views(final(self).events@) == with_event(
                event_views(old(self).events@),
                target_id_text(old(self).next_target_ordinal),
                ts,
                TargetEventKind::Spawn,
                yaw,
            ),
            final(self).clock == old(self).clock,
            final(self).task_kind == old(self).task_kind,
            final(self).hits == old(self).hits,
            final(self).last_hit == old(self).last_hit,
            final(self).last_timestamp_ns == old(self).last_timestamp_ns,
            final(self).score_ns == old(self).score_ns,
            final(self).shots@ == old(self).shots@,
            final(self).live@ == old(self).live@,
            final(self).random_seed == old(self).random_seed,
            final(self).rng_state == old(self).rng_state,
            final(self).start_unix_ms == old(self).start_unix_ms,
    {
        let id = alloc_target_id(&mut self.next_target_ordinal);
        self.current_target_id = id.clone();
        push_event(&mut self.events, id, ts, TargetEventKind::Spawn, yaw);
    }

    /// Abandon the run: an armed run loses everything it recorded; the run
    /// is idle afterwards either way.
    pub fn cancel_aim_trial(&mut self)
        ensures
            run_consistent(*old(self)) ==> run_consistent(*final(self)),
            final(self).clock.phase == AimPhase::Idle,
            old(self).clock.phase == AimPhase::Armed ==> {
                &&& final(self).hits == 0
                &&& final(self).shots@.len() == 0
                &&& final(self).events@.len() == 0
                &&& final(self).live@.len() == 0
                &&& final(self).score_ns is None
                &&& final(self).last_hit is None
                &&& final(self).current_target_id@.len() == 0
                &&& final(self).next_target_ordinal == 1
                &&& final(self).clock.accumulated_pause_ns == 0
                &&& final(self).clock.paused_at_qpc is None
            },
            old(self).clock.phase != AimPhase::Armed ==> {
                &&& final(self).hits == old(self).hits
                &&& final(self).shots@ == old(self).shots@
                &&& final(self).events@ == old(self).events@
                &&& final(self).live@ == old(self).live@
                &&& final(self).score_ns == old(self).score_ns
                &&& final(self).last_hit == old(self).last_hit
                &&& final(self).current_target_id@ == old(self).current_target_id@
                &&& final(self).next_target_ordinal == old(self).next_target_ordinal
                &&& final(self).clock == AimClock { phase: AimPhase::Idle, ..old(self).clock }
            },
            same_task_and_generator(*old(self), *final(self)),
            final(self).last_timestamp_ns == old(self).last_timestamp_ns,
            final(self).clock.start_timestamp_ns == old(self).clock.start_timestamp_ns,
    {
        if self.clock.phase == AimPhase::Armed {
            self.hits = 0;
            self.shots.clear();
            self.events.clear();
            self.score_ns = None;
            self.last_hit = None;
            self.current_target_id = String::new();
            self.next_target_ordinal = 1;
            self.live.clear();
            self.clock.accumulated_pause_ns = 0;
            self.clock.paused_at_qpc = None;
        }
        self.clock.phase = AimPhase::Idle;
    }
}

impl Default for AimRun {
    fn default() -> (r: Self)
        ensures
            r.clock.phase == AimPhase::Idle,
            r.next_target_ordinal == 1,
            r.shots@.len() == 0,
            r.events@.len() == 0,
    {
        AimRun::new()
    }
}

// ------------------------------------------------------------ STATIC_CLICK

impl AimRun {
    /// Start a STATIC_CLICK run at `now_ns` with its first target spawned;
    /// refused (nothing changes) while a validation or another run is going.
    pub fn start_aim_trial(&mut self, validation_running: bool, now_ns: u64, start_unix_ms: i64, seed: u64) -> (started: bool)
        ensures
            run_consistent(*old(self)) ==> run_consistent(*final(self)),
            started == may_start(validation_running, *old(self)),
            !started ==> *final(self) == *old(self),
            started ==> {
                &&& fresh_run(*final(self), AimTaskKind::StaticClick, now_ns, start_unix_ms, seed)
                &&& final(self).rng_state == seed
                &&& final(self).live@.len() == 0
                &&& final(self).current_target_id@ == target_id_text(1)
                &&& final(self).next_target_ordinal == 2
                &&& event_views(final(self).events@) == seq![
                    event_at(0, target_id_text(1), now_ns, TargetEventKind::Spawn, None),
                ]
            },
    {
        if validation_running || self.clock.phase == AimPhase::Armed {
            return false;
        }
        self.begin(AimTaskKind::StaticClick, now_ns, start_unix_ms, seed);
        proof {
            assert(event_views(self.events@) =~= Seq::<EventView>::empty());
        }
        self.spawn_current(now_ns, None);
        true
    }

    /// Record a click of a STATIC_CLICK run at `ts` that did (`hit`) or did
    /// not hit the current target. A miss keeps the target; a hit despawns
    /// it and spawns the next, and the fifth hit ends the run with its active
    /// time as the score. Returns whether this click ended the run. An idle
    /// run ignores the click.
    pub fn apply_aim_shot(&mut self, hit: bool, ts: u64) -> (finished: bool)
        ensures
            run_consistent(*old(self)) ==> run_consistent(*final(self)),
            old(self).clock.phase != AimPhase::Armed ==> !finished && *final(self) == *old(self),
            old(self).clock.phase == AimPhase::Armed ==> {
                let id = old(self).current_target_id@;
                let h = if hit { sat_inc(old(self).hits) } else { old(self).hits };
                let ev1 = with_event(event_views(old(self).events@), id, ts, TargetEventKind::Despawn, None);
                &&& shot_views(final(self).shots@) == with_shot(shot_views(old(self).shots@), ts, hit, id)
                &&& final(self).last_hit == Some(hit)
                &&& final(self).last_timestamp_ns == ts
                &&& final(self).hits == h
                &&& same_task_and_generator(*old(self), *final(self))
                &&& final(self).live@ == old(self).live@
                &&& finished == (hit && h >= AIM_HITS_TO_FINISH)
                &&& !hit ==> {
                    &&& event_views(final(self).events@) == event_views(old(self).events@)
                    &&& final(self).current_target_id@ == id
                    &&& final(self).next_target_ordinal == old(self).next_target_ordinal
                    &&& final(self).clock == old(self).clock
                    &&& final(self).score_ns == old(self).score_ns
                }
                &&& (hit && h >= AIM_HITS_TO_FINISH) ==> {
                    &&& event_views(final(self).events@) == ev1
                    &&& final(self).current_target_id@ == id
                    &&& final(self).next_target_ordinal == old(self).next_target_ordinal
                    &&& final(self).clock == AimClock { phase: AimPhase::Idle, ..old(self).clock }
                    &&& final(self).score_ns == Some(active_elapsed(old(self).clock, ts) as u64)
                }
                &&& (hit && h < AIM_HITS_TO_FINISH) ==> {
                    &&& event_views(final(self).events@) == with_event(
                        ev1,
                        target_id_text(old(self).next_target_ordinal),
                        ts,
                        TargetEventKind::Spawn,
                        None,
                    )
                    &&& final(self).current_target_id@ == target_id_text(old(self).next_target_ordinal)
                    &&& final(self).next_target_ordinal == sat_inc(old(self).next_target_ordinal)
                    &&& final(self).clock == old(self).clock
                    &&& final(self).score_ns == old(self).score_ns
                }
            },
    {
        if self.clock.phase != AimPhase::Armed {
            return false;
        }
        push_shot(&mut self.shots, ts, hit, self.current_target_id.clone());
        self.last_hit = Some(hit);
        self.last_timestamp_ns = ts;
        if !hit {
            return false;
        }
        push_event(&mut self.events, self.current_target_id.clone(), ts, TargetEventKind::Despawn, None);
        self.hits = self.hits.saturating_add(1);
        if self.hits >= AIM_HITS_TO_FINISH {
            self.score_ns = Some(active_elapsed_ns(&self.clock, ts));
            self.clock.phase = AimPhase::Idle;
            return true;
        }
        self.spawn_current(ts, None);
        false
    }
}

// ------------------------------------------------------------ FLICK_DEMAND

/// The commanded yaw of the latest spawn event, if it carries one.
pub open spec fn last_spawn_yaw(es: Seq<EventView>) -> Option<i32>
    decreases es.len(),
{
    if es.len() == 0 {
        None
    } else if es.last().kind == TargetEventKind::Spawn {
        es.last().commanded_yaw_deg
    } else {
        last_spawn_yaw(es.drop_last())
    }
}

/// The offset drawn after `prev` from generator state `s` (already advanced).
pub open spec fn drawn_yaw(s: u64, prev: Option<i32>) -> i32 {
    yaw_choices(prev)[index_from_state(s, yaw_choices(prev).len()) as int]
}

fn latest_spawn_yaw(events: &Vec<EventEntry>) -> (y: Option<i32>)
    ensures
        y == last_spawn_yaw(event_views(events@)),
{
    let ghost es = event_views(events@);
    let mut k = events.len();
    assert(es.take(k as int) =~= es);
    while k > 0
        invariant
            k <= events@.len(),
            es == event_views(events@),
            last_spawn_yaw(es) == last_spawn_yaw(es.take(k as int)),
        decreases k,
    {
        let ghost pre = es.take(k as int);
        assert(pre.drop_last() =~= es.take(k - 1));
        assert(pre.last() == events@[k - 1]@);
        if events[k - 1].kind == TargetEventKind::Spawn {
            return events[k - 1].commanded_yaw_deg;
        }
        k = k - 1;
    }
    None
}

/// A target lives while the run is armed; ending a timed run despawns it.
pub open spec fn capped(active: int, cap: u64) -> u64 {
    if active <= cap {
        active as u64
    } else {
        cap
    }
}

impl AimRun {
    /// Start a FLICK_DEMAND run: the first target spawns at an offset drawn
    /// from the seeded generator.
    pub fn start_flick_demand_trial(&mut self, validation_running: bool, now_ns: u64, start_unix_ms: i64, seed: u64) -> (started: bool)
        ensures
            run_consistent(*old(self)) ==> run_consistent(*final(self)),
            started == may_start(validation_running, *old(self)),
            !started ==> *final(self) == *old(self),
            started ==> {
                let yaw = drawn_yaw(lcg_next(seed), None);
                &&& fresh_run(*final(self), AimTaskKind::FlickDemand, now_ns, start_unix_ms, seed)
                &&& final(self).rng_state == lcg_next(seed)
                &&& final(self).live@.len() == 0
                &&& final(self).current_target_id@ == target_id_text(1)
                &&& final(self).next_target_ordinal == 2
                &&& event_views(final(self).events@) == seq![
                    event_at(0, target_id_text(1), now_ns, TargetEventKind::Spawn, Some(yaw)),
                ]
            },
    {
        if validation_running || self.clock.phase == AimPhase::Armed {
            return false;
        }
        self.begin(AimTaskKind::FlickDemand, now_ns, start_unix_ms, seed);
        let yaw = next_commanded_yaw(&mut self.rng_state, None);
        proof {
            assert(event_views(self.events@) =~= Seq::<EventView>::empty());
        }
        self.spawn_current(now_ns, Some(yaw));
        true
    }

    /// Record a click of a FLICK_DEMAND run. A miss keeps the target; a hit
    /// despawns it and spawns the next one at a newly drawn offset, never the
    /// offset of the target just hit. The timer, not a hit, ends the run.
    /// A run that is idle, paused or of another task ignores the click.
    pub fn apply_flick_demand_shot(&mut self, hit: bool, ts: u64) -> (finished: bool)
        ensures
            run_consistent(*old(self)) ==> run_consistent(*final(self)),
            !finished,
            !(old(self).clock.phase == AimPhase::Armed && old(self).task_kind == AimTaskKind::FlickDemand
                && old(self).clock.paused_at_qpc is None) ==> *final(self) == *old(self),
            (old(self).clock.phase == AimPhase::Armed && old(self).task_kind == AimTaskKind::FlickDemand
                && old(self).clock.paused_at_qpc is None) ==> {
                let id = old(self).current_target_id@;
                let prev = last_spawn_yaw(event_views(old(self).events@));
                let s = lcg_next(old(self).rng_state);
                let ev1 = with_event(event_views(old(self).events@), id, ts, TargetEventKind::Despawn, None);
                &&& shot_views(final(self).shots@) == with_shot(shot_views(old(self).shots@), ts, hit, id)
                &&& final(self).last_hit == Some(hit)
                &&& final(self).last_timestamp_ns == ts
                &&& final(self).clock == old(self).clock
                &&& final(self).score_ns == old(self).score_ns
                &&& final(self).task_kind == old(self).task_kind
                &&& final(self).random_seed == old(self).random_seed
                &&& final(self).start_unix_ms == old(self).start_unix_ms
                &&& final(self).live@ == old(self).live@
                &&& !hit ==> {
                    &&& event_views(final(self).events@) == event_views(old(self).events@)
                    &&& final(self).current_target_id@ == id
                    &&& final(self).next_target_ordinal == old(self).next_target_ordinal
                    &&& final(self).hits == old(self).hits
                    &&& final(self).rng_state == old(self).rng_state
                }
                &&& hit ==> {
                    &&& final(self).hits == sat_inc(old(self).hits)
                    &&& final(self).rng_state == s
                    &&& (prev matches Some(p) ==> drawn_yaw(s, prev) != p)
                    &&& event_views(final(self).events@) == with_event(
                        ev1,
                        target_id_text(old(self).next_target_ordinal),
                        ts,
                        TargetEventKind::Spawn,
                        Some(drawn_yaw(s, prev)),
                    )
                    &&& final(self).current_target_id@ == target_id_text(old(self).next_target_ordinal)
                    &&& final(self).next_target_ordinal == sat_inc(old(self).next_target_ordinal)
                }
            },
    {
        if self.clock.phase != AimPhase::Armed || self.task_kind != AimTaskKind::FlickDemand {
            return false;
        }
        if self.clock.paused_at_qpc.is_some() {
            return false;
        }
        push_shot(&mut self.shots, ts, hit, self.current_target_id.clone());
        self.last_hit = Some(hit);
        self.last_timestamp_ns = ts;
        if !hit {
            return false;
        }
        let prev = latest_spawn_yaw(&self.events);
        push_event(&mut self.events, self.current_target_id.clone(), ts, TargetEventKind::Despawn, None);
        self.hits = self.hits.saturating_add(1);
        let yaw = next_commanded_yaw(&mut self.rng_state, prev);
        self.spawn_current(ts, Some(yaw));
        false
    }

    /// End an armed FLICK_DEMAND run at `end_ns`: the score is its active
    /// time, at most sixty seconds, and the current target despawns.
    pub fn finish_flick_demand_trial(&mut self, end_ns: u64) -> (done: bool)
        ensures
            run_consistent(*old(self)) ==> run_consistent(*final(self)),
            done == (old(self).clock.phase == AimPhase::Armed && old(self).task_kind
                == AimTaskKind::FlickDemand),
            !done ==> *final(self) == *old(self),
            done ==> {
                &&& final(self).score_ns == Some(capped(active_elapsed(old(self).clock, end_ns), FLICK_DEMAND_DURATION_NS))
                &&& final(self).last_timestamp_ns == end_ns
                &&& event_views(final(self).events@) == with_event(
                    event_views(old(self).events@),
                    old(self).current_target_id@,
                    end_ns,
                    TargetEventKind::Despawn,
                    None,
                )
                &&& final(self).clock == AimClock { phase: AimPhase::Idle, ..old(self).clock }
                &&& final(self).shots@ == old(self).shots@
                &&& final(self).hits == old(self).hits
            },
    {
        if self.clock.phase != AimPhase::Armed || self.task_kind != AimTaskKind::FlickDemand {
            return false;
        }
        let elapsed = active_elapsed_ns(&self.clock, end_ns);
        self.score_ns = Some(if elapsed <= FLICK_DEMAND_DURATION_NS { elapsed } else { FLICK_DEMAND_DURATION_NS });
        self.last_timestamp_ns = end_ns;
        push_event(&mut self.events, self.current_target_id.clone(), end_ns, TargetEventKind::Despawn, None);
        self.clock.phase = AimPhase::Idle;
        true
    }
}

// ------------------------------------------------------------ ONE_WALL_SIX

pub const ONE_WALL_SIX_CONCURRENT: usize = 6;

/// The spawns of `n` targets numbered from `first`, all at `ts`, appended to `es`.
pub open spec fn with_spawns(es: Seq<EventView>, first: u32, n: nat, ts: u64) -> Seq<EventView>
    decreases n,
{
    if n == 0 {
        es
    } else {
        with_spawns(with_event(es, target_id_text(first), ts, TargetEventKind::Spawn, None), sat_inc(first), (n - 1) as nat, ts)
    }
}

/// The ids of `n` targets numbered from `first`, appended to `ids`.
pub open spec fn with_ids(ids: Seq<Seq<char>>, first: u32, n: nat) -> Seq<Seq<char>>
    decreases n,
{
    if n == 0 {
        ids
    } else {
        with_ids(ids.push(target_id_text(first)), sat_inc(first), (n - 1) as nat)
    }
}

/// `first` advanced `n` times, saturating.
pub open spec fn ordinal_after(first: u32, n: nat) -> u32
    decreases n,
{
    if n == 0 {
        first
    } else {
        ordinal_after(sat_inc(first), (n - 1) as nat)
    }
}

proof fn lemma_with_ids(ids: Seq<Seq<char>>, first: u32, n: nat)
    ensures
        with_ids(ids, first, n).len() == ids.len() + n,
        with_ids(ids, first, n).take(ids.len() as int) == ids,
        n > 0 ==> with_ids(ids, first, n)[ids.len() as int] == target_id_text(first),
    decreases n,
{
    if n > 0 {
        let ids1 = ids.push(target_id_text(first));
        lemma_with_ids(ids1, sat_inc(first), (n - 1) as nat);
        let w = with_ids(ids1, sat_inc(first), (n - 1) as nat);
        assert(w.take(ids1.len() as int)[ids.len() as int] == ids1[ids.len() as int]);
        assert(w.take(ids.len() as int) =~= ids) by {
            assert forall|j: int| 0 <= j < ids.len() implies w.take(ids.len() as int)[j] == ids[j] by {
                assert(w.take(ids1.len() as int)[j] == ids1[j]);
            }
        }
    }
}

/// Despawns of the targets `ids`, in order, all at `ts`, appended to `es`.
pub open spec fn with_despawns(es: Seq<EventView>, ids: Seq<Seq<char>>, ts: u64) -> Seq<EventView>
    decreases ids.len(),
{
    if ids.len() == 0 {
        es
    } else {
        with_event(with_despawns(es, ids.drop_last(), ts), ids.last(), ts, TargetEventKind::Despawn, None)
    }
}

impl AimRun {
    /// Spawn `n` more live targets at `ts`, each with a fresh id.
    fn spawn_live(&mut self, n: usize, ts: u64)
        ensures
            events_numbered(event_views(old(self).events@)) ==> events_numbered(event_views(final(self).events@)),
            event_views(final(self).events@) == with_spawns(event_views(old(self).events@), old(self).next_target_ordinal, n as nat, ts),
            id_views(final(self).live@) == with_ids(id_views(old(self).live@), old(self).next_target_ordinal, n as nat),
            final(self).next_target_ordinal == ordinal_after(old(self).next_target_ordinal, n as nat),
            final(self).clock == old(self).clock,
            final(self).task_kind == old(self).task_kind,
            final(self).hits == old(self).hits,
            final(self).last_hit == old(self).last_hit,
            final(self).last_timestamp_ns == old(self).last_timestamp_ns,
            final(self).score_ns == old(self).score_ns,
            final(self).shots@ == old(self).shots@,
            final(self).current_target_id@ == old(self).current_target_id@,
            final(self).random_seed == old(self).random_seed,
            final(self).rng_state == old(self).rng_state,
            final(self).start_unix_ms == old(self).start_unix_ms,
    {
        let mut k: usize = 0;
        while k < n
            invariant
                k <= n,
                events_numbered(event_views(old(self).events@)) ==> events_numbered(event_views(self.events@)),
                with_spawns(event_views(self.events@), self.next_target_ordinal, (n - k) as nat, ts)
                    == with_spawns(event_views(old(self).events@), old(self).next_target_ordinal, n as nat, ts),
                with_ids(id_views(self.live@), self.next_target_ordinal, (n - k) as nat)
                    == with_ids(id_views(old(self).live@), old(self).next_target_ordinal, n as nat),
                ordinal_after(self.next_target_ordinal, (n - k) as nat) == ordinal_after(old(self).next_target_ordinal, n as nat),
                self.clock == old(self).clock,
                self.task_kind == old(self).task_kind,
                self.hits == old(self).hits,
                self.last_hit == old(self).last_hit,
                self.last_timestamp_ns == old(self).last_timestamp_ns,
                self.score_ns == old(self).score_ns,
                self.shots@ == old(self).shots@,
                self.current_target_id@ == old(self).current_target_id@,
                self.random_seed == old(self).random_seed,
                self.rng_state == old(self).rng_state,
                self.start_unix_ms == old(self).start_unix_ms,
            decreases n - k,
        {
            let ghost live0 = self.live@;
            let id = alloc_target_id(&mut self.next_target_ordinal);
            push_event(&mut self.events, id.clone(), ts, TargetEventKind::Spawn, None);
            self.live.push(id);
            assert(id_views(self.live@) =~= id_views(live0).push(id@));
            k = k + 1;
        }
    }

    /// Start a ONE_WALL_SIX run with its six targets spawned; the first of
    /// them is the current target.
    pub fn start_one_wall_six_trial(&mut self, validation_running: bool, now_ns: u64, start_unix_ms: i64, seed: u64) -> (started: bool)
        ensures
            run_consistent(*old(self)) ==> run_consistent(*final(self)),
            started == may_start(validation_running, *old(self)),
            !started ==> *final(self) == *old(self),
            started ==> {
                &&& fresh_run(*final(self), AimTaskKind::OneWallSix, now_ns, start_unix_ms, seed)
                &&& final(self).rng_state == seed
                &&& id_views(final(self).live@) == with_ids(Seq::empty(), 1, 6)
                &&& final(self).next_target_ordinal == 7
                &&& event_views(final(self).events@) == with_spawns(Seq::empty(), 1, 6, now_ns)
                &&& final(self).current_target_id@ == target_id_text(1)
            },
    {
        if validation_running || self.clock.phase == AimPhase::Armed {
            return false;
        }
        self.begin(AimTaskKind::OneWallSix, now_ns, start_unix_ms, seed);
        proof {
            assert(event_views(self.events@) =~= Seq::<EventView>::empty());
            assert(id_views(self.live@) =~= Seq::<Seq<char>>::empty());
        }
        self.spawn_live(ONE_WALL_SIX_CONCURRENT, now_ns);
        proof {
            reveal_with_fuel(ordinal_after, 7);
            lemma_with_ids(Seq::empty(), 1, 6);
        }
        if self.live.len() > 0 {
            self.current_target_id = self.live[0].clone();
        }
        true
    }

    /// Record a click of a ONE_WALL_SIX run. `hit_index` is the live target
    /// the click hit, if any; `nearest_index` the live target a miss is
    /// charged to, if any. A hit despawns that target and spawns a
    /// replacement at the end of the live list; a miss changes no target.
    /// A run that is idle, paused or of another task ignores the click.
    pub fn apply_one_wall_six_shot(&mut self, hit_index: Option<usize>, nearest_index: Option<usize>, ts: u64) -> (finished: bool)
        requires
            hit_index matches Some(i) ==> i < old(self).live@.len(),
            nearest_index matches Some(i) ==> i < old(self).live@.len(),
        ensures
            run_consistent(*old(self)) ==> run_consistent(*final(self)),
            !finished,
            !(old(self).clock.phase == AimPhase::Armed && old(self).task_kind == AimTaskKind::OneWallSix
                && old(self).clock.paused_at_qpc is None) ==> *final(self) == *old(self),
            (old(self).clock.phase == AimPhase::Armed && old(self).task_kind == AimTaskKind::OneWallSix
                && old(self).clock.paused_at_qpc is None) ==> {
                let live = id_views(old(self).live@);
                &&& final(self).last_hit == Some(hit_index is Some)
                &&& final(self).last_timestamp_ns == ts
                &&& final(self).clock == old(self).clock
                &&& final(self).score_ns == old(self).score_ns
                &&& same_task_and_generator(*old(self), *final(self))
                &&& final(self).current_target_id@ == old(self).current_target_id@
                &&& match hit_index {
                    None => {
                        let charged = match nearest_index {
                            Some(j) => live[j as int],
                            None => Seq::<char>::empty(),
                        };
                        &&& shot_views(final(self).shots@) == with_shot(shot_views(old(self).shots@), ts, false, charged)
                        &&& event_views(final(self).events@) == event_views(old(self).events@)
                        &&& id_views(final(self).live@) == live
                        &&& final(self).hits == old(self).hits
                        &&& final(self).next_target_ordinal == old(self).next_target_ordinal
                    },
                    Some(i) => {
                        let victim = live[i as int];
                        let fresh = target_id_text(old(self).next_target_ordinal);
                        &&& shot_views(final(self).shots@) == with_shot(shot_views(old(self).shots@), ts, true, victim)
                        &&& final(self).hits == sat_inc(old(self).hits)
                        &&& event_views(final(self).events@) == with_event(
                            with_event(event_views(old(self).events@), victim, ts, TargetEventKind::Despawn, None),
                            fresh,
                            ts,
                            TargetEventKind::Spawn,
                            None,
                        )
                        &&& id_views(final(self).live@) == live.remove(i as int).push(fresh)
                        &&& final(self).next_target_ordinal == sat_inc(old(self).next_target_ordinal)
                    },
                }
            },
    {
        if self.clock.phase != AimPhase::Armed || self.task_kind != AimTaskKind::OneWallSix {
            return false;
        }
        if self.clock.paused_at_qpc.is_some() {
            return false;
        }
        let ghost live0 = self.live@;
        match hit_index {
            None => {
                let charged = match nearest_index {
                    Some(j) => self.live[j].clone(),
                    None => String::new(),
                };
                push_shot(&mut self.shots, ts, false, charged);
                self.last_hit = Some(false);
                self.last_timestamp_ns = ts;
                false
            },
            Some(i) => {
                let victim = self.live[i].clone();
                push_shot(&mut self.shots, ts, true, victim.clone());
                self.last_hit = Some(true);
                self.last_timestamp_ns = ts;
                self.hits = self.hits.saturating_add(1);
                push_event(&mut self.events, victim, ts, TargetEventKind::Despawn, None);
                self.live.remove(i);
                let ghost live1 = self.live@;
                assert(id_views(live1) =~= id_views(live0).remove(i as int));
                self.spawn_live(1, ts);
                proof {
                    reveal_with_fuel(with_ids, 2);
                    reveal_with_fuel(with_spawns, 2);
                    reveal_with_fuel(ordinal_after, 2);
                }
                false
            },
        }
    }

    /// End an armed ONE_WALL_SIX run at `end_ns`: the score is its active
    /// time, at most sixty seconds, and every live target despawns in order.
    pub fn finish_one_wall_six_trial(&mut self, end_ns: u64) -> (done: bool)
        ensures
            run_consistent(*old(self)) ==> run_consistent(*final(self)),
            done == (old(self).clock.phase == AimPhase::Armed && old(self).task_kind
                == AimTaskKind::OneWallSix),
            !done ==> *final(self) == *old(self),
            done ==> {
                &&& final(self).score_ns == Some(capped(active_elapsed(old(self).clock, end_ns), ONE_WALL_SIX_DURATION_NS))
                &&& final(self).last_timestamp_ns == end_ns
                &&& event_views(final(self).events@) == with_despawns(
                    event_views(old(self).events@),
                    id_views(old(self).live@),
                    end_ns,
                )
                &&& final(self).live@.len() == 0
                &&& final(self).clock == AimClock { phase: AimPhase::Idle, ..old(self).clock }
                &&& final(self).shots@ == old(self).shots@
                &&& final(self).hits == old(self).hits
            },
    {
        if self.clock.phase != AimPhase::Armed || self.task_kind != AimTaskKind::OneWallSix {
            return false;
        }
        let elapsed = active_elapsed_ns(&self.clock, end_ns);
        self.score_ns = Some(if elapsed <= ONE_WALL_SIX_DURATION_NS { elapsed } else { ONE_WALL_SIX_DURATION_NS });
        self.last_timestamp_ns = end_ns;
        let ghost ids = id_views(self.live@);
        let ghost es0 = event_views(self.events@);
        let mut k: usize = 0;
        while k < self.live.len()
            invariant
                k <= self.live@.len(),
                ids == id_views(self.live@),
                event_views(self.events@) == with_despawns(es0, ids.take(k as int), end_ns),
                self.score_ns == Some(capped(active_elapsed(old(self).clock, end_ns), ONE_WALL_SIX_DURATION_NS)),
                self.last_timestamp_ns == end_ns,
                self.clock == old(self).clock,
                self.shots@ == old(self).shots@,
                self.hits == old(self).hits,
                events_numbered(event_views(old(self).events@)) ==> events_numbered(event_views(self.events@)),
            decreases self.live.len() - k,
        {
            assert(ids.take(k + 1).drop_last() =~= ids.take(k as int));
            push_event(&mut self.events, self.live[k].clone(), end_ns, TargetEventKind::Despawn, None);
            k = k + 1;
        }
        assert(ids.take(ids.len() as int) =~= ids);
        self.live.clear();
        self.clock.phase = AimPhase::Idle;
        true
    }
}

// ---------------------------------------------------------------- TRACKING

/// `s` with one shot per time of `times`, all with the same outcome and target.
pub open spec fn with_shots(s: Seq<ShotView>, times: Seq<u64>, hit: bool, id: Seq<char>) -> Seq<ShotView>
    decreases times.len(),
{
    if times.len() == 0 {
        s
    } else {
        with_shot(with_shots(s, times.drop_last(), hit, id), times.last(), hit, id)
    }
}

pub open spec fn sat_add_u32(a: u32, n: nat) -> u32 {
    if a + n > u32::MAX {
        u32::MAX
    } else {
        (a + n) as u32
    }
}

/// How a frame left a TRACKING run.
#[derive(Debug, Clone, Copy, PartialEq, Eq, Structural)]
pub enum TrackingTickResult {
    Continue,
    Finished,
}

/// What one frame of an armed TRACKING run is to simulate.
#[derive(Debug, Clone, Copy, PartialEq, Eq, Structural)]
pub enum TrackingTick {
    /// The run is not an armed TRACKING run.
    Finished,
    /// The run is paused: nothing moves.
    Paused,
    /// Simulate `dt_ns` of motion.
    Step { dt_ns: u64 },
}

impl AimRun {
    /// Start a TRACKING run: one target, `target_001`, spawns at `now_ns`,
    /// and the frame clock starts there with the button up.
    pub fn start_tracking_trial(
        &mut self,
        state: &mut TrackingState,
        validation_running: bool,
        now_ns: u64,
        start_unix_ms: i64,
        seed: u64,
    ) -> (started: bool)
        ensures
            run_consistent(*old(self)) ==> run_consistent(*final(self)),
            started == may_start(validation_running, *old(self)),
            !started ==> *final(self) == *old(self) && *final(state) == *old(state),
            started ==> {
                &&& fresh_run(*final(self), AimTaskKind::Tracking, now_ns, start_unix_ms, seed)
                &&& final(self).rng_state == seed
                &&& final(self).live@.len() == 0
                &&& final(self).current_target_id@ == target_id_text(1)
                &&& final(self).next_target_ordinal == 2
                &&& event_views(final(self).events@) == seq![
                    event_at(0, target_id_text(1), now_ns, TargetEventKind::Spawn, None),
                ]
                &&& *final(state) == TrackingState {
                    lmb_held: false,
                    time_on_target_ns: 0,
                    next_reverse_at_ns: None,
                    last_tracking_tick_ns: Some(now_ns),
                    next_tracking_shot_ns: None,
                }
            },
    {
        if validation_running || self.clock.phase == AimPhase::Armed {
            return false;
        }
        self.begin(AimTaskKind::Tracking, now_ns, start_unix_ms, seed);
        *state = TrackingState {
            lmb_held: false,
            time_on_target_ns: 0,
            next_reverse_at_ns: None,
            last_tracking_tick_ns: Some(now_ns),
            next_tracking_shot_ns: None,
        };
        proof {
            assert(event_views(self.events@) =~= Seq::<EventView>::empty());
        }
        self.spawn_current(now_ns, None);
        true
    }

    /// Record the virtual shots fired at `times` against the current target.
    pub fn record_tracking_shots(&mut self, times: &[u64], hit: bool)
        ensures
            run_consistent(*old(self)) ==> run_consistent(*final(self)),
            shot_views(final(self).shots@) == with_shots(shot_views(old(self).shots@), times@, hit, old(self).current_target_id@),
            final(self).hits == if hit { sat_add_u32(old(self).hits, times@.len()) } else { old(self).hits },
            final(self).last_hit == if times@.len() > 0 { Some(hit) } else { old(self).last_hit },
            final(self).last_timestamp_ns == if times@.len() > 0 { times@.last() } else { old(self).last_timestamp_ns },
            final(self).events@ == old(self).events@,
            final(self).live@ == old(self).live@,
            final(self).clock == old(self).clock,
            final(self).task_kind == old(self).task_kind,
            final(self).score_ns == old(self).score_ns,
            final(self).current_target_id@ == old(self).current_target_id@,
            final(self).next_target_ordinal == old(self).next_target_ordinal,
            same_task_and_generator(*old(self), *final(self)),
    {
        let mut k: usize = 0;
        while k < times.len()
            invariant
                k <= times@.len(),
                shot_views(self.shots@) == with_shots(shot_views(old(self).shots@), times@.take(k as int), hit, old(self).current_target_id@),
                self.hits == if hit { sat_add_u32(old(self).hits, k as nat) } else { old(self).hits },
                self.last_hit == if k > 0 { Some(hit) } else { old(self).last_hit },
                self.last_timestamp_ns == if k > 0 { times@[k - 1] } else { old(self).last_timestamp_ns },
                self.shots@.len() == old(self).shots@.len() + k,
                shots_numbered(shot_views(old(self).shots@)) ==> shots_numbered(shot_views(self.shots@)),
                old(self).hits as nat <= old(self).shots@.len() ==> self.hits as nat <= self.shots@.len(),
                self.events@ == old(self).events@,
                self.live@ == old(self).live@,
                self.clock == old(self).clock,
                self.task_kind == old(self).task_kind,
                self.score_ns == old(self).score_ns,
                self.current_target_id@ == old(self).current_target_id@,
                self.next_target_ordinal == old(self).next_target_ordinal,
                same_task_and_generator(*old(self), *self),
            decreases times.len() - k,
        {
            assert(times@.take(k + 1).drop_last() =~= times@.take(k as int));
            let t = times[k];
            push_shot(&mut self.shots, t, hit, self.current_target_id.clone());
            if hit {
                self.hits = self.hits.saturating_add(1);
            }
            self.last_hit = Some(hit);
            self.last_timestamp_ns = t;
            k = k + 1;
        }
        assert(times@.take(times@.len() as int) =~= times@);
    }

    /// Record that the TRACKING target changed direction at `ts`.
    pub fn record_direction_change(&mut self, ts: u64)
        ensures
            run_consistent(*old(self)) ==> run_consistent(*final(self)),
            event_views(final(self).events@) == with_event(
                event_views(old(self).events@),
                old(self).current_target_id@,
                ts,
                TargetEventKind::DirectionChange,
                None,
            ),
            final(self).clock == old(self).clock,
            same_but_clock_and_events(*old(self), *final(self)),
    {
        push_event(&mut self.events, self.current_target_id.clone(), ts, TargetEventKind::DirectionChange, None);
    }

    /// End an armed TRACKING run at `end_ns`: the score is the time held on
    /// target, the target despawns and every schedule is dropped.
    pub fn finish_tracking_trial(&mut self, state: &mut TrackingState, end_ns: u64) -> (done: bool)
        ensures
            run_consistent(*old(self)) ==> run_consistent(*final(self)),
            done == (old(self).clock.phase == AimPhase::Armed && old(self).task_kind
                == AimTaskKind::Tracking),
            !done ==> *final(self) == *old(self) && *final(state) == *old(state),
            done ==> {
                &&& final(self).score_ns == Some(old(state).time_on_target_ns)
                &&& final(self).last_timestamp_ns == end_ns
                &&& event_views(final(self).events@) == with_event(
                    event_views(old(self).events@),
                    old(self).current_target_id@,
                    end_ns,
                    TargetEventKind::Despawn,
                    None,
                )
                &&& final(self).clock == AimClock { phase: AimPhase::Idle, ..old(self).clock }
                &&& final(self).shots@ == old(self).shots@
                &&& final(self).hits == old(self).hits
                &&& *final(state) == TrackingState {
                    lmb_held: false,
                    next_reverse_at_ns: None,
                    last_tracking_tick_ns: None,
                    next_tracking_shot_ns: None,
                    ..*old(state)
                }
            },
    {
        if self.clock.phase != AimPhase::Armed || self.task_kind != AimTaskKind::Tracking {
            return false;
        }
        self.score_ns = Some(state.time_on_target_ns);
        self.last_timestamp_ns = end_ns;
        push_event(&mut self.events, self.current_target_id.clone(), end_ns, TargetEventKind::Despawn, None);
        state.lmb_held = false;
        state.next_reverse_at_ns = None;
        state.last_tracking_tick_ns = None;
        state.next_tracking_shot_ns = None;
        self.clock.phase = AimPhase::Idle;
        true
    }

    /// Open one frame of a TRACKING run at `now_ns`: a run that is not an
    /// armed TRACKING run is finished; a paused one does not move; otherwise
    /// the frame clock advances to `now_ns` and the frame simulates the time
    /// since the previous frame, cut at thirty active seconds.
    pub fn begin_tracking_tick(&self, state: &mut TrackingState, now_ns: u64) -> (t: TrackingTick)
        ensures
            !(self.clock.phase == AimPhase::Armed && self.task_kind == AimTaskKind::Tracking) ==> t
                == TrackingTick::Finished && *final(state) == *old(state),
            (self.clock.phase == AimPhase::Armed && self.task_kind == AimTaskKind::Tracking
                && self.clock.paused_at_qpc is Some) ==> t == TrackingTick::Paused && *final(state)
                == *old(state),
            (self.clock.phase == AimPhase::Armed && self.task_kind == AimTaskKind::Tracking
                && self.clock.paused_at_qpc is None) ==> {
                let prev = match old(state).last_tracking_tick_ns {
                    Some(p) => p,
                    None => now_ns,
                };
                &&& t == TrackingTick::Step { dt_ns: tick_dt(self.clock, prev, now_ns) as u64 }
                &&& *final(state) == TrackingState { last_tracking_tick_ns: Some(now_ns), ..*old(state) }
            },
    {
        if self.clock.phase != AimPhase::Armed || self.task_kind != AimTaskKind::Tracking {
            return TrackingTick::Finished;
        }
        if self.clock.paused_at_qpc.is_some() {
            return TrackingTick::Paused;
        }
        let prev = match state.last_tracking_tick_ns {
            Some(p) => p,
            None => now_ns,
        };
        state.last_tracking_tick_ns = Some(now_ns);
        TrackingTick::Step { dt_ns: tracking_tick_dt_ns(&self.clock, prev, now_ns) }
    }

    /// Close one frame of an armed, running TRACKING run at `now_ns`, after
    /// the target moved for `dt_ns`: held time on target grows by the frame
    /// when the button is held and the look ray is on the target
    /// (`on_target`), the hold-to-fire shots due by `now_ns` are recorded
    /// with that outcome, and the run finishes once thirty active seconds
    /// have passed.
    pub fn complete_tracking_tick(&mut self, state: &mut TrackingState, now_ns: u64, dt_ns: u64, on_target: bool) -> (r: TrackingTickResult)
        requires
            old(self).clock.phase == AimPhase::Armed,
            old(self).task_kind == AimTaskKind::Tracking,
        ensures
            run_consistent(*old(self)) ==> run_consistent(*final(self)),
            ({
                let finished: bool = r == TrackingTickResult::Finished;
                let gained: int = if old(state).lmb_held && on_target { dt_ns as int } else { 0 };
                let held_ns = if old(state).time_on_target_ns + gained > u64::MAX {
                    u64::MAX
                } else {
                    (old(state).time_on_target_ns + gained) as u64
                };
                let times = if old(state).lmb_held {
                    fire_times(
                        match old(state).next_tracking_shot_ns {
                            Some(n) => n,
                            None => now_ns,
                        },
                        now_ns,
                        40,
                    )
                } else {
                    Seq::<u64>::empty()
                };
                &&& shot_views(final(self).shots@) == with_shots(
                    shot_views(old(self).shots@),
                    times,
                    on_target,
                    old(self).current_target_id@,
                )
                &&& final(self).hits == if on_target { sat_add_u32(old(self).hits, times.len()) } else { old(self).hits }
                &&& finished == (active_elapsed(old(self).clock, now_ns) >= 30_000_000_000)
                &&& !finished ==> {
                    &&& final(state).time_on_target_ns == held_ns
                    &&& final(state).next_tracking_shot_ns == if old(state).lmb_held {
                        Some(fire_next(
                            match old(state).next_tracking_shot_ns {
                                Some(n) => n,
                                None => now_ns,
                            },
                            now_ns,
                            40,
                        ))
                    } else {
                        None
                    }
                    &&& final(self).clock == old(self).clock
                    &&& event_views(final(self).events@) == event_views(old(self).events@)
                }
                &&& finished ==> {
                    &&& final(self).score_ns == Some(held_ns)
                    &&& final(self).clock == AimClock { phase: AimPhase::Idle, ..old(self).clock }
                    &&& event_views(final(self).events@) == with_event(
                        event_views(old(self).events@),
                        old(self).current_target_id@,
                        now_ns,
                        TargetEventKind::Despawn,
                        None,
                    )
                    &&& final(state).time_on_target_ns == held_ns
                    &&& !final(state).lmb_held
                    &&& final(state).next_tracking_shot_ns is None
                }
            }),
    {
        let gained = on_target_dt_ns(state.lmb_held, on_target, dt_ns);
        state.time_on_target_ns = state.time_on_target_ns.saturating_add(gained);
        let times = emit_rapid_fire(state, now_ns);
        self.record_tracking_shots(times.as_slice(), on_target);
        if tracking_should_end(&self.clock, now_ns) {
            let done = self.finish_tracking_trial(state, now_ns);
            assert(done);
            return TrackingTickResult::Finished;
        }
        TrackingTickResult::Continue
    }
}

// ------------------------------------------------------------ persistence

pub open spec fn trial_type_text(k: AimTaskKind) -> Seq<char> {
    match k {
        AimTaskKind::StaticClick => "STATIC_CLICK"@,
        AimTaskKind::Gridshot => "GRIDSHOT"@,
        AimTaskKind::Tracking => "TRACKING"@,
        AimTaskKind::FlickDemand => "FLICK_DEMAND"@,
        AimTaskKind::OneWallSix => "ONE_WALL_SIX"@,
    }
}

pub open spec fn task_version_text(k: AimTaskKind) -> Seq<char> {
    match k {
        AimTaskKind::Tracking => "2"@,
        _ => "1"@,
    }
}

pub open spec fn task_config_text(k: AimTaskKind) -> Seq<char> {
    match k {
        AimTaskKind::StaticClick => static_click_task_config_text(),
        AimTaskKind::Gridshot => gridshot_task_config_text(),
        AimTaskKind::Tracking => tracking_task_config_text(),
        AimTaskKind::FlickDemand => flick_demand_task_config_text(),
        AimTaskKind::OneWallSix => one_wall_six_task_config_text(),
    }
}

/// The length of a timed task; STATIC_CLICK runs until its fifth hit.
pub open spec fn task_duration_cap(k: AimTaskKind) -> Option<u64> {
    match k {
        AimTaskKind::StaticClick => None,
        AimTaskKind::Tracking => Some(30_000_000_000),
        _ => Some(60_000_000_000),
    }
}

/// The recorded duration of a run from `start` to `end`: the wall time
/// between them, at most the task's length.
pub open spec fn recorded_duration(k: AimTaskKind, start: u64, end: u64) -> u64 {
    let wall: u64 = if end >= start { (end - start) as u64 } else { 0 };
    match task_duration_cap(k) {
        Some(cap) => if wall <= cap { wall } else { cap },
        None => wall,
    }
}

/// What a completed run puts in its stored record, beside the
/// configuration captured when it started. Times are in nanoseconds.
#[derive(Debug, Clone, PartialEq)]
pub struct RunRecordCore {
    pub app_version: String,
    pub experiment_id: String,
    pub experiment_version: String,
    pub trial_type: String,
    pub status: String,
    pub task_version: String,
    pub task_config_json: String,
    pub metrics_json: String,
    pub random_seed: u64,
    pub start_unix_ms: i64,
    pub end_unix_ms: i64,
    pub start_timestamp_ns: u64,
    pub end_timestamp_ns: u64,
    pub duration_ns: u64,
    pub hits: u32,
    pub shots: u32,
    pub misses: u32,
    pub score_ns: u64,
}

/// The record of a completed run ending at `end_timestamp_ns`: its
/// recorded duration, its counters (misses are shots without a hit), and its
/// score, which is the recorded duration when the run set none.
pub fn build_record_core(run: &AimRun, end_unix_ms: i64, end_timestamp_ns: u64) -> (r: RunRecordCore)
    ensures
        r.app_version@ == "0.1.0"@,
        r.experiment_id@ == "aim_lab"@,
        r.experiment_version@ == "0.9.0"@,
        r.trial_type@ == trial_type_text(run.task_kind),
        r.status@ == "completed"@,
        r.task_version@ == task_version_text(run.task_kind),
        r.task_config_json@ == task_config_text(run.task_kind),
        r.metrics_json@ == "{}"@,
        r.random_seed == run.random_seed,
        r.start_unix_ms == run.start_unix_ms,
        r.end_unix_ms == end_unix_ms,
        r.start_timestamp_ns == run.clock.start_timestamp_ns,
        r.end_timestamp_ns == end_timestamp_ns,
        r.duration_ns == recorded_duration(run.task_kind, run.clock.start_timestamp_ns, end_timestamp_ns),
        r.hits == run.hits,
        r.shots == #[verifier::truncate] (run.shots@.len() as u32),
        r.misses == (if r.shots >= run.hits { r.shots - run.hits } else { 0 }),
        r.score_ns == match run.score_ns {
            Some(s) => s,
            None => r.duration_ns,
        },
{
    proof {
        reveal_strlit("0.1.0");
        reveal_strlit("aim_lab");
        reveal_strlit("0.9.0");
        reveal_strlit("STATIC_CLICK");
        reveal_strlit("GRIDSHOT");
        reveal_strlit("TRACKING");
        reveal_strlit("FLICK_DEMAND");
        reveal_strlit("ONE_WALL_SIX");
        reveal_strlit("1");
        reveal_strlit("2");
    }
    #[verifier::truncate]
    let shots = run.shots.len() as u32;
    let wall_ns = end_timestamp_ns.saturating_sub(run.clock.start_timestamp_ns);
    let cap: Option<u64> = match run.task_kind {
        AimTaskKind::StaticClick => None,
        AimTaskKind::Tracking => Some(TRACKING_DURATION_NS),
        AimTaskKind::Gridshot => Some(GRIDSHOT_DURATION_NS),
        AimTaskKind::FlickDemand => Some(FLICK_DEMAND_DURATION_NS),
        AimTaskKind::OneWallSix => Some(ONE_WALL_SIX_DURATION_NS),
    };
    let duration_ns = match cap {
        Some(c) => if wall_ns <= c { wall_ns } else { c },
        None => wall_ns,
    };
    let (trial_type, task_version, task_config_json) = match run.task_kind {
        AimTaskKind::StaticClick => (
            String::from_str(AIM_TRIAL_TYPE),
            String::from_str(STATIC_CLICK_TASK_VERSION),
            static_click_task_config_json(),
        ),
        AimTaskKind::Gridshot => (
            String::from_str(GRIDSHOT_TRIAL_TYPE),
            String::from_str(GRIDSHOT_TASK_VERSION),
            gridshot_task_config_json(),
        ),
        AimTaskKind::Tracking => (
            String::from_str(TRACKING_TRIAL_TYPE),
            String::from_str(TRACKING_TASK_VERSION),
            tracking_task_config_json(),
        ),
        AimTaskKind::FlickDemand => (
            String::from_str(FLICK_DEMAND_TRIAL_TYPE),
            String::from_str(FLICK_DEMAND_TASK_VERSION),
            flick_demand_task_config_json(),
        ),
        AimTaskKind::OneWallSix => (
            String::from_str(ONE_WALL_SIX_TRIAL_TYPE),
            String::from_str(ONE_WALL_SIX_TASK_VERSION),
            one_wall_six_task_config_json(),
        ),
    };
    RunRecordCore {
        app_version: String::from_str(AIM_APP_VERSION),
        experiment_id: String::from_str(AIM_EXPERIMENT_ID),
        experiment_version: String::from_str(AIM_EXPERIMENT_VERSION),
        trial_type,
        status: String::from_str("completed"),
        task_version,
        task_config_json,
        metrics_json: String::from_str("{}"),
        random_seed: run.random_seed,
        start_unix_ms: run.start_unix_ms,
        end_unix_ms,
        start_timestamp_ns: run.clock.start_timestamp_ns,
        end_timestamp_ns,
        duration_ns,
        hits: run.hits,
        shots,
        misses: shots.saturating_sub(run.hits),
        score_ns: match run.score_ns {
            Some(s) => s,
            None => duration_ns,
        },
    }
}

/// How saving a completed run went, with the run's counters for display.
#[derive(Debug, Clone, PartialEq)]
pub struct PersistOutcome {
    pub trial_id: Option<String>,
    pub hits: u32,
    pub shots: u32,
    pub saved_ok: bool,
    pub error: Option<String>,
}

/// The outcome of saving `run`, given what the store answered: the new
/// trial id, or the error text.
pub fn persist_outcome(run: &AimRun, result: Result<String, String>) -> (o: PersistOutcome)
    ensures
        o.hits == run.hits,
        o.shots == #[verifier::truncate] (run.shots@.len() as u32),
        o.saved_ok == result is Ok,
        match result {
            Ok(id) => o.error is None && (o.trial_id matches Some(t) && t@ == id@),
            Err(e) => o.trial_id is None && (o.error matches Some(m) && m@ == e@),
        },
{
    #[verifier::truncate]
    let shots = run.shots.len() as u32;
    match result {
        Ok(id) => PersistOutcome { trial_id: Some(id), hits: run.hits, shots, saved_ok: true, error: None },
        Err(e) => PersistOutcome { trial_id: None, hits: run.hits, shots, saved_ok: false, error: Some(e) },
    }
}

// ---------------------------------------------------------- pause, resume

/// Everything but the clock and the target log is as it was.
pub open spec fn same_but_clock_and_events(o: AimRun, n: AimRun) -> bool {
    &&& n.task_kind == o.task_kind
    &&& n.hits == o.hits
    &&& n.last_hit == o.last_hit
    &&& n.last_timestamp_ns == o.last_timestamp_ns
    &&& n.score_ns == o.score_ns
    &&& n.shots@ == o.shots@
    &&& n.live@ == o.live@
    &&& n.current_target_id@ == o.current_target_id@
    &&& n.next_target_ordinal == o.next_target_ordinal
    &&& n.random_seed == o.random_seed
    &&& n.rng_state == o.rng_state
    &&& n.start_unix_ms == o.start_unix_ms
}

/// Pausing at `now`: an armed, running run pauses; a TRACKING target
/// records that it stopped.
pub open spec fn pause_effect(o: AimRun, now: u64, n: AimRun) -> bool {
    &&& n.clock == paused_clock(o.clock, now)
    &&& same_but_clock_and_events(o, n)
    &&& event_views(n.events@) == if o.clock.phase == AimPhase::Armed && o.clock.paused_at_qpc is None
        && o.task_kind == AimTaskKind::Tracking {
        with_event(event_views(o.events@), o.current_target_id@, now, TargetEventKind::DirectionChange, None)
    } else {
        event_views(o.events@)
    }
}

/// Resuming at `now`: a paused run resumes; a TRACKING run moves its
/// schedules later by the pause length and its target records that it moves
/// again.
pub open spec fn resume_effect(o: AimRun, os: TrackingState, now: u64, n: AimRun, ns: TrackingState) -> bool {
    &&& n.clock == resumed_clock(o.clock, now)
    &&& same_but_clock_and_events(o, n)
    &&& match o.clock.paused_at_qpc {
        Some(at) => if o.task_kind == AimTaskKind::Tracking {
            let d = sat_sub(now as int, at as int) as u64;
            &&& ns == TrackingState {
                next_reverse_at_ns: shifted(os.next_reverse_at_ns, d),
                last_tracking_tick_ns: shifted(os.last_tracking_tick_ns, d),
                next_tracking_shot_ns: shifted(os.next_tracking_shot_ns, d),
                ..os
            }
            &&& event_views(n.events@) == with_event(
                event_views(o.events@),
                o.current_target_id@,
                now,
                TargetEventKind::DirectionChange,
                None,
            )
        } else {
            ns == os && event_views(n.events@) == event_views(o.events@)
        },
        None => ns == os && event_views(n.events@) == event_views(o.events@),
    }
}

impl AimRun {
    /// Pause the run at `now_ns`, as `pause_effect` says.
    pub fn pause(&mut self, now_ns: u64)
        ensures
            pause_effect(*old(self), now_ns, *final(self)),
            run_consistent(*old(self)) ==> run_consistent(*final(self)),
    {
        let pausing = self.clock.phase == AimPhase::Armed && self.clock.paused_at_qpc.is_none();
        begin_aim_pause(&mut self.clock, now_ns);
        if pausing && self.task_kind == AimTaskKind::Tracking {
            push_event(&mut self.events, self.current_target_id.clone(), now_ns, TargetEventKind::DirectionChange, None);
        }
    }

    /// Resume the run at `now_ns`, as `resume_effect` says.
    pub fn resume(&mut self, state: &mut TrackingState, now_ns: u64)
        ensures
            resume_effect(*old(self), *old(state), now_ns, *final(self), *final(state)),
            run_consistent(*old(self)) ==> run_consistent(*final(self)),
    {
        match self.clock.paused_at_qpc {
            Some(_) => {
                if self.task_kind == AimTaskKind::Tracking {
                    end_tracking_pause(&mut self.clock, state, now_ns);
                    push_event(&mut self.events, self.current_target_id.clone(), now_ns, TargetEventKind::DirectionChange, None);
                } else {
                    end_aim_pause(&mut self.clock, now_ns);
                }
            },
            None => {},
        }
    }
}

} // verus!
