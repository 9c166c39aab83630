//! What a dungeon run carries between ticks: the nightly cycle, the deaths,
//! the chest's haul, the floor tour, the legs that do not land and the halts
//! they lead to, and the progress line shown to the player. `S` is a spot on
//! the map, which the run only remembers.

use vstd::prelude::*;
use vstd::string::StringExecFns;

use crate::text::{decimal, push_decimal};
use crate::worker::{step_views, Step, StepView};

verus! {

/// Consecutive ticks asking for the same leg before it counts as wedged.
pub const LEG_TRIES: u32 = 12;

/// How long a halt stays quiet before the run tries again.
pub const HALT_RETRY_MS: u64 = 300_000;

/// Why the run stopped, in the words of the thing the player changes.
#[derive(Debug, Clone, Copy, PartialEq, Eq, Structural)]
pub enum Halt {
    /// The configured dungeon is not in the registry.
    NoDungeon,
    /// Monsters are down there, but none inside the level margin.
    OutOfDepth,
    /// Died `death_limit` times this cycle.
    DiedTooOften,
    /// The same descent has been asked for over and over and never lands.
    Stuck,
}

/// The clause completing "Stopped: ..." for `why`.
pub open spec fn clause_spec(why: Halt, dungeon_id: Seq<char>, level_margin: u32, death_limit: u32) -> Seq<
    char,
> {
    match why {
        Halt::NoDungeon => "no dungeon is registered as \""@ + dungeon_id
            + "\" — pick one in the panel"@,
        Halt::OutOfDepth => "every monster down there is above your level + "@ + decimal(
            level_margin as nat,
        ) + " — raise the level margin or level up first"@,
        Halt::DiedTooOften => "died "@ + decimal(death_limit as nat)
            + " times this cycle — waiting for the dungeons to reset"@,
        Halt::Stuck => "it cannot get where it is going from where it stands — move the character clear and it will pick up again"@,
    }
}

impl Halt {
    /// Why the run stopped, in the words of the thing the player changes.
    /// `dungeon_id` is the configured dungeon (empty when unset).
    pub fn clause(self, dungeon_id: &str, level_margin: u32, death_limit: u32) -> (r: String)
        ensures
            r@ == clause_spec(self, dungeon_id@, level_margin, death_limit),
    {
        match self {
            Halt::NoDungeon => {
                let mut r = String::from_str("no dungeon is registered as \"");
                r.append(dungeon_id);
                r.append("\" — pick one in the panel");
                r
            },
            Halt::OutOfDepth => {
                let mut r = String::from_str("every monster down there is above your level + ");
                push_decimal(&mut r, level_margin);
                r.append(" — raise the level margin or level up first");
                r
            },
            Halt::DiedTooOften => {
                let mut r = String::from_str("died ");
                push_decimal(&mut r, death_limit);
                r.append(" times this cycle — waiting for the dungeons to reset");
                r
            },
            Halt::Stuck => String::from_str(
                "it cannot get where it is going from where it stands — move the character clear and it will pick up again",
            ),
        }
    }
}

/// What one nightly cycle carries between ticks.
#[derive(Debug)]
pub struct Run<S> {
    /// The nightfall this cycle belongs to; a change starts a fresh one.
    pub epoch: Option<i64>,
    pub deaths: u32,
    /// The chest is emptied and the haul not yet sold.
    pub resupply_due: bool,
    /// How the chest read last tick, so the moment it is emptied is caught
    /// once.
    pub chest_was_spent: bool,
    /// Where the emptied chest threw its haul, and how many pickups have
    /// been spent on it.
    pub loot_site: Option<S>,
    pub loot_tries: u32,
    /// Sweeping done, still underground: the way out comes before the shop.
    pub leaving: bool,
    /// Which way the section tour is walking.
    pub sweep_up: bool,
    /// Which of this floor's sweep stops have been stood at.
    pub seen: Vec<bool>,
    /// Which floor that tour belongs to.
    pub sweep_depth: Option<u8>,
    /// Whether this floor's tour has seen a monster at all, and whether any
    /// of them were worth fighting.
    pub saw_any: bool,
    pub saw_eligible: bool,
    /// Consecutive floors swept end to end holding monsters but no eligible
    /// one.
    pub barren_floors: u32,
    /// The last leg asked for and how many ticks running it has been the
    /// answer.
    pub leg: Option<String>,
    pub legs: u32,
    /// The halt in force and when it began.
    pub halted: Option<(Halt, u64)>,
    /// The last progress line, and whether it is news.
    pub note: String,
    pub note_fresh: bool,
}

/// What a run carries, as values.
pub struct RunModel<S> {
    pub epoch: Option<i64>,
    pub deaths: u32,
    pub resupply_due: bool,
    pub chest_was_spent: bool,
    pub loot_site: Option<S>,
    pub loot_tries: u32,
    pub leaving: bool,
    pub sweep_up: bool,
    pub seen: Seq<bool>,
    pub sweep_depth: Option<u8>,
    pub saw_any: bool,
    pub saw_eligible: bool,
    pub barren_floors: u32,
    pub leg: Option<Seq<char>>,
    pub legs: u32,
    pub halted: Option<(Halt, u64)>,
    pub note: Seq<char>,
    pub note_fresh: bool,
}

impl<S> View for Run<S> {
    type V = RunModel<S>;

    open spec fn view(&self) -> RunModel<S> {
        RunModel {
            epoch: self.epoch,
            deaths: self.deaths,
            resupply_due: self.resupply_due,
            chest_was_spent: self.chest_was_spent,
            loot_site: self.loot_site,
            loot_tries: self.loot_tries,
            leaving: self.leaving,
            sweep_up: self.sweep_up,
            seen: self.seen@,
            sweep_depth: self.sweep_depth,
            saw_any: self.saw_any,
            saw_eligible: self.saw_eligible,
            barren_floors: self.barren_floors,
            leg: match self.leg {
                Some(k) => Some(k@),
                None => None,
            },
            legs: self.legs,
            halted: self.halted,
            note: self.note@,
            note_fresh: self.note_fresh,
        }
    }
}

/// A fresh run: nothing seen, nothing owed.
pub open spec fn fresh_run<S>() -> RunModel<S> {
    RunModel {
        epoch: None,
        deaths: 0,
        resupply_due: false,
        chest_was_spent: false,
        loot_site: None,
        loot_tries: 0,
        leaving: false,
        sweep_up: false,
        seen: Seq::empty(),
        sweep_depth: None,
        saw_any: false,
        saw_eligible: false,
        barren_floors: 0,
        leg: None,
        legs: 0,
        halted: None,
        note: Seq::empty(),
        note_fresh: false,
    }
}

/// This floor's tour forgotten.
pub open spec fn restart_sweep_m<S>(m: RunModel<S>) -> RunModel<S> {
    RunModel { seen: Seq::empty(), sweep_depth: None, saw_any: false, saw_eligible: false, ..m }
}

/// Nightfall seen: a new epoch starts a fresh cycle, voiding every verdict
/// the last one reached; the first epoch seen only starts the count.
pub open spec fn observe_epoch_m<S>(m: RunModel<S>, epoch: Option<i64>) -> RunModel<S> {
    match epoch {
        None => m,
        Some(e) => if m.epoch == Some(e) {
            m
        } else if m.epoch is None {
            RunModel { epoch: Some(e), ..m }
        } else {
            restart_sweep_m(
                RunModel {
                    epoch: Some(e),
                    deaths: 0,
                    halted: None,
                    barren_floors: 0,
                    chest_was_spent: false,
                    loot_site: None,
                    leaving: false,
                    sweep_up: false,
                    ..m
                },
            )
        },
    }
}

/// The chest read as `spent` this tick; the moment it flips to spent starts
/// the errand that follows it.
pub open spec fn observe_chest_m<S>(m: RunModel<S>, spent: bool, site: Option<S>) -> RunModel<S> {
    if spent && !m.chest_was_spent {
        RunModel {
            resupply_due: true,
            loot_site: site,
            loot_tries: 0,
            leaving: true,
            chest_was_spent: spent,
            ..m
        }
    } else {
        RunModel { chest_was_spent: spent, ..m }
    }
}

/// The progress line set to `note`; news only when it changed.
pub open spec fn say_m<S>(m: RunModel<S>, note: Seq<char>) -> RunModel<S> {
    if m.note != note {
        RunModel { note, note_fresh: true, ..m }
    } else {
        m
    }
}

/// A leg counted: the same leg again adds one, another starts the count.
pub open spec fn walking_m<S>(m: RunModel<S>, key: Seq<char>) -> RunModel<S> {
    if m.leg == Some(key) {
        RunModel { legs: (m.legs + 1) as u32, ..m }
    } else {
        RunModel { leg: Some(key), legs: 1, ..m }
    }
}

/// The run stopped for `why` at `now` (once per reason), saying so.
pub open spec fn halt_m<S>(m: RunModel<S>, why: Halt, clause: Seq<char>, now: u64) -> RunModel<S> {
    if m.halted matches Some((h, _)) && h == why {
        m
    } else {
        say_m(RunModel { halted: Some((why, now)), ..m }, "Stopped: "@ + clause)
    }
}

/// Whether a halt is in force at `now`; the window expiring clears it.
pub open spec fn halted_now_m<S>(m: RunModel<S>, now: u64) -> (bool, RunModel<S>) {
    match m.halted {
        Some((_, at)) => if (if now >= at {
            now - at
        } else {
            0
        }) < HALT_RETRY_MS {
            (true, m)
        } else {
            (false, restart_sweep_m(RunModel { halted: None, barren_floors: 0, ..m }))
        },
        None => (false, m),
    }
}

/// This floor's tour started, with every stop stood at ticked off.
pub open spec fn look_around_m<S>(m: RunModel<S>, here: Seq<bool>, depth: u8) -> RunModel<S> {
    let keep = m.sweep_depth == Some(depth) && m.seen.len() == here.len();
    RunModel {
        sweep_depth: Some(depth),
        seen: Seq::new(here.len(), |i: int| here[i] || (keep && m.seen[i])),
        saw_any: keep && m.saw_any,
        saw_eligible: keep && m.saw_eligible,
        ..m
    }
}

/// A leg handed back, unless this same one has stopped landing: then the
/// run halts as stuck (when nothing else halted it) and idles.
pub open spec fn leg_m<S, P>(
    m: RunModel<S>,
    step: StepView<P>,
    key: Seq<char>,
    stuck_clause: Seq<char>,
    now: u64,
) -> (Seq<StepView<P>>, RunModel<S>) {
    let w = walking_m(m, key);
    if w.legs > LEG_TRIES {
        (
            seq![StepView::Idle],
            if w.halted is None {
                halt_m(w, Halt::Stuck, stuck_clause, now)
            } else {
                w
            },
        )
    } else {
        (seq![step], w)
    }
}

/// The next floor of the section `first..=last`: one floor on, turning
/// around at either end.
pub open spec fn next_floor_m<S>(m: RunModel<S>, depth: u8, first: u8, last: u8) -> (u8, RunModel<S>) {
    if first >= last {
        (depth, m)
    } else if m.sweep_up {
        if depth <= first {
            ((depth + 1) as u8, RunModel { sweep_up: false, ..m })
        } else {
            ((depth - 1) as u8, m)
        }
    } else if depth >= last {
        ((depth - 1) as u8, RunModel { sweep_up: true, ..m })
    } else {
        ((depth + 1) as u8, m)
    }
}

impl<S: Copy> Run<S> {
    /// A fresh run: nothing seen, nothing owed.
    pub fn new() -> (r: Self)
        ensures
            r@ == fresh_run::<S>(),
    {
        let r = Run {
            epoch: None,
            deaths: 0,
            resupply_due: false,
            chest_was_spent: false,
            loot_site: None,
            loot_tries: 0,
            leaving: false,
            sweep_up: false,
            seen: Vec::new(),
            sweep_depth: None,
            saw_any: false,
            saw_eligible: false,
            barren_floors: 0,
            leg: None,
            legs: 0,
            halted: None,
            note: String::new(),
            note_fresh: false,
        };
        assert(r@.seen =~= Seq::<bool>::empty());
        assert(r@.note =~= Seq::<char>::empty());
        r
    }

    /// Forget this floor's tour.
    pub fn restart_sweep(&mut self)
        ensures
            final(self)@ == restart_sweep_m(old(self)@),
    {
        self.seen.clear();
        self.sweep_depth = None;
        self.saw_any = false;
        self.saw_eligible = false;
        assert(self@.seen =~= Seq::<bool>::empty());
    }

    /// Nightfall: the dungeons reset and the chest owes its once-a-night
    /// again, so every verdict this cycle reached is void. The first epoch
    /// seen only starts the count.
    pub fn observe_epoch(&mut self, epoch: Option<i64>)
        ensures
            final(self)@ == observe_epoch_m(old(self)@, epoch),
    {
        let epoch = match epoch {
            Some(e) => e,
            None => return ,
        };
        if self.epoch == Some(epoch) {
            return ;
        }
        let fresh = self.epoch.is_some();
        self.epoch = Some(epoch);
        if fresh {
            self.deaths = 0;
            self.halted = None;
            self.barren_floors = 0;
            self.chest_was_spent = false;
            self.loot_site = None;
            self.leaving = false;
            self.sweep_up = false;
            self.restart_sweep();
        }
    }

    /// Count a death this cycle.
    pub fn died(&mut self)
        requires
            old(self).deaths < u32::MAX,
        ensures
            final(self)@ == (RunModel { deaths: (old(self).deaths + 1) as u32, ..old(self)@ }),
    {
        self.deaths = self.deaths + 1;
    }

    /// Watch the chest flip to spent. That one moment starts the errand
    /// that follows it: sweep up what it threw, climb out, then sell.
    pub fn observe_chest(&mut self, spent: bool, site: Option<S>)
        ensures
            final(self)@ == observe_chest_m(old(self)@, spent, site),
    {
        if spent && !self.chest_was_spent {
            self.resupply_due = true;
            self.loot_site = site;
            self.loot_tries = 0;
            self.leaving = true;
        }
        self.chest_was_spent = spent;
    }

    /// Whether the haul from an emptied chest is still unsold. Only once we
    /// are out: a merchant cannot be walked to from underground.
    pub fn resupply_is_due(&self) -> (r: bool)
        ensures
            r == (self.resupply_due && !self.leaving),
    {
        self.resupply_due && !self.leaving
    }

    /// A town trip is under way, so the errand that asked for it is
    /// answered whether or not the shop could help.
    pub fn town_trip_started(&mut self)
        ensures
            final(self)@ == (RunModel { resupply_due: false, ..old(self)@ }),
    {
        self.resupply_due = false;
    }

    /// The progress line, when it says something new.
    pub fn take_note(&mut self) -> (r: Option<String>)
        ensures
            old(self).note_fresh ==> (r matches Some(n) && n@ == old(self).note@),
            !old(self).note_fresh ==> r is None,
            final(self)@ == (RunModel { note_fresh: false, ..old(self)@ }),
    {
        if self.note_fresh {
            self.note_fresh = false;
            Some(self.note.clone())
        } else {
            None
        }
    }

    /// Set the progress line; it is news only when it changed.
    pub fn say(&mut self, note: String)
        ensures
            final(self)@ == say_m(old(self)@, note@),
    {
        if self.note != note {
            self.note = note;
            self.note_fresh = true;
        }
    }

    /// Count a leg, and say whether it has stopped being worth repeating:
    /// the same leg asked for more than `LEG_TRIES` ticks running.
    pub fn walking(&mut self, key: String) -> (wedged: bool)
        requires
            old(self).legs < u32::MAX,
        ensures
            final(self)@ == walking_m(old(self)@, key@),
            wedged == (final(self).legs > LEG_TRIES),
    {
        let same = match &self.leg {
            Some(k) => *k == key,
            None => false,
        };
        if same {
            self.legs = self.legs + 1;
        } else {
            self.leg = Some(key);
            self.legs = 1;
        }
        self.legs > LEG_TRIES
    }

    /// Stop the run for `why` (once per reason), saying why on the
    /// progress line. `clause` is `why` in the player's words.
    pub fn halt(&mut self, why: Halt, clause: &str, now: u64)
        ensures
            final(self)@ == halt_m(old(self)@, why, clause@, now),
    {
        let same = match self.halted {
            Some((h, _)) => h == why,
            None => false,
        };
        if !same {
            self.halted = Some((why, now));
            let mut note = String::from_str("Stopped: ");
            note.append(clause);
            self.say(note);
        }
    }

    /// Whether a halt is still in force at `now`. The window expiring
    /// clears it, so the tick decides afresh.
    pub fn halted_now(&mut self, now: u64) -> (r: bool)
        ensures
            (r, final(self)@) == halted_now_m(old(self)@, now),
    {
        match self.halted {
            Some((_, at)) => {
                if now.saturating_sub(at) < HALT_RETRY_MS {
                    true
                } else {
                    self.halted = None;
                    self.barren_floors = 0;
                    self.restart_sweep();
                    false
                }
            },
            None => false,
        }
    }

    /// Start this floor's tour, and tick off every stop we are standing at
    /// (`here[i]`: we stand at stop `i`). A new floor, or a tour of another
    /// length, starts afresh.
    pub fn look_around(&mut self, here: &Vec<bool>, depth: u8)
        ensures
            final(self)@ == look_around_m(old(self)@, here@, depth),
    {
        let keep = self.sweep_depth == Some(depth) && self.seen.len() == here.len();
        let mut seen: Vec<bool> = Vec::new();
        let mut k: usize = 0;
        while k < here.len()
            invariant
                k <= here@.len(),
                seen@.len() == k,
                keep ==> self.seen@.len() == here@.len(),
                forall|i: int| 0 <= i < k ==> seen@[i] == (here@[i] || (keep && self.seen@[i])),
            decreases here@.len() - k,
        {
            let was = keep && self.seen[k];
            seen.push(here[k] || was);
            k += 1;
        }
        if !keep {
            self.saw_any = false;
            self.saw_eligible = false;
        }
        self.sweep_depth = Some(depth);
        let ghost old_seen = self.seen@;
        self.seen = seen;
        assert(self@.seen =~= Seq::new(here@.len(), |i: int| here@[i] || (keep && old_seen[i])));
    }

    /// How many of this floor's stops have been stood at.
    pub fn swept(&self) -> (n: usize)
        ensures
            n == self.seen@.filter(|b: bool| b).len(),
    {
        let mut n: usize = 0;
        let mut k: usize = 0;
        assert(self.seen@.take(0).filter(|b: bool| b) == Seq::<bool>::empty());
        while k < self.seen.len()
            invariant
                k <= self.seen@.len(),
                n == self.seen@.take(k as int).filter(|b: bool| b).len(),
                n <= k,
            decreases self.seen@.len() - k,
        {
            proof {
                assert(self.seen@.take(k + 1) == self.seen@.take(k as int).push(self.seen@[k as int]));
                self.seen@.take(k as int).lemma_filter_len_push(|b: bool| b, self.seen@[k as int]);
            }
            if self.seen[k] {
                n += 1;
            }
            k += 1;
        }
        assert(self.seen@.take(k as int) == self.seen@);
        n
    }

    /// Hand back a leg, unless this same one has stopped landing: then the
    /// run halts as stuck (when nothing else halted it) and idles. `key`
    /// names the leg; `stuck_clause` is the stuck halt in the player's words.
    pub fn leg<P: Copy>(&mut self, step: Step<P>, key: String, stuck_clause: &str, now: u64) -> (r: Vec<Step<P>>)
        requires
            old(self).legs < u32::MAX,
        ensures
            (step_views(r@), final(self)@) == leg_m(old(self)@, step@, key@, stuck_clause@, now),
    {
        if self.walking(key) {
            if self.halted.is_none() {
                self.halt(Halt::Stuck, stuck_clause, now);
            }
            let r = vec![Step::Idle];
            assert(step_views(r@) == seq![StepView::<P>::Idle]);
            return r;
        }
        let ghost sv = step@;
        let r = vec![step];
        assert(step_views(r@) == seq![sv]);
        r
    }
}

/// The next floor of the section `first..=last` to sweep: one floor on,
/// turning around at either end (and flipping `sweep_up` there). Never a
/// jump back across the section.
pub fn next_floor<S: Copy>(depth: u8, first: u8, last: u8, run: &mut Run<S>) -> (next: u8)
    ensures
        (next, final(run)@) == next_floor_m(old(run)@, depth, first, last),
{
    if first >= last {
        return depth;
    }
    if run.sweep_up {
        if depth <= first {
            run.sweep_up = false;
            return depth + 1;
        }
        return depth - 1;
    }
    if depth >= last {
        run.sweep_up = true;
        return depth - 1;
    }
    depth + 1
}

/// Every tour hop is a single floor, inside the section from inside it,
/// and a one-floor section is never left.
pub proof fn law_the_tour_never_jumps<S>(m: RunModel<S>, depth: u8, first: u8, last: u8)
    ensures
        first < last ==> {
            let next = next_floor_m(m, depth, first, last).0;
            &&& first <= depth <= last ==> first <= next <= last
            &&& next == depth + 1 || next + 1 == depth
        },
        first >= last ==> next_floor_m(m, depth, first, last).0 == depth,
{
}

/// A progress line is news once: said again unchanged, nothing is fresh
/// that was not before, and a taken note stays taken.
pub proof fn law_a_note_is_news_once<S>(m: RunModel<S>, note: Seq<char>)
    ensures
        say_m(say_m(m, note), note) == say_m(m, note),
        say_m(RunModel { note_fresh: false, ..say_m(m, note) }, note) == (RunModel {
            note_fresh: false,
            ..say_m(m, note)
        }),
{
}

/// A halt is said once per reason: halting again for the reason in force
/// changes nothing, and its moment is when it first came.
pub proof fn law_a_halt_is_said_once<S>(m: RunModel<S>, why: Halt, clause: Seq<char>, t1: u64, t2: u64)
    ensures
        halt_m(halt_m(m, why, clause, t1), why, clause, t2) == halt_m(m, why, clause, t1),
{
}

/// A leg that never lands stops the run: asked for more than `LEG_TRIES`
/// ticks running, it is answered with an idle step, and the run halts as
/// stuck unless another halt is in force.
pub proof fn law_a_wedged_leg_halts_the_run<S, P>(
    m: RunModel<S>,
    step: StepView<P>,
    key: Seq<char>,
    clause: Seq<char>,
    now: u64,
)
    requires
        m.leg == Some(key),
        m.legs >= LEG_TRIES,
        m.legs < u32::MAX,
    ensures
        leg_m(m, step, key, clause, now).0 == seq![StepView::<P>::Idle],
        m.halted is None ==> leg_m(m, step, key, clause, now).1.halted == Some((Halt::Stuck, now)),
{
}

/// Nightfall voids the cycle: after a new epoch the deaths, the halt, the
/// barren count and the tour start over, whatever the last night reached.
pub proof fn law_nightfall_starts_a_fresh_cycle<S>(m: RunModel<S>, e: i64)
    requires
        m.epoch is Some,
        m.epoch != Some(e),
    ensures
        ({
            let n = observe_epoch_m(m, Some(e));
            &&& n.deaths == 0
            &&& n.halted is None
            &&& n.barren_floors == 0
            &&& n.seen.len() == 0
            &&& n.sweep_depth is None
            &&& n.epoch == Some(e)
            &&& n.resupply_due == m.resupply_due
        }),
{
}

} // verus!
