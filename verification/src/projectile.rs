//! When shots, darts and drones leave, and when they are cleared away.
use crate::EntityId;
use vstd::prelude::*;

verus! {

/// A timer that runs out once and stays so until it is wound up again. Times are in nanoseconds.
#[derive(Debug, Clone, Copy, PartialEq, Eq, Structural)]
pub struct OnceTimer {
    pub duration_ns: u64,
    pub elapsed_ns: u64,
    pub finished: bool,
}

impl OnceTimer {
    pub open spec fn wound(duration_ns: u64) -> OnceTimer {
        OnceTimer { duration_ns, elapsed_ns: 0, finished: false }
    }

    /// The timer after some time has passed.
    pub open spec fn ticked(self, delta_ns: nat) -> OnceTimer {
        if self.finished {
            self
        } else if self.elapsed_ns + delta_ns >= self.duration_ns {
            OnceTimer { elapsed_ns: self.duration_ns, finished: true, ..self }
        } else {
            OnceTimer { elapsed_ns: (self.elapsed_ns + delta_ns) as u64, ..self }
        }
    }

    /// A timer that has all its time before it.
    pub fn new(duration_ns: u64) -> (r: Self)
        ensures
            r == Self::wound(duration_ns),
    {
        OnceTimer { duration_ns, elapsed_ns: 0, finished: false }
    }

    /// Lets time pass.
    pub fn tick(&mut self, delta_ns: u64)
        ensures
            *final(self) == old(self).ticked(delta_ns as nat),
    {
        if self.finished {
            return;
        }
        let elapsed_ns: u64 = self.elapsed_ns.saturating_add(delta_ns);
        if elapsed_ns >= self.duration_ns {
            self.elapsed_ns = self.duration_ns;
            self.finished = true;
        } else {
            self.elapsed_ns = elapsed_ns;
        }
    }

    /// Winds the timer up again.
    pub fn reset(&mut self)
        ensures
            *final(self) == Self::wound(old(self).duration_ns),
    {
        self.elapsed_ns = 0;
        self.finished = false;
    }

    pub fn is_finished(&self) -> (r: bool)
        ensures
            r == self.finished,
    {
        self.finished
    }
}

/// A timer after time has passed in several steps.
pub open spec fn after_steps(timer: OnceTimer, steps: Seq<nat>) -> OnceTimer
    decreases steps.len(),
{
    if steps.len() == 0 {
        timer
    } else {
        after_steps(timer, steps.drop_last()).ticked(steps.last())
    }
}

/// A wound up timer has run out after some steps if and only if together they are as long as it
/// runs. So two shots lie at least a cooldown apart, and a projectile lives just as long as it may.
pub proof fn law_timer_runs_out_in_its_time(duration_ns: u64, steps: Seq<nat>)
    requires
        steps.len() > 0,
    ensures
        after_steps(OnceTimer::wound(duration_ns), steps).finished <==> crate::rate_limiter::total(
            steps,
        ) >= duration_ns,
{
    lemma_after_steps(duration_ns, steps);
}

proof fn lemma_after_steps(duration_ns: u64, steps: Seq<nat>)
    ensures
        ({
            let timer = after_steps(OnceTimer::wound(duration_ns), steps);
            let total = crate::rate_limiter::total(steps);
            &&& timer.duration_ns == duration_ns
            &&& timer.finished <==> steps.len() > 0 && total >= duration_ns
            &&& !timer.finished ==> timer.elapsed_ns == total
        }),
    decreases steps.len(),
{
    if steps.len() > 0 {
        lemma_after_steps(duration_ns, steps.drop_last());
        if steps.len() == 1 {
            assert(steps.drop_last().len() == 0);
        }
    }
}

/// What comes of pulling the trigger.
#[derive(Debug, Clone, Copy, PartialEq, Eq, Structural)]
pub enum Launch {
    /// The last shot is too recent.
    Waiting,
    /// The shot counts, but the barrel points nowhere.
    Misfire,
    /// The shot counts and leaves the barrel.
    Fire,
}

/// Pulls the trigger for a frame. The cooldown only runs while the trigger is pulled, and starts
/// anew with every shot that counts.
pub fn projectile_launch(cooldown: &mut OnceTimer, delta_ns: u64, aimed: bool) -> (r: Launch)
    ensures
        ({
            let after = old(cooldown).ticked(delta_ns as nat);
            if !after.finished {
                r == Launch::Waiting && *final(cooldown) == after
            } else {
                r == (if aimed {
                    Launch::Fire
                } else {
                    Launch::Misfire
                }) && *final(cooldown) == OnceTimer::wound(old(cooldown).duration_ns)
            }
        }),
{
    cooldown.tick(delta_ns);
    if !cooldown.is_finished() {
        return Launch::Waiting;
    }
    cooldown.reset();
    if aimed {
        Launch::Fire
    } else {
        Launch::Misfire
    }
}

/// Whether a dart leaves and counts: there must be exactly one launcher, and it must point somewhere.
pub fn dart_launch(launchers: &Vec<EntityId>, aimed: bool) -> (r: Option<EntityId>)
    ensures
        r == (if launchers@.len() == 1 && aimed {
            Some(launchers@[0])
        } else {
            None
        }),
{
    if launchers.len() == 1 && aimed {
        Some(launchers[0])
    } else {
        None
    }
}

/// How long the key for drones is ignored, in nanoseconds.
pub const UAV_INTERVAL_NS: u64 = 1_000_000_000;

/// Whether a drone is set down: once a second, if the key is held at that moment. The timer is made
/// in the first frame.
pub fn uav_launch(timer: &mut Option<OnceTimer>, delta_ns: u64, pressed: bool) -> (r: bool)
    ensures
        ({
            let before = match *old(timer) {
                Some(timer) => timer,
                None => OnceTimer::wound(UAV_INTERVAL_NS),
            };
            let after = before.ticked(delta_ns as nat);
            &&& r == (after.finished && pressed)
            &&& *final(timer) == Some(
                if after.finished {
                    OnceTimer::wound(before.duration_ns)
                } else {
                    after
                },
            )
        }),
        *old(timer) is None ==> r == (delta_ns >= 1_000_000_000 && pressed),
{
    let mut running: OnceTimer = match *timer {
        Some(timer) => timer,
        None => OnceTimer::new(UAV_INTERVAL_NS),
    };
    running.tick(delta_ns);
    if !running.is_finished() {
        *timer = Some(running);
        return false;
    }
    running.reset();
    *timer = Some(running);
    pressed
}

/// A projectile and the time that it has left.
#[derive(Debug, Clone, Copy, PartialEq, Eq, Structural)]
pub struct ProjectileLifetime {
    pub entity: EntityId,
    pub timer: OnceTimer,
}

impl ProjectileLifetime {
    pub open spec fn ticked(self, delta_ns: nat) -> ProjectileLifetime {
        ProjectileLifetime { timer: self.timer.ticked(delta_ns), ..self }
    }
}

/// The projectiles among the first `n` that live on.
pub open spec fn living(projectiles: Seq<ProjectileLifetime>, delta_ns: nat, n: int) -> Seq<
    ProjectileLifetime,
>
    decreases n,
{
    if n <= 0 {
        Seq::empty()
    } else {
        let after = projectiles[n - 1].ticked(delta_ns);
        if after.timer.finished {
            living(projectiles, delta_ns, n - 1)
        } else {
            living(projectiles, delta_ns, n - 1).push(after)
        }
    }
}

/// The projectiles among the first `n` whose time is up.
pub open spec fn expired(projectiles: Seq<ProjectileLifetime>, delta_ns: nat, n: int) -> Seq<
    EntityId,
>
    decreases n,
{
    if n <= 0 {
        Seq::empty()
    } else {
        let after = projectiles[n - 1].ticked(delta_ns);
        if after.timer.finished {
            expired(projectiles, delta_ns, n - 1).push(after.entity)
        } else {
            expired(projectiles, delta_ns, n - 1)
        }
    }
}

/// Lets time pass for all projectiles, and gives those that are to be cleared away.
pub fn cleanup_projectiles(projectiles: &mut Vec<ProjectileLifetime>, delta_ns: u64) -> (r: Vec<
    EntityId,
>)
    ensures
        final(projectiles)@ == living(
            old(projectiles)@,
            delta_ns as nat,
            old(projectiles)@.len() as int,
        ),
        r@ == expired(old(projectiles)@, delta_ns as nat, old(projectiles)@.len() as int),
{
    let mut left: Vec<ProjectileLifetime> = Vec::new();
    let mut gone: Vec<EntityId> = Vec::new();
    let mut i: usize = 0;
    while i < projectiles.len()
        invariant
            i <= projectiles@.len(),
            left@ == living(projectiles@, delta_ns as nat, i as int),
            gone@ == expired(projectiles@, delta_ns as nat, i as int),
        decreases projectiles@.len() - i,
    {
        let mut timer: OnceTimer = projectiles[i].timer;
        timer.tick(delta_ns);
        if timer.is_finished() {
            gone.push(projectiles[i].entity);
        } else {
            left.push(ProjectileLifetime { entity: projectiles[i].entity, timer });
        }
        i = i + 1;
    }
    *projectiles = left;
    gone
}

/// Every projectile either lives on or is cleared away.
pub proof fn law_no_projectile_is_forgotten(
    projectiles: Seq<ProjectileLifetime>,
    delta_ns: nat,
    i: int,
    n: int,
)
    requires
        0 <= i < n <= projectiles.len(),
    ensures
        if projectiles[i].ticked(delta_ns).timer.finished {
            expired(projectiles, delta_ns, n).contains(projectiles[i].entity)
        } else {
            living(projectiles, delta_ns, n).contains(projectiles[i].ticked(delta_ns))
        },
    decreases n,
{
    let after = projectiles[n - 1].ticked(delta_ns);
    let gone = expired(projectiles, delta_ns, n);
    let left = living(projectiles, delta_ns, n);
    let gone_before = expired(projectiles, delta_ns, n - 1);
    let left_before = living(projectiles, delta_ns, n - 1);
    if i == n - 1 {
        if after.timer.finished {
            assert(gone[gone_before.len() as int] == after.entity);
        } else {
            assert(left[left_before.len() as int] == after);
        }
    } else {
        law_no_projectile_is_forgotten(projectiles, delta_ns, i, n - 1);
        if projectiles[i].ticked(delta_ns).timer.finished {
            let k = choose|k: int|
                0 <= k < gone_before.len() && gone_before[k] == projectiles[i].entity;
            assert(gone[k] == projectiles[i].entity);
        } else {
            let k = choose|k: int|
                0 <= k < left_before.len() && left_before[k] == projectiles[i].ticked(delta_ns);
            assert(left[k] == projectiles[i].ticked(delta_ns));
        }
    }
}

/// A timer that has run out stays so and keeps its time, and no timer counts further than it runs.
pub proof fn law_a_timer_runs_out_once(timer: OnceTimer, delta_ns: nat)
    requires
        timer.elapsed_ns <= timer.duration_ns,
    ensures
        timer.finished ==> timer.ticked(delta_ns) == timer,
        !timer.finished ==> (timer.ticked(delta_ns).finished <==> timer.elapsed_ns + delta_ns
            >= timer.duration_ns),
        !timer.finished && timer.elapsed_ns + delta_ns < timer.duration_ns ==> timer.ticked(
            delta_ns,
        ).elapsed_ns == timer.elapsed_ns + delta_ns,
        timer.ticked(delta_ns).duration_ns == timer.duration_ns,
        timer.ticked(delta_ns).elapsed_ns <= timer.duration_ns,
        OnceTimer::wound(timer.duration_ns).elapsed_ns == 0,
        !OnceTimer::wound(timer.duration_ns).finished,
        OnceTimer::wound(timer.duration_ns).duration_ns == timer.duration_ns,
{
}

/// Projectiles are cleared away only when their time is up, and those that live on keep their order
/// and the time that has passed for them; together they are as many as before.
pub proof fn law_only_expired_projectiles_go(
    projectiles: Seq<ProjectileLifetime>,
    delta_ns: nat,
    n: int,
)
    requires
        0 <= n <= projectiles.len(),
    ensures
        living(projectiles, delta_ns, n).len() + expired(projectiles, delta_ns, n).len() == n,
        forall|k: int|
            0 <= k < expired(projectiles, delta_ns, n).len() ==> exists|i: int|
                0 <= i < n && (#[trigger] projectiles[i]).entity == #[trigger] expired(
                    projectiles,
                    delta_ns,
                    n,
                )[k] && projectiles[i].timer.ticked(delta_ns).finished,
        forall|k: int|
            0 <= k < living(projectiles, delta_ns, n).len() ==> exists|i: int|
                0 <= i < n && (#[trigger] living(projectiles, delta_ns, n)[k])
                    == (ProjectileLifetime {
                    entity: (#[trigger] projectiles[i]).entity,
                    timer: projectiles[i].timer.ticked(delta_ns),
                }) && !projectiles[i].timer.ticked(delta_ns).finished,
    decreases n,
{
    if n > 0 {
        law_only_expired_projectiles_go(projectiles, delta_ns, n - 1);
        let gone = expired(projectiles, delta_ns, n);
        let gone_before = expired(projectiles, delta_ns, n - 1);
        let left = living(projectiles, delta_ns, n);
        let left_before = living(projectiles, delta_ns, n - 1);
        let last = projectiles[n - 1];
        assert forall|k: int| 0 <= k < gone.len() implies exists|i: int|
            0 <= i < n && (#[trigger] projectiles[i]).entity == #[trigger] gone[k]
                && projectiles[i].timer.ticked(delta_ns).finished by {
            if k < gone_before.len() {
                assert(gone[k] == gone_before[k]);
            } else {
                assert(projectiles[n - 1].entity == gone[k]);
            }
        }
        assert forall|k: int| 0 <= k < left.len() implies exists|i: int|
            0 <= i < n && (#[trigger] left[k]) == (ProjectileLifetime {
                entity: (#[trigger] projectiles[i]).entity,
                timer: projectiles[i].timer.ticked(delta_ns),
            }) && !projectiles[i].timer.ticked(delta_ns).finished by {
            if k < left_before.len() {
                assert(left[k] == left_before[k]);
            } else {
                assert(projectiles[n - 1] == last);
            }
        }
    }
}

} // verus!
