//! What the gimbal commands that arrived since the last frame do.
use crate::rate_limiter::AverageRateLimiter;
use vstd::prelude::*;

verus! {

/// What matters of a gimbal command besides its angles.
#[derive(Debug, Clone, Copy, PartialEq, Eq, Structural)]
pub struct GimbalCommand {
    /// The solver has no solution: the target is to be dropped.
    pub target_lost: bool,
    pub fire_advice: bool,
}

/// What becomes of the aim.
#[derive(Debug, Clone, Copy, PartialEq, Eq, Structural)]
pub enum AimChange {
    /// No command arrived.
    Keep,
    /// The target is dropped, so that nothing drives the gimbal any more.
    Drop,
    /// The angle differences of all the commands, summed, shift the aim.
    Shift,
}

/// What a frame's commands ask for.
#[derive(Debug)]
pub struct SubscriptionPlan {
    pub aim: AimChange,
    /// The commands that fire, by their place.
    pub launches: Vec<usize>,
    /// The commands that are echoed, by their place.
    pub echoes: Vec<usize>,
}

/// Time that counts, launches and so on after some commands.
pub ghost struct Drained {
    pub fire_elapsed: nat,
    pub echo_elapsed: nat,
    pub launches: Seq<usize>,
    pub echoes: Seq<usize>,
    pub lost: bool,
}

/// What draining the first `n` commands does, given what the two limiters have counted and their
/// periods. A lost target ends it, and such a command does not fire.
pub open spec fn drained(
    commands: Seq<GimbalCommand>,
    fire_elapsed: nat,
    fire_period: nat,
    echo_elapsed: nat,
    echo_period: nat,
    n: int,
) -> Drained
    decreases n,
{
    if n <= 0 {
        Drained {
            fire_elapsed,
            echo_elapsed,
            launches: Seq::empty(),
            echoes: Seq::empty(),
            lost: false,
        }
    } else {
        let before = drained(commands, fire_elapsed, fire_period, echo_elapsed, echo_period, n - 1);
        let command = commands[n - 1];
        if before.lost {
            before
        } else {
            let echoes = before.echo_elapsed == echo_period;
            let fires = !command.target_lost && command.fire_advice && before.fire_elapsed
                == fire_period;
            Drained {
                fire_elapsed: if fires {
                    0
                } else {
                    before.fire_elapsed
                },
                echo_elapsed: if echoes {
                    0
                } else {
                    before.echo_elapsed
                },
                launches: if fires {
                    before.launches.push((n - 1) as usize)
                } else {
                    before.launches
                },
                echoes: if echoes {
                    before.echoes.push((n - 1) as usize)
                } else {
                    before.echoes
                },
                lost: command.target_lost,
            }
        }
    }
}

proof fn lemma_lost_stays(
    commands: Seq<GimbalCommand>,
    fire_elapsed: nat,
    fire_period: nat,
    echo_elapsed: nat,
    echo_period: nat,
    i: int,
    n: int,
)
    requires
        i <= n,
        drained(commands, fire_elapsed, fire_period, echo_elapsed, echo_period, i).lost,
    ensures
        drained(commands, fire_elapsed, fire_period, echo_elapsed, echo_period, n) == drained(
            commands,
            fire_elapsed,
            fire_period,
            echo_elapsed,
            echo_period,
            i,
        ),
    decreases n - i,
{
    if i < n {
        lemma_lost_stays(
            commands,
            fire_elapsed,
            fire_period,
            echo_elapsed,
            echo_period,
            i,
            n - 1,
        );
    }
}

/// The time that a limiter counts after more time has passed.
pub open spec fn ticked(elapsed: nat, period: nat, delta: nat) -> nat {
    if elapsed + delta < period {
        elapsed + delta
    } else {
        period
    }
}

/// Drains the commands of a frame. Commands are angle differences, so all of them count towards one
/// shift of the aim; firing and echoing are limited.
pub fn process_subscription(
    commands: &Vec<GimbalCommand>,
    fire_limiter: &mut AverageRateLimiter,
    echo_limiter: &mut AverageRateLimiter,
    delta_ns: u128,
) -> (r: SubscriptionPlan)
    ensures
        final(fire_limiter).period() == old(fire_limiter).period(),
        final(echo_limiter).period() == old(echo_limiter).period(),
        ({
            let end = drained(
                commands@,
                ticked(old(fire_limiter).elapsed(), old(fire_limiter).period(), delta_ns as nat),
                old(fire_limiter).period(),
                ticked(old(echo_limiter).elapsed(), old(echo_limiter).period(), delta_ns as nat),
                old(echo_limiter).period(),
                commands@.len() as int,
            );
            &&& r.launches@ == end.launches
            &&& r.echoes@ == end.echoes
            &&& final(fire_limiter).elapsed() == end.fire_elapsed
            &&& final(echo_limiter).elapsed() == end.echo_elapsed
            &&& r.aim == (if end.lost {
                AimChange::Drop
            } else if commands@.len() == 0 {
                AimChange::Keep
            } else {
                AimChange::Shift
            })
        }),
{
    fire_limiter.tick(delta_ns);
    echo_limiter.tick(delta_ns);
    let ghost fire_period = fire_limiter.period();
    let ghost echo_period = echo_limiter.period();
    let ghost fire_elapsed = fire_limiter.elapsed();
    let ghost echo_elapsed = echo_limiter.elapsed();
    let mut launches: Vec<usize> = Vec::new();
    let mut echoes: Vec<usize> = Vec::new();
    let mut i: usize = 0;
    while i < commands.len()
        invariant
            i <= commands@.len(),
            fire_period == old(fire_limiter).period(),
            echo_period == old(echo_limiter).period(),
            fire_elapsed == ticked(
                old(fire_limiter).elapsed(),
                old(fire_limiter).period(),
                delta_ns as nat,
            ),
            echo_elapsed == ticked(
                old(echo_limiter).elapsed(),
                old(echo_limiter).period(),
                delta_ns as nat,
            ),
            fire_limiter.period() == fire_period,
            echo_limiter.period() == echo_period,
            drained(
                commands@,
                fire_elapsed,
                fire_period,
                echo_elapsed,
                echo_period,
                i as int,
            ) == (Drained {
                fire_elapsed: fire_limiter.elapsed(),
                echo_elapsed: echo_limiter.elapsed(),
                launches: launches@,
                echoes: echoes@,
                lost: false,
            }),
        decreases commands@.len() - i,
    {
        let command: GimbalCommand = commands[i];
        if echo_limiter.allow() {
            echoes.push(i);
        }
        if command.target_lost {
            proof {
                lemma_lost_stays(
                    commands@,
                    fire_elapsed,
                    fire_period,
                    echo_elapsed,
                    echo_period,
                    i + 1,
                    commands@.len() as int,
                );
            }
            return SubscriptionPlan { aim: AimChange::Drop, launches, echoes };
        }
        if command.fire_advice {
            if fire_limiter.allow() {
                launches.push(i);
            }
        }
        i = i + 1;
    }
    let aim: AimChange = if commands.len() == 0 {
        AimChange::Keep
    } else {
        AimChange::Shift
    };
    SubscriptionPlan { aim, launches, echoes }
}

/// However many commands a frame drains, at most one of them fires, as long as firing is limited at
/// all.
pub proof fn law_at_most_one_launch_per_frame(
    commands: Seq<GimbalCommand>,
    fire_elapsed: nat,
    fire_period: nat,
    echo_elapsed: nat,
    echo_period: nat,
    n: int,
)
    requires
        fire_period > 0,
        fire_elapsed <= fire_period,
    ensures
        drained(
            commands,
            fire_elapsed,
            fire_period,
            echo_elapsed,
            echo_period,
            n,
        ).launches.len() <= 1,
{
    lemma_one_launch(commands, fire_elapsed, fire_period, echo_elapsed, echo_period, n);
}

proof fn lemma_one_launch(
    commands: Seq<GimbalCommand>,
    fire_elapsed: nat,
    fire_period: nat,
    echo_elapsed: nat,
    echo_period: nat,
    n: int,
)
    requires
        fire_period > 0,
        fire_elapsed <= fire_period,
    ensures
        ({
            let d = drained(
                commands,
                fire_elapsed,
                fire_period,
                echo_elapsed,
                echo_period,
                n,
            );
            &&& d.launches.len() <= 1
            &&& d.launches.len() == 1 ==> d.fire_elapsed == 0
        }),
    decreases n,
{
    if n > 0 {
        lemma_one_launch(commands, fire_elapsed, fire_period, echo_elapsed, echo_period, n - 1);
    }
}

/// A frame: the time since the last one and the commands that it drains.
pub ghost struct CommandFrame {
    pub delta: nat,
    pub commands: Seq<GimbalCommand>,
}

/// What the two limiters count.
pub ghost struct Counted {
    pub fire_elapsed: nat,
    pub echo_elapsed: nat,
}

/// What draining one frame does.
pub open spec fn frame_drained(
    frame: CommandFrame,
    counted: Counted,
    fire_period: nat,
    echo_period: nat,
) -> Drained {
    drained(
        frame.commands,
        ticked(counted.fire_elapsed, fire_period, frame.delta),
        fire_period,
        ticked(counted.echo_elapsed, echo_period, frame.delta),
        echo_period,
        frame.commands.len() as int,
    )
}

/// What the limiters count after the first `n` frames.
pub open spec fn counted_after(
    frames: Seq<CommandFrame>,
    start: Counted,
    fire_period: nat,
    echo_period: nat,
    n: int,
) -> Counted
    decreases n,
{
    if n <= 0 {
        start
    } else {
        let before = counted_after(frames, start, fire_period, echo_period, n - 1);
        let end = frame_drained(frames[n - 1], before, fire_period, echo_period);
        Counted { fire_elapsed: end.fire_elapsed, echo_elapsed: end.echo_elapsed }
    }
}

/// Whether a frame fires.
pub open spec fn fires_in(
    frames: Seq<CommandFrame>,
    start: Counted,
    fire_period: nat,
    echo_period: nat,
    i: int,
) -> bool {
    frame_drained(
        frames[i],
        counted_after(frames, start, fire_period, echo_period, i),
        fire_period,
        echo_period,
    ).launches.len() > 0
}

/// The time from the frame behind place `i` up to the one at place `j`.
pub open spec fn time_between(frames: Seq<CommandFrame>, i: int, j: int) -> nat
    decreases j - i,
{
    if j <= i {
        0
    } else {
        time_between(frames, i, j - 1) + frames[j].delta
    }
}

/// However many commands ask for it, and in whatever frames they arrive, two launches lie at least
/// the period of the fire limiter apart.
pub proof fn law_launches_lie_a_period_apart(
    frames: Seq<CommandFrame>,
    start: Counted,
    fire_period: nat,
    echo_period: nat,
    i: int,
    j: int,
)
    requires
        fire_period > 0,
        0 <= i < j < frames.len(),
        fires_in(frames, start, fire_period, echo_period, i),
        fires_in(frames, start, fire_period, echo_period, j),
    ensures
        time_between(frames, i, j) >= fire_period,
{
    lemma_counts_at_most_the_time(frames, start, fire_period, echo_period, i, j);
    let before = counted_after(frames, start, fire_period, echo_period, j);
    lemma_a_launch_starts_over(
        frames[j].commands,
        ticked(before.fire_elapsed, fire_period, frames[j].delta),
        fire_period,
        ticked(before.echo_elapsed, echo_period, frames[j].delta),
        echo_period,
        frames[j].commands.len() as int,
    );
}

/// A frame counts no time of its own, and one that fires had a whole period counted and starts over.
proof fn lemma_a_launch_starts_over(
    commands: Seq<GimbalCommand>,
    fire_elapsed: nat,
    fire_period: nat,
    echo_elapsed: nat,
    echo_period: nat,
    n: int,
)
    requires
        fire_period > 0,
    ensures
        ({
            let end = drained(
                commands,
                fire_elapsed,
                fire_period,
                echo_elapsed,
                echo_period,
                n,
            );
            &&& end.fire_elapsed <= fire_elapsed
            &&& end.launches.len() > 0 ==> end.fire_elapsed == 0 && fire_elapsed == fire_period
            &&& end.launches.len() == 0 ==> end.fire_elapsed == fire_elapsed
        }),
    decreases n,
{
    if n > 0 {
        lemma_a_launch_starts_over(
            commands,
            fire_elapsed,
            fire_period,
            echo_elapsed,
            echo_period,
            n - 1,
        );
    }
}

/// Behind a frame that fires, no more time is counted than has passed.
proof fn lemma_counts_at_most_the_time(
    frames: Seq<CommandFrame>,
    start: Counted,
    fire_period: nat,
    echo_period: nat,
    i: int,
    j: int,
)
    requires
        fire_period > 0,
        0 <= i < j <= frames.len(),
        fires_in(frames, start, fire_period, echo_period, i),
    ensures
        counted_after(frames, start, fire_period, echo_period, j).fire_elapsed <= time_between(
            frames,
            i,
            j - 1,
        ),
    decreases j - i,
{
    let before = counted_after(frames, start, fire_period, echo_period, j - 1);
    let frame = frames[j - 1];
    lemma_a_launch_starts_over(
        frame.commands,
        ticked(before.fire_elapsed, fire_period, frame.delta),
        fire_period,
        ticked(before.echo_elapsed, echo_period, frame.delta),
        echo_period,
        frame.commands.len() as int,
    );
    if j - 1 > i {
        lemma_counts_at_most_the_time(frames, start, fire_period, echo_period, i, j - 1);
    }
}

/// What a frame's commands do, one by one. A lost target ends the frame. Up to there, a command fires
/// exactly if it says so and, where firing is limited, the limiter is ready and no earlier one has
/// asked; and where echoing is limited, only the first is echoed.
pub proof fn law_what_each_command_does(
    commands: Seq<GimbalCommand>,
    fire_elapsed: nat,
    fire_period: nat,
    echo_elapsed: nat,
    echo_period: nat,
    n: int,
    i: usize,
)
    requires
        0 <= n <= commands.len() <= usize::MAX,
        fire_elapsed <= fire_period,
        echo_elapsed <= echo_period,
    ensures
        ({
            let end = drained(commands, fire_elapsed, fire_period, echo_elapsed, echo_period, n);
            let reached = i < n && forall|k: int|
                0 <= k < i ==> !(#[trigger] commands[k]).target_lost;
            &&& end.lost <==> exists|k: int| 0 <= k < n && (#[trigger] commands[k]).target_lost
            &&& end.launches.contains(i) <==> {
                &&& reached
                &&& !commands[i as int].target_lost
                &&& commands[i as int].fire_advice
                &&& fire_period == 0 || (fire_elapsed == fire_period && forall|k: int|
                    0 <= k < i ==> !(#[trigger] commands[k]).fire_advice)
            }
            &&& end.echoes.contains(i) <==> {
                &&& reached
                &&& echo_period == 0 || (echo_elapsed == echo_period && i == 0)
            }
        }),
{
    lemma_drained(commands, fire_elapsed, fire_period, echo_elapsed, echo_period, n);
    let end = drained(commands, fire_elapsed, fire_period, echo_elapsed, echo_period, n);
    assert(end.launches.contains(i) <==> fires_at(commands, fire_elapsed, fire_period, n, i));
    assert(end.echoes.contains(i) <==> echoes_at(commands, echo_elapsed, echo_period, n, i));
}

/// Whether the command at a place of the first `n` fires.
pub open spec fn fires_at(
    commands: Seq<GimbalCommand>,
    fire_elapsed: nat,
    fire_period: nat,
    n: int,
    i: usize,
) -> bool {
    &&& i < n
    &&& forall|k: int| 0 <= k <= i ==> !(#[trigger] commands[k]).target_lost
    &&& commands[i as int].fire_advice
    &&& fire_period == 0 || (fire_elapsed == fire_period && forall|k: int|
        0 <= k < i ==> !(#[trigger] commands[k]).fire_advice)
}

/// Whether the command at a place of the first `n` is echoed.
pub open spec fn echoes_at(
    commands: Seq<GimbalCommand>,
    echo_elapsed: nat,
    echo_period: nat,
    n: int,
    i: usize,
) -> bool {
    &&& i < n
    &&& forall|k: int| 0 <= k < i ==> !(#[trigger] commands[k]).target_lost
    &&& echo_period == 0 || (echo_elapsed == echo_period && i == 0)
}

proof fn lemma_drained(
    commands: Seq<GimbalCommand>,
    fire_elapsed: nat,
    fire_period: nat,
    echo_elapsed: nat,
    echo_period: nat,
    n: int,
)
    requires
        0 <= n <= commands.len() <= usize::MAX,
        fire_elapsed <= fire_period,
        echo_elapsed <= echo_period,
    ensures
        ({
            let end = drained(commands, fire_elapsed, fire_period, echo_elapsed, echo_period, n);
            &&& end.lost <==> exists|k: int| 0 <= k < n && (#[trigger] commands[k]).target_lost
            &&& !end.lost ==> end.fire_elapsed == (if fire_elapsed == fire_period && exists|k: int|
                0 <= k < n && (#[trigger] commands[k]).fire_advice {
                0
            } else {
                fire_elapsed
            })
            &&& !end.lost ==> end.echo_elapsed == (if echo_elapsed == echo_period && n > 0 {
                0
            } else {
                echo_elapsed
            })
            &&& forall|i: usize| #[trigger]
                end.launches.contains(i) <==> fires_at(commands, fire_elapsed, fire_period, n, i)
            &&& forall|i: usize| #[trigger]
                end.echoes.contains(i) <==> echoes_at(commands, echo_elapsed, echo_period, n, i)
        }),
    decreases n,
{
    if n > 0 {
        lemma_drained(commands, fire_elapsed, fire_period, echo_elapsed, echo_period, n - 1);
        let before = drained(
            commands,
            fire_elapsed,
            fire_period,
            echo_elapsed,
            echo_period,
            n - 1,
        );
        let end = drained(commands, fire_elapsed, fire_period, echo_elapsed, echo_period, n);
        let last = commands[n - 1];
        if before.lost {
            let k = choose|k: int| 0 <= k < n - 1 && (#[trigger] commands[k]).target_lost;
            assert(commands[k].target_lost);
        }
        assert(before.lost ==> exists|k: int|
            0 <= k < n && (#[trigger] commands[k]).target_lost);
        assert forall|i: usize| #[trigger]
            end.launches.contains(i) <==> fires_at(commands, fire_elapsed, fire_period, n, i) by {
            lemma_in_launches(before.launches, (n - 1) as usize, i);
            assert(before.launches.contains(i) <==> fires_at(
                commands,
                fire_elapsed,
                fire_period,
                n - 1,
                i,
            ));
        }
        assert forall|i: usize| #[trigger]
            end.echoes.contains(i) <==> echoes_at(commands, echo_elapsed, echo_period, n, i) by {
            lemma_in_launches(before.echoes, (n - 1) as usize, i);
            assert(before.echoes.contains(i) <==> echoes_at(
                commands,
                echo_elapsed,
                echo_period,
                n - 1,
                i,
            ));
        }
    }
}

proof fn lemma_in_launches(list: Seq<usize>, last: usize, i: usize)
    ensures
        list.push(last).contains(i) <==> list.contains(i) || i == last,
{
    let all = list.push(last);
    if list.contains(i) {
        let k = choose|k: int| 0 <= k < list.len() && list[k] == i;
        assert(all[k] == i);
    }
    if i == last {
        assert(all[list.len() as int] == i);
    }
    if all.contains(i) && i != last {
        let k = choose|k: int| 0 <= k < all.len() && all[k] == i;
        assert(list[k] == i);
    }
}

/// A limiter counts the time that passes, up to its period and no further.
pub proof fn law_limiters_count_up_to_their_period(elapsed: nat, period: nat, delta: nat)
    requires
        elapsed <= period,
    ensures
        ticked(elapsed, period, delta) <= period,
        ticked(elapsed, period, delta) == period <==> elapsed + delta >= period,
        elapsed + delta <= period ==> ticked(elapsed, period, delta) == elapsed + delta,
{
}

} // verus!
