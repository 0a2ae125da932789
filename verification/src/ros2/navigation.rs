//! Velocity commands of a navigation stack.
use crate::rate_limiter::AverageRateLimiter;
use crate::vehicle::NavCmdVel;
use vstd::prelude::*;

verus! {

/// A velocity command: along the ground, and about the up axis.
#[derive(Debug)]
pub struct CmdVel<L, A> {
    pub linear: L,
    pub angular_z: A,
}

/// The commands among the first `n` that are echoed: the first, if the limiter allows it, and the
/// others only where it limits nothing.
pub open spec fn echoed(ready: bool, period: nat, n: int) -> Seq<usize>
    decreases n,
{
    if n <= 0 {
        Seq::empty()
    } else if ready && (n == 1 || period == 0) {
        echoed(ready, period, n - 1).push((n - 1) as usize)
    } else {
        echoed(ready, period, n - 1)
    }
}

/// Drains the velocity commands of a frame: the last one counts. Gives the places of those to echo.
pub fn process_cmd_vel<L: Copy, A: Copy>(
    commands: &Vec<CmdVel<L, A>>,
    nav: &mut NavCmdVel<L, A>,
    echo_limiter: &mut AverageRateLimiter,
    delta_ns: u128,
    now_ns: u64,
) -> (r: Vec<usize>)
    ensures
        commands@.len() == 0 ==> *final(nav) == *old(nav),
        commands@.len() > 0 ==> final(nav).linear == commands@.last().linear
            && final(nav).angular_z == commands@.last().angular_z && final(nav).last_cmd_ns == Some(
            now_ns,
        ),
        final(echo_limiter).period() == old(echo_limiter).period(),
        ({
            let elapsed = crate::ros2::subscription::ticked(
                old(echo_limiter).elapsed(),
                old(echo_limiter).period(),
                delta_ns as nat,
            );
            let ready = elapsed == old(echo_limiter).period();
            &&& r@ == echoed(ready, old(echo_limiter).period(), commands@.len() as int)
            &&& final(echo_limiter).elapsed() == (if ready && commands@.len() > 0 {
                0
            } else {
                elapsed
            })
        }),
{
    echo_limiter.tick(delta_ns);
    let ghost elapsed = echo_limiter.elapsed();
    let ghost period = echo_limiter.period();
    let ghost before = *nav;
    let mut echoes: Vec<usize> = Vec::new();
    let mut i: usize = 0;
    while i < commands.len()
        invariant
            i <= commands@.len(),
            i == 0 ==> *nav == before,
            i > 0 ==> nav.linear == commands@[i - 1].linear && nav.angular_z == commands@[i
                - 1].angular_z && nav.last_cmd_ns == Some(now_ns),
            echo_limiter.period() == period,
            echo_limiter.elapsed() == (if elapsed == period && i > 0 {
                0
            } else {
                elapsed
            }),
            echoes@ == echoed(elapsed == period, period, i as int),
        decreases commands@.len() - i,
    {
        if echo_limiter.allow() {
            echoes.push(i);
        }
        nav.update(commands[i].linear, commands[i].angular_z, now_ns);
        i = i + 1;
    }
    echoes
}

/// Where echoing is limited, only the first command of a frame is echoed, and only if the limiter is
/// ready; where it is not, every command is.
pub proof fn law_which_commands_are_echoed(ready: bool, period: nat, n: int, i: usize)
    requires
        0 <= n <= usize::MAX,
        period == 0 ==> ready,
    ensures
        echoed(ready, period, n).contains(i) <==> i < n && (period == 0 || (ready && i == 0)),
    decreases n,
{
    if n > 0 {
        law_which_commands_are_echoed(ready, period, n - 1, i);
        let before = echoed(ready, period, n - 1);
        let all = echoed(ready, period, n);
        if before.contains(i) {
            let k = choose|k: int| 0 <= k < before.len() && before[k] == i;
            assert(all[k] == i);
        }
        if i == n - 1 && all.len() > before.len() {
            assert(all[before.len() as int] == i);
        }
        if all.contains(i) {
            let k = choose|k: int| 0 <= k < all.len() && all[k] == i;
            if k < before.len() {
                assert(before[k] == i);
            }
        }
    }
}

} // verus!
