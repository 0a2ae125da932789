//! What is published of the state of the robot and of the tech core, each at a rate of its own. The
//! numbers of the messages are the caller's: they are carried through, not computed with.
use crate::rate_limiter::AverageRateLimiter;
use crate::ros2::image::{diagonal_covariance_3x3, planar_covariance};
use crate::tech_core::report::tech_core_state_json;
use crate::tech_core::state::TechCore;
use vstd::prelude::*;

verus! {

/// Whether a limiter lets a message pass once more time has gone by.
pub open spec fn passes(limiter: AverageRateLimiter, delta_ns: u128) -> bool {
    crate::ros2::subscription::ticked(limiter.elapsed(), limiter.period(), delta_ns as nat)
        == limiter.period()
}

/// The limiter after that: a message starts its period over.
pub open spec fn passed(
    before: AverageRateLimiter,
    after: AverageRateLimiter,
    delta_ns: u128,
) -> bool {
    &&& after.period() == before.period()
    &&& after.elapsed() == (if passes(before, delta_ns) {
        0
    } else {
        crate::ros2::subscription::ticked(before.elapsed(), before.period(), delta_ns as nat)
    })
}

fn pass(limiter: &mut AverageRateLimiter, delta_ns: u128) -> (r: bool)
    ensures
        r == passes(*old(limiter), delta_ns),
        passed(*old(limiter), *final(limiter), delta_ns),
{
    limiter.tick(delta_ns);
    limiter.allow()
}

/// How a chassis moves, in its own axes.
#[derive(Debug)]
pub struct Twist<T> {
    pub linear: (T, T, T),
    pub angular: (T, T, T),
}

/// An odometry message without its stamp.
#[derive(Debug)]
pub struct Odometry<P, T> {
    pub frame_id: String,
    pub child_frame_id: String,
    pub pose: P,
    pub pose_covariance: Vec<T>,
    pub twist: Twist<T>,
    pub twist_covariance: Vec<T>,
}

/// The numbers that every odometry message holds.
#[derive(Debug, Clone, Copy)]
pub struct OdometryNumbers<T> {
    /// The variance of what a planar robot observes.
    pub observed: T,
    /// The variance of what it does not observe.
    pub unused: T,
    pub zero: T,
}

/// The odometry of the chassis, where its limiter lets it pass: the pose of the chassis in the
/// odometry frame, and a planar twist.
pub fn publish_odometry<P, T: Copy>(
    limiter: &mut AverageRateLimiter,
    delta_ns: u128,
    pose: P,
    forward: T,
    left: T,
    yaw_rate: T,
    numbers: OdometryNumbers<T>,
) -> (r: Option<Odometry<P, T>>)
    ensures
        passed(*old(limiter), *final(limiter), delta_ns),
        r is Some <==> passes(*old(limiter), delta_ns),
        match r {
            Some(message) => {
                let covariance = crate::ros2::image::diagonal_6x6(
                    seq![
                        numbers.observed,
                        numbers.observed,
                        numbers.observed,
                        numbers.unused,
                        numbers.unused,
                        numbers.observed,
                    ],
                    numbers.zero,
                );
                &&& message.frame_id@ == "odom"@
                &&& message.child_frame_id@ == "base_link"@
                &&& message.pose == pose
                &&& message.pose_covariance@ == covariance
                &&& message.twist.linear == (forward, left, numbers.zero)
                &&& message.twist.angular == (numbers.zero, numbers.zero, yaw_rate)
                &&& message.twist_covariance@ == covariance
            },
            None => true,
        },
{
    if !pass(limiter, delta_ns) {
        return None;
    }
    let zero: T = numbers.zero;
    Some(
        Odometry {
            frame_id: "odom".to_owned(),
            child_frame_id: "base_link".to_owned(),
            pose,
            pose_covariance: planar_covariance(
                numbers.observed,
                numbers.observed,
                numbers.unused,
                zero,
            ),
            twist: Twist { linear: (forward, left, zero), angular: (zero, zero, yaw_rate) },
            twist_covariance: planar_covariance(
                numbers.observed,
                numbers.observed,
                numbers.unused,
                zero,
            ),
        },
    )
}

/// A message of the inertial unit without its stamp.
#[derive(Debug)]
pub struct Imu<Q, V, T> {
    pub frame_id: String,
    pub orientation: Q,
    pub orientation_covariance: Vec<T>,
    pub angular_velocity: V,
    pub angular_velocity_covariance: Vec<T>,
    pub linear_acceleration: V,
    pub linear_acceleration_covariance: Vec<T>,
}

/// The numbers that every message of the inertial unit holds.
#[derive(Debug, Clone, Copy)]
pub struct ImuNumbers<T> {
    pub orientation_variance: T,
    pub angular_velocity_variance: T,
    pub linear_acceleration_variance: T,
    pub zero: T,
}

/// The message of the inertial unit, where its limiter lets it pass.
pub fn publish_imu<Q, V, T: Copy>(
    limiter: &mut AverageRateLimiter,
    delta_ns: u128,
    orientation: Q,
    angular_velocity: V,
    linear_acceleration: V,
    numbers: ImuNumbers<T>,
) -> (r: Option<Imu<Q, V, T>>)
    ensures
        passed(*old(limiter), *final(limiter), delta_ns),
        r is Some <==> passes(*old(limiter), delta_ns),
        match r {
            Some(message) => {
                let (turn, spin, force) = (
                    numbers.orientation_variance,
                    numbers.angular_velocity_variance,
                    numbers.linear_acceleration_variance,
                );
                &&& message.frame_id@ == "base_link"@
                &&& message.orientation == orientation
                &&& message.orientation_covariance@ == crate::ros2::image::diagonal_3x3(
                    seq![turn, turn, turn],
                    numbers.zero,
                )
                &&& message.angular_velocity == angular_velocity
                &&& message.angular_velocity_covariance@ == crate::ros2::image::diagonal_3x3(
                    seq![spin, spin, spin],
                    numbers.zero,
                )
                &&& message.linear_acceleration == linear_acceleration
                &&& message.linear_acceleration_covariance@ == crate::ros2::image::diagonal_3x3(
                    seq![force, force, force],
                    numbers.zero,
                )
            },
            None => true,
        },
{
    if !pass(limiter, delta_ns) {
        return None;
    }
    let zero: T = numbers.zero;
    Some(
        Imu {
            frame_id: "base_link".to_owned(),
            orientation,
            orientation_covariance: diagonal_covariance_3x3(numbers.orientation_variance, zero),
            angular_velocity,
            angular_velocity_covariance: diagonal_covariance_3x3(
                numbers.angular_velocity_variance,
                zero,
            ),
            linear_acceleration,
            linear_acceleration_covariance: diagonal_covariance_3x3(
                numbers.linear_acceleration_variance,
                zero,
            ),
        },
    )
}

/// The report on the tech cores, where its limiter lets it pass.
pub fn publish_tech_core_state(
    limiter: &mut AverageRateLimiter,
    delta_ns: u128,
    stamp_sec: i32,
    stamp_nanosec: u32,
    elapsed_ns: u64,
    cores: &[TechCore],
) -> (r: Option<String>)
    ensures
        passed(*old(limiter), *final(limiter), delta_ns),
        r is Some <==> passes(*old(limiter), delta_ns),
        match r {
            Some(text) => text@ == crate::tech_core::report::cores_text(
                stamp_sec as int,
                stamp_nanosec as int,
                elapsed_ns as int,
                cores@,
            ),
            None => true,
        },
{
    if !pass(limiter, delta_ns) {
        return None;
    }
    Some(tech_core_state_json(stamp_sec, stamp_nanosec, elapsed_ns, cores))
}

/// A message passes exactly once its period has gone by, and then the next period begins; until then
/// the time that has passed is kept.
pub proof fn law_messages_pass_once_per_period(
    before: AverageRateLimiter,
    after: AverageRateLimiter,
    delta_ns: u128,
)
    requires
        before.elapsed() <= before.period(),
        passed(before, after, delta_ns),
    ensures
        passes(before, delta_ns) <==> before.elapsed() + delta_ns >= before.period(),
        passes(before, delta_ns) ==> after.elapsed() == 0,
        !passes(before, delta_ns) ==> after.elapsed() == before.elapsed() + delta_ns,
        after.period() == before.period(),
{
}

} // verus!
