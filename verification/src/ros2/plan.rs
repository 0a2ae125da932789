//! What the ROS side is built from: which captures it needs, and how often things happen. Rates are
//! in thousandths of a hertz.
use crate::capture::driver::CaptureConfig;
use crate::capture::format::TextureFormat;
use crate::capture::frame::CapturedFrameKind;
use crate::rate_limiter::AverageRateLimiter;
use crate::ros2::image::PublishGate;
use vstd::prelude::*;

verus! {

/// How often a solver may fire.
pub const FIRE_MILLIHERTZ: u64 = 10_000;

/// How often the state of the tech core is published.
pub const TECH_CORE_MILLIHERTZ: u64 = 20_000;

/// How often a command is echoed.
pub const ECHO_MILLIHERTZ: u64 = 2_000;

/// The slowest rate that a rate of the configuration stands for.
pub const SLOWEST_MILLIHERTZ: u64 = 100;

/// The sizes, switches and rates of the configuration that the ROS side is built from.
#[derive(Debug, Clone, Copy, PartialEq, Eq, Structural)]
pub struct RosBuildConfig {
    pub color_width: u32,
    pub color_height: u32,
    pub depth_width: u32,
    pub depth_height: u32,
    /// The rate of images; zero publishes every frame.
    pub image_millihertz: u64,
    pub odom_millihertz: u64,
    pub imu_millihertz: u64,
    pub livox_enabled: bool,
    pub livox_line_num: u8,
    pub livox_millihertz: u64,
    pub livox_points_per_second: u32,
}

/// What the lidar publishes.
#[derive(Debug, Clone, Copy, PartialEq, Eq, Structural)]
pub struct LidarPlan {
    /// The depth capture that the points come from.
    pub capture: CaptureConfig,
    /// The scan lines, one at least.
    pub line_num: u8,
    pub publish_period_ns: u64,
    /// The points of a cloud, one at least.
    pub points_per_publish: u64,
}

/// The captures that the ROS side needs, and when images pass.
#[derive(Debug, Clone, Copy, PartialEq, Eq, Structural)]
pub struct RosBuildPlan {
    pub color: CaptureConfig,
    pub gate: PublishGate,
    pub lidar: Option<LidarPlan>,
}

/// What a rate of the configuration stands for: one below the slowest is raised to it.
pub open spec fn effective_rate(millihertz: u64) -> u64 {
    if millihertz < SLOWEST_MILLIHERTZ {
        SLOWEST_MILLIHERTZ
    } else {
        millihertz
    }
}

fn at_least_slowest(millihertz: u64) -> (r: u64)
    ensures
        r == effective_rate(millihertz),
{
    if millihertz < SLOWEST_MILLIHERTZ {
        SLOWEST_MILLIHERTZ
    } else {
        millihertz
    }
}

/// The nanoseconds between two events of a rate.
pub open spec fn period_ns_spec(millihertz: u64) -> int {
    1_000_000_000_000int / (millihertz as int)
}

/// The time between two images that are let through; none for a rate of zero.
pub fn image_period_ns(millihertz: u64) -> (r: u64)
    ensures
        r == (if millihertz == 0 {
            0
        } else {
            period_ns_spec(millihertz)
        }),
{
    if millihertz == 0 {
        0
    } else {
        1_000_000_000_000 / millihertz
    }
}

/// What the lidar publishes under a configuration.
pub open spec fn lidar_plan(config: RosBuildConfig) -> LidarPlan {
    let rate = effective_rate(config.livox_millihertz);
    let points = config.livox_points_per_second * 1000 / (rate as int);
    LidarPlan {
        capture: CaptureConfig {
            width: config.depth_width,
            height: config.depth_height,
            texture_format: TextureFormat::Depth32Float,
            frame_kind: CapturedFrameKind::Depth32F,
        },
        line_num: if config.livox_line_num > 1 {
            config.livox_line_num
        } else {
            1
        },
        publish_period_ns: period_ns_spec(rate) as u64,
        points_per_publish: if points > 1 {
            points as u64
        } else {
            1
        },
    }
}

/// Plans the captures: color in the format of the main window, depth for the lidar where it is
/// enabled.
pub fn ros_build_plan(config: RosBuildConfig, default_format: TextureFormat) -> (r: RosBuildPlan)
    ensures
        r.color == (CaptureConfig {
            width: config.color_width,
            height: config.color_height,
            texture_format: default_format,
            frame_kind: CapturedFrameKind::Rgb8,
        }),
        r.gate.last_publish_ns == 0,
        r.gate.period_ns == (if config.image_millihertz == 0 {
            0
        } else {
            period_ns_spec(config.image_millihertz)
        }),
        r.lidar == (if config.livox_enabled {
            Some(lidar_plan(config))
        } else {
            None
        }),
{
    let color: CaptureConfig = CaptureConfig {
        width: config.color_width,
        height: config.color_height,
        texture_format: default_format,
        frame_kind: CapturedFrameKind::Rgb8,
    };
    let capture: CaptureConfig = CaptureConfig {
        width: config.depth_width,
        height: config.depth_height,
        texture_format: TextureFormat::Depth32Float,
        frame_kind: CapturedFrameKind::Depth32F,
    };
    let line_num: u8 = if config.livox_line_num > 1 {
        config.livox_line_num
    } else {
        1
    };
    let rate: u64 = at_least_slowest(config.livox_millihertz);
    let points: u64 = config.livox_points_per_second as u64 * 1000 / rate;
    let points_per_publish: u64 = if points > 1 {
        points
    } else {
        1
    };
    let publish_period_ns: u64 = 1_000_000_000_000 / rate;
    let lidar: Option<LidarPlan> = if config.livox_enabled {
        Some(LidarPlan { capture, line_num, publish_period_ns, points_per_publish })
    } else {
        None
    };
    let gate: PublishGate = PublishGate {
        period_ns: image_period_ns(config.image_millihertz),
        last_publish_ns: 0,
    };
    RosBuildPlan { color, gate, lidar }
}

/// The limiters of the ROS side.
#[derive(Debug, Clone, Copy)]
pub struct RosLimiters {
    pub fire: AverageRateLimiter,
    pub tech_core: AverageRateLimiter,
    pub cmd_echo: AverageRateLimiter,
    pub cmd_vel_echo: AverageRateLimiter,
    pub odom: AverageRateLimiter,
    pub imu: AverageRateLimiter,
}

/// The limiters, each of which allows something right away.
pub fn ros_limiters(config: RosBuildConfig) -> (r: RosLimiters)
    ensures
        r.fire.period() == 100_000_000 && r.fire.elapsed() == r.fire.period(),
        r.tech_core.period() == 50_000_000 && r.tech_core.elapsed() == r.tech_core.period(),
        r.cmd_echo.period() == 500_000_000 && r.cmd_echo.elapsed() == r.cmd_echo.period(),
        r.cmd_vel_echo.period() == 500_000_000 && r.cmd_vel_echo.elapsed()
            == r.cmd_vel_echo.period(),
        r.odom.period() == period_ns_spec(effective_rate(config.odom_millihertz))
            && r.odom.elapsed() == r.odom.period(),
        r.imu.period() == period_ns_spec(effective_rate(config.imu_millihertz)) && r.imu.elapsed()
            == r.imu.period(),
{
    RosLimiters {
        fire: AverageRateLimiter::from_hz(FIRE_MILLIHERTZ),
        tech_core: AverageRateLimiter::from_hz(TECH_CORE_MILLIHERTZ),
        cmd_echo: AverageRateLimiter::from_hz(ECHO_MILLIHERTZ),
        cmd_vel_echo: AverageRateLimiter::from_hz(ECHO_MILLIHERTZ),
        odom: AverageRateLimiter::from_hz(at_least_slowest(config.odom_millihertz)),
        imu: AverageRateLimiter::from_hz(at_least_slowest(config.imu_millihertz)),
    }
}

/// A rate never stands for less than one event in ten seconds; a faster one stands for itself.
pub proof fn law_rates_are_never_slower_than_the_slowest(millihertz: u64)
    ensures
        effective_rate(millihertz) >= 100,
        millihertz >= 100 ==> effective_rate(millihertz) == millihertz,
        millihertz < 100 ==> effective_rate(millihertz) == 100,
{
}

/// A period is the longest whole number of nanoseconds in which a rate has no more than one event:
/// that many of them fit into a thousand seconds, and no more.
pub proof fn law_periods_fit_their_rate(millihertz: u64)
    requires
        millihertz > 0,
    ensures
        period_ns_spec(millihertz) * millihertz <= 1_000_000_000_000,
        (period_ns_spec(millihertz) + 1) * millihertz > 1_000_000_000_000,
{
    let rate = millihertz as int;
    vstd::arithmetic::div_mod::lemma_fundamental_div_mod(1_000_000_000_000, rate);
    vstd::arithmetic::div_mod::lemma_mod_bound(1_000_000_000_000, rate);
    let period = 1_000_000_000_000int / rate;
    assert(period * rate == rate * period) by (nonlinear_arith);
    assert((period + 1) * rate == rate * period + rate) by (nonlinear_arith);
}

/// The lidar works on depth in the size of the configuration, with the configured lines and at least
/// one, and spreads the points of a second over the clouds of a second, with at least one in each.
pub proof fn law_what_the_lidar_publishes(config: RosBuildConfig)
    ensures
        ({
            let plan = lidar_plan(config);
            let rate = if config.livox_millihertz < 100 {
                100
            } else {
                config.livox_millihertz as int
            };
            let points = config.livox_points_per_second * 1000;
            &&& plan.capture.width == config.depth_width
            &&& plan.capture.height == config.depth_height
            &&& plan.capture.texture_format is Depth32Float
            &&& plan.capture.frame_kind is Depth32F
            &&& plan.line_num >= 1
            &&& config.livox_line_num >= 1 ==> plan.line_num == config.livox_line_num
            &&& plan.points_per_publish >= 1
            &&& points >= rate ==> plan.points_per_publish * rate <= points < (
            plan.points_per_publish + 1) * rate
            &&& plan.publish_period_ns * rate <= 1_000_000_000_000 < (plan.publish_period_ns + 1)
                * rate
        }),
{
    let rate = effective_rate(config.livox_millihertz);
    let points = config.livox_points_per_second * 1000;
    let r = rate as int;
    law_periods_fit_their_rate(rate);
    let period = period_ns_spec(rate);
    assert(0 <= period <= 1_000_000_000_000) by (nonlinear_arith)
        requires
            period * r <= 1_000_000_000_000,
            (period + 1) * r > 1_000_000_000_000,
            r >= 1,
    ;
    vstd::arithmetic::div_mod::lemma_fundamental_div_mod(points, r);
    vstd::arithmetic::div_mod::lemma_mod_bound(points, r);
    let each = points / r;
    assert(each * r == r * each) by (nonlinear_arith);
    assert((each + 1) * r == r * each + r) by (nonlinear_arith);
    assert(each >= 0 && each <= points) by (nonlinear_arith)
        requires
            each * r <= points,
            (each + 1) * r > points,
            r >= 1,
            points >= 0,
    ;
    if points >= r {
        assert(each >= 1) by (nonlinear_arith)
            requires
                (each + 1) * r > points,
                points >= r,
                r >= 1,
        ;
    }
}

} // verus!
