# daedalus

The logic of a RoboMaster simulator, verified with [Verus](https://github.com/verus-lang/verus).

`src/` is the library. It holds what the simulator decides and computes on plain values, and each
function states in its contract what comes out:

- `tech_core`: the light programs of the tech core, its phases and clocks, and its JSON report.
- `armor`, `projectile`: plates built from a scene, hits that count, projectiles and their lives.
- `vehicle`, `controller`, `observation`: who drives, what the devices ask for, launches.
- `capture`: copies of rendered images, the channels of one capture, rows without their padding.
- `ipc`, `mock_server`, `gimbal_sender`: shared-memory layout, triple buffers, what is published.
- `ros2`: topics, the transform tree, rates, subscriptions, navigation commands.
- `scene`, `hierarchy`, `text`: what is spawned from a scene and how its objects are found.
- `async_world`, `rate_limiter`, `metalfx`, `platform`, `json`: tasks, rates, upscaling, start-up.

Statements about several functions are public proof functions whose names begin with `law_`.

Times are integers in nanoseconds, objects of the engine are numbers, and stick deflections are
billionths. Floating point, the engine, the GPU, ROS and files stay in `app/`, which turns their
values into those of the library and carries out what the library decides.

`tests/` runs the library on concrete values.
