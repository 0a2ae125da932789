//! Decisions at startup: presentation, platform quirks, which integrations run, and reloading.
use crate::text::{chars_of, contains, to_ascii_lowercase, to_lower};
use vstd::prelude::*;
use vstd::string::*;

verus! {

/// How finished frames reach the screen.
#[derive(Debug, Clone, Copy, PartialEq, Eq, Structural)]
pub enum PresentMode {
    AutoVsync,
    AutoNoVsync,
    Fifo,
    FifoRelaxed,
    Mailbox,
    Immediate,
}

/// Whether a character is white space.
pub open spec fn is_space(c: char) -> bool {
    '\t' <= c <= '\r' || c == ' ' || c == '\u{85}' || c == '\u{a0}' || c == '\u{1680}'
        || '\u{2000}' <= c <= '\u{200a}' || c == '\u{2028}' || c == '\u{2029}' || c == '\u{202f}'
        || c == '\u{205f}' || c == '\u{3000}'
}

fn char_is_space(c: char) -> (r: bool)
    ensures
        r == is_space(c),
{
    ('\t' <= c && c <= '\r') || c == ' ' || c == '\u{85}' || c == '\u{a0}' || c == '\u{1680}' || (
    '\u{2000}' <= c && c <= '\u{200a}') || c == '\u{2028}' || c == '\u{2029}' || c == '\u{202f}'
        || c == '\u{205f}' || c == '\u{3000}'
}

/// A text without white space at its ends.
pub open spec fn trimmed(text: Seq<char>) -> Seq<char>
    decreases text.len(),
{
    if text.len() == 0 {
        text
    } else if is_space(text[0]) {
        trimmed(text.drop_first())
    } else if is_space(text.last()) {
        trimmed(text.drop_last())
    } else {
        text
    }
}

/// A text without white space at its ends, with its ASCII letters in lower case.
pub fn normalized(text: &str) -> (r: String)
    ensures
        r@ == crate::text::lowered(trimmed(text@)),
{
    let chars: Vec<char> = chars_of(text);
    let mut start: usize = 0;
    let mut end: usize = chars.len();
    proof {
        assert(chars@.subrange(0, chars@.len() as int) =~= chars@);
    }
    while start < end && char_is_space(chars[start])
        invariant
            start <= end == chars@.len(),
            chars@ == text@,
            trimmed(text@) == trimmed(chars@.subrange(start as int, end as int)),
        decreases end - start,
    {
        proof {
            assert(chars@.subrange(start as int, end as int).drop_first() =~= chars@.subrange(
                start + 1,
                end as int,
            ));
        }
        start = start + 1;
    }
    while start < end && char_is_space(chars[end - 1])
        invariant
            start <= end <= chars@.len(),
            chars@ == text@,
            start < end ==> !is_space(chars@[start as int]),
            trimmed(text@) == trimmed(chars@.subrange(start as int, end as int)),
        decreases end - start,
    {
        proof {
            assert(chars@.subrange(start as int, end as int).drop_last() =~= chars@.subrange(
                start as int,
                end - 1,
            ));
        }
        end = end - 1;
    }
    let ghost core = chars@.subrange(start as int, end as int);
    let mut out: String = String::new();
    let mut i: usize = start;
    while i < end
        invariant
            start <= i <= end <= chars@.len(),
            core == chars@.subrange(start as int, end as int),
            out@ =~= crate::text::lowered(core.take(i - start)),
        decreases end - i,
    {
        proof {
            assert(core.take(i + 1 - start) =~= core.take(i - start).push(chars@[i as int]));
        }
        out.push(to_lower(chars[i]));
        i = i + 1;
    }
    proof {
        assert(core.take(end - start) =~= core);
    }
    out
}

/// The mode that a normalized name stands for.
pub open spec fn present_mode_spec(name: Seq<char>) -> Option<PresentMode> {
    if name == "auto_vsync"@ || name == "vsync"@ {
        Some(PresentMode::AutoVsync)
    } else if name == "auto_no_vsync"@ || name == "no_vsync"@ || name == "novsync"@ {
        Some(PresentMode::AutoNoVsync)
    } else if name == "fifo"@ {
        Some(PresentMode::Fifo)
    } else if name == "fifo_relaxed"@ || name == "fifo-relaxed"@ {
        Some(PresentMode::FifoRelaxed)
    } else if name == "mailbox"@ {
        Some(PresentMode::Mailbox)
    } else if name == "immediate"@ {
        Some(PresentMode::Immediate)
    } else {
        None
    }
}

fn is_text(text: &String, other: &str) -> (r: bool)
    ensures
        r == (text@ == other@),
{
    *text == other.to_owned()
}

/// The mode that a configured name stands for; case and surrounding white space do not matter.
pub fn present_mode_from_config(value: &str) -> (r: Option<PresentMode>)
    ensures
        r == present_mode_spec(crate::text::lowered(trimmed(value@))),
{
    let name: String = normalized(value);
    if is_text(&name, "auto_vsync") || is_text(&name, "vsync") {
        Some(PresentMode::AutoVsync)
    } else if is_text(&name, "auto_no_vsync") || is_text(&name, "no_vsync") || is_text(
        &name,
        "novsync",
    ) {
        Some(PresentMode::AutoNoVsync)
    } else if is_text(&name, "fifo") {
        Some(PresentMode::Fifo)
    } else if is_text(&name, "fifo_relaxed") || is_text(&name, "fifo-relaxed") {
        Some(PresentMode::FifoRelaxed)
    } else if is_text(&name, "mailbox") {
        Some(PresentMode::Mailbox)
    } else if is_text(&name, "immediate") {
        Some(PresentMode::Immediate)
    } else {
        None
    }
}

/// Whether the simulator runs under the Windows Subsystem for Linux: one of its variables is set, or
/// the kernel's release names its maker.
pub fn is_wsl(distro_name_set: bool, interop_set: bool, os_release: Option<&str>) -> (r: bool)
    ensures
        r == (distro_name_set || interop_set || (os_release matches Some(release)
            && crate::text::contains_spec(crate::text::lowered(release@), "microsoft"@))),
{
    if distro_name_set || interop_set {
        return true;
    }
    match os_release {
        Some(release) => {
            let lower: String = to_ascii_lowercase(release);
            contains(lower.as_str(), "microsoft")
        },
        None => false,
    }
}

/// Whether adapters are accepted that do not comply with their standard: the ones there are under
/// the Windows Subsystem for Linux.
pub fn allows_noncompliant_adapter(linux: bool, wsl: bool) -> (r: bool)
    ensures
        r == (linux && wsl),
{
    linux && wsl
}

/// Whether the Talos integration runs: not beside a ROS capture, unless the environment forces it.
pub fn should_enable_talos_plugin(ros_capture_active: bool, force: Option<&str>) -> (r: bool)
    ensures
        r == (!ros_capture_active || (force matches Some(value) && value@ == "1"@)),
{
    if !ros_capture_active {
        return true;
    }
    match force {
        Some(value) => is_text(&value.to_owned(), "1"),
        None => false,
    }
}

/// What the file watcher reports.
#[derive(Debug, Clone, Copy, PartialEq, Eq, Structural)]
pub enum WatchEvent {
    Modified,
    Other,
    Error,
}

/// How often the configuration is loaded anew for the first `n` reports: once for each
/// modification, up to the first error.
pub open spec fn reloads(events: Seq<WatchEvent>, n: int) -> nat
    decreases n,
{
    if n <= 0 {
        0
    } else if events.take(n).contains(WatchEvent::Error) {
        reloads(events, n - 1)
    } else if events[n - 1] is Modified {
        reloads(events, n - 1) + 1
    } else {
        reloads(events, n - 1)
    }
}

/// How often the configuration is loaded anew for the reports of a frame. An error ends the frame's
/// reports.
pub fn config_hot_reload(events: &Vec<WatchEvent>) -> (r: usize)
    ensures
        r == reloads(events@, events@.len() as int),
{
    let mut count: usize = 0;
    let mut i: usize = 0;
    while i < events.len()
        invariant
            i <= events@.len(),
            count <= i,
            !events@.take(i as int).contains(WatchEvent::Error),
            count == reloads(events@, i as int),
        decreases events@.len() - i,
    {
        proof {
            assert(events@.take(i + 1) =~= events@.take(i as int).push(events@[i as int]));
        }
        match events[i] {
            WatchEvent::Error => {
                proof {
                    lemma_reloads_end(events@, i + 1, events@.len() as int);
                }
                return count;
            },
            WatchEvent::Modified => {
                proof {
                    lemma_no_error_yet(events@, i as int);
                }
                count = count + 1;
            },
            WatchEvent::Other => {
                proof {
                    lemma_no_error_yet(events@, i as int);
                }
            },
        }
        i = i + 1;
    }
    count
}

proof fn lemma_no_error_yet(events: Seq<WatchEvent>, i: int)
    requires
        0 <= i < events.len(),
        !events.take(i).contains(WatchEvent::Error),
        events[i] !is Error,
    ensures
        !events.take(i + 1).contains(WatchEvent::Error),
{
    if events.take(i + 1).contains(WatchEvent::Error) {
        let upto = events.take(i + 1);
        let k = choose|k: int| 0 <= k < upto.len() && #[trigger] upto[k] == WatchEvent::Error;
        if k < i {
            assert(events.take(i)[k] == WatchEvent::Error);
        }
    }
}

proof fn lemma_reloads_end(events: Seq<WatchEvent>, i: int, n: int)
    requires
        1 <= i <= n <= events.len(),
        events[i - 1] is Error,
    ensures
        reloads(events, n) == reloads(events, i - 1),
    decreases n - i,
{
    assert(events.take(n)[i - 1] == WatchEvent::Error);
    assert(events.take(n).contains(WatchEvent::Error));
    if i < n {
        lemma_reloads_end(events, i, n - 1);
    }
}

/// What the main camera is given.
#[derive(Debug, Clone, Copy, PartialEq, Eq, Structural)]
pub struct MainCameraPlan {
    pub is_active: bool,
    pub upscaled: bool,
    /// The upscaler generates frames between those that are rendered.
    pub frame_generation: bool,
    pub fxaa: bool,
    pub bloom: bool,
    pub egui: bool,
    pub capture_source: bool,
}

/// What the main camera depends on.
#[derive(Debug, Clone, Copy, PartialEq, Eq, Structural)]
pub struct MainCameraConfig {
    /// An integration captures the camera's view off screen.
    pub captured: bool,
    pub preview_enabled: bool,
    pub macos: bool,
    pub metalfx_temporal: bool,
    pub metalfx_frame_generation: bool,
    pub fxaa: bool,
    /// Bloom is on and has an intensity.
    pub bloom: bool,
    pub egui: bool,
}

/// Plans the main camera. While its view is captured off screen, that is what is shown, so it does
/// not render a second time; upscaling takes the place of the other effects.
pub fn setup_main_camera(config: MainCameraConfig) -> (r: MainCameraPlan)
    ensures
        r.is_active == (!config.captured && config.preview_enabled),
        r.upscaled == (config.macos && config.metalfx_temporal),
        r.frame_generation == (r.upscaled && config.metalfx_frame_generation),
        r.fxaa == (config.fxaa && !r.upscaled),
        r.bloom == (config.bloom && !r.upscaled),
        r.egui == config.egui,
        r.capture_source == config.captured,
{
    let upscaled: bool = config.macos && config.metalfx_temporal;
    MainCameraPlan {
        is_active: !config.captured && config.preview_enabled,
        upscaled,
        frame_generation: upscaled && config.metalfx_frame_generation,
        fxaa: config.fxaa && !upscaled,
        bloom: config.bloom && !upscaled,
        egui: config.egui,
        capture_source: config.captured,
    }
}

/// White space is what the Unicode standard calls so.
pub proof fn law_what_counts_as_white_space(c: char)
    ensures
        is_space(c) <==> {
            let code = c as int;
            ||| 9 <= code <= 13
            ||| code == 32
            ||| code == 133
            ||| code == 160
            ||| code == 5760
            ||| 8192 <= code <= 8202
            ||| code == 8232
            ||| code == 8233
            ||| code == 8239
            ||| code == 8287
            ||| code == 12288
        },
{
}

/// Trimming takes white space from both ends and nothing else: what is left neither begins nor ends
/// with any.
pub proof fn law_trimming_takes_white_space_from_the_ends(text: Seq<char>)
    ensures
        exists|head: Seq<char>, tail: Seq<char>|
            {
                &&& text == #[trigger] (head + trimmed(text) + tail)
                &&& forall|i: int| 0 <= i < head.len() ==> is_space(#[trigger] head[i])
                &&& forall|i: int| 0 <= i < tail.len() ==> is_space(#[trigger] tail[i])
            },
        trimmed(text).len() > 0 ==> !is_space(trimmed(text)[0]) && !is_space(trimmed(text).last()),
    decreases text.len(),
{
    if text.len() == 0 {
        let none = Seq::<char>::empty();
        assert(text =~= none + trimmed(text) + none);
    } else if is_space(text[0]) {
        let rest = text.drop_first();
        law_trimming_takes_white_space_from_the_ends(rest);
        let (head, tail) = choose|head: Seq<char>, tail: Seq<char>|
            {
                &&& rest == #[trigger] (head + trimmed(rest) + tail)
                &&& forall|i: int| 0 <= i < head.len() ==> is_space(#[trigger] head[i])
                &&& forall|i: int| 0 <= i < tail.len() ==> is_space(#[trigger] tail[i])
            };
        let longer = seq![text[0]] + head;
        assert forall|i: int| 0 <= i < longer.len() implies is_space(#[trigger] longer[i]) by {
            if i > 0 {
                assert(longer[i] == head[i - 1]);
            }
        }
        assert(text =~= seq![text[0]] + rest);
        assert(text =~= longer + trimmed(text) + tail);
    } else if is_space(text.last()) {
        let rest = text.drop_last();
        law_trimming_takes_white_space_from_the_ends(rest);
        let (head, tail) = choose|head: Seq<char>, tail: Seq<char>|
            {
                &&& rest == #[trigger] (head + trimmed(rest) + tail)
                &&& forall|i: int| 0 <= i < head.len() ==> is_space(#[trigger] head[i])
                &&& forall|i: int| 0 <= i < tail.len() ==> is_space(#[trigger] tail[i])
            };
        let longer = tail.push(text.last());
        assert forall|i: int| 0 <= i < longer.len() implies is_space(#[trigger] longer[i]) by {
            if i < tail.len() {
                assert(longer[i] == tail[i]);
            }
        }
        assert(text =~= rest.push(text.last()));
        assert(text =~= head + trimmed(text) + longer);
    } else {
        let none = Seq::<char>::empty();
        assert(text =~= none + trimmed(text) + none);
    }
}

/// The names of the modes, and no others: two for vertical synchronization, three for none of it, two
/// for the relaxed queue, and one for each of the rest.
pub proof fn law_names_of_the_present_modes(name: Seq<char>)
    ensures
        match present_mode_spec(name) {
            Some(PresentMode::AutoVsync) => name == "auto_vsync"@ || name == "vsync"@,
            Some(PresentMode::AutoNoVsync) => name == "auto_no_vsync"@ || name == "no_vsync"@
                || name == "novsync"@,
            Some(PresentMode::Fifo) => name == "fifo"@,
            Some(PresentMode::FifoRelaxed) => name == "fifo_relaxed"@ || name == "fifo-relaxed"@,
            Some(PresentMode::Mailbox) => name == "mailbox"@,
            Some(PresentMode::Immediate) => name == "immediate"@,
            None => {
                &&& name != "auto_vsync"@ && name != "vsync"@
                &&& name != "auto_no_vsync"@ && name != "no_vsync"@ && name != "novsync"@
                &&& name != "fifo"@ && name != "fifo_relaxed"@ && name != "fifo-relaxed"@
                &&& name != "mailbox"@ && name != "immediate"@
            },
        },
{
}

/// Without an error the configuration is loaded anew once for each modification.
pub proof fn law_every_modification_reloads(events: Seq<WatchEvent>)
    requires
        forall|i: int| 0 <= i < events.len() ==> (#[trigger] events[i]) !is Error,
    ensures
        reloads(events, events.len() as int) == events.filter(
            |event: WatchEvent| event is Modified,
        ).len(),
    decreases events.len(),
{
    reveal(Seq::filter);
    if events.len() > 0 {
        let rest = events.drop_last();
        assert forall|i: int| 0 <= i < rest.len() implies (#[trigger] rest[i]) !is Error by {
            assert(rest[i] == events[i]);
        }
        law_every_modification_reloads(rest);
        assert(events.take(events.len() as int) =~= events);
        assert(!events.contains(WatchEvent::Error));
        lemma_reloads_of_prefix(events, rest, rest.len() as int);
    }
}

/// What is reported after an error does not count any more.
pub proof fn law_an_error_ends_the_reports(head: Seq<WatchEvent>, tail: Seq<WatchEvent>)
    ensures
        ({
            let events = head.push(WatchEvent::Error) + tail;
            reloads(events, events.len() as int) == reloads(head, head.len() as int)
        }),
{
    let events = head.push(WatchEvent::Error) + tail;
    assert(events[head.len() as int] is Error);
    lemma_reloads_end(events, head.len() as int + 1, events.len() as int);
    lemma_reloads_of_prefix(events, head, head.len() as int);
}

proof fn lemma_reloads_of_prefix(events: Seq<WatchEvent>, prefix: Seq<WatchEvent>, n: int)
    requires
        0 <= n <= prefix.len() <= events.len(),
        forall|i: int| 0 <= i < prefix.len() ==> #[trigger] prefix[i] == events[i],
    ensures
        reloads(events, n) == reloads(prefix, n),
    decreases n,
{
    if n > 0 {
        lemma_reloads_of_prefix(events, prefix, n - 1);
        assert(events.take(n) =~= prefix.take(n));
        assert(prefix[n - 1] == events[n - 1]);
    }
}

} // verus!
