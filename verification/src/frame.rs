//! Decisions of the render loop: frame pacing, which command buffers to record
//! again, when statistics are published, and GPU timestamp differences.
use vstd::prelude::*;

verus! {

/// The GPU timestamps written while rendering a frame.
#[derive(Debug, Clone, Copy, PartialEq, Eq, Structural)]
pub enum Timestamp {
    FullStart,
    FullEnd,
    GeometryStart,
    GeometryEnd,
    ShadingStart,
    ShadingEnd,
    TransparentStart,
    TransparentEnd,
    Blur1Start,
    Blur1End,
    Blur2Start,
    Blur2End,
    PostStart,
    PostEnd,
    UiStart,
    UiEnd,
}

/// Number of timestamp queries per frame.
pub const TS_QUERY_COUNT: u32 = 16;

impl Timestamp {
    pub open spec fn spec_index(&self) -> u32 {
        match self {
            Timestamp::FullStart => 0,
            Timestamp::FullEnd => 1,
            Timestamp::GeometryStart => 2,
            Timestamp::GeometryEnd => 3,
            Timestamp::ShadingStart => 4,
            Timestamp::ShadingEnd => 5,
            Timestamp::TransparentStart => 6,
            Timestamp::TransparentEnd => 7,
            Timestamp::Blur1Start => 8,
            Timestamp::Blur1End => 9,
            Timestamp::Blur2Start => 10,
            Timestamp::Blur2End => 11,
            Timestamp::PostStart => 12,
            Timestamp::PostEnd => 13,
            Timestamp::UiStart => 14,
            Timestamp::UiEnd => 15,
        }
    }

    /// The query slot of the timestamp, in the order of the frame.
    pub fn index(&self) -> (r: u32)
        ensures
            r == self.spec_index(),
            r < TS_QUERY_COUNT,
    {
        match self {
            Timestamp::FullStart => 0,
            Timestamp::FullEnd => 1,
            Timestamp::GeometryStart => 2,
            Timestamp::GeometryEnd => 3,
            Timestamp::ShadingStart => 4,
            Timestamp::ShadingEnd => 5,
            Timestamp::TransparentStart => 6,
            Timestamp::TransparentEnd => 7,
            Timestamp::Blur1Start => 8,
            Timestamp::Blur1End => 9,
            Timestamp::Blur2Start => 10,
            Timestamp::Blur2End => 11,
            Timestamp::PostStart => 12,
            Timestamp::PostEnd => 13,
            Timestamp::UiStart => 14,
            Timestamp::UiEnd => 15,
        }
    }
}

/// Ticks between two timestamps of a frame's query results, or zero when the end
/// reads before the start.
pub fn ticks_between(results: &Vec<u32>, start: Timestamp, end: Timestamp) -> (r: u32)
    requires
        results@.len() == TS_QUERY_COUNT,
    ensures
        results@[end.spec_index() as int] >= results@[start.spec_index() as int] ==> r
            == results@[end.spec_index() as int] - results@[start.spec_index() as int],
        results@[end.spec_index() as int] < results@[start.spec_index() as int] ==> r == 0,
{
    let e = results[end.index() as usize];
    let s = results[start.index() as usize];
    if e >= s { e - s } else { 0 }
}

/// Nanoseconds a frame should take at least: a second divided by the cap, or no
/// throttling when the cap is zero.
pub fn loop_throttle_nanos(fps_cap: u32) -> (r: u32)
    ensures
        fps_cap > 0 ==> r == 1_000_000_000u32 / fps_cap,
        fps_cap == 0 ==> r == 0,
{
    if fps_cap > 0 {
        1_000_000_000 / fps_cap
    } else {
        0
    }
}

/// Whether the 600-frame and the 60-frame statistics are due at this frame number.
pub fn statistics_due(framenumber: u64) -> (r: (bool, bool))
    ensures
        r.0 == (framenumber % 600 == 0),
        r.1 == (framenumber % 60 == 0),
{
    (framenumber % 600 == 0, framenumber % 60 == 0)
}

/// The command buffers among the first `n` to record again: in increasing order,
/// every one other than `present_image` that is stale or that a plugin asked to
/// re-record.
pub open spec fn to_record(stale: Seq<bool>, present_image: usize, need_rerecord: bool, n: int) -> Seq<usize>
    decreases n,
{
    if n <= 0 {
        Seq::empty()
    } else {
        to_record(stale, present_image, need_rerecord, n - 1) + if n - 1 != present_image && (need_rerecord
            || stale[n - 1]) {
            seq![(n - 1) as usize]
        } else {
            Seq::empty()
        }
    }
}

/// The command buffers given to record are exactly those other than the one in flight
/// that are stale or that a plugin asked to re-record, each once, in increasing order.
pub proof fn lemma_to_record_exact(stale: Seq<bool>, present_image: usize, need_rerecord: bool, n: int)
    requires
        0 <= n <= stale.len(),
        stale.len() <= usize::MAX,
    ensures
        forall|k: int| 0 <= k < n ==> (#[trigger] to_record(stale, present_image, need_rerecord, n).contains(k as usize)
            <==> (k != present_image && (need_rerecord || stale[k]))),
        forall|j: int| 0 <= j < to_record(stale, present_image, need_rerecord, n).len()
            ==> #[trigger] to_record(stale, present_image, need_rerecord, n)[j] < n,
        forall|a: int, b: int| 0 <= a < b < to_record(stale, present_image, need_rerecord, n).len()
            ==> to_record(stale, present_image, need_rerecord, n)[a] < to_record(stale, present_image,
            need_rerecord, n)[b],
    decreases n,
{
    if n > 0 {
        lemma_to_record_exact(stale, present_image, need_rerecord, n - 1);
        let prev = to_record(stale, present_image, need_rerecord, n - 1);
        let cur = to_record(stale, present_image, need_rerecord, n);
        let takes = n - 1 != present_image && (need_rerecord || stale[n - 1]);
        let tail: Seq<usize> = if takes { seq![(n - 1) as usize] } else { Seq::empty() };
        assert(cur == prev + tail);
        assert forall|j: int| 0 <= j < cur.len() implies #[trigger] cur[j] < n by {
            if j < prev.len() {
                assert(cur[j] == prev[j]);
            }
        }
        assert forall|k: int| 0 <= k < n implies (#[trigger] cur.contains(k as usize) <==> (k != present_image && (
        need_rerecord || stale[k]))) by {
            if cur.contains(k as usize) {
                let j = choose|j: int| 0 <= j < cur.len() && cur[j] == k as usize;
                if j < prev.len() {
                    assert(prev[j] == cur[j]);
                    assert(prev.contains(k as usize));
                    if k == n - 1 {
                        assert(prev[j] < n - 1);
                    }
                } else {
                    assert(k == n - 1);
                }
            }
            if k != present_image && (need_rerecord || stale[k]) {
                if k < n - 1 {
                    assert(prev.contains(k as usize));
                    let j = choose|j: int| 0 <= j < prev.len() && prev[j] == k as usize;
                    assert(cur[j] == prev[j]);
                } else {
                    assert(cur[prev.len() as int] == k as usize);
                }
            }
        }
        assert forall|a: int, b: int| 0 <= a < b < cur.len() implies cur[a] < cur[b] by {
            if b < prev.len() {
                assert(cur[a] == prev[a] && cur[b] == prev[b]);
            } else {
                assert(cur[a] == prev[a]);
                assert(prev[a] < n - 1);
            }
        }
    }
}

/// Marks every command buffer stale when a plugin asked for a re-record, and gives
/// the stale ones to record again, in order, except the one in flight
/// (`present_image`). A buffer stays stale until `buffer_recorded` reports it done.
pub fn command_buffers_to_record(stale: &mut Vec<bool>, present_image: usize, need_rerecord: bool) -> (r: Vec<usize>)
    ensures
        final(stale)@.len() == old(stale)@.len(),
        forall|i: int| 0 <= i < old(stale)@.len() ==> #[trigger] final(stale)@[i] == (need_rerecord || old(stale)@[i]),
        r@ == to_record(old(stale)@, present_image, need_rerecord, old(stale)@.len() as int),
{
    let ghost orig = stale@;
    let mut r: Vec<usize> = Vec::new();
    let mut i: usize = 0;
    while i < stale.len()
        invariant
            0 <= i <= stale@.len(),
            stale@.len() == orig.len(),
            orig == old(stale)@,
            forall|j: int| 0 <= j < i ==> #[trigger] stale@[j] == (need_rerecord || orig[j]),
            forall|j: int| i <= j < orig.len() ==> #[trigger] stale@[j] == orig[j],
            r@ == to_record(orig, present_image, need_rerecord, i as int),
        decreases stale.len() - i,
    {
        let is_stale = need_rerecord || stale[i];
        stale.set(i, is_stale);
        if i != present_image && is_stale {
            r.push(i);
        }
        assert(r@ =~= to_record(orig, present_image, need_rerecord, i as int + 1));
        i = i + 1;
    }
    r
}

/// Records that command buffer `index` was recorded again: it is no longer stale.
pub fn buffer_recorded(stale: &mut Vec<bool>, index: usize)
    ensures
        index < old(stale)@.len() ==> final(stale)@ == old(stale)@.update(index as int, false),
        index >= old(stale)@.len() ==> final(stale)@ == old(stale)@,
{
    if index < stale.len() {
        stale.set(index, false);
    }
}

/// Where the render loop is.
#[derive(Debug, Clone, Copy, PartialEq, Eq, Structural)]
pub enum FramePhase {
    Running,
    /// Shutdown was requested; waiting for the device to become idle.
    Stopping,
    Stopped,
}

/// What the render loop remembers between frames.
#[derive(Debug)]
pub struct FrameState {
    /// For each swapchain image, whether its command buffer must be recorded again.
    pub stale: Vec<bool>,
    /// Frames rendered so far.
    pub framenumber: u64,
    /// The shortest time a frame may take, in nanoseconds (0 for no cap).
    pub throttle_nanos: u32,
    pub phase: FramePhase,
}

/// What happened since the last step.
#[derive(Debug, Clone, Copy, PartialEq, Eq, Structural)]
pub enum FrameEvent {
    /// The window was resized.
    Resized,
    /// Starting a frame found the swapchain out of date.
    OutOfDate,
    /// A frame started on swapchain image `present_image`; `need_rerecord` when a
    /// plugin's update asked for its command buffers to be recorded again.
    Started { present_image: usize, need_rerecord: bool },
    /// Command buffer `index` was recorded successfully.
    Recorded { index: usize },
    /// The frame finished rendering, `elapsed_nanos` after the loop iteration began;
    /// `shutdown` when a shutdown was requested.
    Rendered { shutdown: bool, elapsed_nanos: u64 },
    /// The device became idle.
    Idle,
}

/// What the loop does next.
#[derive(Debug, PartialEq, Eq)]
pub enum FrameAction {
    /// Wait for the device, rebuild the swapchain and everything sized by it, then
    /// record every (now stale) command buffer.
    Rebuild,
    /// Record these command buffers again, reporting each with `Recorded`.
    Record(Vec<usize>),
    /// Nothing to do for this event.
    Continue,
    /// Wait until the device is idle, then report `Idle`.
    WaitIdle,
    /// Leave the loop.
    Stop,
    /// The frame is done: sleep this long, and publish the 600-frame and 60-frame
    /// statistics when due.
    Finish { sleep_nanos: u64, stats_600: bool, stats_60: bool },
}

/// A fresh loop state for `image_count` swapchain images, all of whose command buffers
/// are yet to be recorded, with the frame-rate cap `fps_cap`.
pub fn frame_state(image_count: usize, fps_cap: u32) -> (s: FrameState)
    ensures
        s.stale@ == Seq::new(image_count as nat, |i: int| true),
        s.framenumber == 0,
        s.throttle_nanos == (if fps_cap > 0 { 1_000_000_000u32 / fps_cap } else { 0u32 }),
        s.phase == FramePhase::Running,
{
    let mut stale: Vec<bool> = Vec::new();
    let mut i: usize = 0;
    while i < image_count
        invariant
            0 <= i <= image_count,
            stale@ == Seq::new(i as nat, |j: int| true),
        decreases image_count - i,
    {
        stale.push(true);
        i = i + 1;
        assert(stale@ =~= Seq::new(i as nat, |j: int| true));
    }
    FrameState { stale, framenumber: 0, throttle_nanos: loop_throttle_nanos(fps_cap), phase: FramePhase::Running }
}

/// Marks every command buffer stale.
fn mark_all_stale(stale: &mut Vec<bool>)
    ensures
        final(stale)@ == Seq::new(old(stale)@.len(), |i: int| true),
{
    let mut i: usize = 0;
    while i < stale.len()
        invariant
            0 <= i <= stale@.len(),
            stale@.len() == old(stale)@.len(),
            forall|j: int| 0 <= j < i ==> #[trigger] stale@[j],
        decreases stale.len() - i,
    {
        stale.set(i, true);
        i = i + 1;
    }
    assert(stale@ =~= Seq::new(old(stale)@.len(), |i: int| true));
}

/// One step of the render loop: from the loop state and what just happened, the next
/// state and what to do. A resize or an out-of-date swapchain asks for a rebuild, after
/// which every command buffer is recorded again; a started frame gives the stale
/// command buffers to record (not the one in flight); a rendered frame is counted, then
/// either leads to a shutdown (wait for the device, then stop) or gives the time left
/// under the frame-rate cap and which statistics are due.
pub fn frame_step(state: &mut FrameState, event: FrameEvent) -> (action: FrameAction)
    requires
        event is Rendered ==> old(state).framenumber < u64::MAX,
    ensures
        final(state).throttle_nanos == old(state).throttle_nanos,
        final(state).stale@.len() == old(state).stale@.len(),
        old(state).phase == FramePhase::Stopped ==> action == FrameAction::Stop && *final(state) == *old(state),
        old(state).phase != FramePhase::Stopped ==> match event {
            FrameEvent::Resized | FrameEvent::OutOfDate => {
                &&& action == FrameAction::Rebuild
                &&& final(state).stale@ == Seq::new(old(state).stale@.len(), |i: int| true)
                &&& final(state).framenumber == old(state).framenumber
                &&& final(state).phase == old(state).phase
            },
            FrameEvent::Started { present_image, need_rerecord } => {
                &&& action matches FrameAction::Record(v) && v@ == to_record(old(state).stale@, present_image,
                    need_rerecord, old(state).stale@.len() as int)
                &&& forall|i: int| 0 <= i < old(state).stale@.len() ==> #[trigger] final(state).stale@[i]
                    == (need_rerecord || old(state).stale@[i])
                &&& final(state).framenumber == old(state).framenumber
                &&& final(state).phase == old(state).phase
            },
            FrameEvent::Recorded { index } => {
                &&& action == FrameAction::Continue
                &&& index < old(state).stale@.len() ==> final(state).stale@ == old(state).stale@.update(index as int, false)
                &&& index >= old(state).stale@.len() ==> final(state).stale@ == old(state).stale@
                &&& final(state).framenumber == old(state).framenumber
                &&& final(state).phase == old(state).phase
            },
            FrameEvent::Rendered { shutdown, elapsed_nanos } => {
                &&& final(state).framenumber == old(state).framenumber + 1
                &&& final(state).stale@ == old(state).stale@
                &&& shutdown ==> action == FrameAction::WaitIdle && final(state).phase == FramePhase::Stopping
                &&& !shutdown ==> final(state).phase == old(state).phase && action == (FrameAction::Finish {
                    sleep_nanos: if elapsed_nanos < old(state).throttle_nanos {
                        (old(state).throttle_nanos - elapsed_nanos) as u64
                    } else {
                        0
                    },
                    stats_600: (old(state).framenumber + 1) % 600 == 0,
                    stats_60: (old(state).framenumber + 1) % 60 == 0,
                })
            },
            FrameEvent::Idle => {
                &&& final(state).stale@ == old(state).stale@
                &&& final(state).framenumber == old(state).framenumber
                &&& old(state).phase == FramePhase::Stopping ==> action == FrameAction::Stop
                    && final(state).phase == FramePhase::Stopped
                &&& old(state).phase == FramePhase::Running ==> action == FrameAction::Continue
                    && final(state).phase == FramePhase::Running
            },
        },
{
    if state.phase == FramePhase::Stopped {
        return FrameAction::Stop;
    }
    match event {
        FrameEvent::Resized | FrameEvent::OutOfDate => {
            mark_all_stale(&mut state.stale);
            FrameAction::Rebuild
        },
        FrameEvent::Started { present_image, need_rerecord } => {
            let v = command_buffers_to_record(&mut state.stale, present_image, need_rerecord);
            FrameAction::Record(v)
        },
        FrameEvent::Recorded { index } => {
            buffer_recorded(&mut state.stale, index);
            FrameAction::Continue
        },
        FrameEvent::Rendered { shutdown, elapsed_nanos } => {
            state.framenumber = state.framenumber + 1;
            if shutdown {
                state.phase = FramePhase::Stopping;
                FrameAction::WaitIdle
            } else {
                let throttle = state.throttle_nanos as u64;
                let sleep_nanos = if elapsed_nanos < throttle { throttle - elapsed_nanos } else { 0 };
                let (stats_600, stats_60) = statistics_due(state.framenumber);
                FrameAction::Finish { sleep_nanos, stats_600, stats_60 }
            }
        },
        FrameEvent::Idle => {
            if state.phase == FramePhase::Stopping {
                state.phase = FramePhase::Stopped;
                FrameAction::Stop
            } else {
                FrameAction::Continue
            }
        },
    }
}

} // verus!
