use vstd::prelude::*;

use crate::colormap::Colormap;
use crate::interp::InterpMode;
use crate::mxfr::MxfrFrame;
use crate::names::{lowercase, matches_word};
use crate::norm::{
    NormMode, extend_range, frame_range, frames_range, global_range_of_appended, mode_range,
    ONE_BITS,
};

verus! {

/// The grid size used when no stream has fixed one (the built-in animation).
pub const DEFAULT_WIDTH: u32 = 256;

/// See [`DEFAULT_WIDTH`].
pub const DEFAULT_HEIGHT: u32 = 256;

/// The options the playback starts with.
#[derive(Clone, Copy, Debug)]
pub struct PlaybackConfig {
    pub norm_mode: NormMode,
    pub interp_mode: InterpMode,
    pub colormap: Colormap,
    /// Frames will arrive from an input stream (otherwise the built-in
    /// animation is played).
    pub streaming_input: bool,
}

/// The state of the animation player that the window loop drives: the frames
/// received so far, which one is shown, playback timing and the display modes.
pub struct Playback {
    frames: Vec<Vec<u32>>,
    timestamps: Vec<u64>,
    frame_idx: usize,
    paused: bool,
    next_due: Option<u64>,
    norm_mode: NormMode,
    interp_mode: InterpMode,
    colormap: Colormap,
    global_range: (u32, u32),
    fixed_range: (u32, u32),
    /// The finite range over every frame held, kept up to date as frames
    /// arrive; `global_range` takes it over at the moments global
    /// normalization is refreshed.
    all_range: (u32, u32),
    stream_width: u32,
    stream_height: u32,
    input_open: bool,
    gpu_initialized: bool,
}

/// The mathematical state of a [`Playback`].
pub struct PlaybackView {
    /// The frames, each the bit patterns of its f32 values.
    pub frames: Seq<Seq<u32>>,
    /// The bit patterns of the f64 timestamps of the streamed frames.
    pub timestamps: Seq<u64>,
    /// The frame on display.
    pub frame_idx: int,
    pub paused: bool,
    /// When (in nanoseconds on the caller's clock) the next frame is due.
    pub next_due: Option<u64>,
    pub norm_mode: NormMode,
    pub interp_mode: InterpMode,
    pub colormap: Colormap,
    /// The range that global normalization uses.
    pub global_range: (u32, u32),
    /// The range that fixed normalization uses.
    pub fixed_range: (u32, u32),
    /// The dimensions of the first streamed frame, (0, 0) before one arrived.
    pub stream_width: u32,
    pub stream_height: u32,
    /// The input stream may still deliver frames.
    pub input_open: bool,
    /// The renderer has been set up with the first frame.
    pub gpu_initialized: bool,
}

impl View for Playback {
    type V = PlaybackView;

    closed spec fn view(&self) -> PlaybackView {
        PlaybackView {
            frames: self.frames@.map_values(|f: Vec<u32>| f@),
            timestamps: self.timestamps@,
            frame_idx: self.frame_idx as int,
            paused: self.paused,
            next_due: self.next_due,
            norm_mode: self.norm_mode,
            interp_mode: self.interp_mode,
            colormap: self.colormap,
            global_range: self.global_range,
            fixed_range: self.fixed_range,
            stream_width: self.stream_width,
            stream_height: self.stream_height,
            input_open: self.input_open,
            gpu_initialized: self.gpu_initialized,
        }
    }
}

/// The frame index is in range: below the frame count, and 0 without frames.
pub open spec fn index_in_range(v: PlaybackView) -> bool {
    if v.frames.len() == 0 {
        v.frame_idx == 0
    } else {
        0 <= v.frame_idx < v.frames.len()
    }
}

/// Without frames no stream size has been fixed yet.
pub open spec fn no_frames_no_size(v: PlaybackView) -> bool {
    v.frames.len() == 0 ==> v.stream_width == 0 && v.stream_height == 0
}

/// In global normalization the range is the one over every frame held.
pub open spec fn global_covers_frames(v: PlaybackView) -> bool {
    v.norm_mode == NormMode::Global && v.frames.len() > 0 ==> v.global_range == frames_range(
        v.frames,
    )
}

/// The stream dimensions after frames arrive: the first frame with a nonzero
/// width fixes them, once.
pub open spec fn dims_after(w: u32, h: u32, incoming: Seq<MxfrFrame>) -> (u32, u32)
    decreases incoming.len(),
{
    if incoming.len() == 0 {
        (w, h)
    } else {
        let (w2, h2) = dims_after(w, h, incoming.drop_last());
        if w2 == 0 {
            (incoming.last().width, incoming.last().height)
        } else {
            (w2, h2)
        }
    }
}

/// `a + b`, or `u64::MAX` when that overflows.
pub open spec fn sat_add(a: u64, b: u64) -> u64 {
    if a + b > u64::MAX {
        u64::MAX
    } else {
        (a + b) as u64
    }
}

/// The state after frames arrive from the input stream (`disconnected`: the
/// stream has ended): the frames and their timestamps are appended in order,
/// the first frame fixes the stream dimensions, and the global range is
/// recomputed over all frames when the stream ends (if there are frames) or,
/// while it runs, when frames arrived and global normalization is active.
pub open spec fn received(v: PlaybackView, incoming: Seq<MxfrFrame>, disconnected: bool) -> PlaybackView {
    let frames = v.frames + incoming.map_values(|f: MxfrFrame| f.data@);
    let dims = dims_after(v.stream_width, v.stream_height, incoming);
    PlaybackView {
        frames,
        timestamps: v.timestamps + incoming.map_values(|f: MxfrFrame| f.timestamp_bits),
        stream_width: dims.0,
        stream_height: dims.1,
        input_open: !disconnected,
        global_range: if disconnected {
            if frames.len() > 0 {
                frames_range(frames)
            } else {
                v.global_range
            }
        } else if incoming.len() > 0 && v.norm_mode == NormMode::Global {
            frames_range(frames)
        } else {
            v.global_range
        },
        ..v
    }
}

/// The renderer can be set up: it exists, has not been set up, and there is a frame.
pub open spec fn init_ready(v: PlaybackView, gpu_ready: bool) -> bool {
    !v.gpu_initialized && gpu_ready && v.frames.len() > 0
}

/// The state once the renderer set-up has been decided.
pub open spec fn after_init(v: PlaybackView, gpu_ready: bool) -> PlaybackView {
    if init_ready(v, gpu_ready) {
        PlaybackView { gpu_initialized: true, ..v }
    } else {
        v
    }
}

/// Frames are being played: there is one, the renderer is set up, not paused.
pub open spec fn playing(v: PlaybackView) -> bool {
    v.frames.len() > 0 && v.gpu_initialized && !v.paused
}

/// When the next frame is due at time `now`: as scheduled, or one frame
/// duration from now when nothing is scheduled.
pub open spec fn due_at(v: PlaybackView, now: u64, dur: u64) -> u64 {
    match v.next_due {
        Some(d) => d,
        None => sat_add(now, dur),
    }
}

/// Whether a redraw at `now` moves on to the next frame.
pub open spec fn advances(v: PlaybackView, now: u64, dur: u64) -> bool {
    playing(v) && now >= due_at(v, now, dur)
}

/// The state after the playback clock is looked at, at time `now`, with frame
/// duration `dur`: when the frame is due the next one is shown (wrapping to
/// the first) and the deadline moves on by one duration, or to one duration
/// from now if it has fallen behind; otherwise the deadline is kept.
pub open spec fn ticked(v: PlaybackView, now: u64, dur: u64) -> PlaybackView {
    if playing(v) {
        let due = due_at(v, now, dur);
        if now >= due {
            let next = sat_add(due, dur);
            PlaybackView {
                frame_idx: (v.frame_idx + 1) % (v.frames.len() as int),
                next_due: Some(if next < now { sat_add(now, dur) } else { next }),
                ..v
            }
        } else {
            PlaybackView { next_due: Some(due), ..v }
        }
    } else {
        v
    }
}

/// The state after a command.  Switching to global normalization takes the
/// range over every frame held.
pub open spec fn applied(v: PlaybackView, cmd: Command) -> PlaybackView {
    match cmd {
        Command::Quit => v,
        Command::ResetView => v,
        Command::CycleNorm => PlaybackView {
            norm_mode: v.norm_mode.successor(),
            global_range: if v.norm_mode.successor() == NormMode::Global && v.frames.len() > 0 {
                frames_range(v.frames)
            } else {
                v.global_range
            },
            ..v
        },
        Command::CycleInterp => PlaybackView { interp_mode: v.interp_mode.successor(), ..v },
        Command::CycleColormap => PlaybackView { colormap: v.colormap.successor(), ..v },
        Command::TogglePause => PlaybackView {
            paused: !v.paused,
            next_due: if v.paused { None } else { v.next_due },
            ..v
        },
        Command::StepBack => if v.frames.len() > 0 {
            PlaybackView {
                paused: true,
                frame_idx: (v.frame_idx + v.frames.len() - 1) % (v.frames.len() as int),
                ..v
            }
        } else {
            v
        },
        Command::StepForward => if v.frames.len() > 0 {
            PlaybackView {
                paused: true,
                frame_idx: (v.frame_idx + 1) % (v.frames.len() as int),
                ..v
            }
        } else {
            v
        },
    }
}

/// What the window has to do after a command.
pub open spec fn outcome_of(v: PlaybackView, cmd: Command) -> Outcome {
    Outcome {
        quit: cmd == Command::Quit,
        title_changed: match cmd {
            Command::Quit => false,
            Command::StepBack | Command::StepForward => v.frames.len() > 0,
            _ => true,
        },
        colormap_changed: cmd == Command::CycleColormap,
        reset_view: cmd == Command::ResetView,
    }
}

/// What the title reports: the frame number counted from 1, the frame count
/// and the timestamp of the frame (or of the last frame that has one); with no
/// frame, whether the input stream is still awaited.
pub open spec fn title_of(v: PlaybackView) -> TitleInfo {
    if v.frames.len() > 0 {
        TitleInfo::Frame {
            number: (v.frame_idx + 1) as usize,
            count: v.frames.len() as usize,
            timestamp_bits: if v.timestamps.len() > 0 {
                Some(
                    v.timestamps[if v.frame_idx < v.timestamps.len() - 1 {
                        v.frame_idx
                    } else {
                        v.timestamps.len() - 1
                    }],
                )
            } else {
                None
            },
        }
    } else if v.input_open {
        TitleInfo::Waiting
    } else {
        TitleInfo::Idle
    }
}

/// The range of the frame on display, or (0.0, 1.0) while nothing is shown.
pub open spec fn shown_range(v: PlaybackView) -> (u32, u32) {
    if v.frames.len() > 0 && v.gpu_initialized {
        mode_range(v.frames[v.frame_idx], v.norm_mode, v.global_range, v.fixed_range)
    } else {
        (0, ONE_BITS)
    }
}

/// A key command of the player window.
#[derive(Clone, Copy, Debug, PartialEq, Eq, Structural)]
pub enum Command {
    Quit,
    CycleNorm,
    CycleInterp,
    CycleColormap,
    ResetView,
    TogglePause,
    StepBack,
    StepForward,
}

/// What the window has to do after a command.
#[derive(Clone, Copy, Debug, PartialEq, Eq, Structural)]
pub struct Outcome {
    /// Close the window.
    pub quit: bool,
    /// Recompose the window title.
    pub title_changed: bool,
    /// Upload the new colormap's lookup table.
    pub colormap_changed: bool,
    /// Reset zoom and pan.
    pub reset_view: bool,
}

/// The renderer set-up the first frame needs.
#[derive(Clone, Copy, Debug)]
pub struct InitPlan {
    pub width: u32,
    pub height: u32,
    /// The (low, high) range of the first frame, before the degenerate-range guard.
    pub range: (u32, u32),
}

/// What a redraw has to do.
#[derive(Clone, Copy, Debug)]
pub struct RedrawPlan {
    /// Set up the renderer with frame 0 first.
    pub init: Option<InitPlan>,
    /// Upload the current frame with `range`.
    pub upload: bool,
    /// The (low, high) range of the current frame before the degenerate-range
    /// guard; (0.0, 1.0) while nothing is shown.
    pub range: (u32, u32),
    /// The frame on display changed.
    pub title_changed: bool,
}

/// What the window title reports about the frames.
#[derive(Clone, Copy, Debug, PartialEq, Eq, Structural)]
pub enum TitleInfo {
    /// Frame `number` (counted from 1) of `count`, with the bit pattern of its
    /// timestamp when the frames carry timestamps.
    Frame { number: usize, count: usize, timestamp_bits: Option<u64> },
    /// No frame yet; the input stream is open.
    Waiting,
    /// No frame and no input.
    Idle,
}

/// The command a typed character gives: `n`, `i`, `c`, `r` in either case.
pub open spec fn command_for_text(text: Seq<char>) -> Option<Command> {
    let l = lowercase(text);
    if l == "n"@ {
        Some(Command::CycleNorm)
    } else if l == "i"@ {
        Some(Command::CycleInterp)
    } else if l == "c"@ {
        Some(Command::CycleColormap)
    } else if l == "r"@ {
        Some(Command::ResetView)
    } else {
        None
    }
}

/// The command for the text of a pressed character key, if it has one.
pub fn command_for_key(text: &str) -> (c: Option<Command>)
    ensures
        c == command_for_text(text@),
{
    proof {
        reveal_strlit("n");
        reveal_strlit("i");
        reveal_strlit("c");
        reveal_strlit("r");
    }
    if matches_word(text, "n") {
        Some(Command::CycleNorm)
    } else if matches_word(text, "i") {
        Some(Command::CycleInterp)
    } else if matches_word(text, "c") {
        Some(Command::CycleColormap)
    } else if matches_word(text, "r") {
        Some(Command::ResetView)
    } else {
        None
    }
}

fn saturating_add(a: u64, b: u64) -> (r: u64)
    ensures
        r == sat_add(a, b),
{
    if a > u64::MAX - b {
        u64::MAX
    } else {
        a + b
    }
}

impl Playback {
    /// The invariant every `Playback` keeps.
    pub closed spec fn wf(&self) -> bool {
        &&& index_in_range(self@)
        &&& self.all_range == frames_range(self@.frames)
        &&& global_covers_frames(self@)
        &&& no_frames_no_size(self@)
    }

    pub fn new(config: PlaybackConfig) -> (p: Self)
        ensures
            p.wf(),
            p@ == (PlaybackView {
                frames: Seq::empty(),
                timestamps: Seq::empty(),
                frame_idx: 0,
                paused: false,
                next_due: None,
                norm_mode: config.norm_mode,
                interp_mode: config.interp_mode,
                colormap: config.colormap,
                global_range: (0, ONE_BITS),
                fixed_range: (0, ONE_BITS),
                stream_width: 0,
                stream_height: 0,
                input_open: config.streaming_input,
                gpu_initialized: false,
            }),
    {
        let p = Playback {
            frames: Vec::new(),
            timestamps: Vec::new(),
            frame_idx: 0,
            paused: false,
            next_due: None,
            norm_mode: config.norm_mode,
            interp_mode: config.interp_mode,
            colormap: config.colormap,
            global_range: (0, ONE_BITS),
            fixed_range: (0, ONE_BITS),
            all_range: (crate::norm::POS_INF_BITS, crate::norm::NEG_INF_BITS),
            stream_width: 0,
            stream_height: 0,
            input_open: config.streaming_input,
            gpu_initialized: false,
        };
        proof {
            assert(p@.frames =~= Seq::<Seq<u32>>::empty());
        }
        p
    }
    /// Take in the frames drained from the input stream; `disconnected` says
    /// the stream has ended.  Returns whether a frame arrived.  Without an
    /// open input stream nothing changes.
    pub fn receive(&mut self, incoming: Vec<MxfrFrame>, disconnected: bool) -> (got_new: bool)
        requires
            old(self).wf(),
        ensures
            final(self).wf(),
            !old(self)@.input_open ==> !got_new && final(self)@ == old(self)@,
            old(self)@.input_open ==> got_new == (incoming@.len() > 0) && final(self)@ == received(
                old(self)@,
                incoming@,
                disconnected,
            ),
    {
        if !self.input_open {
            return false;
        }
        let ghost old_v = self@;
        let ghost inc = incoming@;
        let got_new = incoming.len() > 0;
        let mut rest = incoming;
        let ghost mut k: int = 0;
        while rest.len() > 0
            invariant
                0 <= k <= inc.len(),
                rest@ == inc.skip(k),
                self.all_range == frames_range(self@.frames),
                old_v.frames.len() == 0 ==> self.frame_idx == 0,
                old_v.frames.len() > 0 ==> self.frame_idx < old_v.frames.len(),
                self@ == (PlaybackView {
                    frames: old_v.frames + inc.take(k).map_values(|f: MxfrFrame| f.data@),
                    timestamps: old_v.timestamps + inc.take(k).map_values(
                        |f: MxfrFrame| f.timestamp_bits,
                    ),
                    stream_width: dims_after(old_v.stream_width, old_v.stream_height, inc.take(k)).0,
                    stream_height: dims_after(old_v.stream_width, old_v.stream_height, inc.take(k)).1,
                    ..old_v
                }),
            decreases rest.len(),
        {
            let frame = rest.remove(0);
            proof {
                assert(frame == inc[k]);
                assert(inc.take(k + 1).drop_last() =~= inc.take(k));
                assert(inc.take(k + 1).map_values(|f: MxfrFrame| f.data@) =~= inc.take(k).map_values(
                    |f: MxfrFrame| f.data@,
                ).push(frame.data@));
                assert(inc.take(k + 1).map_values(|f: MxfrFrame| f.timestamp_bits) =~= inc.take(
                    k,
                ).map_values(|f: MxfrFrame| f.timestamp_bits).push(frame.timestamp_bits));
                assert(rest@ =~= inc.skip(k + 1));
                global_range_of_appended(self@.frames, frame.data@);
            }
            if self.stream_width == 0 {
                self.stream_width = frame.width;
                self.stream_height = frame.height;
            }
            self.all_range = extend_range(self.all_range, frame.data.as_slice());
            self.timestamps.push(frame.timestamp_bits);
            let ghost before = self.frames@;
            self.frames.push(frame.data);
            proof {
                k = k + 1;
                assert(self.frames@.map_values(|f: Vec<u32>| f@) =~= before.map_values(
                    |f: Vec<u32>| f@,
                ).push(frame.data@));
                assert(self@.frames =~= old_v.frames + inc.take(k).map_values(|f: MxfrFrame| f.data@));
                assert(self@.timestamps =~= old_v.timestamps + inc.take(k).map_values(
                    |f: MxfrFrame| f.timestamp_bits,
                ));
            }
        }
        proof {
            assert(inc.take(k) =~= inc);
        }
        if disconnected {
            self.input_open = false;
            if self.frames.len() > 0 {
                self.global_range = self.all_range;
            }
        } else if got_new && self.norm_mode == NormMode::Global {
            self.global_range = self.all_range;
        }
        got_new
    }

    /// Decide the renderer set-up: once the renderer exists (`gpu_ready`) and
    /// a frame is there, the first frame is uploaded with the stream's
    /// dimensions (the default grid for the built-in animation).
    pub fn try_init(&mut self, gpu_ready: bool) -> (plan: Option<InitPlan>)
        requires
            old(self).wf(),
        ensures
            final(self).wf(),
            final(self)@ == after_init(old(self)@, gpu_ready),
            !init_ready(old(self)@, gpu_ready) ==> plan is None,
            init_ready(old(self)@, gpu_ready) ==> (plan matches Some(p) && p.width == (
            if old(self)@.stream_width > 0 {
                old(self)@.stream_width
            } else {
                DEFAULT_WIDTH
            }) && p.height == (if old(self)@.stream_height > 0 {
                old(self)@.stream_height
            } else {
                DEFAULT_HEIGHT
            }) && p.range == mode_range(
                old(self)@.frames[0],
                old(self)@.norm_mode,
                old(self)@.global_range,
                old(self)@.fixed_range,
            )),
    {
        if self.gpu_initialized || !gpu_ready || self.frames.len() == 0 {
            return None;
        }
        let width = if self.stream_width > 0 {
            self.stream_width
        } else {
            DEFAULT_WIDTH
        };
        let height = if self.stream_height > 0 {
            self.stream_height
        } else {
            DEFAULT_HEIGHT
        };
        let range = frame_range(
            self.frames[0].as_slice(),
            self.norm_mode,
            self.global_range,
            self.fixed_range,
        );
        self.gpu_initialized = true;
        Some(InitPlan { width, height, range })
    }
    /// Whether the built-in animation has to be supplied on resume: there is
    /// no input stream and no frame.
    pub fn needs_test_frames(&self) -> (b: bool)
        ensures
            b == (!self@.input_open && self@.frames.len() == 0),
    {
        !self.input_open && self.frames.len() == 0
    }

    /// The window (re)appears with a fresh renderer: the built-in animation is
    /// loaded when it is needed and given, with its global range; playback
    /// restarts at the first frame, and the renderer set-up is decided.
    pub fn resume(&mut self, test_frames: Option<Vec<Vec<u32>>>) -> (plan: Option<InitPlan>)
        requires
            old(self).wf(),
        ensures
            final(self).wf(),
            ({
                let loads = !old(self)@.input_open && old(self)@.frames.len() == 0
                    && test_frames is Some;
                let frames = if loads {
                    test_frames->0@.map_values(|f: Vec<u32>| f@)
                } else {
                    old(self)@.frames
                };
                let restarted = PlaybackView {
                    frames,
                    global_range: if loads {
                        frames_range(frames)
                    } else {
                        old(self)@.global_range
                    },
                    frame_idx: 0,
                    next_due: None,
                    gpu_initialized: false,
                    ..old(self)@
                };
                &&& final(self)@ == after_init(restarted, true)
                &&& frames.len() == 0 ==> plan is None
                &&& loads && frames.len() > 0 ==> (plan matches Some(p) && p.width == DEFAULT_WIDTH
                    && p.height == DEFAULT_HEIGHT)
                &&& frames.len() > 0 ==> (plan matches Some(p) && p.width == (
                if restarted.stream_width > 0 {
                    restarted.stream_width
                } else {
                    DEFAULT_WIDTH
                }) && p.height == (if restarted.stream_height > 0 {
                    restarted.stream_height
                } else {
                    DEFAULT_HEIGHT
                }) && p.range == mode_range(
                    frames[0],
                    restarted.norm_mode,
                    restarted.global_range,
                    restarted.fixed_range,
                ))
            }),
    {
        if !self.input_open && self.frames.len() == 0 {
            if let Some(frames) = test_frames {
                let range = crate::norm::global_range(frames.as_slice());
                self.frames = frames;
                self.all_range = range;
                self.global_range = range;
            }
        }
        self.frame_idx = 0;
        self.next_due = None;
        self.gpu_initialized = false;
        self.try_init(true)
    }

    /// A redraw at time `now` (nanoseconds on the caller's clock), with frame
    /// duration `dur`, after the input has been taken in: set up the renderer
    /// if it can be, move on to the next frame when it is due, and report the
    /// range of the frame to show.
    pub fn redraw(&mut self, now: u64, dur: u64, gpu_ready: bool) -> (plan: RedrawPlan)
        requires
            old(self).wf(),
        ensures
            final(self).wf(),
            final(self)@ == ticked(after_init(old(self)@, gpu_ready), now, dur),
            plan.init is Some == init_ready(old(self)@, gpu_ready),
            plan.init matches Some(p) ==> p.width == (if old(self)@.stream_width > 0 {
                old(self)@.stream_width
            } else {
                DEFAULT_WIDTH
            }) && p.height == (if old(self)@.stream_height > 0 {
                old(self)@.stream_height
            } else {
                DEFAULT_HEIGHT
            }) && p.range == mode_range(
                old(self)@.frames[0],
                old(self)@.norm_mode,
                old(self)@.global_range,
                old(self)@.fixed_range,
            ),
            plan.title_changed == advances(after_init(old(self)@, gpu_ready), now, dur),
            plan.upload == (final(self)@.frames.len() > 0 && final(self)@.gpu_initialized),
            plan.range == shown_range(final(self)@),
    {
        let init = self.try_init(gpu_ready);
        let mut title_changed = false;
        let n = self.frames.len();
        if n > 0 && self.gpu_initialized && !self.paused {
            let due = match self.next_due {
                Some(d) => d,
                None => saturating_add(now, dur),
            };
            if now >= due {
                self.frame_idx = (self.frame_idx + 1) % n;
                let next = saturating_add(due, dur);
                self.next_due = Some(
                    if next < now {
                        saturating_add(now, dur)
                    } else {
                        next
                    },
                );
                title_changed = true;
            } else {
                self.next_due = Some(due);
            }
        }
        let upload = n > 0 && self.gpu_initialized;
        let range = if upload {
            frame_range(
                self.frames[self.frame_idx].as_slice(),
                self.norm_mode,
                self.global_range,
                self.fixed_range,
            )
        } else {
            (0, ONE_BITS)
        };
        RedrawPlan { init, upload, range, title_changed }
    }

    /// Carry out a key command and say what the window has to do.
    pub fn apply(&mut self, cmd: Command) -> (out: Outcome)
        requires
            old(self).wf(),
        ensures
            final(self).wf(),
            final(self)@ == applied(old(self)@, cmd),
            out == outcome_of(old(self)@, cmd),
    {
        let n = self.frames.len();
        match cmd {
            Command::Quit => {},
            Command::ResetView => {},
            Command::CycleNorm => {
                self.norm_mode = self.norm_mode.next();
                if self.norm_mode == NormMode::Global && n > 0 {
                    self.global_range = self.all_range;
                }
            },
            Command::CycleInterp => {
                self.interp_mode = self.interp_mode.next();
            },
            Command::CycleColormap => {
                self.colormap = self.colormap.next();
            },
            Command::TogglePause => {
                self.paused = !self.paused;
                if !self.paused {
                    self.next_due = None;
                }
            },
            Command::StepBack => {
                if n > 0 {
                    self.paused = true;
                    let prev = if self.frame_idx == 0 {
                        n - 1
                    } else {
                        self.frame_idx - 1
                    };
                    proof {
                        assert(prev == (self.frame_idx + n - 1) % (n as int)) by (nonlinear_arith)
                            requires
                                self.frame_idx < n,
                                prev == if self.frame_idx == 0 {
                                    n - 1
                                } else {
                                    self.frame_idx - 1
                                },
                        ;
                    }
                    self.frame_idx = prev;
                }
            },
            Command::StepForward => {
                if n > 0 {
                    self.paused = true;
                    self.frame_idx = (self.frame_idx + 1) % n;
                }
            },
        }
        Outcome {
            quit: cmd == Command::Quit,
            title_changed: match cmd {
                Command::Quit => false,
                Command::StepBack | Command::StepForward => n > 0,
                _ => true,
            },
            colormap_changed: cmd == Command::CycleColormap,
            reset_view: cmd == Command::ResetView,
        }
    }

    /// What the window title reports about the frames.
    pub fn title_info(&self) -> (t: TitleInfo)
        requires
            self.wf(),
        ensures
            t == title_of(self@),
    {
        let n = self.frames.len();
        if n > 0 {
            let tn = self.timestamps.len();
            let timestamp_bits = if tn > 0 {
                let i = if self.frame_idx < tn - 1 {
                    self.frame_idx
                } else {
                    tn - 1
                };
                Some(self.timestamps[i])
            } else {
                None
            };
            TitleInfo::Frame { number: self.frame_idx + 1, count: n, timestamp_bits }
        } else if self.input_open {
            TitleInfo::Waiting
        } else {
            TitleInfo::Idle
        }
    }

    /// The frame at `index`, if there is one.
    pub fn frame(&self, index: usize) -> (f: Option<&Vec<u32>>)
        ensures
            index < self@.frames.len() ==> (f matches Some(d) && d@ == self@.frames[index as int]),
            index >= self@.frames.len() ==> f is None,
    {
        if index < self.frames.len() {
            Some(&self.frames[index])
        } else {
            None
        }
    }

    pub fn frame_index(&self) -> (i: usize)
        ensures
            i == self@.frame_idx,
    {
        self.frame_idx
    }

    pub fn frame_count(&self) -> (n: usize)
        ensures
            n == self@.frames.len(),
    {
        self.frames.len()
    }

    pub fn is_paused(&self) -> (b: bool)
        ensures
            b == self@.paused,
    {
        self.paused
    }

    pub fn norm_mode(&self) -> (m: NormMode)
        ensures
            m == self@.norm_mode,
    {
        self.norm_mode
    }

    pub fn interp_mode(&self) -> (m: InterpMode)
        ensures
            m == self@.interp_mode,
    {
        self.interp_mode
    }

    pub fn colormap(&self) -> (c: Colormap)
        ensures
            c == self@.colormap,
    {
        self.colormap
    }
}

/// Stepping forward and then back, or back and then forward, returns to the
/// frame shown before (and leaves playback paused).
pub proof fn steps_undo_each_other(v: PlaybackView)
    requires
        index_in_range(v),
        v.frames.len() > 0,
    ensures
        applied(applied(v, Command::StepForward), Command::StepBack).frame_idx == v.frame_idx,
        applied(applied(v, Command::StepBack), Command::StepForward).frame_idx == v.frame_idx,
        applied(applied(v, Command::StepForward), Command::StepBack).paused,
{
    let n = v.frames.len() as int;
    let i = v.frame_idx;
    let f = (i + 1) % n;
    let b = (i + n - 1) % n;
    assert(0 <= f < n && 0 <= b < n) by (nonlinear_arith)
        requires
            0 <= i < n,
            f == (i + 1) % n,
            b == (i + n - 1) % n,
    ;
    assert((f + n - 1) % n == i) by (nonlinear_arith)
        requires
            0 <= i < n,
            f == (i + 1) % n,
    ;
    assert((b + 1) % n == i) by (nonlinear_arith)
        requires
            0 <= i < n,
            b == (i + n - 1) % n,
    ;
}

/// Pausing twice leaves the pause state and the frame as they were.
pub proof fn pause_toggles_back(v: PlaybackView)
    ensures
        applied(applied(v, Command::TogglePause), Command::TogglePause).paused == v.paused,
        applied(applied(v, Command::TogglePause), Command::TogglePause).frame_idx == v.frame_idx,
{
}

proof fn dims_in_pieces(w: u32, h: u32, a: Seq<MxfrFrame>, b: Seq<MxfrFrame>)
    ensures
        dims_after(w, h, a + b) == ({
            let d = dims_after(w, h, a);
            dims_after(d.0, d.1, b)
        }),
    decreases b.len(),
{
    if b.len() == 0 {
        assert(a + b =~= a);
    } else {
        dims_in_pieces(w, h, a, b.drop_last());
        assert((a + b).drop_last() =~= a + b.drop_last());
    }
}

/// However the input is drained, in one batch or in two, the frames, their
/// timestamps and the stream dimensions come out the same.
pub proof fn receive_in_pieces(v: PlaybackView, a: Seq<MxfrFrame>, b: Seq<MxfrFrame>, disconnected: bool)
    ensures
        ({
            let two = received(received(v, a, false), b, disconnected);
            let one = received(v, a + b, disconnected);
            &&& two.frames == one.frames
            &&& two.timestamps == one.timestamps
            &&& two.stream_width == one.stream_width
            &&& two.stream_height == one.stream_height
            &&& two.input_open == one.input_open
        }),
{
    dims_in_pieces(v.stream_width, v.stream_height, a, b);
    assert((a + b).map_values(|f: MxfrFrame| f.data@) =~= a.map_values(|f: MxfrFrame| f.data@)
        + b.map_values(|f: MxfrFrame| f.data@));
    assert((a + b).map_values(|f: MxfrFrame| f.timestamp_bits) =~= a.map_values(
        |f: MxfrFrame| f.timestamp_bits,
    ) + b.map_values(|f: MxfrFrame| f.timestamp_bits));
    let x = a.map_values(|f: MxfrFrame| f.data@);
    let y = b.map_values(|f: MxfrFrame| f.data@);
    assert(v.frames + x + y =~= v.frames + (x + y));
    let s = a.map_values(|f: MxfrFrame| f.timestamp_bits);
    let t = b.map_values(|f: MxfrFrame| f.timestamp_bits);
    assert(v.timestamps + s + t =~= v.timestamps + (s + t));
}

/// When the stream ends with frames buffered, global normalization uses the
/// finite min/max over every frame received.
pub proof fn stream_end_uses_all_frames(v: PlaybackView, incoming: Seq<MxfrFrame>)
    requires
        v.frames.len() + incoming.len() > 0,
    ensures
        received(v, incoming, true).global_range == frames_range(received(v, incoming, true).frames),
        !received(v, incoming, true).input_open,
{
}

/// The frame on display is always one of the frames (index 0 while there are
/// none): every operation keeps it so.
pub proof fn shown_frame_exists(p: &Playback)
    requires
        p.wf(),
    ensures
        index_in_range(p@),
{
}

/// Global normalization always scales to the finite min/max over every frame
/// received so far: whenever frames are held in global mode, the global range
/// is the range over all of them.
pub proof fn global_mode_covers_all_frames(p: &Playback)
    requires
        p.wf(),
    ensures
        global_covers_frames(p@),
{
}

/// While no frame is held, no stream size is fixed: the first frame to arrive
/// fixes it, and the built-in animation is set up at the default size.
pub proof fn no_size_before_frames(p: &Playback)
    requires
        p.wf(),
    ensures
        no_frames_no_size(p@),
{
}

/// Taking in frames leaves the display where it was: the same frame is shown
/// (frames are only appended, so it is still there), playback is neither
/// paused nor resumed, its schedule and the display modes are kept, and the
/// frames already held are a prefix of the new ones.
pub proof fn receive_keeps_display(v: PlaybackView, incoming: Seq<MxfrFrame>, disconnected: bool)
    ensures
        ({
            let w = received(v, incoming, disconnected);
            &&& w.frame_idx == v.frame_idx
            &&& w.paused == v.paused
            &&& w.next_due == v.next_due
            &&& w.norm_mode == v.norm_mode
            &&& w.interp_mode == v.interp_mode
            &&& w.colormap == v.colormap
            &&& w.gpu_initialized == v.gpu_initialized
            &&& w.frames.len() == v.frames.len() + incoming.len()
            &&& forall|i: int| 0 <= i < v.frames.len() ==> #[trigger] w.frames[i] == v.frames[i]
            &&& forall|j: int|
                0 <= j < incoming.len() ==> w.frames[v.frames.len() + j] == #[trigger] incoming[j].data@
        }),
{
    let w = received(v, incoming, disconnected);
    assert forall|j: int| 0 <= j < incoming.len() implies w.frames[v.frames.len() + j]
        == #[trigger] incoming[j].data@ by {
        assert(w.frames[v.frames.len() + j] == incoming.map_values(|f: MxfrFrame| f.data@)[j]);
    }
}

/// The range a redraw reports is that of the frame on display: once frames
/// are held and the renderer is set up, it is the mode's range of frame
/// `frame_idx`; in per-frame mode that frame's own finite (min, max), in
/// percentile mode its percentiles, in global mode the range over every frame.
pub proof fn shown_range_is_of_frame_on_display(v: PlaybackView)
    requires
        index_in_range(v),
        global_covers_frames(v),
        v.frames.len() > 0,
        v.gpu_initialized,
    ensures
        shown_range(v) == mode_range(v.frames[v.frame_idx], v.norm_mode, v.global_range, v.fixed_range),
        v.norm_mode == NormMode::PerFrame ==> shown_range(v) == crate::norm::extended(
            crate::norm::empty_range(),
            v.frames[v.frame_idx],
        ),
        v.norm_mode == NormMode::Global ==> shown_range(v) == frames_range(v.frames),
        v.norm_mode == NormMode::Fixed ==> shown_range(v) == v.fixed_range,
{
}

/// Without frames, or before the renderer is set up, a redraw reports
/// (0.0, 1.0).
pub proof fn shown_range_before_display(v: PlaybackView)
    requires
        v.frames.len() == 0 || !v.gpu_initialized,
    ensures
        shown_range(v) == (0u32, ONE_BITS),
{
}

/// Each step command, with frames held, moves one frame (wrapping around)
/// and pauses playback, whether it was paused or not; without frames it
/// changes nothing.
pub proof fn steps_move_one_frame_and_pause(v: PlaybackView)
    requires
        index_in_range(v),
    ensures
        v.frames.len() > 0 ==> ({
            let f = applied(v, Command::StepForward);
            let b = applied(v, Command::StepBack);
            &&& f.paused && b.paused
            &&& f.frame_idx == (if v.frame_idx + 1 == v.frames.len() { 0 } else { v.frame_idx + 1 })
            &&& b.frame_idx == (if v.frame_idx == 0 { v.frames.len() - 1 } else { v.frame_idx - 1 })
            &&& f.frames == v.frames && b.frames == v.frames
        }),
        v.frames.len() == 0 ==> applied(v, Command::StepForward) == v && applied(v, Command::StepBack)
            == v,
{
    if v.frames.len() > 0 {
        let n = v.frames.len() as int;
        let i = v.frame_idx;
        assert((i + 1) % n == (if i + 1 == n { 0 } else { i + 1 })) by (nonlinear_arith)
            requires
                0 <= i < n,
        ;
        assert((i + n - 1) % n == (if i == 0 { n - 1 } else { i - 1 })) by (nonlinear_arith)
            requires
                0 <= i < n,
        ;
    }
}

/// The title reports the frame on display: its number counted from 1, the
/// frame count, and that frame's own timestamp when it has one (frames
/// without their own timestamp report the last one there is).
pub proof fn title_reports_frame_on_display(v: PlaybackView)
    requires
        index_in_range(v),
        v.frames.len() > 0,
    ensures
        v.frame_idx < v.timestamps.len() ==> title_of(v) == (TitleInfo::Frame {
            number: (v.frame_idx + 1) as usize,
            count: v.frames.len() as usize,
            timestamp_bits: Some(v.timestamps[v.frame_idx]),
        }),
        v.timestamps.len() == 0 ==> title_of(v) == (TitleInfo::Frame {
            number: (v.frame_idx + 1) as usize,
            count: v.frames.len() as usize,
            timestamp_bits: None,
        }),
        0 < v.timestamps.len() <= v.frame_idx ==> title_of(v) == (TitleInfo::Frame {
            number: (v.frame_idx + 1) as usize,
            count: v.frames.len() as usize,
            timestamp_bits: Some(v.timestamps.last()),
        }),
{
}

/// A redraw moves playback at most one frame on: when playing and the frame
/// is due, to the next frame (wrapping to the first) with the next deadline
/// not before now; otherwise the frame on display stays.  Frames, pause
/// state and modes are never changed by the clock.
pub proof fn redraw_moves_at_most_one_frame(v: PlaybackView, now: u64, dur: u64)
    requires
        index_in_range(v),
    ensures
        ({
            let w = ticked(v, now, dur);
            &&& w.frames == v.frames && w.paused == v.paused && w.norm_mode == v.norm_mode
            &&& w.global_range == v.global_range && w.timestamps == v.timestamps
            &&& index_in_range(w)
            &&& advances(v, now, dur) ==> w.frame_idx == (if v.frame_idx + 1 == v.frames.len() {
                0
            } else {
                v.frame_idx + 1
            }) && (w.next_due matches Some(d) && d >= now)
            &&& !advances(v, now, dur) ==> w.frame_idx == v.frame_idx
            &&& !playing(v) ==> w == v
        }),
{
    if advances(v, now, dur) {
        let n = v.frames.len() as int;
        let i = v.frame_idx;
        assert((i + 1) % n == (if i + 1 == n { 0 } else { i + 1 })) by (nonlinear_arith)
            requires
                0 <= i < n,
        ;
    }
}

/// The mode commands change only their own mode (global normalization then
/// taking the range over every frame), pausing flips the pause state, and
/// none of them moves the frame on display or touches the frames.
pub proof fn mode_commands_keep_the_frame(v: PlaybackView)
    ensures
        applied(v, Command::CycleColormap).colormap == v.colormap.successor(),
        applied(v, Command::CycleInterp).interp_mode == v.interp_mode.successor(),
        applied(v, Command::CycleNorm).norm_mode == v.norm_mode.successor(),
        applied(v, Command::TogglePause).paused == !v.paused,
        v.paused ==> applied(v, Command::TogglePause).next_due is None,
        forall|c: Command|
            c != Command::StepBack && c != Command::StepForward ==> #[trigger] applied(v, c).frame_idx
                == v.frame_idx && applied(v, c).frames == v.frames,
        applied(v, Command::CycleColormap).norm_mode == v.norm_mode
            && applied(v, Command::CycleColormap).interp_mode == v.interp_mode,
        applied(v, Command::CycleInterp).norm_mode == v.norm_mode
            && applied(v, Command::CycleInterp).colormap == v.colormap,
        applied(v, Command::CycleNorm).colormap == v.colormap
            && applied(v, Command::CycleNorm).interp_mode == v.interp_mode,
        applied(v, Command::Quit) == v && applied(v, Command::ResetView) == v,
{
}

} // verus!
