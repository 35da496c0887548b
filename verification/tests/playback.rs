use wgpu_animator::colormap::Colormap;
use wgpu_animator::interp::InterpMode;
use wgpu_animator::mxfr::MxfrFrame;
use wgpu_animator::norm::{global_range, NormMode, ONE_BITS};
use wgpu_animator::playback::{
    command_for_key, Command, Playback, PlaybackConfig, TitleInfo, DEFAULT_HEIGHT, DEFAULT_WIDTH,
};

fn bits(vs: &[f32]) -> Vec<u32> {
    vs.iter().map(|v| v.to_bits()).collect()
}

fn frame(w: u32, h: u32, t: f64, vs: &[f32]) -> MxfrFrame {
    MxfrFrame { width: w, height: h, timestamp_bits: t.to_bits(), data: bits(vs) }
}

fn player(norm: NormMode, streaming: bool) -> Playback {
    Playback::new(PlaybackConfig {
        norm_mode: norm,
        interp_mode: InterpMode::Nearest,
        colormap: Colormap::Heat,
        streaming_input: streaming,
    })
}

#[test]
fn new_player_state() {
    let p = player(NormMode::Global, true);
    assert_eq!(p.frame_count(), 0);
    assert_eq!(p.frame_index(), 0);
    assert!(!p.is_paused());
    assert_eq!(p.title_info(), TitleInfo::Waiting);
    assert_eq!(player(NormMode::Global, false).title_info(), TitleInfo::Idle);
    assert!(!p.needs_test_frames());
    assert!(player(NormMode::Global, false).needs_test_frames());
}

#[test]
fn receive_appends_frames_and_updates_global_range() {
    let mut p = player(NormMode::Global, true);
    assert!(!p.receive(vec![], false));
    assert!(p.receive(vec![frame(2, 1, 0.5, &[1.0, 3.0]), frame(2, 1, 1.0, &[-2.0, 0.0])], false));
    assert_eq!(p.frame_count(), 2);
    assert_eq!(p.frame(1).unwrap(), &bits(&[-2.0, 0.0]));
    assert!(p.frame(2).is_none());
    assert_eq!(
        p.title_info(),
        TitleInfo::Frame { number: 1, count: 2, timestamp_bits: Some(0.5f64.to_bits()) }
    );
    // The renderer is not set up yet: the shown range is (0, 1).
    let plan = p.redraw(0, 10, false);
    assert!(plan.init.is_none());
    assert!(!plan.upload);
    assert_eq!(plan.range, (0, ONE_BITS));
    // Once it is, frame 0 is shown with the global range over both frames.
    let plan = p.redraw(0, 10, true);
    let init = plan.init.unwrap();
    assert_eq!((init.width, init.height), (2, 1));
    assert_eq!(init.range, ((-2.0f32).to_bits(), 3.0f32.to_bits()));
    assert!(plan.upload);
    assert_eq!(plan.range, ((-2.0f32).to_bits(), 3.0f32.to_bits()));
}

#[test]
fn switching_to_global_uses_all_frames() {
    let mut p = player(NormMode::PerFrame, true);
    p.receive(vec![frame(1, 1, 0.0, &[5.0]), frame(1, 1, 1.0, &[7.0])], false);
    p.apply(Command::CycleNorm); // per-frame → percentile
    p.apply(Command::CycleNorm); // → fixed
    let plan = p.redraw(0, 10, true);
    assert_eq!(plan.range, (0, ONE_BITS));
    p.apply(Command::CycleNorm); // → global: the range over both frames
    assert_eq!(p.norm_mode(), NormMode::Global);
    let plan = p.redraw(0, 10, true);
    assert_eq!(plan.range, (5.0f32.to_bits(), 7.0f32.to_bits()));
    // More frames in global mode widen it.
    assert!(p.receive(vec![frame(1, 1, 2.0, &[-1.0])], false));
    let plan = p.redraw(0, 10, true);
    assert_eq!(plan.range, ((-1.0f32).to_bits(), 7.0f32.to_bits()));
    // The end of the stream keeps it; afterwards nothing more is taken in.
    assert!(!p.receive(vec![], true));
    assert_eq!(p.title_info(), TitleInfo::Frame { number: 1, count: 3, timestamp_bits: Some(0.0f64.to_bits()) });
    assert!(!p.receive(vec![frame(1, 1, 3.0, &[9.0])], false));
    assert_eq!(p.frame_count(), 3);
}

#[test]
fn stream_end_range_covers_all_frames() {
    let frames = vec![frame(2, 1, 0.0, &[1.0, f32::NAN]), frame(2, 1, 1.0, &[-3.0, 4.0])];
    let all: Vec<Vec<u32>> = frames.iter().map(|f| f.data.clone()).collect();
    let mut p = player(NormMode::Global, true);
    p.receive(frames, true);
    let plan = p.redraw(0, 10, true);
    assert_eq!(plan.range, global_range(&all));
    assert_eq!(p.title_info(), TitleInfo::Frame { number: 1, count: 2, timestamp_bits: Some(0.0f64.to_bits()) });
}

#[test]
fn receiving_in_pieces_gives_the_same_frames() {
    let mk = || vec![frame(1, 2, 0.0, &[1.0, 2.0]), frame(1, 2, 1.0, &[3.0, 4.0]), frame(1, 2, 2.0, &[5.0, 6.0])];
    let mut one = player(NormMode::Global, true);
    one.receive(mk(), false);
    let mut two = player(NormMode::Global, true);
    let mut fs = mk();
    let rest = fs.split_off(1);
    two.receive(fs, false);
    two.receive(rest, false);
    assert_eq!(one.frame_count(), two.frame_count());
    for i in 0..3 {
        assert_eq!(one.frame(i), two.frame(i));
    }
    let a = one.redraw(0, 10, true);
    let b = two.redraw(0, 10, true);
    assert_eq!((a.init.unwrap().width, a.init.unwrap().height), (b.init.unwrap().width, b.init.unwrap().height));
    assert_eq!(a.range, b.range);
}

#[test]
fn first_streamed_frame_fixes_dimensions() {
    let mut p = player(NormMode::Fixed, true);
    p.receive(vec![frame(3, 1, 0.0, &[0.0; 3]), frame(1, 3, 0.0, &[0.0; 3])], false);
    let init = p.redraw(0, 10, true).init.unwrap();
    assert_eq!((init.width, init.height), (3, 1));
}

#[test]
fn frames_advance_when_due() {
    let mut p = player(NormMode::Fixed, true);
    p.receive(vec![frame(1, 1, 0.0, &[0.0]), frame(1, 1, 1.0, &[1.0]), frame(1, 1, 2.0, &[2.0])], false);
    // First redraw sets up the renderer and schedules frame 1 for t = 100.
    let plan = p.redraw(0, 100, true);
    assert!(plan.init.is_some());
    assert!(plan.title_changed == false);
    assert_eq!(p.frame_index(), 0);
    let plan = p.redraw(50, 100, true);
    assert!(!plan.title_changed);
    assert_eq!(p.frame_index(), 0);
    let plan = p.redraw(100, 100, true);
    assert!(plan.title_changed);
    assert_eq!(p.frame_index(), 1);
    // Next due at 200; far behind at 1000 it advances once and reschedules.
    p.redraw(1000, 100, true);
    assert_eq!(p.frame_index(), 2);
    p.redraw(1050, 100, true);
    assert_eq!(p.frame_index(), 2);
    p.redraw(1100, 100, true);
    assert_eq!(p.frame_index(), 0); // wraps to the first frame
}

#[test]
fn paused_playback_does_not_advance() {
    let mut p = player(NormMode::Fixed, true);
    p.receive(vec![frame(1, 1, 0.0, &[0.0]), frame(1, 1, 1.0, &[1.0])], false);
    p.redraw(0, 10, true);
    let out = p.apply(Command::TogglePause);
    assert!(out.title_changed && !out.quit);
    assert!(p.is_paused());
    p.redraw(1000, 10, true);
    assert_eq!(p.frame_index(), 0);
    p.apply(Command::TogglePause);
    assert!(!p.is_paused());
    // Unpausing forgets the deadline: the next frame is due one duration later.
    p.redraw(2000, 10, true);
    assert_eq!(p.frame_index(), 0);
    p.redraw(2010, 10, true);
    assert_eq!(p.frame_index(), 1);
}

#[test]
fn steps_wrap_and_pause() {
    let mut p = player(NormMode::Fixed, true);
    let out = p.apply(Command::StepForward);
    assert!(!out.title_changed);
    assert!(!p.is_paused());
    p.receive(vec![frame(1, 1, 0.0, &[0.0]), frame(1, 1, 1.0, &[1.0]), frame(1, 1, 2.0, &[2.0])], false);
    let out = p.apply(Command::StepBack);
    assert!(out.title_changed);
    assert!(p.is_paused());
    assert_eq!(p.frame_index(), 2);
    p.apply(Command::StepForward);
    assert_eq!(p.frame_index(), 0);
    p.apply(Command::StepForward);
    p.apply(Command::StepBack);
    assert_eq!(p.frame_index(), 0);
    assert_eq!(p.title_info(), TitleInfo::Frame { number: 1, count: 3, timestamp_bits: Some(0.0f64.to_bits()) });
}

#[test]
fn pause_twice_restores_play() {
    let mut p = player(NormMode::Fixed, false);
    p.apply(Command::TogglePause);
    p.apply(Command::TogglePause);
    assert!(!p.is_paused());
}

#[test]
fn mode_commands() {
    let mut p = player(NormMode::Global, false);
    let out = p.apply(Command::CycleColormap);
    assert!(out.colormap_changed && out.title_changed && !out.reset_view && !out.quit);
    assert_eq!(p.colormap(), Colormap::Inferno);
    let out = p.apply(Command::CycleInterp);
    assert!(!out.colormap_changed && out.title_changed);
    assert_eq!(p.interp_mode(), InterpMode::Linear);
    let out = p.apply(Command::CycleNorm);
    assert_eq!(p.norm_mode(), NormMode::PerFrame);
    assert!(out.title_changed);
    let out = p.apply(Command::ResetView);
    assert!(out.reset_view && out.title_changed);
    let out = p.apply(Command::Quit);
    assert!(out.quit && !out.title_changed);
}

#[test]
fn keys_map_to_commands() {
    assert_eq!(command_for_key("n"), Some(Command::CycleNorm));
    assert_eq!(command_for_key("N"), Some(Command::CycleNorm));
    assert_eq!(command_for_key("i"), Some(Command::CycleInterp));
    assert_eq!(command_for_key("I"), Some(Command::CycleInterp));
    assert_eq!(command_for_key("c"), Some(Command::CycleColormap));
    assert_eq!(command_for_key("C"), Some(Command::CycleColormap));
    assert_eq!(command_for_key("r"), Some(Command::ResetView));
    assert_eq!(command_for_key("R"), Some(Command::ResetView));
    assert_eq!(command_for_key("x"), None);
    assert_eq!(command_for_key("nn"), None);
    assert_eq!(command_for_key(""), None);
}

#[test]
fn resume_loads_the_built_in_animation() {
    let mut p = player(NormMode::Global, false);
    let frames = vec![bits(&[0.25, 0.75]), bits(&[0.5, 1.5])];
    let init = p.resume(Some(frames)).unwrap();
    assert_eq!((init.width, init.height), (DEFAULT_WIDTH, DEFAULT_HEIGHT));
    assert_eq!(init.range, (0.25f32.to_bits(), 1.5f32.to_bits()));
    assert_eq!(p.frame_count(), 2);
    assert_eq!(p.title_info(), TitleInfo::Frame { number: 1, count: 2, timestamp_bits: None });
    // Already set up: a redraw does not set up again.
    assert!(p.redraw(0, 10, true).init.is_none());
    // A second resume keeps the frames and sets up again.
    assert!(!p.needs_test_frames());
    let again = p.resume(None).unwrap();
    assert_eq!((again.width, again.height), (DEFAULT_WIDTH, DEFAULT_HEIGHT));
}

#[test]
fn resume_with_input_waits_for_frames() {
    let mut p = player(NormMode::Global, true);
    assert!(p.resume(None).is_none());
    assert_eq!(p.title_info(), TitleInfo::Waiting);
}
