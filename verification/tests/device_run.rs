use rengine::buffers::AttribBinding;
use rengine::buffers::GpuBufferSet;
use rengine::device::Phase;
use rengine::device::ReDevice;
use rengine::device::vs_source;
use rengine::events::Event;
use rengine::events::Key;
use rengine::events::KeyAction;
use rengine::events::TimedEvent;
use rengine::events::WindowCommand;
use rengine::gpu::Gpu;
use rengine::gpu::Stage;
use rengine::shader::Shader;
use rengine::shader::ShaderProgram;

fn live_programs(gpu: &Gpu) -> usize {
    gpu.programs.iter().filter(|s| s.alive).count()
}

fn live_shaders(gpu: &Gpu) -> usize {
    gpu.shaders.iter().filter(|s| s.alive).count()
}

fn new_device() -> ReDevice {
    ReDevice::new(Gpu::new(), 300, 300, "Rul Engine".to_string()).unwrap()
}

#[test]
fn device_initializes_to_running() {
    let d = new_device();
    assert!(matches!(d.phase, Phase::Running));
    assert_eq!((d.window.width, d.window.height), (300, 300));
    assert!(!d.window.should_close);
    assert_eq!(d.frames_presented, 0);
    // The stage units were not retained past the link; the program is the
    // one live object besides the buffer pair.
    assert_eq!(live_shaders(&d.gpu), 0);
    assert_eq!(live_programs(&d.gpu), 1);
    assert_eq!(d.gpu.error_count, 0);
}

#[test]
fn frame_draws_without_raising_the_error_counter() {
    let mut d = new_device();
    let cmds = d.frame(&Vec::new());
    assert_eq!(cmds.len(), 0);
    assert_eq!(d.gpu.error_count, 0);
    assert_eq!(d.frames_presented, 1);
}

#[test]
fn frame_refresh_key_keeps_the_size() {
    let mut d = new_device();
    let evs = vec![TimedEvent { time_ms: 1, event: Event::Key(Key::R, 0, KeyAction::Release, 0) }];
    let cmds = d.frame(&evs);
    assert_eq!((d.window.width, d.window.height), (300, 300));
    assert_eq!(cmds.len(), 2);
    assert!(matches!(cmds[0], WindowCommand::SetSize(301, 300)));
    assert!(matches!(cmds[1], WindowCommand::SetSize(300, 300)));
    assert_eq!(d.gpu.error_count, 0);
}

#[test]
fn main_loop_stops_at_the_escape_tick() {
    let mut d = new_device();
    let schedule = vec![
        vec![TimedEvent { time_ms: 1, event: Event::Size(310, 305) }],
        vec![TimedEvent { time_ms: 2, event: Event::Key(Key::Escape, 0, KeyAction::Release, 0) }],
        vec![TimedEvent { time_ms: 3, event: Event::Pos(1, 2) }],
    ];
    let cmds = d.main_loop(&schedule);
    assert!(d.window.should_close);
    assert!(matches!(d.phase, Phase::Closing));
    // Two frames ran; the tick after the close request was never polled.
    assert_eq!(d.frames_presented, 2);
    assert_eq!((d.window.width, d.window.height), (310, 305));
    assert_eq!((d.window.pos_x, d.window.pos_y), (0, 0));
    assert_eq!(cmds.len(), 2);
    assert!(matches!(cmds[1], WindowCommand::SetShouldClose(true)));
    assert_eq!(d.gpu.error_count, 0);
}

#[test]
fn main_loop_runs_out_of_ticks_and_keeps_running() {
    let mut d = new_device();
    let schedule = vec![Vec::new(), Vec::new()];
    let _ = d.main_loop(&schedule);
    assert!(!d.window.should_close);
    assert!(matches!(d.phase, Phase::Running));
    assert_eq!(d.frames_presented, 2);
}

#[test]
fn device_destroy_releases_everything() {
    let d = new_device();
    let gpu = d.destroy();
    assert_eq!(live_programs(&gpu), 0);
    assert_eq!(live_shaders(&gpu), 0);
    assert!(gpu.vaos.iter().all(|v| !v));
    assert!(gpu.vbos.iter().all(|v| !v));
    assert_eq!(gpu.error_count, 0);
}

#[test]
fn draw_with_a_dead_program_raises_the_error_counter() {
    let mut gpu = Gpu::new();
    let vs = Shader::from_source(&mut gpu, vs_source(), Stage::Vertex).unwrap();
    let units = vec![&vs];
    let program = ShaderProgram::link(&mut gpu, "p".to_string(), &units).unwrap();
    let pid = program.id();
    let bindings = vec![AttribBinding {
        location: 0,
        components: 2,
        normalized: false,
        stride: 0,
        offset: 0,
    }];
    let bufs = GpuBufferSet::create(&mut gpu, 6, bindings);
    bufs.draw(&mut gpu, pid);
    assert_eq!(gpu.error_count, 0);
    program.destroy(&mut gpu);
    bufs.draw(&mut gpu, pid);
    assert_eq!(gpu.error_count, 1);
    vs.destroy(&mut gpu);
    bufs.destroy(&mut gpu);
}

#[test]
fn draw_with_an_unbound_attribute_raises_the_error_counter() {
    let mut gpu = Gpu::new();
    let vs = Shader::from_source(&mut gpu, vs_source(), Stage::Vertex).unwrap();
    let units = vec![&vs];
    let program = ShaderProgram::link(&mut gpu, "p".to_string(), &units).unwrap();
    let bufs = GpuBufferSet::create(&mut gpu, 6, Vec::new());
    bufs.draw(&mut gpu, program.id());
    assert_eq!(gpu.error_count, 1);
    vs.destroy(&mut gpu);
    program.destroy(&mut gpu);
    bufs.destroy(&mut gpu);
}
