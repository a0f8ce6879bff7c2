use vstd::prelude::*;
use crate::buffers::AttribBinding;
use crate::buffers::GpuBufferSet;
use crate::buffers::covers;
use crate::buffers::draw_fault;
use crate::buffers::location_bound;
use crate::events::TimedEvent;
use crate::events::Title;
use crate::events::WindowCommand;
use crate::events::WindowState;
use crate::events::dispatch_all;
use crate::events::event_width_ok;
use crate::events::spec_run;
use crate::events::spec_run_commands;
use crate::glsl;
use crate::gpu::Gpu;
use crate::shader::Shader;
use crate::shader::ShaderProgram;
use crate::gpu::Stage;

verus! {

/// Where the device stands in its life: created and initializing, running
/// the frame loop, winding down after a close request, or gone.
#[derive(Clone, Copy, Debug, PartialEq, Eq, Structural)]
pub enum Phase {
    Uninitialized,
    Initializing,
    Running,
    Closing,
    Destroyed,
}

/// The built-in vertex stage the device starts with.
pub open spec fn spec_vs_source() -> Seq<char> {
    "#version 150\nin vec2 position;\nvoid main() {\ngl_Position = vec4(position, 0.0, 1.0);\n}"@
}

pub fn vs_source() -> (s: &'static str)
    ensures
        s@ == spec_vs_source(),
{
    "#version 150\nin vec2 position;\nvoid main() {\ngl_Position = vec4(position, 0.0, 1.0);\n}"
}

/// The built-in fragment stage the device starts with.
pub open spec fn spec_fs_source() -> Seq<char> {
    "#version 150\nout vec4 out_color;\nvoid main() {\nout_color = vec4(1.0, 1.0, 1.0, 1.0);\n}"@
}

pub fn fs_source() -> (s: &'static str)
    ensures
        s@ == spec_fs_source(),
{
    "#version 150\nout vec4 out_color;\nvoid main() {\nout_color = vec4(1.0, 1.0, 1.0, 1.0);\n}"
}

/// How many 32-bit words of vertex data the built-in triangle uploads.
pub const TRIANGLE_VERTEX_WORDS: usize = 6;

/// The rendering device: owner of the context (the driver model), the
/// window state, and every GPU resource, in acquisition order program
/// before buffers. Destruction releases everything in reverse order.
pub struct ReDevice {
    pub gpu: Gpu,
    pub window: WindowState,
    pub phase: Phase,
    pub test_program: ShaderProgram,
    pub buffers: GpuBufferSet,
    pub frames_presented: u64,
}

impl ReDevice {
    /// The device is ready to run frames: its program is a live,
    /// successfully linked pipeline, both buffer handles are live, every
    /// active attribute is fed by a binding, and the window width leaves
    /// room for the refresh trick.
    pub open spec fn wf(self) -> bool {
        &&& self.test_program.valid(self.gpu@)
        &&& self.buffers.valid(self.gpu@)
        &&& covers(
            self.buffers.spec_bindings(),
            self.test_program.spec_attribs(self.gpu@).len() as int,
        )
        &&& self.window.width < i32::MAX
    }

    /// Initialize a device over a fresh context: compile the built-in
    /// vertex and fragment stages, link them, discard the stage units
    /// (they are not retained past the link), allocate the buffer set, and
    /// bind every active attribute. Succeeds exactly when the driver
    /// accepts both built-in sources; on failure the driver's log comes
    /// back and the context is torn down with it, as an initialization
    /// failure is fatal to the whole device. On success the context holds
    /// exactly the live handles the device owns beyond those of `gpu`, and
    /// no shader handle stays behind.
    pub fn new(gpu: Gpu, width: i32, height: i32, title: String) -> (r: Result<ReDevice, String>)
        requires
            0 < width < i32::MAX,
            0 < height,
            gpu@.shaders.len() + 2 <= u32::MAX,
            gpu@.programs.len() < u32::MAX,
            gpu@.vaos.len() < u32::MAX,
            gpu@.vbos.len() < u32::MAX,
        ensures
            r is Ok <==> glsl::source_accepted(spec_vs_source()) && glsl::source_accepted(
                spec_fs_source(),
            ),
            match r {
                Ok(d) => {
                    &&& d.wf()
                    &&& d.phase is Running
                    &&& d.window.width == width
                    &&& d.window.height == height
                    &&& !d.window.should_close
                    &&& d.window.title == Title::Fixed(title)
                    &&& d.frames_presented == 0
                    &&& d.gpu@.live_shaders() == gpu@.live_shaders()
                    &&& d.gpu@.live_shader_count() == gpu@.live_shader_count()
                    &&& d.gpu@.live_program_count() == gpu@.live_program_count() + 1
                    &&& d.gpu@.error_count == gpu@.error_count
                },
                Err(log) => log@ == crate::gpu::compile_fail_log() && log@.len() > 0,
            },
    {
        let mut gpu = gpu;
        let ghost g0 = gpu@;
        let vs = match Shader::from_source(&mut gpu, vs_source(), Stage::Vertex) {
            Ok(vs) => vs,
            Err(log) => {
                return Err(log);
            },
        };
        let ghost g1 = gpu@;
        let fs = match Shader::from_source(&mut gpu, fs_source(), Stage::Fragment) {
            Ok(fs) => fs,
            Err(log) => {
                proof {
                    assert(g1.live_shaders().contains(vs.spec_id()));
                    assert(gpu@.live_shaders().contains(vs.spec_id()));
                }
                vs.destroy(&mut gpu);
                return Err(log);
            },
        };
        let ghost g2 = gpu@;
        let mut units: Vec<&Shader> = Vec::new();
        units.push(&vs);
        units.push(&fs);
        proof {
            assert(units@.len() == 2);
            assert(units@[0].valid(gpu@) && units@[1].valid(gpu@)) by {
                assert(fs.spec_id() != vs.spec_id());
                assert(g2.shader_ready(vs.spec_id()) == g1.shader_ready(vs.spec_id()));
            }
        }
        let program = match ShaderProgram::link(&mut gpu, String::from_str("p1"), &units) {
            Ok(p) => p,
            Err(log) => {
                proof {
                    assert(false);
                }
                return Err(log);
            },
        };
        let ghost g3 = gpu@;
        vs.destroy(&mut gpu);
        let ghost g4 = gpu@;
        fs.destroy(&mut gpu);
        let ghost g5 = gpu@;
        proof {
            assert(fs.spec_id() != vs.spec_id());
            assert forall|x: u32| g5.shader_live(x) == g0.shader_live(x) by {
                if x == vs.spec_id() {
                    assert(!g0.shader_live(x));
                    assert(!g4.shader_live(x));
                    assert(g5.shader_live(x) == g4.shader_live(x));
                } else if x == fs.spec_id() {
                    assert(!g1.shader_live(x));
                    assert(!g5.shader_live(x));
                    assert(g0.shader_live(x) == g1.shader_live(x)) by {
                        assert(!g0.shader_live(x) ==> x > g0.shaders.len() || !g0.shaders[x as int
                            - 1].alive);
                    }
                }
            }
            assert forall|x: u32|
                g5.live_shaders().contains(x) == g0.live_shaders().contains(x) by {
                assert(g5.shader_live(x) == g0.shader_live(x));
            }
            assert(g5.live_shaders() =~= g0.live_shaders());
            assert(program.valid(g5));
        }
        let n = program.attrib_count(&gpu);
        let mut bindings: Vec<AttribBinding> = Vec::new();
        let mut k: usize = 0;
        while k < n
            invariant
                k <= n,
                n <= crate::gpu::MAX_VERTEX_ATTRIBS,
                bindings@.len() == k,
                forall|m: int| 0 <= m < k ==> bindings@[m].location as int == m,
            decreases n - k,
        {
            bindings.push(
                AttribBinding {
                    location: k as u32,
                    components: 2,
                    normalized: false,
                    stride: 0,
                    offset: 0,
                },
            );
            k = k + 1;
        }
        proof {
            assert forall|m: int| 0 <= m < n implies #[trigger] location_bound(bindings@, m) by {
                assert(0 <= m < bindings@.len() && bindings@[m].location as int == m);
            }
            assert(covers(bindings@, n as int));
        }
        let buffers = GpuBufferSet::create(&mut gpu, TRIANGLE_VERTEX_WORDS, bindings);
        let window = WindowState {
            title: Title::Fixed(title),
            width,
            height,
            pos_x: 0,
            pos_y: 0,
            should_close: false,
        };
        proof {
            assert(program.valid(gpu@));
        }
        Ok(
            ReDevice {
                gpu,
                window,
                phase: Phase::Running,
                test_program: program,
                buffers,
                frames_presented: 0,
            },
        )
    }

    /// Run one frame over the events one poll tick delivered: dispatch each
    /// event in arrival order, clear, draw the bound buffer set with the
    /// device's program, and present. The draw is clean — the driver's
    /// error counter does not move — and the returned window calls are
    /// exactly the dispatcher's, in order.
    pub fn frame(&mut self, events: &Vec<TimedEvent>) -> (cmds: Vec<WindowCommand>)
        requires
            old(self).wf(),
            old(self).phase is Running,
            old(self).gpu@.error_count < u64::MAX,
            old(self).frames_presented < u64::MAX,
            forall|i: int| 0 <= i < events@.len() ==> event_width_ok(events@[i]),
        ensures
            final(self).wf(),
            final(self).phase is Running,
            final(self).window == spec_run(old(self).window, events@),
            cmds@ == spec_run_commands(old(self).window, events@),
            final(self).gpu@ == old(self).gpu@,
            final(self).test_program == old(self).test_program,
            final(self).buffers == old(self).buffers,
            final(self).frames_presented == old(self).frames_presented + 1,
    {
        let cmds = dispatch_all(&mut self.window, events);
        let p = self.test_program.id();
        self.buffers.draw(&mut self.gpu, p);
        proof {
            assert(!draw_fault(
                old(self).gpu@,
                p,
                self.buffers.spec_vao(),
                self.buffers.spec_vbo(),
                self.buffers.spec_bindings(),
            ));
            assert(self.gpu@ =~~= old(self).gpu@);
        }
        self.frames_presented = self.frames_presented + 1;
        cmds
    }

    /// The window state after running whole ticks of events until the
    /// should-close flag is up or the ticks run out.
    pub open spec fn spec_ticks(s: WindowState, ts: Seq<Seq<TimedEvent>>) -> WindowState
        decreases ts.len(),
    {
        if s.should_close || ts.len() == 0 {
            s
        } else {
            Self::spec_ticks(spec_run(s, ts[0]), ts.drop_first())
        }
    }

    /// The window calls those ticks ask for, in order.
    pub open spec fn spec_ticks_commands(s: WindowState, ts: Seq<Seq<TimedEvent>>) -> Seq<
        WindowCommand,
    >
        decreases ts.len(),
    {
        if s.should_close || ts.len() == 0 {
            Seq::empty()
        } else {
            spec_run_commands(s, ts[0]) + Self::spec_ticks_commands(
                spec_run(s, ts[0]),
                ts.drop_first(),
            )
        }
    }

    /// How many of those ticks are run (and frames presented) before the
    /// should-close flag stops the loop.
    pub open spec fn spec_ticks_frames(s: WindowState, ts: Seq<Seq<TimedEvent>>) -> nat
        decreases ts.len(),
    {
        if s.should_close || ts.len() == 0 {
            0
        } else {
            1 + Self::spec_ticks_frames(spec_run(s, ts[0]), ts.drop_first())
        }
    }

    /// Drive the frame loop over a schedule of poll ticks: while the
    /// should-close flag is down and ticks remain, run one frame per tick.
    /// When the flag stops the loop the device moves to its closing phase;
    /// the driver's error counter never moves.
    pub fn main_loop(&mut self, schedule: &Vec<Vec<TimedEvent>>) -> (cmds: Vec<WindowCommand>)
        requires
            old(self).wf(),
            old(self).phase is Running,
            old(self).gpu@.error_count < u64::MAX,
            old(self).frames_presented + schedule@.len() <= u64::MAX,
            forall|t: int, i: int|
                0 <= t < schedule@.len() && 0 <= i < schedule@[t]@.len() ==> event_width_ok(
                    schedule@[t]@[i],
                ),
        ensures
            final(self).wf(),
            final(self).window == Self::spec_ticks(
                old(self).window,
                schedule@.map_values(|v: Vec<TimedEvent>| v@),
            ),
            cmds@ == Self::spec_ticks_commands(
                old(self).window,
                schedule@.map_values(|v: Vec<TimedEvent>| v@),
            ),
            final(self).frames_presented == old(self).frames_presented + Self::spec_ticks_frames(
                old(self).window,
                schedule@.map_values(|v: Vec<TimedEvent>| v@),
            ),
            final(self).gpu@ == old(self).gpu@,
            final(self).phase == (if final(self).window.should_close {
                Phase::Closing
            } else {
                Phase::Running
            }),
    {
        let ghost ticks = schedule@.map_values(|v: Vec<TimedEvent>| v@);
        let mut cmds: Vec<WindowCommand> = Vec::new();
        let mut t: usize = 0;
        proof {
            assert(ticks.skip(0) =~= ticks);
        }
        while t < schedule.len() && !self.window.should_close
            invariant
                self.wf(),
                self.phase is Running,
                ticks == schedule@.map_values(|v: Vec<TimedEvent>| v@),
                forall|a: int, i: int|
                    0 <= a < schedule@.len() && 0 <= i < schedule@[a]@.len() ==> event_width_ok(
                        schedule@[a]@[i],
                    ),
                t <= schedule@.len(),
                self.gpu@ == old(self).gpu@,
                old(self).gpu@.error_count < u64::MAX,
                self.frames_presented + (schedule@.len() - t) <= u64::MAX,
                Self::spec_ticks(old(self).window, ticks) == Self::spec_ticks(
                    self.window,
                    ticks.skip(t as int),
                ),
                Self::spec_ticks_commands(old(self).window, ticks) == cmds@
                    + Self::spec_ticks_commands(self.window, ticks.skip(t as int)),
                old(self).frames_presented + Self::spec_ticks_frames(old(self).window, ticks)
                    == self.frames_presented + Self::spec_ticks_frames(
                    self.window,
                    ticks.skip(t as int),
                ),
            decreases schedule@.len() - t,
        {
            let ghost pre = self.window;
            let ghost pre_cmds = cmds@;
            proof {
                assert(ticks.skip(t as int)[0] == ticks[t as int]);
                assert(ticks[t as int] == schedule@[t as int]@);
            }
            let mut step = self.frame(&schedule[t]);
            cmds.append(&mut step);
            proof {
                assert(ticks.skip(t as int).drop_first() =~= ticks.skip(t as int + 1));
                assert(Self::spec_ticks(pre, ticks.skip(t as int)) == Self::spec_ticks(
                    self.window,
                    ticks.skip(t as int + 1),
                ));
                assert(cmds@ + Self::spec_ticks_commands(self.window, ticks.skip(t as int + 1))
                    =~= pre_cmds + Self::spec_ticks_commands(pre, ticks.skip(t as int)));
            }
            t = t + 1;
        }
        proof {
            if t == schedule@.len() {
                assert(ticks.skip(t as int) =~= Seq::<Seq<TimedEvent>>::empty());
            }
            assert(Self::spec_ticks(self.window, ticks.skip(t as int)) == self.window);
            assert(Self::spec_ticks_commands(self.window, ticks.skip(t as int)) =~= Seq::<
                WindowCommand,
            >::empty());
            assert(cmds@ + Seq::<WindowCommand>::empty() =~= cmds@);
        }
        if self.window.should_close {
            self.phase = Phase::Closing;
        }
        cmds
    }

    /// Tear the device down, releasing every owned resource in reverse
    /// acquisition order: the buffer set first, then the program. Takes the
    /// device by value — one teardown, enforced by ownership — and hands
    /// the bare context back. No shader handle was retained, so afterwards
    /// the context's live handles are exactly what they were before the
    /// device existed.
    pub fn destroy(self) -> (g: Gpu)
        requires
            self.wf(),
        ensures
            !g@.program_live(self.test_program.spec_id()),
            !g@.vao_live(self.buffers.spec_vao()),
            !g@.vbo_live(self.buffers.spec_vbo()),
            g@.live_program_count() + 1 == self.gpu@.live_program_count(),
            g@.live_shaders() == self.gpu@.live_shaders(),
            g@.live_shader_count() == self.gpu@.live_shader_count(),
            g@.error_count == self.gpu@.error_count,
    {
        let ReDevice { mut gpu, window: _, phase: _, test_program, buffers, frames_presented: _ } =
            self;
        buffers.destroy(&mut gpu);
        test_program.destroy(&mut gpu);
        proof {
            assert(gpu@.live_shaders() =~= self.gpu@.live_shaders());
        }
        gpu
    }
}

} // verus!
