use vstd::prelude::*;
use crate::glsl;
use crate::gpu::Gpu;
use crate::gpu::GpuView;
use crate::gpu::Stage;
use crate::gpu::compile_fail_log;
use crate::gpu::lemma_compile_fail_log_nonempty;
use crate::gpu::link_fail_log_empty;
use crate::gpu::lemma_link_fail_log_empty_nonempty;
use crate::gpu::spec_linked_attribs;
use crate::gpu::spec_link_ok;
use crate::gpu::truncate_attribs;
use crate::gpu::ProgramSlotView;
use crate::gpu::MAX_VERTEX_ATTRIBS;

verus! {

/// One compiled shader stage, sole owner of its native handle. A value of
/// this type exists only for a stage the driver accepted: a failed compile
/// returns the log instead, and the handle it briefly held is already
/// released. Destruction takes the value, so a second release of the same
/// handle cannot even be written.
pub struct Shader {
    id: u32,
    stage: Stage,
}

impl Shader {
    /// The owned native handle.
    pub closed spec fn spec_id(self) -> u32 {
        self.id
    }

    /// The stage this unit was compiled for.
    pub closed spec fn spec_stage(self) -> Stage {
        self.stage
    }

    pub fn id(&self) -> (h: u32)
        ensures
            h == self.spec_id(),
    {
        self.id
    }

    pub fn stage(&self) -> (s: Stage)
        ensures
            s == self.spec_stage(),
    {
        self.stage
    }

    /// The owned handle is live in `g` and holds a successfully compiled
    /// stage: what every unit handed out by `from_source` satisfies.
    pub open spec fn valid(self, g: GpuView) -> bool {
        g.shader_ready(self.spec_id())
    }

    /// Compile one stage from source text. On success the returned unit owns
    /// the freshly allocated handle. On failure the driver's log (never
    /// empty) is returned, and the handle allocated for the attempt is
    /// deleted before returning: the set of live shader handles is exactly
    /// what it was before the call.
    pub fn from_source(gpu: &mut Gpu, source: &str, stage: Stage) -> (r: Result<Shader, String>)
        requires
            old(gpu)@.shaders.len() < u32::MAX,
        ensures
            r is Ok <==> glsl::source_accepted(source@),
            final(gpu)@.same_but_shaders(old(gpu)@),
            final(gpu)@.shaders.len() == old(gpu)@.shaders.len() + 1,
            match r {
                Ok(sh) => {
                    &&& sh.valid(final(gpu)@)
                    &&& sh.spec_stage() == stage
                    &&& !old(gpu)@.shader_live(sh.spec_id())
                    &&& final(gpu)@.shader_live(sh.spec_id())
                    &&& final(gpu)@.shaders[sh.spec_id() as int - 1].attribs
                        == glsl::spec_attribs(source@)
                    &&& final(gpu)@.shaders[sh.spec_id() as int - 1].source == source@
                    &&& final(gpu)@.live_shader_count() == old(gpu)@.live_shader_count() + 1
                    &&& forall|x: u32|
                        x != sh.spec_id() ==> final(gpu)@.shader_live(x) == old(
                            gpu,
                        )@.shader_live(x)
                    &&& forall|x: u32|
                        x != sh.spec_id() ==> final(gpu)@.shader_ready(x) == old(
                            gpu,
                        )@.shader_ready(x)
                },
                Err(log) => {
                    &&& log@ == compile_fail_log()
                    &&& log@.len() > 0
                    &&& final(gpu)@.live_shaders() == old(gpu)@.live_shaders()
                    &&& final(gpu)@.live_shader_count() == old(gpu)@.live_shader_count()
                },
            },
    {
        let h = gpu.create_shader(stage);
        gpu.shader_source(h, source);
        gpu.compile_shader(h);
        if gpu.compile_status(h) {
            proof {
                assert forall|x: u32| x != h implies gpu@.shader_ready(x) == old(
                    gpu,
                )@.shader_ready(x) by {
                    if 1 <= x && x as int <= old(gpu)@.shaders.len() {
                        assert(gpu@.shaders[x as int - 1] == old(gpu)@.shaders[x as int - 1]);
                    }
                }
            }
            Ok(Shader { id: h, stage })
        } else {
            let len = gpu.shader_info_log_len(h);
            let log = gpu.read_shader_info_log(h, len);
            gpu.delete_shader(h);
            proof {
                lemma_compile_fail_log_nonempty();
                assert forall|x: u32|
                    final(gpu)@.live_shaders().contains(x) == old(gpu)@.live_shaders().contains(
                        x,
                    ) by {
                    assert(final(gpu)@.shader_live(x) == old(gpu)@.shader_live(x));
                }
                assert(final(gpu)@.live_shaders() =~= old(gpu)@.live_shaders());
            }
            Err(log)
        }
    }

    /// Release the owned handle. Takes the unit by value: this is the single
    /// point the handle can be released at, and afterwards no expression can
    /// name it again.
    pub fn destroy(self, gpu: &mut Gpu)
        requires
            old(gpu)@.shader_live(self.spec_id()),
        ensures
            !final(gpu)@.shader_live(self.spec_id()),
            final(gpu)@.live_shader_count() + 1 == old(gpu)@.live_shader_count(),
            final(gpu)@.live_shaders() == old(gpu)@.live_shaders().remove(self.spec_id()),
            final(gpu)@.same_but_shaders(old(gpu)@),
            forall|x: u32|
                x != self.spec_id() ==> final(gpu)@.shader_live(x) == old(gpu)@.shader_live(x),
            forall|x: u32|
                x != self.spec_id() ==> final(gpu)@.shader_ready(x) == old(gpu)@.shader_ready(x),
    {
        let ghost me = self.spec_id();
        gpu.delete_shader(self.id);
        proof {
            assert forall|x: u32| x != me implies gpu@.shader_ready(x) == old(
                gpu,
            )@.shader_ready(x) by {
                if 1 <= x && x as int <= old(gpu)@.shaders.len() {
                    assert(gpu@.shaders[x as int - 1] == old(gpu)@.shaders[x as int - 1]);
                }
            }
            assert forall|x: u32|
                final(gpu)@.live_shaders().contains(x) == old(gpu)@.live_shaders().remove(
                    me,
                ).contains(x) by {
                if x != me {
                    assert(final(gpu)@.shader_live(x) == old(gpu)@.shader_live(x));
                }
            }
            assert(final(gpu)@.live_shaders() =~= old(gpu)@.live_shaders().remove(me));
        }
    }
}

/// First position of `n` in the attribute table, or -1 when it is absent:
/// the location lookup's result.
pub open spec fn spec_attrib_location(atts: Seq<Seq<char>>, n: Seq<char>) -> int
    decreases atts.len(),
{
    if atts.len() == 0 {
        -1
    } else if atts[0] == n {
        0
    } else {
        let r = spec_attrib_location(atts.drop_first(), n);
        if r < 0 {
            -1
        } else {
            r + 1
        }
    }
}

/// The location lookup points at the first occurrence, and -1 means the
/// name is nowhere in the table.
pub proof fn lemma_spec_attrib_location(atts: Seq<Seq<char>>, n: Seq<char>)
    ensures
        spec_attrib_location(atts, n) >= 0 ==> spec_attrib_location(atts, n) < atts.len()
            && atts[spec_attrib_location(atts, n)] == n && (forall|j: int|
            0 <= j < spec_attrib_location(atts, n) ==> atts[j] != n),
        spec_attrib_location(atts, n) < 0 ==> forall|j: int| 0 <= j < atts.len() ==> atts[j] != n,
    decreases atts.len(),
{
    if atts.len() == 0 {
    } else if atts[0] == n {
    } else {
        lemma_spec_attrib_location(atts.drop_first(), n);
        let r = spec_attrib_location(atts.drop_first(), n);
        if r >= 0 {
            assert forall|j: int| 0 <= j < r + 1 implies atts[j] != n by {
                if j > 0 {
                    assert(atts.drop_first()[j - 1] == atts[j]);
                }
            }
        } else {
            assert forall|j: int| 0 <= j < atts.len() implies atts[j] != n by {
                if j > 0 {
                    assert(atts.drop_first()[j - 1] == atts[j]);
                }
            }
        }
    }
}

/// One linked pipeline object, sole owner of its native program handle. The
/// units it was linked from are not retained: their lifetime stays the
/// caller's.
pub struct ShaderProgram {
    pub name: String,
    id: u32,
}

impl ShaderProgram {
    /// The owned native handle.
    pub closed spec fn spec_id(self) -> u32 {
        self.id
    }

    /// The diagnostic name the program was linked under.
    pub closed spec fn spec_name(self) -> Seq<char> {
        self.name@
    }

    pub fn id(&self) -> (h: u32)
        ensures
            h == self.spec_id(),
    {
        self.id
    }

    /// The owned handle is live in `g` and was linked successfully, with its
    /// attribute table within the driver's limit: what every program handed
    /// out by `link` satisfies.
    pub open spec fn valid(self, g: GpuView) -> bool {
        &&& g.program_live(self.spec_id())
        &&& g.programs[self.spec_id() as int - 1].linked
        &&& g.programs[self.spec_id() as int - 1].link_ok
        &&& g.programs[self.spec_id() as int - 1].attribs.len() <= MAX_VERTEX_ATTRIBS
    }

    /// The program's resolved attribute table in `g`.
    pub open spec fn spec_attribs(self, g: GpuView) -> Seq<Seq<char>> {
        g.programs[self.spec_id() as int - 1].attribs
    }

    /// Link the given compiled units into one pipeline object, in order. At
    /// least one unit must be given, and every given unit must be valid;
    /// then linking succeeds and the program's attribute table is the units'
    /// attribute lists joined in attach order (capped at the driver's
    /// limit). With no units the driver refuses the link: the log (never
    /// empty) is returned and the program handle allocated for the attempt
    /// is deleted before returning. The units themselves are untouched
    /// either way.
    pub fn link(gpu: &mut Gpu, name: String, shaders: &Vec<&Shader>) -> (r: Result<
        ShaderProgram,
        String,
    >)
        requires
            old(gpu)@.programs.len() < u32::MAX,
            forall|i: int| 0 <= i < shaders@.len() ==> shaders@[i].valid(old(gpu)@),
        ensures
            r is Ok <==> shaders@.len() > 0,
            final(gpu)@.same_but_programs(old(gpu)@),
            match r {
                Ok(p) => {
                    &&& p.valid(final(gpu)@)
                    &&& !old(gpu)@.program_live(p.spec_id())
                    &&& final(gpu)@.program_live(p.spec_id())
                    &&& p.spec_attribs(final(gpu)@) == truncate_attribs(
                        spec_linked_attribs(
                            old(gpu)@.shaders,
                            shaders@.map_values(|s: &Shader| s.spec_id()),
                        ),
                    )
                    &&& p.spec_name() == name@
                    &&& final(gpu)@.live_program_count() == old(gpu)@.live_program_count() + 1
                    &&& forall|x: u32|
                        x != p.spec_id() ==> final(gpu)@.program_live(x) == old(
                            gpu,
                        )@.program_live(x)
                },
                Err(log) => {
                    &&& log@ == link_fail_log_empty()
                    &&& log@.len() > 0
                    &&& final(gpu)@.live_programs() == old(gpu)@.live_programs()
                    &&& final(gpu)@.live_program_count() == old(gpu)@.live_program_count()
                },
            },
    {
        let ghost ids = shaders@.map_values(|s: &Shader| s.spec_id());
        let p = gpu.create_program();
        let ghost slot0 = ProgramSlotView {
            alive: true,
            attached: Seq::empty(),
            linked: false,
            link_ok: false,
            log: Seq::empty(),
            attribs: Seq::empty(),
        };
        let mut i: usize = 0;
        proof {
            assert(ids.take(0) =~= Seq::<u32>::empty());
            assert(gpu@.programs =~= old(gpu)@.programs.push(
                ProgramSlotView { attached: ids.take(0), ..slot0 },
            ));
        }
        while i < shaders.len()
            invariant
                old(gpu)@.programs.len() < u32::MAX,
                forall|q: int| 0 <= q < shaders@.len() ==> shaders@[q].valid(old(gpu)@),
                ids == shaders@.map_values(|s: &Shader| s.spec_id()),
                slot0 == (ProgramSlotView {
                    alive: true,
                    attached: Seq::<u32>::empty(),
                    linked: false,
                    link_ok: false,
                    log: Seq::<char>::empty(),
                    attribs: Seq::<Seq<char>>::empty(),
                }),
                p as int == old(gpu)@.programs.len() + 1,
                i <= shaders@.len(),
                gpu@.programs == old(gpu)@.programs.push(
                    ProgramSlotView { attached: ids.take(i as int), ..slot0 },
                ),
                gpu@.same_but_programs(old(gpu)@),
            decreases shaders@.len() - i,
        {
            proof {
                assert(gpu@.program_live(p));
                assert(shaders@[i as int].valid(old(gpu)@));
                assert(gpu@.shader_live(shaders@[i as int].spec_id()));
            }
            gpu.attach_shader(p, shaders[i].id());
            proof {
                assert(ids[i as int] == shaders@[i as int].spec_id());
                assert(ids.take(i as int + 1) =~= ids.take(i as int).push(ids[i as int]));
                assert(gpu@.programs =~= old(gpu)@.programs.push(
                    ProgramSlotView { attached: ids.take(i as int + 1), ..slot0 },
                ));
            }
            i = i + 1;
        }
        proof {
            assert(ids.take(shaders@.len() as int) =~= ids);
            assert(gpu@.program_live(p));
            crate::gpu::lemma_count_true_push(
                old(gpu)@.programs.map_values(|s: ProgramSlotView| s.alive),
                true,
            );
            assert(gpu@.programs.map_values(|s: ProgramSlotView| s.alive) =~= old(
                gpu,
            )@.programs.map_values(|s: ProgramSlotView| s.alive).push(true));
            assert(gpu@.live_program_count() == old(gpu)@.live_program_count() + 1);
            assert forall|x: u32| x != p implies gpu@.program_live(x) == old(gpu)@.program_live(
                x,
            ) by {
                if 1 <= x && x as int <= old(gpu)@.programs.len() {
                    assert(gpu@.programs[x as int - 1] == old(gpu)@.programs[x as int - 1]);
                }
            }
            assert forall|m: int| 0 <= m < ids.len() implies gpu@.shader_ready(ids[m]) by {
                assert(shaders@[m].valid(old(gpu)@));
                assert(ids[m] == shaders@[m].spec_id());
            }
            if ids.len() > 0 {
                assert(spec_link_ok(gpu@, ids));
            }
        }
        let ghost before_link = gpu@;
        gpu.link_program(p);
        if gpu.link_status(p) {
            proof {
                assert(spec_link_ok(before_link, ids));
            }
            Ok(ShaderProgram { name, id: p })
        } else {
            proof {
                assert(!spec_link_ok(before_link, ids));
                assert(ids.len() == 0);
            }
            let len = gpu.program_info_log_len(p);
            let log = gpu.read_program_info_log(p, len);
            gpu.delete_program(p);
            proof {
                lemma_link_fail_log_empty_nonempty();
                assert forall|x: u32|
                    final(gpu)@.live_programs().contains(x) == old(gpu)@.live_programs().contains(
                        x,
                    ) by {
                    assert(final(gpu)@.program_live(x) == old(gpu)@.program_live(x));
                }
                assert(final(gpu)@.live_programs() =~= old(gpu)@.live_programs());
            }
            Err(log)
        }
    }

    /// Resolve an attribute name to its location in this program, at the
    /// point of use: the first matching entry of the resolved table, or the
    /// not-found sentinel -1 for a name the program does not expose.
    pub fn attrib_location(&self, gpu: &Gpu, name: &str) -> (loc: i32)
        requires
            self.valid(gpu@),
        ensures
            loc as int == spec_attrib_location(self.spec_attribs(gpu@), name@),
            loc >= 0 <==> exists|j: int|
                0 <= j < self.spec_attribs(gpu@).len() && self.spec_attribs(gpu@)[j] == name@,
    {
        let pi = (self.id - 1) as usize;
        let owned = name.to_owned();
        let n = gpu.programs[pi].attribs.len();
        let ghost atts = self.spec_attribs(gpu@);
        let mut j: usize = 0;
        while j < n
            invariant
                self.valid(gpu@),
                pi == self.spec_id() as int - 1,
                atts == self.spec_attribs(gpu@),
                n == atts.len(),
                n <= MAX_VERTEX_ATTRIBS,
                owned@ == name@,
                j <= n,
                gpu.programs@.len() == gpu@.programs.len(),
                gpu.programs@[pi as int]@.attribs == atts,
                forall|m: int| 0 <= m < j ==> atts[m] != name@,
            decreases n - j,
        {
            if gpu.programs[pi].attribs[j] == owned {
                proof {
                    assert(gpu.programs@[pi as int].attribs@[j as int]@ == atts[j as int]);
                    lemma_spec_attrib_location(atts, name@);
                    let f = spec_attrib_location(atts, name@);
                    assert(f >= 0) by {
                        if f < 0 {
                            assert(atts[j as int] != name@);
                        }
                    }
                    assert(f == j as int) by {
                        if f < j as int {
                            assert(atts[f] != name@);
                        }
                        if f > j as int {
                            assert(atts[j as int] != name@);
                        }
                    }
                }
                return j as i32;
            }
            proof {
                assert(gpu.programs@[pi as int].attribs@[j as int]@ == atts[j as int]);
            }
            j = j + 1;
        }
        proof {
            lemma_spec_attrib_location(atts, name@);
            if spec_attrib_location(atts, name@) >= 0 {
                assert(atts[spec_attrib_location(atts, name@)] != name@);
            }
        }
        -1
    }

    /// How many attributes the linked program exposes.
    pub fn attrib_count(&self, gpu: &Gpu) -> (n: usize)
        requires
            self.valid(gpu@),
        ensures
            n == self.spec_attribs(gpu@).len(),
            n <= MAX_VERTEX_ATTRIBS,
    {
        let pi = (self.id - 1) as usize;
        gpu.programs[pi].attribs.len()
    }

    /// Release the owned program handle. Takes the program by value: one
    /// release per handle, enforced by ownership rather than a runtime
    /// guard.
    pub fn destroy(self, gpu: &mut Gpu)
        requires
            old(gpu)@.program_live(self.spec_id()),
        ensures
            !final(gpu)@.program_live(self.spec_id()),
            final(gpu)@.live_program_count() + 1 == old(gpu)@.live_program_count(),
            final(gpu)@.live_programs() == old(gpu)@.live_programs().remove(self.spec_id()),
            final(gpu)@.same_but_programs(old(gpu)@),
            forall|x: u32|
                x != self.spec_id() ==> final(gpu)@.program_live(x) == old(gpu)@.program_live(x),
    {
        let ghost me = self.spec_id();
        gpu.delete_program(self.id);
        proof {
            assert forall|x: u32|
                final(gpu)@.live_programs().contains(x) == old(gpu)@.live_programs().remove(
                    me,
                ).contains(x) by {
                if x != me {
                    assert(final(gpu)@.program_live(x) == old(gpu)@.program_live(x));
                }
            }
            assert(final(gpu)@.live_programs() =~= old(gpu)@.live_programs().remove(me));
        }
    }
}

} // verus!
