use vstd::prelude::*;
use crate::glsl;

verus! {

/// One shader pipeline stage.
#[derive(Clone, Copy, Debug, PartialEq, Eq, Structural)]
pub enum Stage {
    Vertex,
    Fragment,
}

/// Driver-side record of one shader object. A handle stays allocated until
/// it is deleted; `alive` is the allocation flag.
pub struct ShaderSlot {
    pub alive: bool,
    pub stage: Stage,
    pub source: String,
    pub compiled: bool,
    pub compile_ok: bool,
    pub log: String,
    pub attribs: Vec<String>,
}

/// Mathematical image of a `ShaderSlot`.
#[verifier::ext_equal]
pub struct ShaderSlotView {
    pub alive: bool,
    pub stage: Stage,
    pub source: Seq<char>,
    pub compiled: bool,
    pub compile_ok: bool,
    pub log: Seq<char>,
    pub attribs: Seq<Seq<char>>,
}

impl View for ShaderSlot {
    type V = ShaderSlotView;

    open spec fn view(&self) -> ShaderSlotView {
        ShaderSlotView {
            alive: self.alive,
            stage: self.stage,
            source: self.source@,
            compiled: self.compiled,
            compile_ok: self.compile_ok,
            log: self.log@,
            attribs: self.attribs@.map_values(|a: String| a@),
        }
    }
}

/// Driver-side record of one program object.
pub struct ProgramSlot {
    pub alive: bool,
    pub attached: Vec<u32>,
    pub linked: bool,
    pub link_ok: bool,
    pub log: String,
    pub attribs: Vec<String>,
}

/// Mathematical image of a `ProgramSlot`.
#[verifier::ext_equal]
pub struct ProgramSlotView {
    pub alive: bool,
    pub attached: Seq<u32>,
    pub linked: bool,
    pub link_ok: bool,
    pub log: Seq<char>,
    pub attribs: Seq<Seq<char>>,
}

impl View for ProgramSlot {
    type V = ProgramSlotView;

    open spec fn view(&self) -> ProgramSlotView {
        ProgramSlotView {
            alive: self.alive,
            attached: self.attached@,
            linked: self.linked,
            link_ok: self.link_ok,
            log: self.log@,
            attribs: self.attribs@.map_values(|a: String| a@),
        }
    }
}

/// The model graphics driver and context, the capability every GPU resource
/// constructor takes. Handle `h` names slot `h - 1`; handle 0 is never
/// issued. Slots are never reused: deletion clears `alive` and the slot
/// stays behind, so each handle has one owner for the context's whole life.
pub struct Gpu {
    pub shaders: Vec<ShaderSlot>,
    pub programs: Vec<ProgramSlot>,
    pub vaos: Vec<bool>,
    pub vbos: Vec<bool>,
    pub error_count: u64,
}

/// Mathematical image of the whole driver state.
#[verifier::ext_equal]
pub struct GpuView {
    pub shaders: Seq<ShaderSlotView>,
    pub programs: Seq<ProgramSlotView>,
    pub vaos: Seq<bool>,
    pub vbos: Seq<bool>,
    pub error_count: u64,
}

pub open spec fn shader_views(s: Seq<ShaderSlot>) -> Seq<ShaderSlotView> {
    s.map_values(|x: ShaderSlot| x@)
}

pub open spec fn program_views(s: Seq<ProgramSlot>) -> Seq<ProgramSlotView> {
    s.map_values(|x: ProgramSlot| x@)
}

impl View for Gpu {
    type V = GpuView;

    open spec fn view(&self) -> GpuView {
        GpuView {
            shaders: shader_views(self.shaders@),
            programs: program_views(self.programs@),
            vaos: self.vaos@,
            vbos: self.vbos@,
            error_count: self.error_count,
        }
    }
}

/// How many entries of `s` are true: the count of live handles in a slot
/// table's allocation flags.
pub open spec fn count_true(s: Seq<bool>) -> nat
    decreases s.len(),
{
    if s.len() == 0 {
        0
    } else {
        count_true(s.drop_last()) + (if s.last() {
            1nat
        } else {
            0nat
        })
    }
}

pub proof fn lemma_count_true_push(s: Seq<bool>, b: bool)
    ensures
        count_true(s.push(b)) == count_true(s) + (if b {
            1nat
        } else {
            0nat
        }),
{
    assert(s.push(b).drop_last() =~= s);
}

pub proof fn lemma_count_true_update(s: Seq<bool>, i: int, b: bool)
    requires
        0 <= i < s.len(),
    ensures
        count_true(s.update(i, b)) + (if s[i] {
            1nat
        } else {
            0nat
        }) == count_true(s) + (if b {
            1nat
        } else {
            0nat
        }),
    decreases s.len(),
{
    if i == s.len() - 1 {
        assert(s.update(i, b).drop_last() =~= s.drop_last());
        assert(s.update(i, b).last() == b);
    } else {
        assert(s.update(i, b).drop_last() =~= s.drop_last().update(i, b));
        assert(s.update(i, b).last() == s.last());
        lemma_count_true_update(s.drop_last(), i, b);
    }
}

impl GpuView {
    /// Handle `h` names an allocated shader object.
    pub open spec fn shader_live(self, h: u32) -> bool {
        1 <= h && h as int <= self.shaders.len() && self.shaders[h as int - 1].alive
    }

    /// The set of live shader handles.
    pub open spec fn live_shaders(self) -> Set<u32> {
        Set::new(|h: u32| self.shader_live(h))
    }

    /// How many shader handles are live.
    pub open spec fn live_shader_count(self) -> nat {
        count_true(self.shaders.map_values(|s: ShaderSlotView| s.alive))
    }

    /// Handle `h` names an allocated program object.
    pub open spec fn program_live(self, h: u32) -> bool {
        1 <= h && h as int <= self.programs.len() && self.programs[h as int - 1].alive
    }

    /// The set of live program handles.
    pub open spec fn live_programs(self) -> Set<u32> {
        Set::new(|h: u32| self.program_live(h))
    }

    /// How many program handles are live.
    pub open spec fn live_program_count(self) -> nat {
        count_true(self.programs.map_values(|s: ProgramSlotView| s.alive))
    }

    /// Handle `h` names an allocated vertex-array object.
    pub open spec fn vao_live(self, h: u32) -> bool {
        1 <= h && h as int <= self.vaos.len() && self.vaos[h as int - 1]
    }

    /// Handle `h` names an allocated vertex-buffer object.
    pub open spec fn vbo_live(self, h: u32) -> bool {
        1 <= h && h as int <= self.vbos.len() && self.vbos[h as int - 1]
    }

    /// Shader `h` is live, compiled, and compiled successfully: what linking
    /// demands of every attached stage.
    pub open spec fn shader_ready(self, h: u32) -> bool {
        self.shader_live(h) && self.shaders[h as int - 1].compiled && self.shaders[h as int
            - 1].compile_ok
    }

    /// Everything but the shader table is as in `other`.
    pub open spec fn same_but_shaders(self, other: GpuView) -> bool {
        self.programs == other.programs && self.vaos == other.vaos && self.vbos == other.vbos
            && self.error_count == other.error_count
    }

    /// Everything but the program table is as in `other`.
    pub open spec fn same_but_programs(self, other: GpuView) -> bool {
        self.shaders == other.shaders && self.vaos == other.vaos && self.vbos == other.vbos
            && self.error_count == other.error_count
    }
}

/// The most active attributes one program exposes, the model driver's
/// counterpart of the native implementation-defined attribute limit.
pub const MAX_VERTEX_ATTRIBS: usize = 16;

/// The attribute list capped at the driver's attribute limit.
pub open spec fn truncate_attribs(s: Seq<Seq<char>>) -> Seq<Seq<char>> {
    if s.len() <= MAX_VERTEX_ATTRIBS {
        s
    } else {
        s.subrange(0, MAX_VERTEX_ATTRIBS as int)
    }
}

proof fn lemma_truncate_push(s: Seq<Seq<char>>, y: Seq<char>)
    ensures
        truncate_attribs(s.push(y)) == if s.len() < MAX_VERTEX_ATTRIBS {
            truncate_attribs(s).push(y)
        } else {
            truncate_attribs(s)
        },
{
    if s.len() < MAX_VERTEX_ATTRIBS {
        assert(truncate_attribs(s.push(y)) =~= truncate_attribs(s).push(y));
    } else {
        assert(truncate_attribs(s.push(y)) =~= truncate_attribs(s));
    }
}

/// The attribute names one attached handle contributes at link time.
pub open spec fn attribs_of_handle(shaders: Seq<ShaderSlotView>, h: u32) -> Seq<Seq<char>> {
    if 1 <= h && h as int <= shaders.len() {
        shaders[h as int - 1].attribs
    } else {
        Seq::empty()
    }
}

/// The attribute names a program resolves at link time: every attached
/// stage's declared attributes, in attach order.
pub open spec fn spec_linked_attribs(shaders: Seq<ShaderSlotView>, att: Seq<u32>) -> Seq<Seq<char>>
    decreases att.len(),
{
    if att.len() == 0 {
        Seq::empty()
    } else {
        attribs_of_handle(shaders, att[0]) + spec_linked_attribs(shaders, att.drop_first())
    }
}

proof fn lemma_linked_attribs_push(shaders: Seq<ShaderSlotView>, att: Seq<u32>, x: u32)
    ensures
        spec_linked_attribs(shaders, att.push(x)) == spec_linked_attribs(shaders, att)
            + attribs_of_handle(shaders, x),
    decreases att.len(),
{
    if att.len() == 0 {
        let ap = att.push(x);
        assert(ap[0] == x);
        assert(ap.drop_first() =~= Seq::<u32>::empty());
        assert(spec_linked_attribs(shaders, ap.drop_first()) == Seq::<Seq<char>>::empty());
        assert(spec_linked_attribs(shaders, ap) == attribs_of_handle(shaders, x)
            + spec_linked_attribs(shaders, ap.drop_first()));
        assert(attribs_of_handle(shaders, x) + Seq::<Seq<char>>::empty() =~= attribs_of_handle(
            shaders,
            x,
        ));
        assert(spec_linked_attribs(shaders, att) + attribs_of_handle(shaders, x)
            =~= attribs_of_handle(shaders, x));
    } else {
        assert(att.push(x)[0] == att[0]);
        assert(att.push(x).drop_first() =~= att.drop_first().push(x));
        lemma_linked_attribs_push(shaders, att.drop_first(), x);
        assert(spec_linked_attribs(shaders, att.push(x)) =~= spec_linked_attribs(shaders, att)
            + attribs_of_handle(shaders, x));
    }
}

/// Linking succeeds exactly when at least one stage is attached and every
/// attached handle names a live, successfully compiled shader.
pub open spec fn spec_link_ok(g: GpuView, att: Seq<u32>) -> bool {
    att.len() > 0 && forall|m: int| 0 <= m < att.len() ==> g.shader_ready(att[m])
}

/// What the model driver writes into the log of a link with no stages.
pub open spec fn link_fail_log_empty() -> Seq<char> {
    "error: program link failed: no shader stages attached"@
}

pub proof fn lemma_link_fail_log_empty_nonempty()
    ensures
        link_fail_log_empty().len() > 0,
{
    reveal_strlit("error: program link failed: no shader stages attached");
}

/// What the model driver writes into the log of a link over a stage that is
/// dead or did not compile.
pub open spec fn link_fail_log_stage() -> Seq<char> {
    "error: program link failed: an attached stage is deleted or uncompiled"@
}

pub proof fn lemma_link_fail_log_stage_nonempty()
    ensures
        link_fail_log_stage().len() > 0,
{
    reveal_strlit("error: program link failed: an attached stage is deleted or uncompiled");
}

/// What the model driver writes into the log of a shader it refuses.
pub open spec fn compile_fail_log() -> Seq<char> {
    "error: shader rejected: missing #version directive or unbalanced braces"@
}

/// A refused shader's log is diagnostic text, never empty.
pub proof fn lemma_compile_fail_log_nonempty()
    ensures
        compile_fail_log().len() > 0,
{
    reveal_strlit("error: shader rejected: missing #version directive or unbalanced braces");
}

proof fn lemma_shader_views_push(s: Seq<ShaderSlot>, x: ShaderSlot)
    ensures
        shader_views(s.push(x)) == shader_views(s).push(x@),
{
    assert(shader_views(s.push(x)) =~= shader_views(s).push(x@));
}

proof fn lemma_shader_views_update(s: Seq<ShaderSlot>, i: int, x: ShaderSlot)
    requires
        0 <= i < s.len(),
    ensures
        shader_views(s.update(i, x)) == shader_views(s).update(i, x@),
{
    assert(shader_views(s.update(i, x)) =~= shader_views(s).update(i, x@));
}

proof fn lemma_program_views_push(s: Seq<ProgramSlot>, x: ProgramSlot)
    ensures
        program_views(s.push(x)) == program_views(s).push(x@),
{
    assert(program_views(s.push(x)) =~= program_views(s).push(x@));
}

proof fn lemma_program_views_update(s: Seq<ProgramSlot>, i: int, x: ProgramSlot)
    requires
        0 <= i < s.len(),
    ensures
        program_views(s.update(i, x)) == program_views(s).update(i, x@),
{
    assert(program_views(s.update(i, x)) =~= program_views(s).update(i, x@));
}

impl Gpu {
    /// A fresh context: no objects allocated, no error reported.
    pub fn new() -> (g: Gpu)
        ensures
            g@.shaders.len() == 0,
            g@.programs.len() == 0,
            g@.vaos.len() == 0,
            g@.vbos.len() == 0,
            g@.error_count == 0,
    {
        let g = Gpu {
            shaders: Vec::new(),
            programs: Vec::new(),
            vaos: Vec::new(),
            vbos: Vec::new(),
            error_count: 0,
        };
        proof {
            assert(g@.shaders =~= Seq::<ShaderSlotView>::empty());
            assert(g@.programs =~= Seq::<ProgramSlotView>::empty());
        }
        g
    }

    /// Allocate a fresh shader object and hand out its handle.
    pub fn create_shader(&mut self, stage: Stage) -> (h: u32)
        requires
            old(self)@.shaders.len() < u32::MAX,
        ensures
            h as int == old(self)@.shaders.len() + 1,
            !old(self)@.shader_live(h),
            final(self)@.shader_live(h),
            final(self)@.shaders == old(self)@.shaders.push(
                ShaderSlotView {
                    alive: true,
                    stage,
                    source: Seq::empty(),
                    compiled: false,
                    compile_ok: false,
                    log: Seq::empty(),
                    attribs: Seq::empty(),
                },
            ),
            final(self)@.same_but_shaders(old(self)@),
            final(self)@.live_shader_count() == old(self)@.live_shader_count() + 1,
    {
        let slot = ShaderSlot {
            alive: true,
            stage,
            source: String::new(),
            compiled: false,
            compile_ok: false,
            log: String::new(),
            attribs: Vec::new(),
        };
        proof {
            lemma_shader_views_push(self.shaders@, slot);
            assert(slot@ =~~= ShaderSlotView {
                alive: true,
                stage,
                source: Seq::empty(),
                compiled: false,
                compile_ok: false,
                log: Seq::empty(),
                attribs: Seq::empty(),
            });
            lemma_count_true_push(
                self@.shaders.map_values(|s: ShaderSlotView| s.alive),
                true,
            );
            assert(self@.shaders.push(slot@).map_values(|s: ShaderSlotView| s.alive)
                =~= self@.shaders.map_values(|s: ShaderSlotView| s.alive).push(true));
        }
        let h = (self.shaders.len() + 1) as u32;
        self.shaders.push(slot);
        h
    }

    /// Upload source text into a live shader object.
    pub fn shader_source(&mut self, h: u32, src: &str)
        requires
            old(self)@.shader_live(h),
        ensures
            final(self)@.shaders == old(self)@.shaders.update(
                h as int - 1,
                ShaderSlotView { source: src@, ..old(self)@.shaders[h as int - 1] },
            ),
            final(self)@.same_but_shaders(old(self)@),
            final(self)@.shader_live(h),
            final(self)@.live_shader_count() == old(self)@.live_shader_count(),
            forall|x: u32| final(self)@.shader_live(x) == old(self)@.shader_live(x),
    {
        let i = (h - 1) as usize;
        let mut slot = self.shaders.remove(i);
        slot.source = src.to_owned();
        proof {
            let ghost target = self.shaders@.insert(i as int, slot);
            assert(target =~= old(self).shaders@.update(i as int, slot));
            lemma_shader_views_update(old(self).shaders@, i as int, slot);
            assert(slot@ =~~= ShaderSlotView {
                source: src@,
                ..old(self)@.shaders[h as int - 1]
            });
            assert(old(self)@.shaders.update(i as int, slot@).map_values(
                |s: ShaderSlotView| s.alive,
            ) =~= old(self)@.shaders.map_values(|s: ShaderSlotView| s.alive));
        }
        self.shaders.insert(i, slot);
    }

    /// Ask the driver to compile a live shader object. The compile status,
    /// the log, and the active attribute list are all written into the slot;
    /// success is exactly the model's source-acceptance rule.
    pub fn compile_shader(&mut self, h: u32)
        requires
            old(self)@.shader_live(h),
        ensures
            final(self)@.shaders == old(self)@.shaders.update(
                h as int - 1,
                ShaderSlotView {
                    compiled: true,
                    compile_ok: glsl::source_accepted(old(self)@.shaders[h as int - 1].source),
                    log: if glsl::source_accepted(old(self)@.shaders[h as int - 1].source) {
                        Seq::empty()
                    } else {
                        compile_fail_log()
                    },
                    attribs: if glsl::source_accepted(old(self)@.shaders[h as int - 1].source) {
                        glsl::spec_attribs(old(self)@.shaders[h as int - 1].source)
                    } else {
                        Seq::empty()
                    },
                    ..old(self)@.shaders[h as int - 1]
                },
            ),
            final(self)@.same_but_shaders(old(self)@),
            final(self)@.shader_live(h),
            final(self)@.live_shader_count() == old(self)@.live_shader_count(),
            forall|x: u32| final(self)@.shader_live(x) == old(self)@.shader_live(x),
    {
        let i = (h - 1) as usize;
        let src = self.shaders[i].source.clone();
        let ok = glsl::check_source(src.as_str());
        let attribs = glsl::parse_attribs(src.as_str());
        let mut slot = self.shaders.remove(i);
        slot.compiled = true;
        slot.compile_ok = ok;
        if ok {
            slot.log = String::new();
            slot.attribs = attribs;
        } else {
            slot.log =
            "error: shader rejected: missing #version directive or unbalanced braces".to_owned();
            slot.attribs = Vec::new();
        }
        proof {
            let ghost target = self.shaders@.insert(i as int, slot);
            assert(target =~= old(self).shaders@.update(i as int, slot));
            lemma_shader_views_update(old(self).shaders@, i as int, slot);
            if ok {
                assert(slot.attribs@.map_values(|a: String| a@) == glsl::spec_attribs(
                    old(self)@.shaders[h as int - 1].source,
                ));
            } else {
                assert(slot.attribs@.map_values(|a: String| a@) =~= Seq::<Seq<char>>::empty());
            }
            assert(slot@ =~~= ShaderSlotView {
                compiled: true,
                compile_ok: glsl::source_accepted(old(self)@.shaders[h as int - 1].source),
                log: if glsl::source_accepted(old(self)@.shaders[h as int - 1].source) {
                    Seq::empty()
                } else {
                    compile_fail_log()
                },
                attribs: if glsl::source_accepted(old(self)@.shaders[h as int - 1].source) {
                    glsl::spec_attribs(old(self)@.shaders[h as int - 1].source)
                } else {
                    Seq::empty()
                },
                ..old(self)@.shaders[h as int - 1]
            });
            assert(old(self)@.shaders.update(i as int, slot@).map_values(
                |s: ShaderSlotView| s.alive,
            ) =~= old(self)@.shaders.map_values(|s: ShaderSlotView| s.alive));
        }
        self.shaders.insert(i, slot);
    }

    /// Read a live shader object's compile-status flag.
    pub fn compile_status(&self, h: u32) -> (ok: bool)
        requires
            self@.shader_live(h),
        ensures
            ok == self@.shaders[h as int - 1].compile_ok,
    {
        let i = (h - 1) as usize;
        self.shaders[i].compile_ok
    }

    /// Query the length of a live shader object's information log.
    pub fn shader_info_log_len(&self, h: u32) -> (n: usize)
        requires
            self@.shader_live(h),
        ensures
            n == self@.shaders[h as int - 1].log.len(),
    {
        let i = (h - 1) as usize;
        self.shaders[i].log.as_str().unicode_len()
    }

    /// Read a live shader object's information log into a buffer of exactly
    /// the length queried beforehand.
    pub fn read_shader_info_log(&self, h: u32, len: usize) -> (log: String)
        requires
            self@.shader_live(h),
            len == self@.shaders[h as int - 1].log.len(),
        ensures
            log@ == self@.shaders[h as int - 1].log,
            log@.len() == len,
    {
        let i = (h - 1) as usize;
        self.shaders[i].log.clone()
    }

    /// Release a live shader handle. The matching delete call of the
    /// one-owner rule: afterwards the handle is dead for good.
    pub fn delete_shader(&mut self, h: u32)
        requires
            old(self)@.shader_live(h),
        ensures
            final(self)@.shaders == old(self)@.shaders.update(
                h as int - 1,
                ShaderSlotView { alive: false, ..old(self)@.shaders[h as int - 1] },
            ),
            final(self)@.same_but_shaders(old(self)@),
            !final(self)@.shader_live(h),
            final(self)@.live_shader_count() + 1 == old(self)@.live_shader_count(),
            forall|x: u32| x != h ==> final(self)@.shader_live(x) == old(self)@.shader_live(x),
    {
        let i = (h - 1) as usize;
        let mut slot = self.shaders.remove(i);
        slot.alive = false;
        proof {
            let ghost target = self.shaders@.insert(i as int, slot);
            assert(target =~= old(self).shaders@.update(i as int, slot));
            lemma_shader_views_update(old(self).shaders@, i as int, slot);
            assert(slot@ =~~= ShaderSlotView {
                alive: false,
                ..old(self)@.shaders[h as int - 1]
            });
            lemma_count_true_update(
                old(self)@.shaders.map_values(|s: ShaderSlotView| s.alive),
                i as int,
                false,
            );
            assert(old(self)@.shaders.update(i as int, slot@).map_values(
                |s: ShaderSlotView| s.alive,
            ) =~= old(self)@.shaders.map_values(|s: ShaderSlotView| s.alive).update(
                i as int,
                false,
            ));
        }
        self.shaders.insert(i, slot);
    }

    /// Allocate a fresh program object and hand out its handle.
    pub fn create_program(&mut self) -> (h: u32)
        requires
            old(self)@.programs.len() < u32::MAX,
        ensures
            h as int == old(self)@.programs.len() + 1,
            !old(self)@.program_live(h),
            final(self)@.program_live(h),
            final(self)@.programs == old(self)@.programs.push(
                ProgramSlotView {
                    alive: true,
                    attached: Seq::empty(),
                    linked: false,
                    link_ok: false,
                    log: Seq::empty(),
                    attribs: Seq::empty(),
                },
            ),
            final(self)@.same_but_programs(old(self)@),
            final(self)@.live_program_count() == old(self)@.live_program_count() + 1,
    {
        let slot = ProgramSlot {
            alive: true,
            attached: Vec::new(),
            linked: false,
            link_ok: false,
            log: String::new(),
            attribs: Vec::new(),
        };
        proof {
            lemma_program_views_push(self.programs@, slot);
            assert(slot@ =~~= ProgramSlotView {
                alive: true,
                attached: Seq::empty(),
                linked: false,
                link_ok: false,
                log: Seq::empty(),
                attribs: Seq::empty(),
            });
            lemma_count_true_push(
                self@.programs.map_values(|s: ProgramSlotView| s.alive),
                true,
            );
            assert(self@.programs.push(slot@).map_values(|s: ProgramSlotView| s.alive)
                =~= self@.programs.map_values(|s: ProgramSlotView| s.alive).push(true));
        }
        let h = (self.programs.len() + 1) as u32;
        self.programs.push(slot);
        h
    }

    /// Attach a live shader object to a live program object.
    pub fn attach_shader(&mut self, p: u32, s: u32)
        requires
            old(self)@.program_live(p),
            old(self)@.shader_live(s),
        ensures
            final(self)@.programs == old(self)@.programs.update(
                p as int - 1,
                ProgramSlotView {
                    attached: old(self)@.programs[p as int - 1].attached.push(s),
                    ..old(self)@.programs[p as int - 1]
                },
            ),
            final(self)@.same_but_programs(old(self)@),
            final(self)@.program_live(p),
            final(self)@.live_program_count() == old(self)@.live_program_count(),
            forall|x: u32| final(self)@.program_live(x) == old(self)@.program_live(x),
    {
        let i = (p - 1) as usize;
        let mut slot = self.programs.remove(i);
        slot.attached.push(s);
        proof {
            let ghost target = self.programs@.insert(i as int, slot);
            assert(target =~= old(self).programs@.update(i as int, slot));
            lemma_program_views_update(old(self).programs@, i as int, slot);
            assert(slot@ =~~= ProgramSlotView {
                attached: old(self)@.programs[p as int - 1].attached.push(s),
                ..old(self)@.programs[p as int - 1]
            });
            assert(old(self)@.programs.update(i as int, slot@).map_values(
                |s: ProgramSlotView| s.alive,
            ) =~= old(self)@.programs.map_values(|s: ProgramSlotView| s.alive));
        }
        self.programs.insert(i, slot);
    }

    /// Ask the driver to link a live program object from its attached
    /// stages. Success, the log, and the resolved attribute table (capped at
    /// the driver's attribute limit) are all written into the slot.
    pub fn link_program(&mut self, p: u32)
        requires
            old(self)@.program_live(p),
        ensures
            final(self)@.programs == old(self)@.programs.update(
                p as int - 1,
                ProgramSlotView {
                    linked: true,
                    link_ok: spec_link_ok(old(self)@, old(self)@.programs[p as int - 1].attached),
                    log: if spec_link_ok(old(self)@, old(self)@.programs[p as int - 1].attached) {
                        Seq::empty()
                    } else if old(self)@.programs[p as int - 1].attached.len() == 0 {
                        link_fail_log_empty()
                    } else {
                        link_fail_log_stage()
                    },
                    attribs: if spec_link_ok(
                        old(self)@,
                        old(self)@.programs[p as int - 1].attached,
                    ) {
                        truncate_attribs(
                            spec_linked_attribs(
                                old(self)@.shaders,
                                old(self)@.programs[p as int - 1].attached,
                            ),
                        )
                    } else {
                        Seq::empty()
                    },
                    ..old(self)@.programs[p as int - 1]
                },
            ),
            final(self)@.same_but_programs(old(self)@),
            final(self)@.program_live(p),
            final(self)@.live_program_count() == old(self)@.live_program_count(),
            forall|x: u32| final(self)@.program_live(x) == old(self)@.program_live(x),
    {
        let pi = (p - 1) as usize;
        let ghost sv = self@.shaders;
        let ghost att = self@.programs[p as int - 1].attached;
        let n = self.programs[pi].attached.len();
        let mut all_ready = n > 0;
        let mut names: Vec<String> = Vec::new();
        let mut k: usize = 0;
        proof {
            assert(att.take(0) =~= Seq::<u32>::empty());
            assert(names@.map_values(|a: String| a@) =~= truncate_attribs(
                spec_linked_attribs(sv, att.take(0)),
            ));
        }
        while k < n
            invariant
                *self == *old(self),
                old(self)@.program_live(p),
                pi == p as int - 1,
                sv == self@.shaders,
                att == self@.programs[p as int - 1].attached,
                n == att.len(),
                k <= n,
                all_ready == (att.len() > 0 && forall|m: int|
                    0 <= m < k ==> self@.shader_ready(att[m])),
                all_ready ==> names@.map_values(|a: String| a@) == truncate_attribs(
                    spec_linked_attribs(sv, att.take(k as int)),
                ),
            decreases n - k,
        {
            let ah = self.programs[pi].attached[k];
            let mut ready = false;
            if ah >= 1 && (ah as usize) <= self.shaders.len() {
                let si = (ah as usize) - 1;
                if self.shaders[si].alive && self.shaders[si].compiled
                    && self.shaders[si].compile_ok {
                    ready = true;
                }
            }
            if !ready {
                all_ready = false;
            } else if all_ready {
                let si = (ah as usize) - 1;
                let ghost satts = sv[ah as int - 1].attribs;
                let ghost all_k = spec_linked_attribs(sv, att.take(k as int));
                let m = self.shaders[si].attribs.len();
                let mut j: usize = 0;
                proof {
                    assert(satts.take(0) =~= Seq::<Seq<char>>::empty());
                    assert(all_k + satts.take(0) =~= all_k);
                }
                while j < m
                    invariant
                        *self == *old(self),
                        sv == self@.shaders,
                        1 <= ah && ah as int <= sv.len(),
                        si == ah as int - 1,
                        satts == sv[ah as int - 1].attribs,
                        m == satts.len(),
                        j <= m,
                        self.shaders@.len() == sv.len(),
                        self.shaders@[si as int]@.attribs == satts,
                        names@.map_values(|a: String| a@) == truncate_attribs(
                            all_k + satts.take(j as int),
                        ),
                    decreases m - j,
                {
                    let ghost z = all_k + satts.take(j as int);
                    proof {
                        assert(all_k + satts.take(j as int + 1) =~= z.push(satts[j as int]));
                        lemma_truncate_push(z, satts[j as int]);
                        assert(self.shaders@[si as int].attribs@[j as int]@ == satts[j as int]);
                    }
                    if names.len() < MAX_VERTEX_ATTRIBS {
                        let name = self.shaders[si].attribs[j].clone();
                        names.push(name);
                        proof {
                            assert(names@.map_values(|a: String| a@) =~= truncate_attribs(z).push(
                                satts[j as int],
                            ));
                        }
                    }
                    j = j + 1;
                }
                proof {
                    assert(satts.take(m as int) =~= satts);
                    assert(att.take(k as int + 1) =~= att.take(k as int).push(att[k as int]));
                    lemma_linked_attribs_push(sv, att.take(k as int), att[k as int]);
                    assert(attribs_of_handle(sv, att[k as int]) == satts);
                }
            }
            k = k + 1;
        }
        proof {
            assert(att.take(n as int) =~= att);
            assert(all_ready == spec_link_ok(old(self)@, att));
        }
        let mut slot = self.programs.remove(pi);
        slot.linked = true;
        slot.link_ok = all_ready;
        if all_ready {
            slot.log = String::new();
            slot.attribs = names;
        } else {
            slot.attribs = Vec::new();
            if n == 0 {
                slot.log = "error: program link failed: no shader stages attached".to_owned();
            } else {
                slot.log =
                "error: program link failed: an attached stage is deleted or uncompiled".to_owned();
            }
        }
        proof {
            let ghost target = self.programs@.insert(pi as int, slot);
            assert(target =~= old(self).programs@.update(pi as int, slot));
            lemma_program_views_update(old(self).programs@, pi as int, slot);
            if !all_ready {
                assert(slot.attribs@.map_values(|a: String| a@) =~= Seq::<Seq<char>>::empty());
            }
            assert(slot@ =~~= ProgramSlotView {
                linked: true,
                link_ok: spec_link_ok(old(self)@, old(self)@.programs[p as int - 1].attached),
                log: if spec_link_ok(old(self)@, old(self)@.programs[p as int - 1].attached) {
                    Seq::empty()
                } else if old(self)@.programs[p as int - 1].attached.len() == 0 {
                    link_fail_log_empty()
                } else {
                    link_fail_log_stage()
                },
                attribs: if spec_link_ok(old(self)@, old(self)@.programs[p as int - 1].attached) {
                    truncate_attribs(
                        spec_linked_attribs(
                            old(self)@.shaders,
                            old(self)@.programs[p as int - 1].attached,
                        ),
                    )
                } else {
                    Seq::empty()
                },
                ..old(self)@.programs[p as int - 1]
            });
            assert(old(self)@.programs.update(pi as int, slot@).map_values(
                |s: ProgramSlotView| s.alive,
            ) =~= old(self)@.programs.map_values(|s: ProgramSlotView| s.alive));
        }
        self.programs.insert(pi, slot);
    }

    /// Read a live program object's link-status flag.
    pub fn link_status(&self, p: u32) -> (ok: bool)
        requires
            self@.program_live(p),
        ensures
            ok == self@.programs[p as int - 1].link_ok,
    {
        let i = (p - 1) as usize;
        self.programs[i].link_ok
    }

    /// Query the length of a live program object's information log.
    pub fn program_info_log_len(&self, p: u32) -> (n: usize)
        requires
            self@.program_live(p),
        ensures
            n == self@.programs[p as int - 1].log.len(),
    {
        let i = (p - 1) as usize;
        self.programs[i].log.as_str().unicode_len()
    }

    /// Read a live program object's information log into a buffer of exactly
    /// the length queried beforehand.
    pub fn read_program_info_log(&self, p: u32, len: usize) -> (log: String)
        requires
            self@.program_live(p),
            len == self@.programs[p as int - 1].log.len(),
        ensures
            log@ == self@.programs[p as int - 1].log,
            log@.len() == len,
    {
        let i = (p - 1) as usize;
        self.programs[i].log.clone()
    }

    /// Release a live program handle, for good.
    pub fn delete_program(&mut self, p: u32)
        requires
            old(self)@.program_live(p),
        ensures
            final(self)@.programs == old(self)@.programs.update(
                p as int - 1,
                ProgramSlotView { alive: false, ..old(self)@.programs[p as int - 1] },
            ),
            final(self)@.same_but_programs(old(self)@),
            !final(self)@.program_live(p),
            final(self)@.live_program_count() + 1 == old(self)@.live_program_count(),
            forall|x: u32| x != p ==> final(self)@.program_live(x) == old(self)@.program_live(x),
    {
        let i = (p - 1) as usize;
        let mut slot = self.programs.remove(i);
        slot.alive = false;
        proof {
            let ghost target = self.programs@.insert(i as int, slot);
            assert(target =~= old(self).programs@.update(i as int, slot));
            lemma_program_views_update(old(self).programs@, i as int, slot);
            assert(slot@ =~~= ProgramSlotView {
                alive: false,
                ..old(self)@.programs[p as int - 1]
            });
            lemma_count_true_update(
                old(self)@.programs.map_values(|s: ProgramSlotView| s.alive),
                i as int,
                false,
            );
            assert(old(self)@.programs.update(i as int, slot@).map_values(
                |s: ProgramSlotView| s.alive,
            ) =~= old(self)@.programs.map_values(|s: ProgramSlotView| s.alive).update(
                i as int,
                false,
            ));
        }
        self.programs.insert(i, slot);
    }

    /// Allocate a fresh vertex-array object.
    pub fn gen_vertex_array(&mut self) -> (h: u32)
        requires
            old(self)@.vaos.len() < u32::MAX,
        ensures
            h as int == old(self)@.vaos.len() + 1,
            !old(self)@.vao_live(h),
            final(self)@.vao_live(h),
            final(self)@.vaos == old(self)@.vaos.push(true),
            final(self)@.shaders == old(self)@.shaders,
            final(self)@.programs == old(self)@.programs,
            final(self)@.vbos == old(self)@.vbos,
            final(self)@.error_count == old(self)@.error_count,
    {
        let h = (self.vaos.len() + 1) as u32;
        self.vaos.push(true);
        h
    }

    /// Release a live vertex-array handle, for good.
    pub fn delete_vertex_array(&mut self, h: u32)
        requires
            old(self)@.vao_live(h),
        ensures
            final(self)@.vaos == old(self)@.vaos.update(h as int - 1, false),
            !final(self)@.vao_live(h),
            final(self)@.shaders == old(self)@.shaders,
            final(self)@.programs == old(self)@.programs,
            final(self)@.vbos == old(self)@.vbos,
            final(self)@.error_count == old(self)@.error_count,
    {
        let i = (h - 1) as usize;
        self.vaos.set(i, false);
    }

    /// Allocate a fresh vertex-buffer object.
    pub fn gen_buffer(&mut self) -> (h: u32)
        requires
            old(self)@.vbos.len() < u32::MAX,
        ensures
            h as int == old(self)@.vbos.len() + 1,
            !old(self)@.vbo_live(h),
            final(self)@.vbo_live(h),
            final(self)@.vbos == old(self)@.vbos.push(true),
            final(self)@.shaders == old(self)@.shaders,
            final(self)@.programs == old(self)@.programs,
            final(self)@.vaos == old(self)@.vaos,
            final(self)@.error_count == old(self)@.error_count,
    {
        let h = (self.vbos.len() + 1) as u32;
        self.vbos.push(true);
        h
    }

    /// Release a live vertex-buffer handle, for good.
    pub fn delete_buffer(&mut self, h: u32)
        requires
            old(self)@.vbo_live(h),
        ensures
            final(self)@.vbos == old(self)@.vbos.update(h as int - 1, false),
            !final(self)@.vbo_live(h),
            final(self)@.shaders == old(self)@.shaders,
            final(self)@.programs == old(self)@.programs,
            final(self)@.vaos == old(self)@.vaos,
            final(self)@.error_count == old(self)@.error_count,
    {
        let i = (h - 1) as usize;
        self.vbos.set(i, false);
    }
}

} // verus!

