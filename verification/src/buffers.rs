use vstd::prelude::*;
use crate::gpu::Gpu;
use crate::gpu::GpuView;
use crate::shader::ShaderProgram;

verus! {

/// One attribute binding of the buffer set: which attribute location it
/// feeds, and how the flat vertex words are walked (component count, stride
/// and offset in words, and whether fixed-point data is normalized). Bound
/// once at creation and immutable thereafter.
#[derive(Clone, Copy, Debug, PartialEq, Eq, Structural)]
pub struct AttribBinding {
    pub location: u32,
    pub components: u8,
    pub normalized: bool,
    pub stride: u32,
    pub offset: u32,
}

/// Some binding feeds attribute location `k`.
pub open spec fn location_bound(bindings: Seq<AttribBinding>, k: int) -> bool {
    exists|j: int| 0 <= j < bindings.len() && bindings[j].location as int == k
}

/// Every attribute location below `n` is fed by some binding: what a draw
/// call over a program with `n` active attributes requires to be clean.
pub open spec fn covers(bindings: Seq<AttribBinding>, n: int) -> bool {
    forall|k: int| 0 <= k < n ==> #[trigger] location_bound(bindings, k)
}

/// A draw call goes wrong exactly when the program handle is not a live,
/// successfully linked program, one of the two buffer handles is dead, or
/// some active attribute of the program has no binding feeding it.
pub open spec fn draw_fault(
    g: GpuView,
    program: u32,
    vao: u32,
    vbo: u32,
    bindings: Seq<AttribBinding>,
) -> bool {
    !(g.program_live(program) && g.programs[program as int - 1].linked && g.programs[program as int
        - 1].link_ok && g.vao_live(vao) && g.vbo_live(vbo) && covers(
        bindings,
        g.programs[program as int - 1].attribs.len() as int,
    ))
}

/// A successfully linked program, drawn over a buffer set whose bindings
/// feed every one of the program's active attributes, raises no driver
/// error: the draw call is clean whatever else the context holds.
pub proof fn lemma_linked_draw_is_clean(g: GpuView, program: ShaderProgram, bufs: GpuBufferSet)
    requires
        program.valid(g),
        bufs.valid(g),
        covers(bufs.spec_bindings(), program.spec_attribs(g).len() as int),
    ensures
        !draw_fault(g, program.spec_id(), bufs.spec_vao(), bufs.spec_vbo(), bufs.spec_bindings()),
{
}

/// The vertex-array and vertex-buffer pair with its attribute bindings,
/// sole owner of both handles. The vertex data itself (a flat sequence of
/// 32-bit words uploaded once) stays outside the model; only its length in
/// words is tracked.
pub struct GpuBufferSet {
    vao: u32,
    vbo: u32,
    vertex_len: usize,
    bindings: Vec<AttribBinding>,
}

impl GpuBufferSet {
    /// The owned vertex-array handle.
    pub closed spec fn spec_vao(self) -> u32 {
        self.vao
    }

    /// The owned vertex-buffer handle.
    pub closed spec fn spec_vbo(self) -> u32 {
        self.vbo
    }

    /// The length in words of the uploaded vertex data.
    pub closed spec fn spec_vertex_len(self) -> usize {
        self.vertex_len
    }

    /// The attribute bindings, in binding order.
    pub closed spec fn spec_bindings(self) -> Seq<AttribBinding> {
        self.bindings@
    }

    /// Both owned handles are live in `g`.
    pub open spec fn valid(self, g: GpuView) -> bool {
        g.vao_live(self.spec_vao()) && g.vbo_live(self.spec_vbo())
    }

    pub fn vao(&self) -> (h: u32)
        ensures
            h == self.spec_vao(),
    {
        self.vao
    }

    pub fn vbo(&self) -> (h: u32)
        ensures
            h == self.spec_vbo(),
    {
        self.vbo
    }

    pub fn vertex_len(&self) -> (n: usize)
        ensures
            n == self.spec_vertex_len(),
    {
        self.vertex_len
    }

    /// Allocate one vertex-array and one vertex-buffer object, upload
    /// `vertex_len` words of static vertex data, and bind the given
    /// attribute layout. The returned set owns both fresh handles.
    pub fn create(gpu: &mut Gpu, vertex_len: usize, bindings: Vec<AttribBinding>) -> (b:
        GpuBufferSet)
        requires
            old(gpu)@.vaos.len() < u32::MAX,
            old(gpu)@.vbos.len() < u32::MAX,
        ensures
            b.valid(final(gpu)@),
            b.spec_bindings() == bindings@,
            b.spec_vertex_len() == vertex_len,
            !old(gpu)@.vao_live(b.spec_vao()),
            !old(gpu)@.vbo_live(b.spec_vbo()),
            final(gpu)@.vaos == old(gpu)@.vaos.push(true),
            final(gpu)@.vbos == old(gpu)@.vbos.push(true),
            final(gpu)@.shaders == old(gpu)@.shaders,
            final(gpu)@.programs == old(gpu)@.programs,
            final(gpu)@.error_count == old(gpu)@.error_count,
    {
        let vao = gpu.gen_vertex_array();
        let vbo = gpu.gen_buffer();
        GpuBufferSet { vao, vbo, vertex_len, bindings }
    }

    /// Issue one draw call over this buffer set with the given program
    /// handle. A clean call leaves the driver untouched; a faulty one only
    /// raises the error counter, the driver's asynchronous error channel.
    pub fn draw(&self, gpu: &mut Gpu, program: u32)
        requires
            old(gpu)@.error_count < u64::MAX,
        ensures
            final(gpu)@.shaders == old(gpu)@.shaders,
            final(gpu)@.programs == old(gpu)@.programs,
            final(gpu)@.vaos == old(gpu)@.vaos,
            final(gpu)@.vbos == old(gpu)@.vbos,
            draw_fault(old(gpu)@, program, self.spec_vao(), self.spec_vbo(), self.spec_bindings())
                ==> final(gpu)@.error_count == old(gpu)@.error_count + 1,
            !draw_fault(old(gpu)@, program, self.spec_vao(), self.spec_vbo(), self.spec_bindings())
                ==> final(gpu)@.error_count == old(gpu)@.error_count,
    {
        let mut ok = true;
        let mut attribs_n: usize = 0;
        if program >= 1 && (program as usize) <= gpu.programs.len() {
            let pi = (program as usize) - 1;
            if gpu.programs[pi].alive && gpu.programs[pi].linked && gpu.programs[pi].link_ok {
                attribs_n = gpu.programs[pi].attribs.len();
                proof {
                    assert(gpu.programs@[pi as int]@.attribs.len() == attribs_n);
                }
            } else {
                ok = false;
            }
        } else {
            ok = false;
        }
        if !(self.vao >= 1 && (self.vao as usize) <= gpu.vaos.len() && gpu.vaos[(self.vao as usize)
            - 1]) {
            ok = false;
        }
        if !(self.vbo >= 1 && (self.vbo as usize) <= gpu.vbos.len() && gpu.vbos[(self.vbo as usize)
            - 1]) {
            ok = false;
        }
        let mut covered = true;
        if ok {
            let mut k: usize = 0;
            while k < attribs_n
                invariant
                    k <= attribs_n,
                    covered == (forall|m: int|
                        0 <= m < k ==> #[trigger] location_bound(self.bindings@, m)),
                decreases attribs_n - k,
            {
                let mut found = false;
                let mut j: usize = 0;
                while j < self.bindings.len()
                    invariant
                        j <= self.bindings@.len(),
                        found == (exists|j2: int|
                            0 <= j2 < j && self.bindings@[j2].location as int == k as int),
                    decreases self.bindings@.len() - j,
                {
                    if self.bindings[j].location as usize == k {
                        found = true;
                    }
                    j = j + 1;
                }
                proof {
                    if found {
                        assert(location_bound(self.bindings@, k as int));
                    } else {
                        assert(!location_bound(self.bindings@, k as int));
                    }
                }
                if !found {
                    covered = false;
                }
                k = k + 1;
            }
        }
        if !(ok && covered) {
            gpu.error_count = gpu.error_count + 1;
        }
    }

    /// Release both owned handles, newest first: the vertex buffer, then the
    /// vertex array. Takes the set by value, so each handle is released
    /// exactly once.
    pub fn destroy(self, gpu: &mut Gpu)
        requires
            old(gpu)@.vao_live(self.spec_vao()),
            old(gpu)@.vbo_live(self.spec_vbo()),
        ensures
            !final(gpu)@.vao_live(self.spec_vao()),
            !final(gpu)@.vbo_live(self.spec_vbo()),
            final(gpu)@.vaos == old(gpu)@.vaos.update(self.spec_vao() as int - 1, false),
            final(gpu)@.vbos == old(gpu)@.vbos.update(self.spec_vbo() as int - 1, false),
            final(gpu)@.shaders == old(gpu)@.shaders,
            final(gpu)@.programs == old(gpu)@.programs,
            final(gpu)@.error_count == old(gpu)@.error_count,
    {
        gpu.delete_buffer(self.vbo);
        gpu.delete_vertex_array(self.vao);
    }
}

} // verus!
