use rengine::device::fs_source;
use rengine::device::vs_source;
use rengine::gpu::Gpu;
use rengine::gpu::Stage;
use rengine::shader::Shader;
use rengine::shader::ShaderProgram;

fn live_shaders(gpu: &Gpu) -> usize {
    gpu.shaders.iter().filter(|s| s.alive).count()
}

fn live_programs(gpu: &Gpu) -> usize {
    gpu.programs.iter().filter(|s| s.alive).count()
}

#[test]
fn compile_valid_vertex_source() {
    let mut gpu = Gpu::new();
    let vs = Shader::from_source(&mut gpu, vs_source(), Stage::Vertex).unwrap();
    assert!(vs.id() > 0);
    assert_eq!(live_shaders(&gpu), 1);
    vs.destroy(&mut gpu);
}

#[test]
fn compile_missing_version_fails_with_log_and_no_leak() {
    let mut gpu = Gpu::new();
    let before = live_shaders(&gpu);
    let r = Shader::from_source(&mut gpu, "void main() {}", Stage::Vertex);
    let log = r.err().unwrap();
    assert!(!log.is_empty());
    assert_eq!(live_shaders(&gpu), before);
}

#[test]
fn compile_unbalanced_braces_fails_with_log_and_no_leak() {
    let mut gpu = Gpu::new();
    let vs = Shader::from_source(&mut gpu, vs_source(), Stage::Vertex).unwrap();
    let before = live_shaders(&gpu);
    let r = Shader::from_source(&mut gpu, "#version 150\nvoid main() {", Stage::Vertex);
    let log = r.err().unwrap();
    assert!(!log.is_empty());
    assert_eq!(live_shaders(&gpu), before);
    vs.destroy(&mut gpu);
}

#[test]
fn destroy_releases_the_handle() {
    let mut gpu = Gpu::new();
    let vs = Shader::from_source(&mut gpu, vs_source(), Stage::Vertex).unwrap();
    assert_eq!(live_shaders(&gpu), 1);
    vs.destroy(&mut gpu);
    assert_eq!(live_shaders(&gpu), 0);
}

#[test]
fn link_two_stages_and_look_up_attributes() {
    let mut gpu = Gpu::new();
    let vs = Shader::from_source(&mut gpu, vs_source(), Stage::Vertex).unwrap();
    let fs = Shader::from_source(&mut gpu, fs_source(), Stage::Fragment).unwrap();
    let units = vec![&vs, &fs];
    let program = ShaderProgram::link(&mut gpu, "p1".to_string(), &units).unwrap();
    // A valid positive handle, a non-negative location for the declared
    // attribute, and the not-found sentinel for anything else.
    assert!(program.id() > 0);
    assert_eq!(program.attrib_count(&gpu), 1);
    assert!(program.attrib_location(&gpu, "position") >= 0);
    assert_eq!(program.attrib_location(&gpu, "missing"), -1);
    assert_eq!(program.name, "p1");
    vs.destroy(&mut gpu);
    fs.destroy(&mut gpu);
    program.destroy(&mut gpu);
}

#[test]
fn linked_program_survives_its_stages() {
    let mut gpu = Gpu::new();
    let vs = Shader::from_source(&mut gpu, vs_source(), Stage::Vertex).unwrap();
    let fs = Shader::from_source(&mut gpu, fs_source(), Stage::Fragment).unwrap();
    let units = vec![&vs, &fs];
    let program = ShaderProgram::link(&mut gpu, "p1".to_string(), &units).unwrap();
    vs.destroy(&mut gpu);
    fs.destroy(&mut gpu);
    // The program retained nothing of its input units: lookups still work
    // after both are gone.
    assert_eq!(live_shaders(&gpu), 0);
    assert!(program.attrib_location(&gpu, "position") >= 0);
    program.destroy(&mut gpu);
}

#[test]
fn link_with_no_stages_fails_with_log_and_no_leak() {
    let mut gpu = Gpu::new();
    let before = live_programs(&gpu);
    let units: Vec<&Shader> = Vec::new();
    let r = ShaderProgram::link(&mut gpu, "empty".to_string(), &units);
    let log = r.err().unwrap();
    assert!(!log.is_empty());
    assert_eq!(live_programs(&gpu), before);
}

#[test]
fn program_destroy_releases_the_handle() {
    let mut gpu = Gpu::new();
    let vs = Shader::from_source(&mut gpu, vs_source(), Stage::Vertex).unwrap();
    let units = vec![&vs];
    let program = ShaderProgram::link(&mut gpu, "solo".to_string(), &units).unwrap();
    assert_eq!(live_programs(&gpu), 1);
    program.destroy(&mut gpu);
    assert_eq!(live_programs(&gpu), 0);
    vs.destroy(&mut gpu);
}

#[test]
fn vertex_attributes_come_from_every_attached_stage_in_order() {
    let mut gpu = Gpu::new();
    let a = Shader::from_source(&mut gpu, "#version 150\nin vec2 alpha;\nin vec3 beta;", Stage::Vertex).unwrap();
    let b = Shader::from_source(&mut gpu, "#version 150\nin vec4 gamma;", Stage::Fragment).unwrap();
    let units = vec![&a, &b];
    let program = ShaderProgram::link(&mut gpu, "multi".to_string(), &units).unwrap();
    assert_eq!(program.attrib_count(&gpu), 3);
    assert_eq!(program.attrib_location(&gpu, "alpha"), 0);
    assert_eq!(program.attrib_location(&gpu, "beta"), 1);
    assert_eq!(program.attrib_location(&gpu, "gamma"), 2);
    a.destroy(&mut gpu);
    b.destroy(&mut gpu);
    program.destroy(&mut gpu);
}
