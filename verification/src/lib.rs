//! A real-time rendering harness modelled for verification: a driver/context
//! capability (`gpu`), shader and program objects whose native handles have
//! exactly one owner and are released exactly once (`shader`), the vertex
//! buffer set and the draw call's error rules (`buffers`), the pure window
//! event dispatcher (`events`), the shader-source scanning the model driver
//! compiles by (`glsl`), and the device that owns them all and drives the
//! per-frame loop (`device`).

pub mod buffers;
pub mod device;
pub mod events;
pub mod glsl;
pub mod gpu;
pub mod shader;
