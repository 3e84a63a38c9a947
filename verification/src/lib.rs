//! Verified core of the khviz MilkDrop-style visualizer: the EEL expression
//! lexer and parser, register and builtin name resolution, preset shader
//! extraction, fragment-shader assembly and the integer mesh/texture layouts
//! used by the renderer.
pub mod eel;
pub mod preset;
pub mod renderer;
pub mod textures;
