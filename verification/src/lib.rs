//! LocalGPT: world data model, edit history and its effect on the scene
//! registry, the GLB container format, document loaders, hook management and
//! the command logic of the Gen front ends.

pub mod entity;
pub mod history;
pub mod text;
pub mod world;
pub mod strings;
pub mod document;
pub mod hooks;
pub mod whitespace;
pub mod gen_repl;
pub mod tui;
pub mod gen_cli;
pub mod light;
pub mod material;
pub mod completion;
pub mod avatar;
pub mod behaviors;
pub mod server;
pub mod mcp;
pub mod snippet;
pub mod tui_render;
pub mod scene;
pub mod glb;
pub mod world_load;
