//! Verified core logic of the Migo graphics layer: damage tracking,
//! rectangle packing, lifecycle state machines, pools, device
//! classification and GL state deduplication.

pub mod damage;
pub mod atlas_pack;
pub mod lifecycle;
pub mod app_state;
pub mod frame_state;
pub mod pool;
pub mod text;
pub mod compressed;
pub mod device;
pub mod surface_install;
pub mod upload;
pub mod egl_config;
pub mod gl_util;
pub mod batching;
pub mod geometry;
pub mod arena;
pub mod resources;
pub mod state_tracker;
pub mod texture_atlas;
pub mod buffer_pool;
pub mod batch_plan;
pub mod state_stack;
pub mod surface_manager;
pub mod pbo_pool;
pub mod egl_backend;
pub mod canvas_plan;
pub mod canvas_registry;
