//! GeoForge task processing library: task protocol types, path safety,
//! commit bookkeeping, tile and container parsing, and the decision logic
//! of the task pipeline.

pub mod bridge;
pub mod bytes;
pub mod cancel;
pub mod capabilities;
pub mod commit;
pub mod convert;
pub mod desktop;
pub mod geo;
pub mod gltf_doc;
pub mod gltf_textures;
pub mod ids;
pub mod json;
pub mod model;
pub mod numbers;
pub mod path_policy;
pub mod patterns;
pub mod pipeline;
pub mod process_manager;
pub mod protocol;
pub mod rebuild;
pub mod scan;
pub mod task_store;
pub mod text;
pub mod texture;
pub mod texture_ktx2;
pub mod util;
pub mod validate;
pub mod validation;
pub mod validator;
