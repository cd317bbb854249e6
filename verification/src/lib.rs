//! Planning logic of a bindless GPU inference backend for GGUF models.
//!
//! A GGUF file is uploaded to the GPU as raw bytes, split over several storage
//! buffers, and shaders read tensors straight out of it by word offset. This
//! crate holds everything such a backend decides on the host: how the file is
//! split, which chunks a dispatch binds, where each tensor of each layer lies,
//! how the key/value cache is laid out, and which kernels run with which
//! dispatch sizes. It touches no device: it turns plain values into plans.

pub mod adapter;
pub mod bindings;
pub mod bytes;
pub mod dispatch;
pub mod full_model;
pub mod gguf;
pub mod head;
pub mod kernels;
pub mod kv_cache;
pub mod layer_plan;
pub mod layers;
pub mod loader;
pub mod metadata;
pub mod model;
pub mod names;
pub mod num;
pub mod offsets;
pub mod options;
pub mod params;
pub mod pools;
pub mod preflight;
pub mod quant;
pub mod schedule;
pub mod shift;
pub mod single;
pub mod spec;
pub mod storage;
pub mod tdr;
pub mod tensors;
pub mod text;
pub mod uniforms;
pub mod vision;
pub mod window;
pub mod wiring;
pub mod words;
