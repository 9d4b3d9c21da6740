//! Container images, engines and the paths shared with a container.

pub mod image;
pub mod engine;
pub mod shared;
pub mod custom;
pub mod image_build;
pub mod container_args;
pub mod local_run;
pub mod remote_plan;
pub mod docker_ignore;
pub mod provided;
pub mod remote;

pub use image::{Architecture, Image, ImagePlatform, ImageReference, Os, PossibleImage, PlatformError};
pub use engine::{Engine, EngineType};
pub use provided::{ProvidedImage, image_name};
