//! Package-index tooling for WebAssembly (WASI) Python wheels: resolving
//! source distributions from a package registry, and building a static
//! package index from the wheels published as release assets.
pub mod archive;
pub mod catalog;
pub mod error;
pub mod publish;
pub mod registry;
pub mod render;
pub mod text;
pub mod toolchain;

pub use catalog::{Asset, FetchedRelease, HashManifest, Packages, Release, WheelFile};
pub use error::IndexError;
pub use publish::PublishFlags;
pub use registry::{Hashes, Project, ProjectFile, SdistFile, Yanked};
pub use toolchain::{wheel_path, PythonVersion, SupportedProjects, WasiSdk, Workspace};
