//! What the engine knows of the `control` format: its fields, the files that
//! hold it, and what to offer while one is written.

pub mod completion;
pub mod detection;
pub mod distinct;
pub mod fields;

pub use completion::get_completions;
pub use completion::get_field_completions;
pub use completion::get_package_completions;
pub use detection::is_control_file;
pub use fields::get_standard_field_name;
