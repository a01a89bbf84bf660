//! Settings read from the server's configuration file.
use vstd::prelude::*;

verus! {

/// The Floodgate section of the configuration.
pub struct FloodgateConfig {
    pub enabled: bool,
    pub key_file: String,
    pub username_prefix: String,
    pub replace_spaces: bool,
    pub education: bool,
}

impl Default for FloodgateConfig {
    fn default() -> (r: Self)
        ensures
            !r.enabled,
            r.key_file@ == "key.pem"@,
            r.username_prefix@ == "."@,
            r.replace_spaces,
            !r.education,
    {
        Self {
            enabled: false,
            key_file: "key.pem".to_owned(),
            username_prefix: ".".to_owned(),
            replace_spaces: true,
            education: false,
        }
    }
}

/// The pick-block section of the configuration: whether picking a block
/// gives its item, and how many.
#[derive(Debug, Clone, Copy, PartialEq, Eq, Structural)]
pub struct PickItemConfig {
    pub enabled: bool,
    pub stack_size: i32,
}

impl Default for PickItemConfig {
    fn default() -> (r: Self)
        ensures
            !r.enabled,
            r.stack_size == 1,
    {
        Self { enabled: false, stack_size: 1 }
    }
}

} // verus!
