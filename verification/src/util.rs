//! Small value types shared by the configuration and the plugins.

pub mod runnable;
