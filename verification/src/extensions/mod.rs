//! Extensions: programs that discover resources, import configuration
//! files and retrieve secrets.

pub mod dscextension;
