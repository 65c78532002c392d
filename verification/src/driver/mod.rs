//! The decisions of the command-line tool and the texts that it prints.

pub mod attempts;
pub mod banner;
pub mod decision_laws;
pub mod doctor;
pub mod fix_laws;
pub mod fixes;
pub mod json;
pub mod json_laws;
pub mod report;
pub mod sorting;
pub mod toolchain;
