//! The decisions of `plrd`, the power-loss-recovery daemon for Klipper
//! printers: which write-ahead-log sessions may be pruned, how a recovery plan
//! is executed step by step and when it is refused, how the printer's
//! configuration is read, and what the operator is told.

pub mod accounts;
pub mod assurance;
pub mod calibration;
pub mod checksum;
pub mod chronicle;
pub mod clearance;
pub mod conduct;
pub mod execution;
pub mod executor;
pub mod gates;
pub mod guarantees;
pub mod hostclock;
pub mod inventory;
pub mod json;
pub mod keeping;
pub mod launch;
pub mod machine;
pub mod moonraker;
pub mod narration;
pub mod number;
pub mod order;
pub mod passage;
pub mod pipeline;
pub mod plan;
pub mod plrcfg;
pub mod powerfail;
pub mod preview;
pub mod prompts;
pub mod recover;
pub mod recovery_file;
pub mod retention;
pub mod settings;
pub mod source;
pub mod stages;
pub mod text;
pub mod transcript;
pub mod verdicts;
pub mod wording;
