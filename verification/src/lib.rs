//! RAR5 archive jobs for the Smart Archive VS Code extension.
//!
//! The library decides; it performs no I/O. It plans the entries of an
//! archive, holds them to the size budget, reads dictionary sizes, turns
//! caller options into writer options, tracks progress, and drives each job
//! as a conversation of [`Request`]s and [`Reply`]s with whoever does the I/O.

pub mod append;
pub mod append_laws;
pub mod batch;
pub mod budget;
pub mod create;
pub mod create_laws;
pub mod dict;
pub mod entry;
pub mod error;
pub mod extract;
pub mod members;
pub mod options;
pub mod path;
pub mod progress;
pub mod protocol;
pub mod recovery;
pub mod size;
pub mod text;
pub mod volumes;
pub mod writing;

pub use append::{append_entries, AppendArchiveTask};
pub use create::{create_archive, CreateArchiveTask};
pub use dict::parse_dict_size;
pub use entry::EntryInput;
pub use error::{Error, Status};
pub use extract::{extract_archive, ExtractArchiveTask};
pub use members::{
    delete_entries, list_entries, list_entries_detailed, DeleteEntriesTask, ListDetailedTask,
    ListEntriesTask,
};
pub use options::{AppendArchiveOptions, CreateArchiveOptions, ExtractArchiveOptions};
pub use progress::ProgressData;
pub use protocol::{EntryInfo, Reply, Request, Step};
pub use recovery::{
    rebuild_missing_volumes, repair_archive, RebuildVolumesTask, RepairArchiveTask,
};
pub use writing::CreateResult;

#[allow(unused_imports)]
use vstd::prelude::*;
