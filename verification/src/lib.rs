//! Finds files with identical content and plans how to collapse them into
//! hardlinks or reflinks.
//!
//! The crate holds the deduplication engine as a set of verified decision
//! procedures. It never touches the filesystem itself: a driver performs the
//! reads and link operations that the engine asks for and reports back how
//! they went.

pub mod deferred;
pub mod events;
pub mod file;
pub mod gate;
pub mod hasher;
pub mod index;
pub mod json;
pub mod links;
pub mod merge;
pub mod metadata;
pub mod paths;
pub mod queue;
pub mod records;
pub mod scanner;
pub mod settings;
pub mod stats;
pub mod ui;

pub use crate::events::ScanEvent;
pub use crate::file::{FileContent, FileSet};
pub use crate::hasher::{Comparison, HashIter, HashedRange, Hasher, ReadRequest, Step};
pub use crate::index::{ContentEntry, ContentIndex, Search, SearchStep};
pub use crate::json::report_groups;
pub use crate::links::{LinkOp, LinkState, LinkType};
pub use crate::metadata::{FileKind, FileStat, Metadata, Order};
pub use crate::queue::DirQueue;
pub use crate::records::Records;
pub use crate::scanner::{Action, Scanner};
pub use crate::settings::{RunMode, Settings};
pub use crate::stats::Stats;
pub use crate::ui::{combined_paths, UI};
