//! Keeps a declared set of addons in step with the versions that their
//! providers publish.
//!
//! The library holds the rules of a synchronisation and none of its input
//! or output. A caller reads the configuration and the lock file, hands
//! both over, and then carries out what it is asked for: requests to a
//! provider, files to write, archives to unpack. What comes back from those
//! is handed to the library again, which decides what happens next.
//!
//! - [`addon`]: the declared addons, their providers, and the locks that
//!   record what was resolved.
//! - [`providers`]: for each provider, the machine that resolves a version
//!   and the machine that downloads an archive.
//! - [`lock`]: the store of locks, the staleness filter and the merge.
//! - [`runner`]: the books of a stage that runs a bounded number of
//!   operations at once.
//! - [`pipeline`]: the books of a whole run, from the first resolution to
//!   the store that is persisted.
//! - [`install`]: planning and reporting.
//! - [`progress`]: the bookkeeping of the progress display.
//! - [`extract`]: what to do with the entries of an archive.
//! - [`error`]: the failures and how far each reaches.
//! - [`text`]: text helpers that the rest is built on.

pub mod addon;
pub mod error;
pub mod extract;
pub mod install;
pub mod lock;
pub mod pipeline;
pub mod progress;
pub mod providers;
pub mod runner;
pub mod text;

pub use crate::addon::{Addon, AddonLock, Provider};
pub use crate::error::{ErrorKind, ParseFault, SyncError};
pub use crate::lock::{find_existing_lock, LockStore};
pub use crate::progress::{Phase, ProgressState, ProgressUpdate};
pub use crate::runner::StageRunner;
