//! Change tracking for slot-indexed component storage: every insertion,
//! removal and tracked update is published to a broadcast log that
//! independent consumers replay at their own pace.
pub mod event_log;
pub mod policy;
pub mod storage;
pub mod mirrored;
pub mod laws;
pub mod access;

pub use access::{StorageExt, StorageMutExt};
pub use event_log::{EventLog, ReaderCursor};
pub use mirrored::{alternating, describes, replay, Change, MirroredStorage};
pub use storage::{bits_of, SlotStorage, VecStorage};
pub use policy::{ChangeEvent, Mirrored, NoPayload, SlotOnly, Snapshot};
