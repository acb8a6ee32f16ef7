//! The storage side of a messaging pipe: which storages a pipe uses, and
//! when it flushes them.

pub mod storage;

pub use self::storage::{
    DummyStorageArgs, FunctionContext, MetadataStorageArgs, MetadataStorageType, StorageArgs,
    StorageIO, StorageSet, StorageType,
};
