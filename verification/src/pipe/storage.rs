//! The arguments of a pipe's storages and the selection that follows from
//! them.

use core::marker::PhantomData;
use core::time::Duration;
use std::sync::Arc;
use vstd::prelude::*;
use vstd::string::*;
use vstd::utf8::{is_ascii_chars, is_ascii_chars_nat_bound};

verus! {

/// The duration of a number of milliseconds.
pub uninterp spec fn duration_of_millis(millis: u64) -> Duration;

/// Calls `Duration::from_millis`. Trusted: the result depends on the number
/// of milliseconds alone.
#[verifier::external_body]
fn duration_from_millis(millis: u64) -> (d: Duration)
    ensures
        d == duration_of_millis(millis),
{
    Duration::from_millis(millis)
}

/// Where payloads are kept.
#[derive(Copy, Clone, Debug, PartialEq, Eq, PartialOrd, Ord, Hash, Structural)]
pub enum StorageType {
    /// Payloads travel inside the messages and are kept nowhere.
    Passthrough,
    /// Payloads are kept in an object storage.
    S3,
}

impl StorageType {
    /// The storage for payloads that must outlive the pipe.
    pub const PERSISTENT: Self = Self::S3;

    /// The storage for payloads that need not.
    pub const TEMPORARY: Self = Self::Passthrough;
}

/// Where metadata is kept.
#[derive(Copy, Clone, Debug, PartialEq, Eq, PartialOrd, Ord, Hash, Structural)]
pub enum MetadataStorageType {
    LakeHouse,
}

impl Default for MetadataStorageType {
    fn default() -> (ty: Self)
        ensures
            ty == MetadataStorageType::LakeHouse,
    {
        MetadataStorageType::LakeHouse
    }
}

/// The metadata storage to use for values of one type where none is named.
#[derive(Copy, Debug, PartialEq, Eq, PartialOrd, Ord)]
pub struct MetadataStorageArgs<T> {
    default_storage: MetadataStorageType,
    _type: PhantomData<T>,
}

impl<T: Clone> Clone for MetadataStorageArgs<T> {
    fn clone(&self) -> (copy: Self)
        ensures
            copy.default_storage() == self.default_storage(),
    {
        Self { default_storage: self.default_storage, _type: PhantomData }
    }
}

impl<T> MetadataStorageArgs<T> {
    /// The arguments that name a metadata storage as the one to use.
    pub fn new(default_storage: MetadataStorageType) -> (args: Self)
        ensures
            args.default_storage() == default_storage,
    {
        Self { default_storage, _type: PhantomData }
    }

    /// The metadata storage to use where none is named.
    #[verifier::when_used_as_spec(spec_default_storage)]
    pub fn default_storage(&self) -> (ty: MetadataStorageType)
        ensures
            ty == self.default_storage(),
    {
        self.default_storage
    }

    /// The metadata storage to use where none is named.
    pub closed spec fn spec_default_storage(&self) -> MetadataStorageType {
        self.default_storage
    }
}

/// What a function may and may not do while it runs.
#[derive(Clone, Copy, Debug, Default, PartialEq, Eq)]
pub struct FunctionContext {
    pub disabled_store_metadata: bool,
}

impl FunctionContext {
    /// Forbids the function to store metadata.
    pub fn disable_store_metadata(&mut self)
        ensures
            final(self).disabled_store_metadata,
    {
        self.disabled_store_metadata = true;
    }

    /// Whether the function is forbidden to store metadata.
    pub fn is_disabled_store_metadata(&self) -> (b: bool)
        ensures
            b == self.disabled_store_metadata,
    {
        self.disabled_store_metadata
    }
}

/// The arguments of a pipe's storages.
#[derive(Clone, Debug)]
pub struct StorageArgs {
    flush_ms: u64,
    persistence: Option<bool>,
    persistence_metadata: Option<bool>,
    pipe_name: Option<String>,
}

/// The arguments of a pipe's storages as a mathematical value.
pub ghost struct StorageArgsView {
    pub flush_ms: u64,
    pub persistence: Option<bool>,
    pub persistence_metadata: Option<bool>,
    pub pipe_name: Option<Seq<char>>,
}

/// An optional name as a mathematical value.
pub open spec fn pipe_name_view(name: Option<String>) -> Option<Seq<char>> {
    match name {
        Some(name) => Some(name@),
        None => None,
    }
}

impl View for StorageArgs {
    type V = StorageArgsView;

    closed spec fn view(&self) -> StorageArgsView {
        StorageArgsView {
            flush_ms: self.flush_ms,
            persistence: self.persistence,
            persistence_metadata: self.persistence_metadata,
            pipe_name: pipe_name_view(self.pipe_name),
        }
    }
}

/// How often a storage is flushed when nothing else is said, in milliseconds.
pub const DEFAULT_FLUSH_MS: u64 = 10_000;

/// The time between two flushes: none for zero milliseconds, which stands for
/// never.
pub open spec fn flush_of(flush_ms: u64) -> Option<Duration> {
    if flush_ms > 0 {
        Some(duration_of_millis(flush_ms))
    } else {
        None
    }
}

impl StorageArgs {
    /// The arguments as given, each with what it is when left out: flushes
    /// every ten seconds, and no word on persistence or the pipe's name.
    pub fn new(
        flush_ms: u64,
        persistence: Option<bool>,
        persistence_metadata: Option<bool>,
        pipe_name: Option<String>,
    ) -> (args: Self)
        ensures
            args@ == (StorageArgsView {
                flush_ms,
                persistence,
                persistence_metadata,
                pipe_name: pipe_name_view(pipe_name),
            }),
    {
        StorageArgs { flush_ms, persistence, persistence_metadata, pipe_name }
    }

    /// The time between two flushes, if the storages are flushed at all.
    pub fn flush(&self) -> (every: Option<Duration>)
        ensures
            every == flush_of(self@.flush_ms),
    {
        Self::parse_flush_ms(self.flush_ms)
    }

    /// The time between two flushes that a number of milliseconds stands for.
    pub fn parse_flush_ms(flush_ms: u64) -> (every: Option<Duration>)
        ensures
            every == flush_of(flush_ms),
    {
        if flush_ms > 0 {
            Some(duration_from_millis(flush_ms))
        } else {
            None
        }
    }

    /// Says whether payloads must outlive the pipe.
    pub fn with_persistence(&mut self, persistence: bool)
        ensures
            final(self)@ == (StorageArgsView { persistence: Some(persistence), ..old(self)@ }),
    {
        self.persistence = Some(persistence);
    }

    /// Says whether metadata is stored.
    pub fn with_persistence_metadata(&mut self, persistence_metadata: bool)
        ensures
            final(self)@ == (StorageArgsView {
                persistence_metadata: Some(persistence_metadata),
                ..old(self)@
            }),
    {
        self.persistence_metadata = Some(persistence_metadata);
    }
}

/// Whether a letter may stand at either end of a name: a lower-case letter
/// or a digit.
pub open spec fn is_name_edge(c: char) -> bool {
    ('a' <= c && c <= 'z') || ('0' <= c && c <= '9')
}

/// Whether a text can name a pipe: it is not empty, it is made of lower-case
/// letters, digits and hyphens, and it begins and ends with a letter or a
/// digit.
pub open spec fn is_name_text(text: Seq<char>) -> bool {
    &&& text.len() > 0
    &&& forall|i: int| 0 <= i < text.len() ==> is_name_edge(#[trigger] text[i]) || text[i] == '-'
    &&& is_name_edge(text[0])
    &&& is_name_edge(text[text.len() - 1])
}

/// Whether a byte is a lower-case letter or a digit.
fn is_edge_byte(b: u8) -> (r: bool)
    ensures
        b < 128 ==> r == is_name_edge(b as char),
{
    (0x61 <= b && b <= 0x7a) || (0x30 <= b && b <= 0x39)
}

/// Whether a text can name a pipe.
pub fn is_name(text: &str) -> (r: bool)
    ensures
        r == is_name_text(text@),
{
    if !text.is_ascii() {
        proof {
            let i = choose|i: int|
                0 <= i < text@.len() && !('\0' <= #[trigger] text@[i] <= '\u{7f}');
            assert(!(is_name_edge(text@[i]) || text@[i] == '-'));
        }
        return false;
    }
    proof {
        is_ascii_spec_bytes(text);
    }
    let bytes = text.as_bytes();
    if bytes.len() == 0 {
        return false;
    }
    let mut i: usize = 0;
    while i < bytes.len()
        invariant
            i <= bytes@.len(),
            is_ascii(text),
            bytes@ == Seq::new(text@.len(), |i: int| text@[i] as u8),
            forall|j: int| 0 <= j < i ==> is_name_edge(#[trigger] text@[j]) || text@[j] == '-',
        decreases bytes@.len() - i,
    {
        let b = bytes[i];
        proof {
            lemma_ascii_byte(text@, i as int);
        }
        if !(is_edge_byte(b) || b == 0x2d) {
            return false;
        }
        i = i + 1;
    }
    proof {
        lemma_ascii_byte(text@, 0);
        lemma_ascii_byte(text@, bytes@.len() - 1);
    }
    is_edge_byte(bytes[0]) && is_edge_byte(bytes[bytes.len() - 1])
}

/// A letter of an ASCII text is what its byte says.
proof fn lemma_ascii_byte(text: Seq<char>, i: int)
    requires
        is_ascii_chars(text),
        0 <= i < text.len(),
    ensures
        (text[i] as u8) < 128,
        (text[i] as u8) as char == text[i],
{
    is_ascii_chars_nat_bound(text);
}

/// The arguments of a pipe without storages.
#[derive(Clone, Copy, Debug, Default, PartialEq, Eq)]
pub struct DummyStorageArgs {}

/// Why the storages of a pipe could not be set up.
#[derive(Clone, Copy, Debug, PartialEq, Eq, Structural)]
pub enum StorageError {
    /// The pipe has no name: none was given, and the host's name is none that
    /// a pipe can have.
    MissingPipeName,
}

/// The storages that a pipe uses.
#[derive(Debug)]
pub struct StorageSet {
    default: StorageType,
    default_metadata: MetadataStorageType,
    persistence_metadata: bool,
    metadata_flush: Option<Duration>,
    pipe_name: String,
}

/// The storages that a pipe uses as a mathematical value.
pub ghost struct StorageSetView {
    pub default: StorageType,
    pub default_metadata: MetadataStorageType,
    pub persistence_metadata: bool,
    pub metadata_flush: Option<Duration>,
    pub pipe_name: Seq<char>,
}

impl View for StorageSet {
    type V = StorageSetView;

    closed spec fn view(&self) -> StorageSetView {
        StorageSetView {
            default: self.default,
            default_metadata: self.default_metadata,
            persistence_metadata: self.persistence_metadata,
            metadata_flush: self.metadata_flush,
            pipe_name: self.pipe_name@,
        }
    }
}

/// Whether metadata is stored under the given arguments: only if they say so.
pub open spec fn stores_metadata(args: StorageArgsView) -> bool {
    args.persistence_metadata == Some(true)
}

/// The storage for payloads under the given arguments: the persistent one if
/// they ask for persistence, the temporary one otherwise.
pub open spec fn default_storage_of(args: StorageArgsView) -> StorageType {
    if args.persistence == Some(true) {
        StorageType::S3
    } else {
        StorageType::Passthrough
    }
}

/// Whether a function is forbidden to store metadata once the storages are
/// set up: if it was before, or if no metadata is stored.
pub open spec fn forbidden_after(args: StorageArgsView, ctx: FunctionContext) -> bool {
    ctx.disabled_store_metadata || !stores_metadata(args)
}

/// The name of the pipe: the one given, or else the host's, where that is
/// one that a pipe can have.
pub open spec fn pipe_name_of(args: StorageArgsView, host: Option<Seq<char>>) -> Option<Seq<char>> {
    match args.pipe_name {
        Some(name) => Some(name),
        None => match host {
            Some(host) => if is_name_text(host) {
                Some(host)
            } else {
                None
            },
            None => None,
        },
    }
}

/// The time between two flushes of the metadata: none where no metadata is
/// stored or the function is forbidden to store it, and what the arguments
/// say otherwise.
pub open spec fn metadata_flush_of(args: StorageArgsView, ctx: Option<FunctionContext>) -> Option<
    Duration,
> {
    if !stores_metadata(args) {
        None
    } else if ctx is Some && ctx->0.disabled_store_metadata {
        None
    } else {
        flush_of(args.flush_ms)
    }
}

/// The storages that a pipe uses under the given arguments, for a function
/// in the given context, on a host of the given name.
pub open spec fn storage_set_of(
    args: StorageArgsView,
    ctx: Option<FunctionContext>,
    default_metadata: MetadataStorageType,
    host: Option<Seq<char>>,
) -> Result<StorageSetView, StorageError> {
    match pipe_name_of(args, host) {
        None => Err(StorageError::MissingPipeName),
        Some(pipe_name) => Ok(
            StorageSetView {
                default: default_storage_of(args),
                default_metadata,
                persistence_metadata: stores_metadata(args),
                metadata_flush: metadata_flush_of(args, ctx),
                pipe_name,
            },
        ),
    }
}

impl StorageSet {
    /// Selects the storages of a pipe. `host` is the name of the host, where
    /// the host has one. A function that runs where no metadata is stored is
    /// forbidden to store any, whether the selection succeeds or not.
    pub fn try_new<Value>(
        args: &StorageArgs,
        ctx: Option<&mut FunctionContext>,
        default_metadata: MetadataStorageArgs<Value>,
        host: Option<String>,
    ) -> (r: Result<Self, StorageError>)
        ensures
            ctx matches Some(c) ==> final(c).disabled_store_metadata == forbidden_after(
                args@,
                *c,
            ),
            r is Ok == storage_set_of(
                args@,
                match ctx {
                    Some(c) => Some(*c),
                    None => None,
                },
                default_metadata.default_storage(),
                pipe_name_view(host),
            ) is Ok,
            r is Ok ==> r->Ok_0@ == storage_set_of(
                args@,
                match ctx {
                    Some(c) => Some(*c),
                    None => None,
                },
                default_metadata.default_storage(),
                pipe_name_view(host),
            )->Ok_0,
            r is Err ==> r->Err_0 == StorageError::MissingPipeName,
    {
        let persistence_metadata = match args.persistence_metadata {
            Some(b) => b,
            None => false,
        };
        let forbidden = match ctx {
            Some(c) => {
                if !persistence_metadata {
                    c.disable_store_metadata();
                }
                c.is_disabled_store_metadata()
            },
            None => false,
        };
        let default = match args.persistence {
            Some(true) => StorageType::PERSISTENT,
            _ => StorageType::TEMPORARY,
        };
        let pipe_name = match &args.pipe_name {
            Some(name) => name.clone(),
            None => match host {
                Some(name) => {
                    if !is_name(name.as_str()) {
                        return Err(StorageError::MissingPipeName);
                    }
                    name
                },
                None => {
                    return Err(StorageError::MissingPipeName);
                },
            },
        };
        let metadata_flush = if persistence_metadata {
            if forbidden {
                None
            } else {
                args.flush()
            }
        } else {
            None
        };
        Ok(
            StorageSet {
                default,
                default_metadata: default_metadata.default_storage(),
                persistence_metadata,
                metadata_flush,
                pipe_name,
            },
        )
    }

    /// The storage for payloads where none is named.
    pub fn get_default(&self) -> (ty: StorageType)
        ensures
            ty == self@.default,
    {
        self.default
    }

    /// The storage for metadata where none is named.
    pub fn get_default_metadata(&self) -> (ty: MetadataStorageType)
        ensures
            ty == self@.default_metadata,
    {
        self.default_metadata
    }

    /// Whether metadata is stored.
    pub fn stores_metadata(&self) -> (b: bool)
        ensures
            b == self@.persistence_metadata,
    {
        self.persistence_metadata
    }

    /// The time between two flushes of the metadata, if it is flushed at all.
    pub fn metadata_flush(&self) -> (every: Option<Duration>)
        ensures
            every == self@.metadata_flush,
    {
        self.metadata_flush
    }

    /// The name of the pipe.
    pub fn pipe_name(&self) -> (name: &str)
        ensures
            name@ == self@.pipe_name,
    {
        self.pipe_name.as_str()
    }
}

/// The storages on the two sides of a function.
pub struct StorageIO {
    pub input: Arc<StorageSet>,
    pub output: Arc<StorageSet>,
}

} // verus!
