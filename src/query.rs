//! Data that query and data packets carry. Their wire forms belong to the
//! layers above this crate.
use vstd::prelude::*;

verus! {

/// A query to run.
#[derive(Debug, Clone)]
pub struct QueryPacket {
    pub query_id: String,
    pub client_info: ClientInfo,
    pub settings: Vec<Settings>,
    pub secret: String,
    pub stage: Stage,
    pub compression: u64,
    pub body: String,
}

/// Who sends a query, and from where.
#[derive(Debug, Clone)]
pub struct ClientInfo {
    pub protocol_version: u64,
    pub version_major: u64,
    pub version_minor: u64,
    pub version_patch: u64,
    pub interface: Interface,
    pub query_kind: ClientQueryKind,
    pub initial_user: String,
    pub initial_query_id: String,
    pub initial_address: String,
    pub initial_time: i64,
    pub os_user: String,
    pub client_hostname: String,
    pub client_name: String,
    pub quota_key: String,
    pub distributed_depth: u64,
    pub otel: bool,
    pub trace_id: String,
    pub span_id: String,
    pub trace_state: String,
    pub trace_flags: u8,
}

/// One setting that goes with a query.
#[derive(Debug, Clone)]
pub struct Settings {
    pub key: String,
    pub value: String,
    pub important: bool,
}

/// How far the server is to take a query.
#[derive(Debug, Clone, Copy, PartialEq, Eq, Structural)]
pub enum Stage {
    FetchColumns,
    WithMergeableState,
    Complete,
}

impl Stage {
    /// The number that stands for this stage on the wire.
    pub fn code(self) -> (r: u64)
        ensures
            r == match self {
                Stage::FetchColumns => 0u64,
                Stage::WithMergeableState => 1u64,
                Stage::Complete => 2u64,
            },
    {
        match self {
            Stage::FetchColumns => 0,
            Stage::WithMergeableState => 1,
            Stage::Complete => 2,
        }
    }
}

/// Whether a query comes from a user or from another server.
#[derive(Debug, Clone, Copy, PartialEq, Eq, Structural)]
pub enum ClientQueryKind {
    NoQuery,
    Initial,
    Secondary,
}

impl ClientQueryKind {
    /// The number that stands for this kind on the wire.
    pub fn code(self) -> (r: u8)
        ensures
            r == match self {
                ClientQueryKind::NoQuery => 0u8,
                ClientQueryKind::Initial => 1u8,
                ClientQueryKind::Secondary => 2u8,
            },
    {
        match self {
            ClientQueryKind::NoQuery => 0,
            ClientQueryKind::Initial => 1,
            ClientQueryKind::Secondary => 2,
        }
    }
}

/// The interface a query came in through.
#[derive(Debug, Clone, Copy, PartialEq, Eq, Structural)]
pub enum Interface {
    TCP,
    HTTP,
}

impl Interface {
    /// The number that stands for this interface on the wire.
    pub fn code(self) -> (r: u8)
        ensures
            r == match self {
                Interface::TCP => 1u8,
                Interface::HTTP => 2u8,
            },
    {
        match self {
            Interface::TCP => 1,
            Interface::HTTP => 2,
        }
    }
}

/// A block of column data.
#[derive(Debug, Clone)]
pub struct DataPacket {
    pub info: BlockInfo,
    pub columns_count: u64,
    pub rows_count: u64,
    pub columns: Vec<Column>,
}

/// Facts about a block of data.
#[derive(Debug, Clone, Copy, PartialEq, Eq, Structural)]
pub struct BlockInfo {
    pub is_overflows: bool,
    pub bucket_num: i32,
}

impl Default for BlockInfo {
    /// No overflow rows, and no bucket (-1).
    fn default() -> (r: BlockInfo)
        ensures
            r == (BlockInfo { is_overflows: false, bucket_num: -1i32 }),
    {
        BlockInfo { is_overflows: false, bucket_num: -1 }
    }
}

/// One column of a block: its name, type and encoded values.
#[derive(Debug, Clone)]
pub struct Column {
    pub name: String,
    pub column_type: String,
    pub data: Vec<u8>,
}

/// Asks the server to stop the running query.
#[derive(Debug, Clone, Copy, PartialEq, Eq, Structural)]
pub struct CancelPacket {}

/// How the payload of a block is compressed.
#[derive(Debug, Clone, Copy, PartialEq, Eq, Structural)]
pub enum Modes {
    NONE,
    LZ4,
    ZSTD,
}

impl Modes {
    /// The byte that names this method in a block header.
    pub fn code(self) -> (r: u8)
        ensures
            r == match self {
                Modes::NONE => 0x02u8,
                Modes::LZ4 => 0x82u8,
                Modes::ZSTD => 0x90u8,
            },
    {
        match self {
            Modes::NONE => 0x02,
            Modes::LZ4 => 0x82,
            Modes::ZSTD => 0x90,
        }
    }
}

/// A compressed block as it travels.
#[derive(Debug, Clone)]
pub struct Block {
    pub checksum: u128,
    pub raw_size: u32,
    pub data_size: u32,
    pub mode: Modes,
    pub compressed_data: Vec<u8>,
}

} // verus!
