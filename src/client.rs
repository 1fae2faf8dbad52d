//! Packets that the client sends.
use vstd::prelude::*;

verus! {

/// Name the client gives itself in its handshake.
pub const CLICKHOUSE_CLIENT_NAME: &'static str = "clickhouse-native-client";

/// Major version the client reports.
pub const CLICKHOUSE_VERSION_MAJOR: u64 = 0;

/// Minor version the client reports.
pub const CLICKHOUSE_VERSION_MINOR: u64 = 1;

/// Protocol revision the client speaks.
pub const CLICKHOUSE_PROTOCOL_VERSION: u64 = 54451;

/// Database of a new handshake.
pub const CLICKHOUSE_DEFAULT_DATABASE: &'static str = "default";

/// User of a new handshake.
pub const CLICKHOUSE_DEFAULT_USERNAME: &'static str = "default";

/// Password of a new handshake.
pub const CLICKHOUSE_DEFAULT_PASSWORD: &'static str = "";

/// Kinds of client packets; each is sent as its one-byte code.
#[derive(Debug, Clone, Copy, PartialEq, Eq, Structural)]
pub enum ClientPacketCode {
    Hello,
    Query,
    Data,
    Cancel,
    Ping,
    TableStatus,
}

impl ClientPacketCode {
    /// The byte that introduces a packet of this kind.
    pub open spec fn spec_code(self) -> u8 {
        match self {
            ClientPacketCode::Hello => 0,
            ClientPacketCode::Query => 1,
            ClientPacketCode::Data => 2,
            ClientPacketCode::Cancel => 3,
            ClientPacketCode::Ping => 4,
            ClientPacketCode::TableStatus => 5,
        }
    }

    /// The byte that introduces a packet of this kind.
    pub fn code(self) -> (r: u8)
        ensures
            r == self.spec_code(),
    {
        match self {
            ClientPacketCode::Hello => 0,
            ClientPacketCode::Query => 1,
            ClientPacketCode::Data => 2,
            ClientPacketCode::Cancel => 3,
            ClientPacketCode::Ping => 4,
            ClientPacketCode::TableStatus => 5,
        }
    }
}

/// The fields of a client handshake, as values.
pub struct HelloModel {
    pub client_name: Seq<char>,
    pub version_major: u64,
    pub version_minor: u64,
    pub protocol_version: u64,
    pub database: Seq<char>,
    pub username: Seq<char>,
    pub password: Seq<char>,
}

/// The client's handshake: who it is and whom it logs in as.
#[derive(Debug, Clone)]
pub struct HelloPacket {
    client_name: String,
    version_major: u64,
    version_minor: u64,
    protocol_version: u64,
    pub database: String,
    pub username: String,
    pub password: String,
}

impl View for HelloPacket {
    type V = HelloModel;

    closed spec fn view(&self) -> HelloModel {
        HelloModel {
            client_name: self.client_name@,
            version_major: self.version_major,
            version_minor: self.version_minor,
            protocol_version: self.protocol_version,
            database: self.database@,
            username: self.username@,
            password: self.password@,
        }
    }
}

/// The handshake that `HelloPacket::default` builds.
pub open spec fn default_hello() -> HelloModel {
    HelloModel {
        client_name: CLICKHOUSE_CLIENT_NAME@,
        version_major: CLICKHOUSE_VERSION_MAJOR,
        version_minor: CLICKHOUSE_VERSION_MINOR,
        protocol_version: CLICKHOUSE_PROTOCOL_VERSION,
        database: CLICKHOUSE_DEFAULT_DATABASE@,
        username: CLICKHOUSE_DEFAULT_USERNAME@,
        password: CLICKHOUSE_DEFAULT_PASSWORD@,
    }
}

impl Default for HelloPacket {
    fn default() -> (r: HelloPacket)
        ensures
            r@ == default_hello(),
    {
        HelloPacket {
            client_name: CLICKHOUSE_CLIENT_NAME.to_owned(),
            version_major: CLICKHOUSE_VERSION_MAJOR,
            version_minor: CLICKHOUSE_VERSION_MINOR,
            protocol_version: CLICKHOUSE_PROTOCOL_VERSION,
            database: CLICKHOUSE_DEFAULT_DATABASE.to_owned(),
            username: CLICKHOUSE_DEFAULT_USERNAME.to_owned(),
            password: CLICKHOUSE_DEFAULT_PASSWORD.to_owned(),
        }
    }
}

impl HelloPacket {
    pub(crate) fn client_name_str(&self) -> (r: &str)
        ensures
            r@ == self@.client_name,
    {
        self.client_name.as_str()
    }

    pub(crate) fn version_major_value(&self) -> (r: u64)
        ensures
            r == self@.version_major,
    {
        self.version_major
    }

    pub(crate) fn version_minor_value(&self) -> (r: u64)
        ensures
            r == self@.version_minor,
    {
        self.version_minor
    }

    pub(crate) fn protocol_version_value(&self) -> (r: u64)
        ensures
            r == self@.protocol_version,
    {
        self.protocol_version
    }

    pub(crate) fn database_str(&self) -> (r: &str)
        ensures
            r@ == self@.database,
    {
        self.database.as_str()
    }

    pub(crate) fn username_str(&self) -> (r: &str)
        ensures
            r@ == self@.username,
    {
        self.username.as_str()
    }

    pub(crate) fn password_str(&self) -> (r: &str)
        ensures
            r@ == self@.password,
    {
        self.password.as_str()
    }

    /// The same handshake for another database.
    pub fn database(self, database: &str) -> (r: HelloPacket)
        ensures
            r@ == (HelloModel { database: database@, ..self@ }),
    {
        let mut p = self;
        p.database = database.to_owned();
        p
    }

    /// The same handshake for another user.
    pub fn username(self, username: &str) -> (r: HelloPacket)
        ensures
            r@ == (HelloModel { username: username@, ..self@ }),
    {
        let mut p = self;
        p.username = username.to_owned();
        p
    }

    /// The same handshake with another password.
    pub fn password(self, password: &str) -> (r: HelloPacket)
        ensures
            r@ == (HelloModel { password: password@, ..self@ }),
    {
        let mut p = self;
        p.password = password.to_owned();
        p
    }
}

} // verus!
