//! The data model of the command-line surface: which subcommands exist and
//! which plain values each one carries.
//!
//! These types hold no behaviour of their own — argument parsing, credential
//! selection and the remote calls all live outside the library — but they fix
//! the vocabulary the surrounding program hands in. Values that the storage
//! client library represents with its own types arrive here as plain strings
//! and integers and are converted at the boundary.

use vstd::prelude::*;

verus! {

/// How a time argument on the command line is written.
#[derive(Debug, Clone, Copy)]
pub enum TimeFormat {
    /// Specific date and time, as described in RFC 3339.
    /// Examples include `1999-09-10T21:59:22Z` and
    /// `1999-09-10T03:05:07.3845533+01:00`.
    Rfc3339,
    /// Offset from now, as a duration string.
    /// Examples include `10d`, `1h`, `1h30m`, and `1h30m10s`.
    Offset,
}

/// Which protocols a shared-access-signature URL admits.
#[derive(Debug, Clone, Copy)]
pub enum Protocol {
    Https,
    HttpHttps,
}

/// Operations on the storage account itself.
pub enum AccountSubCommands {
    /// Get information about the storage account.
    Info,
    /// List the storage containers in the account.
    ListContainers {
        prefix: Option<String>,
        include_metadata: bool,
        include_deleted: bool,
        /// Positive page size for listing, if one is requested.
        max_results: Option<u32>,
        show_details: bool,
    },
}

/// Operations on storage queues.
pub enum QueueSubCommands {
    GetProperties,
    ListQueues {
        prefix: Option<String>,
        include_metadata: bool,
        /// Positive page size for listing, if one is requested.
        max_results: Option<u32>,
    },
    /// Create a storage queue.
    Create { queue_name: String, metadata: Option<Vec<(String, String)>> },
    /// Delete a storage queue.
    Delete { queue_name: String },
    /// Put a message onto the storage queue.
    PutMessage {
        queue_name: String,
        message: String,
        /// Time to live, in seconds.
        ttl: Option<u64>,
        /// Visibility timeout, in seconds.
        visibility_timeout: Option<u64>,
    },
    /// Clear all messages on a storage queue.
    Clear { queue_name: String },
    /// Get messages from a storage queue.
    GetMessages {
        queue_name: String,
        number_of_messages: Option<u8>,
        /// Visibility timeout, in seconds.
        visibility_timeout: Option<u64>,
    },
    /// Peek at available messages from a storage queue.
    PeekMessages { queue_name: String, number_of_messages: Option<u8> },
    /// Pop a message from a storage queue.
    PopMessage {
        queue_name: String,
        /// Message id of the message to be deleted (usually from the
        /// `GetMessages` response).
        message_id: String,
        /// Pop receipt of the message to be deleted (usually from the
        /// `GetMessages` response).
        pop_receipt: String,
    },
}

/// Operations on storage datalakes.
pub enum DatalakeSubCommands {
    ListFileSystems {
        prefix: Option<String>,
        /// Positive page size for listing, if one is requested.
        max_results: Option<u32>,
    },
    FileSystem { name: String, subcommand: FileSystemSubCommands },
}

/// Operations on one datalake filesystem.
pub enum FileSystemSubCommands {
    /// Create the specified filesystem.
    Create { properties: Option<Vec<(String, String)>> },
    /// Delete the specified filesystem.
    Delete,
    /// List paths in the specified filesystem.
    ListPaths {
        recursive: Option<bool>,
        /// Positive page size for listing, if one is requested.
        max_results: Option<u32>,
        upn: Option<bool>,
        directory: Option<String>,
    },
    /// Perform operations on the specified directory.
    Directory { directory_name: String, subcommand: DirectorySubCommands },
}

/// Operations on one datalake directory.
pub enum DirectorySubCommands {
    Create { properties: Option<Vec<(String, String)>> },
    Delete { recursive: bool },
    ListPaths {
        recursive: Option<bool>,
        /// Positive page size for listing, if one is requested.
        max_results: Option<u32>,
        upn: Option<bool>,
        directory: Option<String>,
    },
}

/// Which operations a generated shared-access-signature URL permits.
#[derive(Debug, Clone, Copy)]
pub struct SasPermissions {
    pub read: bool,
    pub add: bool,
    pub create: bool,
    pub write: bool,
    pub delete: bool,
    pub delete_version: bool,
    pub list: bool,
    pub tags: bool,
    pub move_: bool,
    pub execute: bool,
    pub ownership: bool,
    pub permissions: bool,
    pub permanent_delete: bool,
}

/// Generate a shared-access-signature URL for a blob using a user
/// delegation key.
pub struct GenerateSas {
    /// Expiration.
    pub expiry: String,
    /// Start time.
    pub start: Option<String>,
    /// Format used for the start and expiry times.
    pub time_format: TimeFormat,
    pub ip: Option<String>,
    pub identifier: Option<String>,
    pub protocol: Option<Protocol>,
    pub sas_permissions: SasPermissions,
}

} // verus!
