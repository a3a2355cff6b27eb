//! Keeps a favorites folder of a video platform in step with a local
//! directory: the folder's videos go into a CSV ledger, the directory is
//! searched for the videos that the ledger names, and the missing ones are
//! given to a download server. This library holds the rules, each with its
//! contract; reading files, sending requests and running processes is left
//! to the caller.

pub mod bbdown;
pub mod client;
pub mod config;
pub mod csv_utils;
pub mod errors;
pub mod export;
pub mod helper;
pub mod inventory;
pub mod menu;
pub mod models;
pub mod prompts;
pub mod text;
pub mod timestamp;

pub use client::{BiliFavClient, ClientOptions, DEFAULT_HEADERS};
pub use csv_utils::{load_existing_bv_ids, read_csv_rows, write_entries, CsvRow, FIELDNAMES};
pub use errors::{ExportError, FavlistError};
pub use export::{
    export_favlist, ExportEvent, ExportOptions, ExportProgress, ExportResult, ExportSession,
    ExportStep,
};
pub use inventory::{
    diff_new_entries, extract_bvids, find_missing_videos, scan_directory_bvids,
    write_inventory_file,
};
pub use models::{FolderInfo, VideoEntry};
pub use timestamp::{current_timestamp, parse_media_id};
