//! A launcher for single-file Rust programs: it classifies command-line
//! tokens, infers the crates a source file names, synthesizes a build
//! manifest keyed by content hashes, and decides which cached build
//! artifacts have gone stale.

pub mod arg_stream;
pub mod cache;
pub mod cli;
pub mod deps;
pub mod hashing;
pub mod manifest;
pub mod releases;
pub mod run;
pub mod util;

pub use arg_stream::{is_argument_like, is_path_like, is_subcommand_like, ArgStream};
pub use cli::{log_level, CliEntry, CliError, CliErrorKind, Subcommand};
pub use hashing::{blob_message_bytes, git_blob_sha1_hex, hex_encode};
pub use deps::{infer_dependencies, DependencySet, SyntaxNode, UseTree};
pub use manifest::{first8, package_name, render_manifest, synthesize_manifest, version_tag, BuildManifest, SourceUnit};
pub use cache::{is_stale, stale_entries, CacheDir, EntryTimes, Staleness};
pub use releases::{last_release_at, release_identifier, Channel, Date, ListingError, Release, ReleaseIndex, Version};
pub use run::{eval, eval_body, exit_code, script_file_name, InlineScript};
pub use util::{Input, Module, ModuleData, ParseError};
