//! Compares the package versions that two repositories list.
//!
//! The two repositories publish their packages in two formats, and each has
//! its own names for them. `altlinux` and `proxmox` read the two formats into
//! tables from names to versions (`package_map`), both behind the one trait of
//! `parser`. `mapping` reads the table that leads from the first repository's
//! names to the second's. `comparator` takes the three tables and says for each
//! pair of names which side has the newer version; the order of two versions
//! is that of the crate `version_compare` (`version`). `stats`, `report` and
//! `output` lay the result out as text and as tables of coloured cells, for the
//! settings of `cli`. `fetch` makes the text of a listing out of what a server
//! sent. `text` holds what all of them need to cut texts into pieces.

pub mod altlinux;
pub mod cli;
pub mod comparator;
pub mod fetch;
pub mod mapping;
pub mod output;
pub mod package_map;
pub mod parser;
pub mod proxmox;
pub mod report;
pub mod stats;
pub mod text;
pub mod version;
