//! Verified core of the pcli2 command-line client: the decisions, parsers and
//! report builders behind its asset, folder and report commands.

pub mod api;
pub mod assets;
pub mod assoc;
pub mod batch_csv;
pub mod bulk;
pub mod dependencies;
pub mod doctor;
pub mod downloads;
pub mod errors;
pub mod folder_match;
pub mod folders;
pub mod ids;
pub mod inference;
pub mod maintenance;
pub mod match_table;
pub mod metadata_batch;
pub mod metadata_cache;
pub mod pairs;
pub mod part_matches;
pub mod paths;
pub mod reports;
pub mod search;
pub mod sorted;
pub mod text;
pub mod text_search;
