//! Token bookkeeping and launcher logic of the Kimi companion, verified with Verus.
pub mod text;
pub mod numeric;
pub mod timestamp;
pub mod json;
pub mod incremental;
pub mod models;
pub mod jsonl;
pub mod strings;
pub mod codex;
pub mod ledger;
pub mod win_kimi;
pub mod wsl;
pub mod upgrade;
pub mod hook;
pub mod desktop;
pub mod stats;
pub mod launcher;
