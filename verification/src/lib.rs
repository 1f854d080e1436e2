use vstd::prelude::*;

mod branch;
mod control;
mod item;
mod parse;
mod render;
mod report;
mod status;
mod text;

pub use branch::spec_branch_rows;
pub use branch::BranchList;
pub use branch::BranchRow;
pub use branch::BranchRowModel;
pub use control::Action;
pub use control::Key;
pub use item::Item;
pub use item::ItemModel;
pub use parse::branch_prefix;
pub use parse::modified_label;
pub use parse::new_file_label;
pub use parse::parse_status;
pub use parse::spec_parse;
pub use parse::spec_scan;
pub use parse::spec_snapshot;
pub use parse::spec_strip_label;
pub use parse::staged_marker;
pub use parse::untracked_marker;
pub use parse::ParseError;
pub use parse::ParseOutcome;
pub use parse::ScanMode;
pub use parse::ScanOutcome;
pub use render::spec_entry_rows;
pub use render::spec_render;
pub use render::staged_title;
pub use render::unstaged_title;
pub use render::untracked_title;
pub use render::Row;
pub use render::RowModel;
pub use report::lemma_parse_round_trip;
pub use report::spec_no_newline;
pub use report::spec_path_ok;
pub use report::spec_report;
pub use report::spec_report_lines;
pub use status::lemma_locate_partitions;
pub use status::lemma_steps_preserve_wf;
pub use status::lemma_toggle_involutive;
pub use status::spec_down;
pub use status::spec_flip;
pub use status::spec_locate;
pub use status::spec_toggle;
pub use status::spec_up;
pub use status::Section;
pub use status::Status;
pub use status::StatusModel;
pub use text::spec_is_space;
pub use text::spec_lines;
pub use text::spec_starts_with;
pub use text::spec_trim_start;
pub use text::split_lines;
pub use text::str_eq;
pub use text::trim_start;
pub use text::try_strip_prefix;
