//! Copies build artifacts from a source root into the directory holding a
//! manifest, according to the manifest's per-project path mappings.
//!
//! The library holds the logic: path resolution, the project filter, the
//! manifest schema, copy planning, and the rules that decide a run's outcome.
//! File-system access itself stays outside, driven by the plans produced here.

mod fs_model;
mod manifest;
mod paths;
mod plan;
mod run;
mod text;

pub use run::RunError;
pub use run::filter_view;
pub use run::count_matching;
pub use run::lemma_no_match_nothing_selected;
pub use run::lemma_selection_count;
pub use run::lemma_selection_exact;
pub use run::names_view;
pub use run::project_selected;
pub use run::run_error_text;
pub use run::run_verdict;
pub use run::select_projects;
pub use run::selected_indices;

pub use fs_model::FsModel;
pub use fs_model::act_writes_file;
pub use fs_model::apply_act;
pub use fs_model::apply_plan;
pub use fs_model::entries_distinct;
pub use fs_model::lemma_plan_copies;
pub use fs_model::lemma_plan_frame;
pub use fs_model::lemma_plan_idempotent;
pub use fs_model::lemma_tree_copy_correct;
pub use fs_model::lemma_tree_copy_idempotent;
pub use fs_model::lemma_tree_copy_preserves;
pub use fs_model::plan_makes_dir;
pub use fs_model::plan_reads_protected;
pub use fs_model::plan_targets_distinct;
pub use fs_model::plan_writes_file;
pub use fs_model::tree_roots_disjoint;

pub use plan::ActModel;
pub use plan::CopyAction;
pub use plan::CopyError;
pub use plan::InfoModel;
pub use plan::SourceInfo;
pub use plan::TreeEntry;
pub use plan::act_view;
pub use plan::entry_plan_model;
pub use plan::first_missing;
pub use plan::infos_view;
pub use plan::info_view;
pub use plan::lemma_first_missing_is;
pub use plan::pairs_view;
pub use plan::plan_entry;
pub use plan::plan_project;
pub use plan::plan_view;
pub use plan::project_plan_model;
pub use plan::tree_act;

pub use manifest::DictEntry;
pub use manifest::Node;
pub use manifest::ParseError;
pub use manifest::PathPair;
pub use manifest::Project;
pub use manifest::install_pairs;
pub use manifest::install_wf;
pub use manifest::lookup_spec;
pub use manifest::manifest_wf;
pub use manifest::parse_manifest;
pub use manifest::project_install;
pub use manifest::project_name;
pub use manifest::project_view;
pub use manifest::project_wf;
pub use paths::ambiguity_guard;
pub use paths::join_path;
pub use paths::join_spec;
pub use paths::names_cwd_file;
pub use paths::parent_of;
pub use paths::parent_spec;
pub use paths::last_slash;
pub use paths::resolve_source;
pub use paths::resolve_source_spec;
pub use text::contains_substr;
pub use text::occurs_at;
pub use text::is_substring_of;
