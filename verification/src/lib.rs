//! Build-artifact generation for a multi-package workspace: reads package
//! identity metadata out of workspace and package manifests, validates it,
//! and renders a multi-stage container build definition together with a
//! matching post-build tag/prune script.

mod manifest;
mod meta;
mod pipeline;
mod render;
mod text;

pub use manifest::lemma_all_members_eligible;
pub use manifest::lemma_library_members_excluded;
pub use manifest::member_descriptor_paths;
pub use manifest::parse_package;
pub use meta::PackageMeta;
pub use pipeline::GeneratedArtifacts;
pub use pipeline::MemberInput;
pub use pipeline::generate_artifacts;
pub use pipeline::lemma_one_package_per_member;
pub use pipeline::lemma_run_deterministic;
pub use pipeline::lemma_skipped_member;
pub use pipeline::process_members;
pub use render::build_script_content;
pub use render::docker_image_section;
pub use render::dockerfile_content;
pub use render::lemma_sections_in_order;
pub use render::lemma_tag_lines_in_order;
pub use render::lemma_tag_round_trip;
pub use render::render_section;
pub use render::tag_command;
pub use render::validate_package_meta;
pub use text::trim;
