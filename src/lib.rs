//! Session templates for a terminal multiplexer: capture a live layout,
//! keep it in a store of files, and replay it as a sequence of calls.

pub mod template;
pub mod capture;
pub mod launch;
pub mod store;
pub mod display;

pub use template::{PaneTemplate, SessionTemplate, SplitType, TemplateError, TemplateMeta, WindowTemplate};
pub use capture::{capture_session_as_template, split_for_index, WindowListing};
pub use launch::{launch_template, MuxCommand, SplitDirection};
pub use display::{days_to_ymd, decimal, format_relative_time, shorten_path};
pub use store::{
    delete_template, is_template_file, join_path, load_all_templates, template_dir,
    template_exists, template_file_name, templates_under, StoreEntry,
};
