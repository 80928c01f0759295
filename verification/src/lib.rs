pub mod cloud;
pub mod cloud_files;
pub mod collections;
pub mod format;
pub mod generation_templates;
pub mod ids;
pub mod json;
pub mod lists;
pub mod panes;
pub mod paths;
pub mod sort;
pub mod text;
pub mod urls;
