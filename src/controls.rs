pub mod anoto_control;
pub mod page_layout_control;
