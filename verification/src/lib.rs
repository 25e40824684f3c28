pub mod auth;
pub mod definitions;
pub mod json;
pub mod pages;
pub mod text;
pub mod translate;
pub mod words;

pub use pages::build_dashboard_html;
