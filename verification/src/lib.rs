pub mod clock;
pub mod flow;
pub mod flow_filter;
pub mod flow_laws;
pub mod flow_sections;
pub mod formatter;
pub mod laws;
pub mod line_laws;
pub mod stats_formatter;
pub mod text;
pub mod text_laws;
pub mod web;
