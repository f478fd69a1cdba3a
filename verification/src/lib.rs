pub mod analysis;
pub mod config;
pub mod decimal;
pub mod http;
pub mod ocr;
pub mod pattern;
pub mod shapes;
pub mod text;
