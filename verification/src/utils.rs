pub mod list;
pub mod scraping;
pub mod str_convert;
pub mod text;
