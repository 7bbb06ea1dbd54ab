pub mod announcement;
pub mod class;
pub mod news;
pub mod table;
