pub mod classrooms;
pub mod news;
pub mod plan;
pub mod plans;
pub mod teachers;
