//! A course registry: it validates course creation requests, allocates
//! increasing ids and stores each course with its title held unique up to
//! case.
pub mod course;
pub mod laws;
pub mod registry;
pub mod text;

pub use course::{Course, CourseError};
pub use registry::{course_registry_create_course, generate_course_id, CourseStore};
