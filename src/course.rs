//! The course record and the ways a creation request can be refused.
use vstd::prelude::*;

verus! {

/// Why a course creation request was refused.
#[derive(Debug, Clone, Copy, PartialEq, Eq, Structural)]
pub enum CourseError {
    /// The title is empty or whitespace alone.
    EmptyTitle,
    /// The price is zero.
    NonPositivePrice,
    /// A title equal to this one up to case is already registered.
    DuplicateTitle,
}

impl CourseError {
    /// A sentence that names the broken rule.
    pub fn message(&self) -> (r: &'static str) {
        match self {
            CourseError::EmptyTitle => "Course error: Course Title cannot be empty",
            CourseError::NonPositivePrice => "Course error: Price must be greater than 0",
            CourseError::DuplicateTitle => "Course error: Course Title already exists",
        }
    }
}

/// A registered course.
#[derive(Debug)]
pub struct Course {
    /// Decimal form of the number the registry allocated for it.
    pub id: String,
    pub title: String,
    pub description: String,
    /// Address of the principal that created it.
    pub creator: String,
    pub price: u128,
    pub category: Option<String>,
    pub language: Option<String>,
    pub thumbnail_url: Option<String>,
    pub published: bool,
}

fn clone_text(o: &Option<String>) -> (r: Option<String>)
    ensures
        r == *o,
{
    match o {
        Some(s) => Some(s.clone()),
        None => None,
    }
}

impl Clone for Course {
    fn clone(&self) -> (r: Self)
        ensures
            r == *self,
    {
        Course {
            id: self.id.clone(),
            title: self.title.clone(),
            description: self.description.clone(),
            creator: self.creator.clone(),
            price: self.price,
            category: clone_text(&self.category),
            language: clone_text(&self.language),
            thumbnail_url: clone_text(&self.thumbnail_url),
            published: self.published,
        }
    }
}

} // verus!
