//! Properties of the registry that relate several requests.
use vstd::prelude::*;

use crate::course::{Course, CourseError};
use crate::registry::{accepts, created, refusal, RegistryView};
use crate::text::{decimal, is_blank, lower_of};

verus! {

/// Requests that each take the registry from `views[i]` to `views[i + 1]`,
/// as `course_registry_create_course` does: whenever request `i` is
/// accepted, `courses[i]` is the course it created.
pub open spec fn request_run(
    views: Seq<RegistryView>,
    titles: Seq<Seq<char>>,
    prices: Seq<u128>,
    courses: Seq<Course>,
) -> bool {
    &&& views.len() == titles.len() + 1
    &&& prices.len() == titles.len()
    &&& courses.len() == titles.len()
    &&& forall|i: int|
        0 <= i < titles.len() ==> #[trigger] request_step(views, titles, prices, courses, i)
}

/// Request `i` of a run, when accepted, created `courses[i]`.
pub open spec fn request_step(
    views: Seq<RegistryView>,
    titles: Seq<Seq<char>>,
    prices: Seq<u128>,
    courses: Seq<Course>,
    i: int,
) -> bool {
    accepts(views[i], titles[i], prices[i]) ==> created(views[i], views[i + 1], titles[i], courses[i])
}

proof fn lemma_run_prefix(
    views: Seq<RegistryView>,
    titles: Seq<Seq<char>>,
    prices: Seq<u128>,
    courses: Seq<Course>,
    k: int,
)
    requires
        request_run(views, titles, prices, courses),
        0 <= k <= titles.len(),
        views[0].counter == 0,
        views[0].titles == Set::<Seq<char>>::empty(),
        forall|i: int| 0 <= i < titles.len() ==> !is_blank(#[trigger] titles[i]) && prices[i] > 0,
        forall|i: int, j: int|
            0 <= i < j < titles.len() ==> lower_of(#[trigger] titles[i]) != lower_of(
                #[trigger] titles[j],
            ),
    ensures
        views[k].counter == k,
        forall|j: int|
            k <= j < titles.len() ==> !views[k].titles.contains(lower_of(#[trigger] titles[j])),
        forall|i: int|
            0 <= i < k ==> accepts(#[trigger] views[i], titles[i], prices[i])
                && courses[i].id@ == decimal((i + 1) as nat),
    decreases k,
{
    if k > 0 {
        lemma_run_prefix(views, titles, prices, courses, k - 1);
        let i = k - 1;
        assert(request_step(views, titles, prices, courses, i));
        assert(accepts(views[i], titles[i], prices[i]));
        assert(created(views[i], views[k], titles[i], courses[i]));
        assert(views[k].counter == k);
        assert(courses[i].id@ == decimal((i + 1) as nat));
        assert forall|m: int| 0 <= m < k implies accepts(#[trigger] views[m], titles[m], prices[m])
            && courses[m].id@ == decimal((m + 1) as nat) by {
            if m < i {
                assert(accepts(views[m], titles[m], prices[m]));
            }
        }
        assert forall|j: int| k <= j < titles.len() implies !views[k].titles.contains(
            lower_of(#[trigger] titles[j]),
        ) by {
            assert(lower_of(titles[i]) != lower_of(titles[j]));
            assert(!views[i].titles.contains(lower_of(titles[j])));
        }
    } else {
        assert forall|j: int| 0 <= j < titles.len() implies !views[0].titles.contains(
            lower_of(#[trigger] titles[j]),
        ) by {
        }
    }
}

/// From an empty registry, requests with valid titles that differ pairwise
/// up to case and positive prices are all accepted, and the `i`-th of them
/// gets the id `i + 1` (counting from zero), in order of the requests.
pub proof fn lemma_sequential_ids(
    views: Seq<RegistryView>,
    titles: Seq<Seq<char>>,
    prices: Seq<u128>,
    courses: Seq<Course>,
)
    requires
        request_run(views, titles, prices, courses),
        views[0].counter == 0,
        views[0].titles == Set::<Seq<char>>::empty(),
        forall|i: int| 0 <= i < titles.len() ==> !is_blank(#[trigger] titles[i]) && prices[i] > 0,
        forall|i: int, j: int|
            0 <= i < j < titles.len() ==> lower_of(#[trigger] titles[i]) != lower_of(
                #[trigger] titles[j],
            ),
    ensures
        views[titles.len() as int].counter == titles.len(),
        forall|i: int|
            0 <= i < titles.len() ==> accepts(#[trigger] views[i], titles[i], prices[i])
                && courses[i].id@ == decimal((i + 1) as nat),
{
    lemma_run_prefix(views, titles, prices, courses, titles.len() as int);
}

/// Once a course was created with some title, a valid request whose title is
/// the same up to case is refused as a duplicate.
pub proof fn lemma_duplicate_up_to_case(
    pre: RegistryView,
    post: RegistryView,
    first: Seq<char>,
    c: Course,
    second: Seq<char>,
    price: u128,
)
    requires
        created(pre, post, first, c),
        lower_of(first) == lower_of(second),
        !is_blank(second),
        price > 0,
    ensures
        !accepts(post, second, price),
        refusal(second, price) == CourseError::DuplicateTitle,
{
    assert(post.titles.contains(lower_of(first)));
}

/// The course a request created is what the registry then holds under its
/// id, field for field.
pub proof fn lemma_round_trip(pre: RegistryView, post: RegistryView, title: Seq<char>, c: Course)
    requires
        created(pre, post, title, c),
    ensures
        post.records.contains_key(c.id@),
        post.records[c.id@] == c,
{
}

} // verus!
