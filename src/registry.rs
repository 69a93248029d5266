//! The registry's persistent state and the creation of courses in it.
use vstd::prelude::*;

use crate::course::{Course, CourseError};
use crate::text::{
    decimal, decimal_string, is_blank, is_blank_title, lemma_decimal_injective, lower_of,
    normalized_title,
};

verus! {

/// What the registry holds, in its three key families.
pub struct RegistryView {
    /// The id counter; zero while it was never written.
    pub counter: nat,
    /// Course records, keyed by their decimal id.
    pub records: Map<Seq<char>, Course>,
    /// Lower-cased titles that are taken.
    pub titles: Set<Seq<char>>,
}

/// Whether a request for `title` and `price` is accepted, given whether its
/// lower-cased title is already taken.
pub open spec fn valid_request(title: Seq<char>, price: u128, taken: bool) -> bool {
    !is_blank(title) && price > 0 && !taken
}

/// Whether a creation request for `title` and `price` is accepted in state `v`.
pub open spec fn accepts(v: RegistryView, title: Seq<char>, price: u128) -> bool {
    valid_request(title, price, v.titles.contains(lower_of(title)))
}

/// The refusal owed to a request that is not accepted: the first rule it
/// breaks, of a non-blank title, a positive price and a free title.
pub open spec fn refusal(title: Seq<char>, price: u128) -> CourseError {
    if is_blank(title) {
        CourseError::EmptyTitle
    } else if price == 0 {
        CourseError::NonPositivePrice
    } else {
        CourseError::DuplicateTitle
    }
}

/// `c` is the course that a successful request for `title` made, taking the
/// registry from `pre` to `post`: it got the next id, is unpublished, and
/// was stored under that id with its lower-cased title marked as taken.
pub open spec fn created(pre: RegistryView, post: RegistryView, title: Seq<char>, c: Course) -> bool {
    &&& c.id@ == decimal(pre.counter + 1)
    &&& c.title@ == title
    &&& !c.published
    &&& post == (RegistryView {
        counter: pre.counter + 1,
        records: pre.records.insert(c.id@, c),
        titles: pre.titles.insert(lower_of(title)),
    })
}

/// The registry's store: an id counter, the course records and the markers of
/// taken titles.
pub struct CourseStore {
    counter: u128,
    /// Each record beside the number its id was written from, in order of
    /// creation.
    records: Vec<(u128, Course)>,
    /// `titles[i]` is the lower-cased title of `records[i]`.
    titles: Vec<String>,
}

/// The records of an append-only log as a map from id to course; a later
/// entry for an id replaces an earlier one.
pub open spec fn records_map(s: Seq<(u128, Course)>) -> Map<Seq<char>, Course>
    decreases s.len(),
{
    if s.len() == 0 {
        Map::empty()
    } else {
        records_map(s.drop_last()).insert(s.last().1.id@, s.last().1)
    }
}

/// The texts held in `s`, as a set.
pub open spec fn titles_set(s: Seq<String>) -> Set<Seq<char>> {
    Set::new(|k: Seq<char>| exists|i: int| 0 <= i < s.len() && #[trigger] s[i]@ == k)
}

impl View for CourseStore {
    type V = RegistryView;

    closed spec fn view(&self) -> RegistryView {
        RegistryView {
            counter: self.counter as nat,
            records: records_map(self.records@),
            titles: titles_set(self.titles@),
        }
    }
}

impl CourseStore {
    /// The store's invariant: ids are allocated in increasing order and no
    /// higher than the counter, each id is the decimal form of its number,
    /// titles are unique up to case, and every record is a valid unpublished
    /// course.
    pub closed spec fn wf(&self) -> bool {
        &&& self.records.len() == self.titles.len()
        &&& forall|i: int|
            0 <= i < self.records.len() ==> {
                let (n, c) = #[trigger] self.records@[i];
                &&& 1 <= n <= self.counter
                &&& c.id@ == decimal(n as nat)
                &&& self.titles@[i]@ == lower_of(c.title@)
                &&& !is_blank(c.title@)
                &&& c.price > 0
                &&& !c.published
            }
        &&& forall|i: int, j: int|
            0 <= i < j < self.records.len() ==> (#[trigger] self.records@[i]).0 < (
            #[trigger] self.records@[j]).0
        &&& forall|i: int, j: int|
            0 <= i < self.titles.len() && 0 <= j < self.titles.len() && i != j ==> (
            #[trigger] self.titles@[i])@ != (#[trigger] self.titles@[j])@
    }

    /// An empty registry.
    pub fn new() -> (r: CourseStore)
        ensures
            r.wf(),
            r@.counter == 0,
            r@.records == Map::<Seq<char>, Course>::empty(),
            r@.titles == Set::<Seq<char>>::empty(),
    {
        let r = CourseStore { counter: 0, records: Vec::new(), titles: Vec::new() };
        assert(r@.titles =~= Set::<Seq<char>>::empty());
        r
    }

    /// The current value of the id counter.
    pub fn counter(&self) -> (r: u128)
        ensures
            r == self@.counter,
    {
        self.counter
    }

    /// Whether the lower-cased title `key` is taken.
    pub fn has_title(&self, key: &String) -> (r: bool)
        ensures
            r == self@.titles.contains(key@),
    {
        let mut i: usize = 0;
        while i < self.titles.len()
            invariant
                0 <= i <= self.titles.len(),
                forall|j: int| 0 <= j < i ==> (#[trigger] self.titles@[j])@ != key@,
            decreases self.titles.len() - i,
        {
            if self.titles[i] == *key {
                assert(self.titles@[i as int]@ == key@);
                return true;
            }
            i = i + 1;
        }
        false
    }

    /// The course stored under the id `id`, if any.
    pub fn get_course(&self, id: &String) -> (r: Option<&Course>)
        ensures
            match r {
                Some(c) => self@.records.contains_key(id@) && self@.records[id@] == *c,
                None => !self@.records.contains_key(id@),
            },
    {
        let mut i: usize = self.records.len();
        assert(self.records@.take(i as int) =~= self.records@);
        while i > 0
            invariant
                i <= self.records.len(),
                records_map(self.records@).contains_key(id@) == records_map(
                    self.records@.take(i as int),
                ).contains_key(id@),
                records_map(self.records@).contains_key(id@) ==> records_map(self.records@)[id@]
                    == records_map(self.records@.take(i as int))[id@],
            decreases i,
        {
            let ghost prefix = self.records@.take(i as int);
            assert(prefix.drop_last() =~= self.records@.take(i - 1));
            if self.records[i - 1].1.id == *id {
                return Some(&self.records[i - 1].1);
            }
            i = i - 1;
        }
        assert(self.records@.take(0).len() == 0);
        None
    }

    fn next_id(&mut self) -> (r: u128)
        requires
            old(self).wf(),
            old(self).counter < u128::MAX,
        ensures
            final(self).wf(),
            r == old(self).counter + 1,
            *final(self) == (CourseStore { counter: r, ..*old(self) }),
    {
        self.counter = self.counter + 1;
        self.counter
    }

    fn push_course(&mut self, n: u128, course: Course, title_key: String)
        requires
            old(self).wf(),
            1 <= n <= old(self).counter,
            forall|i: int| 0 <= i < old(self).records.len() ==> (#[trigger] old(self).records@[i]).0 < n,
            course.id@ == decimal(n as nat),
            title_key@ == lower_of(course.title@),
            !old(self)@.titles.contains(title_key@),
            !is_blank(course.title@),
            course.price > 0,
            !course.published,
        ensures
            final(self).wf(),
            final(self)@ == (RegistryView {
                counter: old(self)@.counter,
                records: old(self)@.records.insert(course.id@, course),
                titles: old(self)@.titles.insert(title_key@),
            }),
    {
        let ghost key = title_key@;
        self.records.push((n, course));
        self.titles.push(title_key);
        assert(self.records@.drop_last() =~= old(self).records@);
        assert(titles_set(self.titles@) =~= titles_set(old(self).titles@).insert(key)) by {
            assert forall|k: Seq<char>|
                titles_set(self.titles@).contains(k) implies titles_set(
                old(self).titles@,
            ).insert(key).contains(k) by {
                let i = choose|i: int| 0 <= i < self.titles@.len() && #[trigger] self.titles@[i]@ == k;
                if i < old(self).titles.len() {
                    assert(old(self).titles@[i] == self.titles@[i]);
                }
            }
            assert forall|k: Seq<char>|
                titles_set(old(self).titles@).insert(key).contains(k) implies titles_set(
                self.titles@,
            ).contains(k) by {
                if k == key {
                    assert(self.titles@[self.titles@.len() - 1]@ == k);
                } else {
                    let i = choose|i: int|
                        0 <= i < old(self).titles@.len() && #[trigger] old(self).titles@[i]@ == k;
                    assert(self.titles@[i] == old(self).titles@[i]);
                }
            }
        }
        assert forall|i: int, j: int|
            0 <= i < self.titles.len() && 0 <= j < self.titles.len() && i != j implies (
            #[trigger] self.titles@[i])@ != (#[trigger] self.titles@[j])@ by {
            let last = self.titles.len() - 1;
            if i == last {
                assert(!titles_set(old(self).titles@).contains(key));
                assert(old(self).titles@[j] == self.titles@[j]);
            } else if j == last {
                assert(old(self).titles@[i] == self.titles@[i]);
            }
        }
    }
}

proof fn lemma_records_map_source(s: Seq<(u128, Course)>, k: Seq<char>)
    requires
        records_map(s).contains_key(k),
    ensures
        exists|i: int| 0 <= i < s.len() && #[trigger] s[i].1 == records_map(s)[k] && s[i].1.id@ == k,
    decreases s.len(),
{
    if s.last().1.id@ != k {
        lemma_records_map_source(s.drop_last(), k);
        let i = choose|i: int|
            0 <= i < s.drop_last().len() && #[trigger] s.drop_last()[i].1 == records_map(
                s.drop_last(),
            )[k] && s.drop_last()[i].1.id@ == k;
        assert(s[i] == s.drop_last()[i]);
    } else {
        assert(s[s.len() - 1].1 == records_map(s)[k]);
    }
}

/// What every reachable registry holds: each record sits under its own id,
/// the decimal form of a number from one to the counter; its title is not
/// blank and is marked as taken once lower-cased; its price is positive; it
/// is unpublished; and no two records have titles equal up to case.
pub proof fn lemma_store_invariants(store: &CourseStore)
    requires
        store.wf(),
    ensures
        forall|k: Seq<char>|
            #[trigger] store@.records.contains_key(k) ==> {
                let c = store@.records[k];
                &&& c.id@ == k
                &&& exists|n: nat| 1 <= n <= store@.counter && k == decimal(n)
                &&& !is_blank(c.title@)
                &&& store@.titles.contains(lower_of(c.title@))
                &&& c.price > 0
                &&& !c.published
            },
        forall|k1: Seq<char>, k2: Seq<char>|
            #[trigger] store@.records.contains_key(k1) && #[trigger] store@.records.contains_key(k2)
                && k1 != k2 ==> lower_of(store@.records[k1].title@) != lower_of(
                store@.records[k2].title@,
            ),
{
    let recs = store.records@;
    assert forall|k: Seq<char>| #[trigger] store@.records.contains_key(k) implies {
        let c = store@.records[k];
        &&& c.id@ == k
        &&& exists|n: nat| 1 <= n <= store@.counter && k == decimal(n)
        &&& !is_blank(c.title@)
        &&& store@.titles.contains(lower_of(c.title@))
        &&& c.price > 0
        &&& !c.published
    } by {
        lemma_records_map_source(recs, k);
        let i = choose|i: int| 0 <= i < recs.len() && #[trigger] recs[i].1 == records_map(recs)[k] && recs[i].1.id@ == k;
        let n = recs[i].0;
        assert(k == decimal(n as nat));
        assert(store.titles@[i]@ == lower_of(recs[i].1.title@));
    }
    assert forall|k1: Seq<char>, k2: Seq<char>|
        #[trigger] store@.records.contains_key(k1) && #[trigger] store@.records.contains_key(k2)
            && k1 != k2 implies lower_of(store@.records[k1].title@) != lower_of(
        store@.records[k2].title@,
    ) by {
        lemma_records_map_source(recs, k1);
        lemma_records_map_source(recs, k2);
        let i1 = choose|i: int| 0 <= i < recs.len() && #[trigger] recs[i].1 == records_map(recs)[k1] && recs[i].1.id@ == k1;
        let i2 = choose|i: int| 0 <= i < recs.len() && #[trigger] recs[i].1 == records_map(recs)[k2] && recs[i].1.id@ == k2;
        assert(i1 != i2);
        assert(store.titles@[i1]@ != store.titles@[i2]@);
    }
}

/// Decides a creation request by `creator` on a registry whose id counter
/// holds `counter` and where the lower-cased title is taken or not: the
/// first rule broken, or the new course numbered `counter + 1`, unpublished,
/// with that number.
pub fn plan_course(
    counter: u128,
    title_taken: bool,
    creator: String,
    title: String,
    description: String,
    price: u128,
    category: Option<String>,
    language: Option<String>,
    thumbnail_url: Option<String>,
) -> (r: Result<(u128, Course), CourseError>)
    requires
        counter < u128::MAX,
    ensures
        r is Ok <==> valid_request(title@, price, title_taken),
        r is Err ==> r == Err::<(u128, Course), CourseError>(refusal(title@, price)),
        r matches Ok((n, c)) ==> {
            &&& n == counter + 1
            &&& c.id@ == decimal(n as nat)
            &&& c.title == title
            &&& c.description == description
            &&& c.creator == creator
            &&& c.price == price
            &&& c.category == category
            &&& c.language == language
            &&& c.thumbnail_url == thumbnail_url
            &&& !c.published
        },
{
    if is_blank_title(title.as_str()) {
        return Err(CourseError::EmptyTitle);
    }
    if price == 0 {
        return Err(CourseError::NonPositivePrice);
    }
    if title_taken {
        return Err(CourseError::DuplicateTitle);
    }
    let id = counter + 1;
    let course = Course {
        id: decimal_string(id),
        title,
        description,
        creator,
        price,
        category,
        language,
        thumbnail_url,
        published: false,
    };
    Ok((id, course))
}

/// Allocates the next course number: the counter, read as zero while it was
/// never written, goes up by one, and its new value is returned.
pub fn generate_course_id(store: &mut CourseStore) -> (r: u128)
    requires
        old(store).wf(),
        old(store)@.counter < u128::MAX,
    ensures
        final(store).wf(),
        r == old(store)@.counter + 1,
        final(store)@ == (RegistryView { counter: r as nat, ..old(store)@ }),
{
    store.next_id()
}

/// Registers a course made by `creator`.
///
/// The title must not be blank, the price must be positive, and the title
/// must not be taken up to case; the first rule broken is returned and the
/// store is left as it was. Otherwise the next id is allocated and the
/// unpublished course is stored under it, its lower-cased title marked as
/// taken, and a copy of it returned.
pub fn course_registry_create_course(
    store: &mut CourseStore,
    creator: String,
    title: String,
    description: String,
    price: u128,
    category: Option<String>,
    language: Option<String>,
    thumbnail_url: Option<String>,
) -> (r: Result<Course, CourseError>)
    requires
        old(store).wf(),
        old(store)@.counter < u128::MAX,
    ensures
        final(store).wf(),
        r is Ok <==> accepts(old(store)@, title@, price),
        r is Err ==> r == Err::<Course, CourseError>(refusal(title@, price))
            && final(store)@ == old(store)@,
        r matches Ok(c) ==> {
            &&& created(old(store)@, final(store)@, title@, c)
            &&& !old(store)@.records.contains_key(c.id@)
            &&& c.title == title
            &&& c.description == description
            &&& c.creator == creator
            &&& c.price == price
            &&& c.category == category
            &&& c.language == language
            &&& c.thumbnail_url == thumbnail_url
        },
{
    let title_key = normalized_title(title.as_str());
    let taken = store.has_title(&title_key);
    match plan_course(
        store.counter,
        taken,
        creator,
        title,
        description,
        price,
        category,
        language,
        thumbnail_url,
    ) {
        Err(e) => Err(e),
        Ok((id, new_course)) => {
            proof {
                lemma_store_invariants(&*store);
                if store@.records.contains_key(new_course.id@) {
                    let k = new_course.id@;
                    let m = choose|m: nat| 1 <= m <= store@.counter && k == decimal(m);
                    lemma_decimal_injective(m, id as nat);
                }
            }
            let n = store.next_id();
            assert(n == id);
            store.push_course(id, new_course.clone(), title_key);
            Ok(new_course)
        },
    }
}

} // verus!
