use crate::models::entities::ProjectModel;
use crate::store::{Store, StoreView};
use crate::utils::pagination::page_window;
use vstd::prelude::*;

verus! {

/// A listing takes a project in: every project where no organisation is asked for, else
/// the projects of that organisation.
pub open spec fn listed(organisation: Option<u128>, project: ProjectModel) -> bool {
    match organisation {
        Some(id) => project.organisation_id == id,
        None => true,
    }
}

/// A sequence of projects is in listing order: each project comes before all that follow
/// it, so the youngest is first, and of two created at one instant the one with the smaller
/// identifier.
pub open spec fn ordered(listing: Seq<ProjectModel>) -> bool {
    forall|a: int, b: int|
        0 <= a < b < listing.len() ==> (#[trigger] listing[a]).precedes(#[trigger] listing[b])
}

/// The rows of `projects` at the positions that `order` names, in that order.
pub open spec fn rows_at(projects: Seq<ProjectModel>, order: Seq<usize>) -> Seq<ProjectModel> {
    Seq::new(order.len(), |k: int| projects[order[k] as int])
}

impl StoreView {
    /// `listing` is the listing of the projects that `organisation` selects: in listing
    /// order, made of selected projects of the store, with none of them left out.
    pub open spec fn is_listing(self, organisation: Option<u128>, listing: Seq<ProjectModel>) -> bool {
        &&& ordered(listing)
        &&& forall|a: int|
            0 <= a < listing.len() ==> self.projects.contains(#[trigger] listing[a]) && listed(
                organisation,
                listing[a],
            )
        &&& forall|i: int|
            0 <= i < self.projects.len() && listed(organisation, #[trigger] self.projects[i])
                ==> listing.contains(self.projects[i])
    }

    /// The listing of the projects that `organisation` selects.
    pub open spec fn listing(self, organisation: Option<u128>) -> Seq<ProjectModel> {
        choose|listing: Seq<ProjectModel>| self.is_listing(organisation, listing)
    }
}

/// Two sequences in listing order that hold the same projects are one sequence.
pub proof fn lemma_ordered_unique(first: Seq<ProjectModel>, second: Seq<ProjectModel>)
    requires
        ordered(first),
        ordered(second),
        forall|x: ProjectModel| first.contains(x) <==> second.contains(x),
    ensures
        first == second,
    decreases first.len(),
{
    if first.len() == 0 {
        if second.len() > 0 {
            assert(second.contains(second[0]));
            assert(first.contains(second[0]));
        }
        assert(first =~= second);
    } else {
        let x = first[0];
        assert(first.contains(x));
        assert(second.contains(x));
        let j = choose|j: int| 0 <= j < second.len() && second[j] == x;
        let y = second[0];
        assert(second.contains(y));
        assert(first.contains(y));
        let i = choose|i: int| 0 <= i < first.len() && first[i] == y;
        if j > 0 {
            assert(second[0].precedes(second[j]));
            if i > 0 {
                assert(first[0].precedes(first[i]));
            }
        }
        assert(x == y);
        let rest1 = first.drop_first();
        let rest2 = second.drop_first();
        assert forall|a: int, b: int| 0 <= a < b < rest1.len() implies (#[trigger] rest1[a]).precedes(
            #[trigger] rest1[b],
        ) by {
            assert(first[a + 1].precedes(first[b + 1]));
        }
        assert forall|a: int, b: int| 0 <= a < b < rest2.len() implies (#[trigger] rest2[a]).precedes(
            #[trigger] rest2[b],
        ) by {
            assert(second[a + 1].precedes(second[b + 1]));
        }
        assert forall|z: ProjectModel| rest1.contains(z) <==> rest2.contains(z) by {
            if rest1.contains(z) {
                let k = choose|k: int| 0 <= k < rest1.len() && rest1[k] == z;
                assert(first[k + 1] == z);
                assert(first[0].precedes(first[k + 1]));
                assert(first.contains(z));
                assert(second.contains(z));
                let m = choose|m: int| 0 <= m < second.len() && second[m] == z;
                assert(m != 0);
                assert(rest2[m - 1] == z);
            }
            if rest2.contains(z) {
                let k = choose|k: int| 0 <= k < rest2.len() && rest2[k] == z;
                assert(second[k + 1] == z);
                assert(second[0].precedes(second[k + 1]));
                assert(second.contains(z));
                assert(first.contains(z));
                let m = choose|m: int| 0 <= m < first.len() && first[m] == z;
                assert(m != 0);
                assert(rest1[m - 1] == z);
            }
        }
        lemma_ordered_unique(rest1, rest2);
        assert(first =~= seq![x] + rest1);
        assert(second =~= seq![y] + rest2);
    }
}

/// A store has one listing for each selection: the listing is determined by the rows.
pub proof fn lemma_listing_unique(
    store: StoreView,
    organisation: Option<u128>,
    first: Seq<ProjectModel>,
    second: Seq<ProjectModel>,
)
    requires
        store.is_listing(organisation, first),
        store.is_listing(organisation, second),
    ensures
        first == second,
        first == store.listing(organisation),
{
    assert forall|x: ProjectModel| first.contains(x) implies second.contains(x) by {
        let a = choose|a: int| 0 <= a < first.len() && first[a] == x;
        assert(store.projects.contains(first[a]));
        let i = choose|i: int| 0 <= i < store.projects.len() && store.projects[i] == x;
        assert(listed(organisation, store.projects[i]));
    }
    assert forall|x: ProjectModel| second.contains(x) implies first.contains(x) by {
        let a = choose|a: int| 0 <= a < second.len() && second[a] == x;
        assert(store.projects.contains(second[a]));
        let i = choose|i: int| 0 <= i < store.projects.len() && store.projects[i] == x;
        assert(listed(organisation, store.projects[i]));
    }
    lemma_ordered_unique(first, second);
    let chosen = store.listing(organisation);
    assert(store.is_listing(organisation, chosen));
    assert forall|x: ProjectModel| first.contains(x) <==> chosen.contains(x) by {
        if first.contains(x) {
            let a = choose|a: int| 0 <= a < first.len() && first[a] == x;
            assert(store.projects.contains(first[a]));
            let i = choose|i: int| 0 <= i < store.projects.len() && store.projects[i] == x;
            assert(listed(organisation, store.projects[i]));
        }
        if chosen.contains(x) {
            let a = choose|a: int| 0 <= a < chosen.len() && chosen[a] == x;
            assert(store.projects.contains(chosen[a]));
            let i = choose|i: int| 0 <= i < store.projects.len() && store.projects[i] == x;
            assert(listed(organisation, store.projects[i]));
        }
    }
    lemma_ordered_unique(first, chosen);
}

/// The place of a project in a sequence in listing order that does not hold it: all
/// before the place come before the project, and the project comes before all from the
/// place on.
proof fn lemma_place(listing: Seq<ProjectModel>, project: ProjectModel) -> (place: int)
    requires
        ordered(listing),
        forall|a: int| 0 <= a < listing.len() ==> (#[trigger] listing[a]).id != project.id,
    ensures
        0 <= place <= listing.len(),
        forall|a: int| 0 <= a < place ==> (#[trigger] listing[a]).precedes(project),
        forall|a: int| place <= a < listing.len() ==> project.precedes(#[trigger] listing[a]),
    decreases listing.len(),
{
    if listing.len() == 0 {
        0
    } else {
        let last = listing.last();
        assert(listing[listing.len() - 1].id != project.id);
        if last.precedes(project) {
            assert forall|a: int| 0 <= a < listing.len() implies (#[trigger] listing[a]).precedes(
                project,
            ) by {
                if a < listing.len() - 1 {
                    assert(listing[a].precedes(listing[listing.len() - 1]));
                }
            }
            listing.len() as int
        } else {
            let rest = listing.drop_last();
            assert forall|a: int, b: int| 0 <= a < b < rest.len() implies (#[trigger] rest[a]).precedes(
                #[trigger] rest[b],
            ) by {
                assert(listing[a].precedes(listing[b]));
            }
            assert forall|a: int| 0 <= a < rest.len() implies (#[trigger] rest[a]).id
                != project.id by {
                assert(listing[a].id != project.id);
            }
            let place = lemma_place(rest, project);
            assert forall|a: int| 0 <= a < place implies (#[trigger] listing[a]).precedes(
                project,
            ) by {
                assert(rest[a].precedes(project));
            }
            assert forall|a: int| place <= a < listing.len() implies project.precedes(
                #[trigger] listing[a],
            ) by {
                if a < listing.len() - 1 {
                    assert(project.precedes(rest[a]));
                }
            }
            place
        }
    }
}

/// Rows with different identifiers have a listing, whatever is selected.
proof fn lemma_rows_have_listing(projects: Seq<ProjectModel>, organisation: Option<u128>) -> (listing:
    Seq<ProjectModel>)
    requires
        forall|i: int, j: int|
            0 <= i < j < projects.len() ==> (#[trigger] projects[i]).id != (
            #[trigger] projects[j]).id,
    ensures
        ordered(listing),
        forall|a: int|
            0 <= a < listing.len() ==> projects.contains(#[trigger] listing[a]) && listed(
                organisation,
                listing[a],
            ),
        forall|i: int|
            0 <= i < projects.len() && listed(organisation, #[trigger] projects[i])
                ==> listing.contains(projects[i]),
    decreases projects.len(),
{
    if projects.len() == 0 {
        Seq::empty()
    } else {
        let rest = projects.drop_last();
        let project = projects.last();
        let shorter = lemma_rows_have_listing(rest, organisation);
        assert forall|a: int| 0 <= a < shorter.len() implies projects.contains(
            #[trigger] shorter[a],
        ) && shorter[a].id != project.id by {
            assert(rest.contains(shorter[a]));
            let i = choose|i: int| 0 <= i < rest.len() && rest[i] == shorter[a];
            assert(projects[i] == shorter[a]);
            assert(projects[i].id != projects[projects.len() - 1].id);
        }
        if listed(organisation, project) {
            let place = lemma_place(shorter, project);
            let listing = shorter.insert(place, project);
            shorter.insert_ensures(place, project);
            assert forall|a: int, b: int| 0 <= a < b < listing.len() implies (
            #[trigger] listing[a]).precedes(#[trigger] listing[b]) by {
                let a0 = if a < place { a } else { a - 1 };
                let b0 = if b < place { b } else { b - 1 };
                if a != place {
                    assert(listing[a] == shorter[a0]);
                }
                if b != place {
                    assert(listing[b] == shorter[b0]);
                }
                if a != place && b != place {
                    assert(shorter[a0].precedes(shorter[b0]));
                }
            }
            assert forall|a: int| 0 <= a < listing.len() implies projects.contains(
                #[trigger] listing[a],
            ) && listed(organisation, listing[a]) by {
                let a0 = if a < place { a } else { a - 1 };
                if a != place {
                    assert(listing[a] == shorter[a0]);
                } else {
                    assert(projects[projects.len() - 1] == project);
                }
            }
            assert forall|i: int|
                0 <= i < projects.len() && listed(
                    organisation,
                    #[trigger] projects[i],
                ) implies listing.contains(projects[i]) by {
                if i == projects.len() - 1 {
                    assert(listing[place] == projects[i]);
                } else {
                    assert(rest[i] == projects[i]);
                    assert(shorter.contains(rest[i]));
                    let k = choose|k: int| 0 <= k < shorter.len() && shorter[k] == rest[i];
                    if k < place {
                        assert(listing[k] == shorter[k]);
                    } else {
                        assert(listing[k + 1] == shorter[k]);
                    }
                }
            }
            listing
        } else {
            assert forall|i: int|
                0 <= i < projects.len() && listed(
                    organisation,
                    #[trigger] projects[i],
                ) implies shorter.contains(projects[i]) by {
                assert(rest[i] == projects[i]);
            }
            shorter
        }
    }
}

/// Every store whose rows have different identifiers has a listing for each selection, and
/// only one:
/// the listing is determined by the rows, in whatever order they stand in the store.
pub proof fn lemma_listing_exists(store: StoreView, organisation: Option<u128>)
    requires
        store.identifiers_unique(),
    ensures
        store.is_listing(organisation, store.listing(organisation)),
        forall|listing: Seq<ProjectModel>| #[trigger]
            store.is_listing(organisation, listing) ==> listing == store.listing(organisation),
{
    let witness = lemma_rows_have_listing(store.projects, organisation);
    assert(store.is_listing(organisation, witness));
    assert forall|listing: Seq<ProjectModel>| #[trigger]
        store.is_listing(organisation, listing) implies listing == store.listing(
        organisation,
    ) by {
        lemma_listing_unique(store, organisation, listing, listing);
    }
}

/// The first two pages of the listing of a store are the first items of the listing,
/// twice the page size of them or all there are: nothing is left out between the pages and
/// nothing occurs on both. The items stand from the youngest to the oldest, so where no two
/// were created at one instant each is younger than the next.
pub proof fn lemma_first_pages_partition(
    store: StoreView,
    organisation: Option<u128>,
    per_page: int,
)
    requires
        store.identifiers_unique(),
        per_page >= 1,
    ensures
        ({
            let listing = store.listing(organisation);
            let first = page_window(listing, 1, per_page);
            let second = page_window(listing, 2, per_page);
            let both = first + second;
            let reach = if 2 * per_page <= listing.len() {
                2 * per_page
            } else {
                listing.len() as int
            };
            &&& both == listing.subrange(0, reach)
            &&& first.len() == if per_page <= listing.len() {
                per_page
            } else {
                listing.len() as int
            }
            &&& forall|a: int, b: int|
                0 <= a < first.len() && 0 <= b < second.len() ==> first[a].id != second[b].id
            &&& forall|a: int, b: int|
                0 <= a < b < both.len() ==> both[a].created_at.later_than(both[b].created_at)
                    || both[a].created_at == both[b].created_at
            &&& forall|a: int, b: int|
                0 <= a < b < both.len() && both[a].created_at != both[b].created_at
                    ==> both[a].created_at.later_than(both[b].created_at)
        }),
{
    lemma_listing_exists(store, organisation);
    let listing = store.listing(organisation);
    let first = page_window(listing, 1, per_page);
    let second = page_window(listing, 2, per_page);
    let both = first + second;
    let reach = if 2 * per_page <= listing.len() {
        2 * per_page
    } else {
        listing.len() as int
    };
    assert(both =~= listing.subrange(0, reach));
    assert forall|a: int, b: int| 0 <= a < b < both.len() implies (#[trigger] both[a]).precedes(
        #[trigger] both[b],
    ) by {
        assert(listing[a].precedes(listing[b]));
    }
    assert forall|a: int, b: int| 0 <= a < first.len() && 0 <= b < second.len() implies first[a].id
        != second[b].id by {
        assert(both[a] == first[a]);
        assert(both[first.len() + b] == second[b]);
        // Rows of one store that differ have different identifiers.
        let x = listing[a];
        let y = listing[first.len() + b];
        assert(x.precedes(y));
        assert(store.projects.contains(x));
        assert(store.projects.contains(y));
        let i = choose|i: int| 0 <= i < store.projects.len() && store.projects[i] == x;
        let j = choose|j: int| 0 <= j < store.projects.len() && store.projects[j] == y;
        if i < j {
            assert(store.projects[i].id != store.projects[j].id);
        } else if j < i {
            assert(store.projects[j].id != store.projects[i].id);
        }
    }
}

/// Whether a listing takes a project in.
pub fn is_listed(organisation: &Option<u128>, project: &ProjectModel) -> (taken: bool)
    ensures
        taken == listed(*organisation, *project),
{
    match organisation {
        Some(id) => project.organisation_id == *id,
        None => true,
    }
}

/// The rows of the projects that `organisation` selects, in listing order.
pub fn listing_order(store: &Store, organisation: Option<u128>) -> (order: Vec<usize>)
    requires
        store@.identifiers_unique(),
    ensures
        forall|k: int| 0 <= k < order@.len() ==> (#[trigger] order@[k]) < store@.projects.len(),
        store@.is_listing(organisation, rows_at(store@.projects, order@)),
        rows_at(store@.projects, order@) == store@.listing(organisation),
{
    let ghost projects = store@.projects;
    let mut order: Vec<usize> = Vec::new();
    let mut i: usize = 0;
    while i < store.projects.len()
        invariant
            i <= store.projects.len(),
            projects == store@.projects,
            store@.identifiers_unique(),
            forall|k: int|
                0 <= k < order@.len() ==> (#[trigger] order@[k]) < i && listed(
                    organisation,
                    projects[order@[k] as int],
                ),
            forall|a: int, b: int|
                0 <= a < b < order@.len() ==> projects[(#[trigger] order@[a]) as int].precedes(
                    projects[(#[trigger] order@[b]) as int],
                ),
            forall|j: int|
                0 <= j < i && listed(organisation, #[trigger] projects[j]) ==> order@.contains(
                    j as usize,
                ),
        decreases store.projects.len() - i,
    {
        if is_listed(&organisation, &store.projects[i]) {
            let mut p: usize = 0;
            while p < order.len() && !store.projects[i].comes_before(&store.projects[order[p]])
                invariant
                    p <= order.len(),
                    i < store.projects.len(),
                    projects == store@.projects,
                    forall|k: int| 0 <= k < order@.len() ==> (#[trigger] order@[k]) < i,
                    forall|q: int|
                        0 <= q < p ==> !projects[i as int].precedes(
                            projects[(#[trigger] order@[q]) as int],
                        ),
                decreases order.len() - p,
            {
                p += 1;
            }
            let ghost before = order@;
            order.insert(p, i);
            proof {
                before.insert_ensures(p as int, i);
                let after = order@;
                assert forall|a: int, b: int| 0 <= a < b < after.len() implies projects[(
                #[trigger] after[a]) as int].precedes(projects[(#[trigger] after[b]) as int]) by {
                    let a0 = if a < p { a } else { a - 1 };
                    let b0 = if b < p { b } else { b - 1 };
                    if a != p {
                        assert(after[a] == before[a0]);
                    }
                    if b != p {
                        assert(after[b] == before[b0]);
                    }
                    if a == p {
                        assert(projects[i as int].precedes(projects[before[p as int] as int]));
                        if b0 > p {
                            assert(projects[before[p as int] as int].precedes(
                                projects[before[b0] as int],
                            ));
                        }
                    } else if b == p {
                        assert(!projects[i as int].precedes(projects[before[a0] as int]));
                        assert(projects[before[a0] as int].id != projects[i as int].id);
                    } else {
                        assert(projects[before[a0] as int].precedes(projects[before[b0] as int]));
                    }
                }
                assert forall|k: int| 0 <= k < after.len() implies (#[trigger] after[k]) < i + 1
                    && listed(organisation, projects[after[k] as int]) by {
                    let k0 = if k < p { k } else { k - 1 };
                    if k != p {
                        assert(after[k] == before[k0]);
                    }
                }
                assert forall|j: int|
                    0 <= j < i + 1 && listed(organisation, #[trigger] projects[j]) implies after.contains(
                    j as usize,
                ) by {
                    if j == i {
                        assert(after[p as int] == i);
                    } else {
                        assert(before.contains(j as usize));
                        let k = choose|k: int| 0 <= k < before.len() && before[k] == j as usize;
                        if k < p {
                            assert(after[k] == before[k]);
                        } else {
                            assert(after[k + 1] == before[k]);
                        }
                    }
                }
            }
        }
        i += 1;
    }
    proof {
        let rows = rows_at(projects, order@);
        assert forall|a: int| 0 <= a < rows.len() implies projects.contains(#[trigger] rows[a])
            && listed(organisation, rows[a]) by {
            assert(projects[order@[a] as int] == rows[a]);
        }
        assert forall|j: int|
            0 <= j < projects.len() && listed(organisation, #[trigger] projects[j]) implies rows.contains(
            projects[j],
        ) by {
            assert(order@.contains(j as usize));
            let k = choose|k: int| 0 <= k < order@.len() && order@[k] == j as usize;
            assert(rows[k] == projects[j]);
        }
        assert(store@.is_listing(organisation, rows));
        lemma_listing_unique(store@, organisation, rows, rows);
    }
    order
}

} // verus!
