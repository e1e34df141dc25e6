//! One pass of reconciliation: what the engine lists now is compared with
//! what it listed before, and the containers that are gone are removed.

use vstd::prelude::*;
use crate::container::{
    id_set, lemma_upserted, lemma_without_id, upserted, well_formed, without_id, Container,
};
use crate::management::ContainerManagement;
use crate::refresh::ContainerSummary;
use crate::text::{str_eq, views_of};

verus! {

/// The id under which a listing entry counts; an entry without an id counts
/// under the empty id.
pub open spec fn listed_id(summary: ContainerSummary) -> Seq<char> {
    match summary.id {
        Some(id) => id@,
        None => Seq::empty(),
    }
}

/// The ids of a listing, entry by entry.
pub open spec fn listed_ids(listing: Seq<ContainerSummary>) -> Seq<Seq<char>> {
    listing.map_values(|s: ContainerSummary| listed_id(s))
}

/// Whether `list` holds the text `x`.
pub fn contains_text(list: &Vec<String>, x: &str) -> (r: bool)
    ensures
        r == views_of(list@).contains(x@),
{
    let mut i: usize = 0;
    while i < list.len()
        invariant
            i <= list@.len(),
            forall|j: int| 0 <= j < i ==> views_of(list@)[j] != x@,
        decreases list@.len() - i,
    {
        if str_eq(list[i].as_str(), x) {
            assert(views_of(list@)[i as int] == x@);
            return true;
        }
        i += 1;
    }
    false
}

/// The ids that the engine listed at the last pass.
#[derive(Debug)]
pub struct Reconciler {
    alive: Vec<String>,
}

impl Reconciler {
    /// The ids of the last listing, as a set.
    pub closed spec fn alive_ids(&self) -> Set<Seq<char>> {
        views_of(self.alive@).to_set()
    }

    /// The invariant: no id is held twice.
    pub closed spec fn wf(&self) -> bool {
        views_of(self.alive@).no_duplicates()
    }

    /// A reconciler that has seen no listing yet.
    pub fn new() -> (r: Reconciler)
        ensures
            r.wf(),
            r.alive_ids() == Set::<Seq<char>>::empty(),
    {
        let r = Reconciler { alive: Vec::new() };
        assert(views_of(r.alive@).to_set() =~= Set::<Seq<char>>::empty());
        r
    }

    /// The ids that were listed at the last pass and are missing from
    /// `listing`, each once.
    pub fn stale_ids(&self, listing: &Vec<ContainerSummary>) -> (stale: Vec<String>)
        requires
            self.wf(),
        ensures
            views_of(stale@).no_duplicates(),
            views_of(stale@).to_set() == self.alive_ids().difference(listed_ids(listing@).to_set()),
    {
        let now = collect_ids(listing);
        self.missing_from(&now)
    }

    fn missing_from(&self, now: &Vec<String>) -> (stale: Vec<String>)
        requires
            self.wf(),
        ensures
            views_of(stale@).no_duplicates(),
            views_of(stale@).to_set() == self.alive_ids().difference(views_of(now@).to_set()),
    {
        let mut stale: Vec<String> = Vec::new();
        let mut i: usize = 0;
        while i < self.alive.len()
            invariant
                i <= self.alive@.len(),
                self.wf(),
                views_of(stale@).no_duplicates(),
                forall|x: Seq<char>|
                    views_of(stale@).contains(x) <==> (views_of(self.alive@).subrange(
                        0,
                        i as int,
                    ).contains(x) && !views_of(now@).contains(x)),
            decreases self.alive@.len() - i,
        {
            let ghost before = views_of(stale@);
            let ghost seen = views_of(self.alive@).subrange(0, i as int);
            let ghost id = self.alive@[i as int]@;
            assert(views_of(self.alive@).subrange(0, i + 1) =~= seen.push(id));
            assert(views_of(self.alive@)[i as int] == id);
            assert(!seen.contains(id)) by {
                if seen.contains(id) {
                    let j = choose|j: int| 0 <= j < seen.len() && seen[j] == id;
                    assert(views_of(self.alive@)[j] == id);
                }
            }
            if !contains_text(now, self.alive[i].as_str()) {
                stale.push(self.alive[i].clone());
                assert(views_of(stale@) =~= before.push(id));
                assert forall|x: Seq<char>|
                    views_of(stale@).contains(x) <==> (seen.push(id).contains(x) && !views_of(
                        now@,
                    ).contains(x)) by {
                    lemma_push_contains(before, id, x);
                    lemma_push_contains(seen, id, x);
                }
            } else {
                assert forall|x: Seq<char>|
                    views_of(stale@).contains(x) <==> (seen.push(id).contains(x) && !views_of(
                        now@,
                    ).contains(x)) by {
                    lemma_push_contains(seen, id, x);
                }
            }
            i += 1;
        }
        assert(views_of(self.alive@).subrange(0, i as int) =~= views_of(self.alive@));
        assert(views_of(stale@).to_set() =~= self.alive_ids().difference(views_of(now@).to_set()));
        stale
    }

    /// Starts a pass with the engine's listing: every container that was
    /// listed at the last pass and is missing now is removed from `manager`,
    /// and the listing becomes what was listed last. Returns the ids that
    /// were removed.
    pub fn begin_cycle<M: ContainerManagement>(
        &mut self,
        manager: &mut M,
        listing: &Vec<ContainerSummary>,
    ) -> (stale: Vec<String>)
        requires
            old(self).wf(),
            old(manager).ready(),
        ensures
            final(self).wf(),
            final(self).alive_ids() == listed_ids(listing@).to_set(),
            views_of(stale@).no_duplicates(),
            views_of(stale@).to_set() == old(self).alive_ids().difference(
                listed_ids(listing@).to_set(),
            ),
            final(manager).ready(),
            final(manager).container_ids() == old(manager).container_ids().difference(
                views_of(stale@).to_set(),
            ),
            final(manager).log_lines() == old(manager).log_lines(),
    {
        let now = collect_ids(listing);
        let stale = self.missing_from(&now);
        let mut i: usize = 0;
        while i < stale.len()
            invariant
                i <= stale@.len(),
                manager.ready(),
                manager.log_lines() == old(manager).log_lines(),
                manager.container_ids() == old(manager).container_ids().difference(
                    views_of(stale@).subrange(0, i as int).to_set(),
                ),
            decreases stale@.len() - i,
        {
            let ghost done = views_of(stale@).subrange(0, i as int);
            let ghost id = stale@[i as int]@;
            assert(views_of(stale@).subrange(0, i + 1) =~= done.push(id));
            manager.remove_container(stale[i].as_str());
            assert(manager.container_ids() =~= old(manager).container_ids().difference(
                done.push(id).to_set(),
            )) by {
                assert forall|x: Seq<char>| done.push(id).to_set().contains(x) <==> (done.to_set().contains(x) || x == id) by {
                    lemma_push_contains(done, id, x);
                }
            }
            i += 1;
        }
        assert(views_of(stale@).subrange(0, i as int) =~= views_of(stale@));
        self.alive = now;
        stale
    }
}

/// A text is in a list with one more element exactly when it is in the list
/// or is that element.
pub proof fn lemma_push_contains(s: Seq<Seq<char>>, last: Seq<char>, x: Seq<char>)
    ensures
        s.push(last).contains(x) <==> (s.contains(x) || x == last),
{
    let t = s.push(last);
    if s.contains(x) {
        let j = choose|j: int| 0 <= j < s.len() && s[j] == x;
        assert(t[j] == x);
    }
    if x == last {
        assert(t[s.len() as int] == x);
    }
    if t.contains(x) {
        let j = choose|j: int| 0 <= j < t.len() && t[j] == x;
        if j < s.len() {
            assert(s[j] == x);
        }
    }
}

fn collect_ids(listing: &Vec<ContainerSummary>) -> (r: Vec<String>)
    ensures
        views_of(r@).no_duplicates(),
        views_of(r@).to_set() == listed_ids(listing@).to_set(),
{
    let mut out: Vec<String> = Vec::new();
    let mut i: usize = 0;
    while i < listing.len()
        invariant
            i <= listing@.len(),
            views_of(out@).no_duplicates(),
            forall|x: Seq<char>|
                views_of(out@).contains(x) <==> listed_ids(listing@).subrange(0, i as int).contains(x),
        decreases listing@.len() - i,
    {
        let ghost before = views_of(out@);
        let ghost seen = listed_ids(listing@).subrange(0, i as int);
        let id = match &listing[i].id {
            Some(id) => id.clone(),
            None => String::new(),
        };
        assert(id@ == listed_id(listing@[i as int]));
        assert(listed_ids(listing@).subrange(0, i + 1) =~= seen.push(id@));
        if !contains_text(&out, id.as_str()) {
            let ghost idv = id@;
            out.push(id);
            assert(views_of(out@) =~= before.push(idv));
            assert forall|x: Seq<char>| views_of(out@).contains(x) <==> seen.push(idv).contains(x) by {
                lemma_push_contains(before, idv, x);
                lemma_push_contains(seen, idv, x);
            }
        } else {
            assert forall|x: Seq<char>| views_of(out@).contains(x) <==> seen.push(id@).contains(x) by {
                lemma_push_contains(seen, id@, x);
            }
        }
        i += 1;
    }
    assert(listed_ids(listing@).subrange(0, i as int) =~= listed_ids(listing@));
    assert(views_of(out@).to_set() =~= listed_ids(listing@).to_set());
    out
}

/// The list after the records of the given ids were taken out, one after
/// the other.
pub open spec fn after_removals(s: Seq<Container>, ids: Seq<Seq<char>>) -> Seq<Container>
    decreases ids.len(),
{
    if ids.len() == 0 {
        s
    } else {
        without_id(after_removals(s, ids.drop_last()), ids.last())
    }
}

/// The list after the given records were put in, one after the other.
pub open spec fn after_upserts(s: Seq<Container>, records: Seq<Container>) -> Seq<Container>
    decreases records.len(),
{
    if records.len() == 0 {
        s
    } else {
        upserted(after_upserts(s, records.drop_last()), records.last())
    }
}

/// Removals keep a list well formed and take exactly the given ids out.
pub proof fn lemma_after_removals(s: Seq<Container>, ids: Seq<Seq<char>>)
    requires
        well_formed(s),
    ensures
        well_formed(after_removals(s, ids)),
        id_set(after_removals(s, ids)) == id_set(s).difference(ids.to_set()),
    decreases ids.len(),
{
    if ids.len() == 0 {
        assert(id_set(s).difference(ids.to_set()) =~= id_set(s));
    } else {
        let front = ids.drop_last();
        lemma_after_removals(s, front);
        lemma_without_id(after_removals(s, front), ids.last());
        assert(ids =~= front.push(ids.last()));
        assert forall|x: Seq<char>| ids.to_set().contains(x) <==> (front.to_set().contains(x) || x
            == ids.last()) by {
            lemma_push_contains(front, ids.last(), x);
        }
        assert(id_set(after_removals(s, ids)) =~= id_set(s).difference(ids.to_set()));
    }
}

/// Upserts keep a list well formed and add exactly the ids of the records.
pub proof fn lemma_after_upserts(s: Seq<Container>, records: Seq<Container>)
    requires
        well_formed(s),
    ensures
        well_formed(after_upserts(s, records)),
        id_set(after_upserts(s, records)) == id_set(s).union(id_set(records)),
    decreases records.len(),
{
    if records.len() == 0 {
        assert(id_set(s).union(id_set(records)) =~= id_set(s));
    } else {
        let front = records.drop_last();
        let last = records.last();
        lemma_after_upserts(s, front);
        lemma_upserted(after_upserts(s, front), last);
        assert forall|x: Seq<char>| id_set(records).contains(x) <==> (id_set(
            front,
        ).contains(x) || x == last.id@) by {
            if id_set(records).contains(x) {
                let j = choose|j: int| 0 <= j < records.len() && #[trigger] records[j].id@ == x;
                if j < front.len() {
                    assert(front[j].id@ == x);
                }
            }
            if id_set(front).contains(x) {
                let j = choose|j: int| 0 <= j < front.len() && #[trigger] front[j].id@ == x;
                assert(records[j].id@ == x);
            }
            if x == last.id@ {
                assert(records[records.len() - 1].id@ == x);
            }
        }
        assert(id_set(after_upserts(s, records)) =~= id_set(s).union(id_set(records)));
    }
}

/// After a pass that removes the ids in `stale` and then puts in the records
/// in `refreshed`, the list holds exactly the ids that it held before and
/// that are not stale, and the ids of the records; it is well formed again.
pub proof fn lemma_pass_outcome(s: Seq<Container>, stale: Seq<Seq<char>>, refreshed: Seq<Container>)
    requires
        well_formed(s),
    ensures
        well_formed(after_upserts(after_removals(s, stale), refreshed)),
        id_set(after_upserts(after_removals(s, stale), refreshed)) == id_set(s).difference(
            stale.to_set(),
        ).union(id_set(refreshed)),
{
    lemma_after_removals(s, stale);
    lemma_after_upserts(after_removals(s, stale), refreshed);
}

/// The ids that a pass leaves do not depend on the order in which the
/// refreshed records arrive: two arrivals of records with the same ids
/// leave the same ids. An id that was removed and not refreshed is absent,
/// and the id of every refreshed record is present.
pub proof fn lemma_arrival_order_is_immaterial(
    s: Seq<Container>,
    stale: Seq<Seq<char>>,
    first: Seq<Container>,
    second: Seq<Container>,
)
    requires
        well_formed(s),
        id_set(first) == id_set(second),
    ensures
        id_set(after_upserts(after_removals(s, stale), first)) == id_set(
            after_upserts(after_removals(s, stale), second),
        ),
        forall|id: Seq<char>|
            stale.contains(id) && !id_set(first).contains(id) ==> !id_set(
                after_upserts(after_removals(s, stale), first),
            ).contains(id),
        forall|id: Seq<char>|
            id_set(first).contains(id) ==> id_set(
                after_upserts(after_removals(s, stale), first),
            ).contains(id),
{
    lemma_pass_outcome(s, stale, first);
    lemma_pass_outcome(s, stale, second);
}

} // verus!
