//! Container records and the list that holds them, kept sorted by name with
//! one record for each id.

use vstd::prelude::*;
use vstd::std_specs::convert::FromSpecImpl;
use crate::text::{lemma_lex_le_total, lemma_lex_le_transitive, lex_le, str_eq, str_le};

verus! {

/// The lifecycle state of a container.
#[derive(Clone, Copy, Debug, PartialEq, Eq, Structural)]
pub enum ContainerStatus {
    Created,
    Running,
    Paused,
    Stopped,
    Restarting,
    Removing,
    Exited,
    Dead,
}

/// The status that a state word of the engine stands for. A word that is not
/// known counts as running, so that an unknown state still shows.
pub open spec fn status_of(word: Seq<char>) -> ContainerStatus {
    if word == "created"@ {
        ContainerStatus::Created
    } else if word == "running"@ {
        ContainerStatus::Running
    } else if word == "paused"@ {
        ContainerStatus::Paused
    } else if word == "stopped"@ {
        ContainerStatus::Stopped
    } else if word == "restarting"@ {
        ContainerStatus::Restarting
    } else if word == "removing"@ {
        ContainerStatus::Removing
    } else if word == "exited"@ {
        ContainerStatus::Exited
    } else if word == "dead"@ {
        ContainerStatus::Dead
    } else {
        ContainerStatus::Running
    }
}

impl ContainerStatus {
    /// Reads the state word of the engine.
    pub fn parse(word: &str) -> (r: ContainerStatus)
        ensures
            r == status_of(word@),
    {
        if str_eq(word, "created") {
            ContainerStatus::Created
        } else if str_eq(word, "running") {
            ContainerStatus::Running
        } else if str_eq(word, "paused") {
            ContainerStatus::Paused
        } else if str_eq(word, "stopped") {
            ContainerStatus::Stopped
        } else if str_eq(word, "restarting") {
            ContainerStatus::Restarting
        } else if str_eq(word, "removing") {
            ContainerStatus::Removing
        } else if str_eq(word, "exited") {
            ContainerStatus::Exited
        } else if str_eq(word, "dead") {
            ContainerStatus::Dead
        } else {
            ContainerStatus::Running
        }
    }
}

impl From<String> for ContainerStatus {
    fn from(s: String) -> (r: ContainerStatus) {
        ContainerStatus::parse(s.as_str())
    }
}

impl FromSpecImpl<String> for ContainerStatus {
    open spec fn obeys_from_spec() -> bool {
        true
    }

    open spec fn from_spec(s: String) -> ContainerStatus {
        status_of(s@)
    }
}

/// A snapshot of one container.
#[derive(Clone, Debug)]
pub struct Container {
    pub id: String,
    pub status: ContainerStatus,
    pub name: String,
    pub image: String,
    /// Processor use in hundredths of a percent of one processor.
    pub cpu_usage: u64,
    pub memory_usage_bytes: u64,
    pub memory_limit_bytes: u64,
    pub swarm_service: Option<String>,
    pub swarm_stack: Option<String>,
    pub compose_service: Option<String>,
    pub compose_project: Option<String>,
}

/// The names never decrease along the list.
pub open spec fn sorted_by_name(s: Seq<Container>) -> bool {
    forall|i: int, j: int| 0 <= i < j < s.len() ==> lex_le(#[trigger] s[i].name@, #[trigger] s[j].name@)
}

/// No two records of the list have the same id.
pub open spec fn unique_ids(s: Seq<Container>) -> bool {
    forall|i: int, j: int|
        0 <= i < s.len() && 0 <= j < s.len() && i != j ==> #[trigger] s[i].id@ != #[trigger] s[j].id@
}

/// A container list is well formed when it is sorted by name and holds one
/// record for each id.
pub open spec fn well_formed(s: Seq<Container>) -> bool {
    sorted_by_name(s) && unique_ids(s)
}

/// The ids of the records of a list.
pub open spec fn id_set(s: Seq<Container>) -> Set<Seq<char>> {
    Set::new(|id: Seq<char>| exists|i: int| 0 <= i < s.len() && #[trigger] s[i].id@ == id)
}

/// The position of the first record with the given id, or the length of the
/// list where there is none.
pub open spec fn index_of_id(s: Seq<Container>, id: Seq<char>) -> int
    decreases s.len(),
{
    if s.len() == 0 {
        0
    } else if s[0].id@ == id {
        0
    } else {
        1 + index_of_id(s.drop_first(), id)
    }
}

/// The list without the first record of the given id.
pub open spec fn without_id(s: Seq<Container>, id: Seq<char>) -> Seq<Container> {
    let i = index_of_id(s, id);
    if i < s.len() {
        s.remove(i)
    } else {
        s
    }
}

/// The number of leading records whose name is not above `name`: in a
/// sorted list, the place of a new record of that name behind all records
/// that do not come after it.
pub open spec fn insertion_point(s: Seq<Container>, name: Seq<char>) -> int
    decreases s.len(),
{
    if s.len() == 0 {
        0
    } else if !lex_le(s[0].name@, name) {
        0
    } else {
        1 + insertion_point(s.drop_first(), name)
    }
}

/// The list after a record was put in: any earlier record of the same id is
/// gone, and the new one stands at its place in the order of names.
pub open spec fn upserted(s: Seq<Container>, c: Container) -> Seq<Container> {
    let rest = without_id(s, c.id@);
    rest.insert(insertion_point(rest, c.name@), c)
}

/// `index_of_id` is the least position that holds the id.
pub proof fn lemma_index_of_id(s: Seq<Container>, id: Seq<char>)
    ensures
        0 <= index_of_id(s, id) <= s.len(),
        index_of_id(s, id) < s.len() ==> s[index_of_id(s, id)].id@ == id,
        forall|j: int| 0 <= j < index_of_id(s, id) ==> (#[trigger] s[j]).id@ != id,
    decreases s.len(),
{
    if s.len() > 0 && s[0].id@ != id {
        let t = s.drop_first();
        lemma_index_of_id(t, id);
        assert forall|j: int| 0 <= j < index_of_id(s, id) implies (#[trigger] s[j]).id@ != id by {
            if j > 0 {
                assert(t[j - 1].id@ != id);
            }
        }
    }
}

/// `insertion_point` is the least position whose name is above `name`.
pub proof fn lemma_insertion_point(s: Seq<Container>, name: Seq<char>)
    ensures
        0 <= insertion_point(s, name) <= s.len(),
        insertion_point(s, name) < s.len() ==> !lex_le(s[insertion_point(s, name)].name@, name),
        forall|j: int| 0 <= j < insertion_point(s, name) ==> lex_le((#[trigger] s[j]).name@, name),
    decreases s.len(),
{
    if s.len() > 0 && lex_le(s[0].name@, name) {
        let t = s.drop_first();
        lemma_insertion_point(t, name);
        assert forall|j: int| 0 <= j < insertion_point(s, name) implies lex_le(
            (#[trigger] s[j]).name@,
            name,
        ) by {
            if j > 0 {
                assert(lex_le(t[j - 1].name@, name));
            }
        }
    }
}

/// Taking a record out keeps a list well formed, and takes exactly its id
/// out of the ids of the list.
pub proof fn lemma_without_id(s: Seq<Container>, id: Seq<char>)
    requires
        well_formed(s),
    ensures
        well_formed(without_id(s, id)),
        id_set(without_id(s, id)) == id_set(s).remove(id),
        index_of_id(s, id) == s.len() ==> !id_set(s).contains(id),
{
    lemma_index_of_id(s, id);
    let i = index_of_id(s, id);
    let t = without_id(s, id);
    if i < s.len() {
        assert forall|x: Seq<char>| id_set(t).contains(x) <==> id_set(s).remove(id).contains(
            x,
        ) by {
            if id_set(t).contains(x) {
                let j = choose|j: int| 0 <= j < t.len() && #[trigger] t[j].id@ == x;
                if j < i {
                    assert(s[j].id@ == x);
                } else {
                    assert(s[j + 1].id@ == x);
                }
            }
            if id_set(s).remove(id).contains(x) {
                let j = choose|j: int| 0 <= j < s.len() && #[trigger] s[j].id@ == x;
                if j < i {
                    assert(t[j].id@ == x);
                } else {
                    assert(t[j - 1].id@ == x);
                }
            }
        }
        assert(id_set(t) =~= id_set(s).remove(id));
        assert forall|a: int, b: int| 0 <= a < b < t.len() implies lex_le(
            #[trigger] t[a].name@,
            #[trigger] t[b].name@,
        ) by {
            let sa = if a < i { a } else { a + 1 };
            let sb = if b < i { b } else { b + 1 };
            assert(lex_le(s[sa].name@, s[sb].name@));
        }
        assert forall|a: int, b: int| 0 <= a < t.len() && 0 <= b < t.len() && a != b implies #[trigger] t[a].id@
            != #[trigger] t[b].id@ by {
            let sa = if a < i { a } else { a + 1 };
            let sb = if b < i { b } else { b + 1 };
            assert(s[sa].id@ != s[sb].id@);
        }
    } else {
        assert(id_set(t) =~= id_set(s).remove(id));
    }
}

/// Putting a record in keeps a list well formed, and adds exactly its id to
/// the ids of the list.
pub proof fn lemma_upserted(s: Seq<Container>, c: Container)
    requires
        well_formed(s),
    ensures
        well_formed(upserted(s, c)),
        id_set(upserted(s, c)) == id_set(s).insert(c.id@),
{
    let rest = without_id(s, c.id@);
    let p = insertion_point(rest, c.name@);
    let t = upserted(s, c);
    lemma_without_id(s, c.id@);
    lemma_insertion_point(rest, c.name@);
    assert forall|j: int| p <= j < rest.len() implies lex_le(c.name@, (#[trigger] rest[j]).name@) by {
        lemma_lex_le_total(c.name@, rest[p].name@);
        if j > p {
            assert(lex_le(rest[p].name@, rest[j].name@));
            lemma_lex_le_transitive(c.name@, rest[p].name@, rest[j].name@);
        }
    }
    assert forall|a: int, b: int| 0 <= a < b < t.len() implies lex_le(
        #[trigger] t[a].name@,
        #[trigger] t[b].name@,
    ) by {
        if b < p {
            assert(lex_le(rest[a].name@, rest[b].name@));
        } else if b == p {
            assert(lex_le(rest[a].name@, c.name@));
        } else if a == p {
            assert(lex_le(c.name@, rest[b - 1].name@));
        } else if a < p {
            assert(lex_le(rest[a].name@, rest[b - 1].name@));
        } else {
            assert(lex_le(rest[a - 1].name@, rest[b - 1].name@));
        }
    }
    assert forall|x: int| 0 <= x < rest.len() implies (#[trigger] rest[x]).id@ != c.id@ by {
        assert(id_set(rest).contains(rest[x].id@));
    }
    assert forall|a: int, b: int| 0 <= a < t.len() && 0 <= b < t.len() && a != b implies #[trigger] t[a].id@
        != #[trigger] t[b].id@ by {
        let ra = if a < p { a } else { a - 1 };
        let rb = if b < p { b } else { b - 1 };
        if a != p && b != p {
            assert(rest[ra].id@ != rest[rb].id@);
        } else if a == p {
            assert(rest[rb].id@ != c.id@);
        } else {
            assert(rest[ra].id@ != c.id@);
        }
    }
    assert forall|x: Seq<char>| id_set(t).contains(x) <==> id_set(s).insert(c.id@).contains(x) by {
        if id_set(t).contains(x) {
            let j = choose|j: int| 0 <= j < t.len() && #[trigger] t[j].id@ == x;
            if j < p {
                assert(rest[j].id@ == x);
                assert(id_set(rest).contains(x));
            } else if j > p {
                assert(rest[j - 1].id@ == x);
                assert(id_set(rest).contains(x));
            }
        }
        if id_set(s).insert(c.id@).contains(x) {
            if x == c.id@ {
                assert(t[p].id@ == x);
            } else {
                assert(id_set(rest).contains(x));
                let j = choose|j: int| 0 <= j < rest.len() && #[trigger] rest[j].id@ == x;
                if j < p {
                    assert(t[j].id@ == x);
                } else {
                    assert(t[j + 1].id@ == x);
                }
            }
        }
    }
    assert(id_set(t) =~= id_set(s).insert(c.id@));
}

/// Whether the list is sorted by name and holds one record for each id.
pub fn is_well_formed(list: &Vec<Container>) -> (r: bool)
    ensures
        r == well_formed(list@),
{
    let n = list.len();
    let mut i: usize = 1;
    while i < n
        invariant
            n == list@.len(),
            1 <= i,
            forall|a: int, b: int|
                0 <= a < b < i && b < n ==> lex_le(#[trigger] list@[a].name@, #[trigger] list@[b].name@),
        decreases n - i,
    {
        if !str_le(list[i - 1].name.as_str(), list[i].name.as_str()) {
            assert(!lex_le(list@[i - 1].name@, list@[i as int].name@));
            return false;
        }
        assert forall|a: int, b: int| 0 <= a < b < i + 1 && b < n implies lex_le(
            #[trigger] list@[a].name@,
            #[trigger] list@[b].name@,
        ) by {
            if b == i && a < i - 1 {
                assert(lex_le(list@[a].name@, list@[i - 1].name@));
                lemma_lex_le_transitive(list@[a].name@, list@[i - 1].name@, list@[b].name@);
            }
        }
        i += 1;
    }
    let mut j: usize = 0;
    while j < n
        invariant
            n == list@.len(),
            j <= n,
            sorted_by_name(list@),
            forall|a: int, b: int|
                0 <= a < j && 0 <= b < n && a != b ==> #[trigger] list@[a].id@ != #[trigger] list@[b].id@,
        decreases n - j,
    {
        let mut k: usize = j + 1;
        while k < n
            invariant
                n == list@.len(),
                j < k <= n,
                forall|b: int| j < b < k ==> list@[j as int].id@ != (#[trigger] list@[b]).id@,
            decreases n - k,
        {
            if str_eq(list[j].id.as_str(), list[k].id.as_str()) {
                assert(list@[j as int].id@ == list@[k as int].id@);
                return false;
            }
            k += 1;
        }
        j += 1;
    }
    true
}

/// The position of the first record with the given id, or the length of the
/// list where there is none.
pub fn find_by_id(list: &Vec<Container>, id: &str) -> (i: usize)
    ensures
        i == index_of_id(list@, id@),
{
    let mut i: usize = 0;
    while i < list.len()
        invariant
            i <= list@.len(),
            forall|j: int| 0 <= j < i ==> (#[trigger] list@[j]).id@ != id@,
        decreases list@.len() - i,
    {
        if str_eq(list[i].id.as_str(), id) {
            proof {
                lemma_index_of_id(list@, id@);
            }
            return i;
        }
        i += 1;
    }
    proof {
        lemma_index_of_id(list@, id@);
    }
    i
}

/// Takes the record of the given id out of the list, if there is one.
pub fn remove_by_id(list: &mut Vec<Container>, id: &str)
    requires
        well_formed(old(list)@),
    ensures
        final(list)@ == without_id(old(list)@, id@),
        well_formed(final(list)@),
        id_set(final(list)@) == id_set(old(list)@).remove(id@),
{
    proof {
        lemma_without_id(list@, id@);
    }
    let i = find_by_id(list, id);
    if i < list.len() {
        list.remove(i);
    }
}

/// Puts a record into the list: it replaces the record of the same id, if
/// there is one, and stands behind every record whose name is not above its
/// own.
pub fn upsert(list: &mut Vec<Container>, c: Container)
    requires
        well_formed(old(list)@),
    ensures
        final(list)@ == upserted(old(list)@, c),
        well_formed(final(list)@),
        id_set(final(list)@) == id_set(old(list)@).insert(c.id@),
{
    proof {
        lemma_upserted(list@, c);
    }
    remove_by_id(list, c.id.as_str());
    let mut p: usize = 0;
    while p < list.len() && str_le(list[p].name.as_str(), c.name.as_str())
        invariant
            p <= list@.len(),
            forall|j: int| 0 <= j < p ==> lex_le((#[trigger] list@[j]).name@, c.name@),
        decreases list@.len() - p,
    {
        p += 1;
    }
    proof {
        lemma_insertion_point(list@, c.name@);
    }
    list.insert(p, c);
}

} // verus!
