//! The logical commands of the dashboard and the keys that trigger them.

use vstd::prelude::*;
use crate::key::{key_text, Key};
use crate::text::{
    is_infix, join, join_texts, lemma_infix_of_concat, lemma_infix_transitive,
    lemma_join_holds_part, views_of,
};

verus! {

/// A command the user can give.
#[derive(Clone, Copy, Debug, PartialEq, Eq, Structural)]
pub enum Action {
    Quit,
    ShowLogs,
    ExecCommands,
    SendCMD,
    Next,
    Previous,
    ScrollUp,
    ScrollDown,
    Search,
    Remove,
    StopContainer,
    PauseContainer,
}

/// Every action, in declaration order.
pub open spec fn all_actions() -> Seq<Action> {
    seq![
        Action::Quit,
        Action::ShowLogs,
        Action::ExecCommands,
        Action::SendCMD,
        Action::Next,
        Action::Previous,
        Action::ScrollUp,
        Action::ScrollDown,
        Action::Search,
        Action::Remove,
        Action::StopContainer,
        Action::PauseContainer,
    ]
}

impl Action {
    /// The keys that trigger the action; the first one is shown in the help bar.
    pub open spec fn spec_keys(self) -> Seq<Key> {
        match self {
            Action::Quit => seq![Key::Char('q'), Key::Ctrl('c'), Key::Esc],
            Action::ShowLogs => seq![Key::Char('l'), Key::Enter],
            Action::ExecCommands => seq![Key::Char('e')],
            Action::SendCMD => seq![Key::Enter],
            Action::Next => seq![Key::Down, Key::Char('n'), Key::Right],
            Action::Previous => seq![Key::Up, Key::Left],
            Action::Search => seq![Key::Char('/'), Key::Enter],
            Action::ScrollUp => seq![Key::Up],
            Action::ScrollDown => seq![Key::Down],
            Action::Remove => seq![Key::Backspace],
            Action::StopContainer => seq![Key::Char('s')],
            Action::PauseContainer => seq![Key::Char('p')],
        }
    }

    /// Whether `key` is one of the action's trigger keys.
    pub open spec fn binds(self, key: Key) -> bool {
        self.spec_keys().contains(key)
    }

    /// The action's label in the help bar.
    pub open spec fn label(self) -> Seq<char> {
        match self {
            Action::Quit => "Quit"@,
            Action::ShowLogs => "Show Logs"@,
            Action::ExecCommands => "Exec CMD"@,
            Action::SendCMD => "Send CMD"@,
            Action::Next => "Next"@,
            Action::Previous => "Previous"@,
            Action::Search => "Search"@,
            Action::ScrollUp => "Scroll Up"@,
            Action::ScrollDown => "Scroll Down"@,
            Action::Remove => "Remove"@,
            Action::StopContainer => "Stop Container"@,
            Action::PauseContainer => "Pause Container"@,
        }
    }

    /// The action's entry in the help bar: its first key, a space, its label.
    pub open spec fn text(self) -> Seq<char> {
        key_text(self.spec_keys()[0]) + " "@ + self.label()
    }

    /// All available actions.
    pub fn iterator() -> (r: &'static [Action])
        ensures
            r@ == all_actions(),
    {
        &[
            Action::Quit,
            Action::ShowLogs,
            Action::ExecCommands,
            Action::SendCMD,
            Action::Next,
            Action::Previous,
            Action::ScrollUp,
            Action::ScrollDown,
            Action::Search,
            Action::Remove,
            Action::StopContainer,
            Action::PauseContainer,
        ]
    }

    /// The keys that trigger the action.
    pub fn keys(&self) -> (r: &[Key])
        ensures
            r@ == self.spec_keys(),
            r@.len() > 0,
    {
        match self {
            Action::Quit => &[Key::Char('q'), Key::Ctrl('c'), Key::Esc],
            Action::ShowLogs => &[Key::Char('l'), Key::Enter],
            Action::ExecCommands => &[Key::Char('e')],
            Action::SendCMD => &[Key::Enter],
            Action::Next => &[Key::Down, Key::Char('n'), Key::Right],
            Action::Previous => &[Key::Up, Key::Left],
            Action::Search => &[Key::Char('/'), Key::Enter],
            Action::ScrollUp => &[Key::Up],
            Action::ScrollDown => &[Key::Down],
            Action::Remove => &[Key::Backspace],
            Action::StopContainer => &[Key::Char('s')],
            Action::PauseContainer => &[Key::Char('p')],
        }
    }

    /// Whether `key` triggers the action.
    pub fn has_key(&self, key: Key) -> (r: bool)
        ensures
            r == self.binds(key),
    {
        let keys = self.keys();
        let mut i: usize = 0;
        while i < keys.len()
            invariant
                i <= keys@.len(),
                keys@ == self.spec_keys(),
                forall|j: int| 0 <= j < i ==> keys@[j] != key,
            decreases keys@.len() - i,
        {
            if keys[i] == key {
                return true;
            }
            i += 1;
        }
        false
    }

    /// The action's entry in the help bar.
    pub fn to_string(&self) -> (r: String)
        ensures
            r@ == self.text(),
    {
        let label = match self {
            Action::Quit => "Quit",
            Action::ShowLogs => "Show Logs",
            Action::ExecCommands => "Exec CMD",
            Action::SendCMD => "Send CMD",
            Action::Next => "Next",
            Action::Previous => "Previous",
            Action::Search => "Search",
            Action::ScrollUp => "Scroll Up",
            Action::ScrollDown => "Scroll Down",
            Action::Remove => "Remove",
            Action::StopContainer => "Stop Container",
            Action::PauseContainer => "Pause Container",
        };
        let keys = self.keys();
        let mut s = keys[0].to_string();
        s.append(" ");
        s.append(label);
        s
    }
}


/// The first entry of the list that `key` triggers.
pub open spec fn first_bound(s: Seq<Action>, key: Key) -> Option<Action>
    decreases s.len(),
{
    if s.len() == 0 {
        None
    } else if s[0].binds(key) {
        Some(s[0])
    } else {
        first_bound(s.drop_first(), key)
    }
}

/// No key triggers two entries of the list.
pub open spec fn conflict_free(s: Seq<Action>) -> bool {
    forall|i: int, j: int, k: Key|
        0 <= i < j < s.len() && #[trigger] s[i].binds(k) ==> !#[trigger] s[j].binds(k)
}

/// The entry at `i` is triggered by `key`.
pub open spec fn binds_at(s: Seq<Action>, i: int, key: Key) -> bool {
    0 <= i < s.len() && s[i].binds(key)
}

/// Two different entries of the list are triggered by `key`.
pub open spec fn shared(s: Seq<Action>, key: Key) -> bool {
    exists|i: int, j: int| i < j && #[trigger] binds_at(s, i, key) && #[trigger] binds_at(s, j, key)
}

/// The entries of the list that `key` triggers, in list order.
pub open spec fn binders(s: Seq<Action>, key: Key) -> Seq<Action>
    decreases s.len(),
{
    if s.len() == 0 {
        Seq::empty()
    } else if s.last().binds(key) {
        binders(s.drop_last(), key).push(s.last())
    } else {
        binders(s.drop_last(), key)
    }
}

/// The trigger keys of all entries, one entry after the other.
pub open spec fn bound_keys(s: Seq<Action>) -> Seq<Key>
    decreases s.len(),
{
    if s.len() == 0 {
        Seq::empty()
    } else {
        bound_keys(s.drop_last()) + s.last().spec_keys()
    }
}

/// Among the first `n` keys of `flat`, those that more than one entry of `s`
/// binds; each is listed where it first occurs.
pub open spec fn conflict_keys_upto(flat: Seq<Key>, s: Seq<Action>, n: int) -> Seq<Key>
    decreases n,
{
    if n <= 0 {
        Seq::empty()
    } else {
        let rest = conflict_keys_upto(flat, s, n - 1);
        let k = flat[n - 1];
        if !flat.subrange(0, n - 1).contains(k) && binders(s, k).len() > 1 {
            rest.push(k)
        } else {
            rest
        }
    }
}

/// The keys that more than one entry of `s` binds, each once, in the order
/// in which the list first binds them.
pub open spec fn conflict_keys(s: Seq<Action>) -> Seq<Key> {
    conflict_keys_upto(bound_keys(s), s, bound_keys(s).len() as int)
}

/// A key together with the actions that compete for it.
pub struct KeyConflict {
    pub key: Key,
    pub actions: Vec<Action>,
}

impl KeyConflict {
    /// The conflict in words.
    pub open spec fn text(self) -> Seq<char> {
        "Conflict key "@ + key_text(self.key) + " with actions "@ + join_texts(
            action_texts(self.actions@),
            ", "@,
        )
    }

    /// The conflict in words: the key, then the competing actions.
    pub fn to_string(&self) -> (r: String)
        ensures
            r@ == self.text(),
    {
        let names = render_actions(&self.actions);
        let list = join(&names, ", ");
        let mut s = String::from_str("Conflict key ");
        s.append(self.key.to_string().as_str());
        s.append(" with actions ");
        s.append(list.as_str());
        s
    }
}

/// The help-bar entries of a list of actions.
pub open spec fn action_texts(s: Seq<Action>) -> Seq<Seq<char>> {
    s.map_values(|a: Action| a.text())
}

/// The keys of a list of conflicts.
pub open spec fn conflict_entry_keys(c: Seq<KeyConflict>) -> Seq<Key> {
    c.map_values(|e: KeyConflict| e.key)
}

/// The wording of a list of conflicts.
pub open spec fn conflict_texts(c: Seq<KeyConflict>) -> Seq<Seq<char>> {
    c.map_values(|e: KeyConflict| e.text())
}

fn render_actions(actions: &Vec<Action>) -> (r: Vec<String>)
    ensures
        views_of(r@) == action_texts(actions@),
{
    let mut out: Vec<String> = Vec::new();
    let mut i: usize = 0;
    while i < actions.len()
        invariant
            i <= actions@.len(),
            out@.len() == i,
            forall|j: int| 0 <= j < i ==> (#[trigger] out@[j])@ == actions@[j].text(),
        decreases actions@.len() - i,
    {
        out.push(actions[i].to_string());
        i += 1;
    }
    assert(views_of(out@) =~= action_texts(actions@));
    out
}

/// Why a list of actions cannot serve as a registry: the keys that several
/// of its actions claim.
pub struct BindingError {
    pub conflicts: Vec<KeyConflict>,
}

impl BindingError {
    /// All conflicts in words, separated by semicolons.
    pub open spec fn text(self) -> Seq<char> {
        join_texts(conflict_texts(self.conflicts@), "; "@)
    }

    /// All conflicts in words, separated by semicolons.
    pub fn message(&self) -> (r: String)
        ensures
            r@ == self.text(),
    {
        let mut parts: Vec<String> = Vec::new();
        let mut i: usize = 0;
        while i < self.conflicts.len()
            invariant
                i <= self.conflicts@.len(),
                parts@.len() == i,
                forall|j: int| 0 <= j < i ==> (#[trigger] parts@[j])@ == self.conflicts@[j].text(),
            decreases self.conflicts@.len() - i,
        {
            parts.push(self.conflicts[i].to_string());
            i += 1;
        }
        assert(views_of(parts@) =~= conflict_texts(self.conflicts@));
        join(&parts, "; ")
    }
}


/// `binders` has an element exactly when some entry binds the key, and two
/// exactly when the key is shared.
pub proof fn lemma_binders_count(s: Seq<Action>, key: Key)
    ensures
        binders(s, key).len() >= 1 <==> exists|i: int| #[trigger] binds_at(s, i, key),
        binders(s, key).len() >= 2 <==> shared(s, key),
    decreases s.len(),
{
    if s.len() > 0 {
        let t = s.drop_last();
        let n = s.len() - 1;
        lemma_binders_count(t, key);
        assert forall|i: int| #[trigger] binds_at(t, i, key) implies binds_at(s, i, key) by {}
        assert forall|i: int| #[trigger] binds_at(s, i, key) && i != n implies binds_at(
            t,
            i,
            key,
        ) by {}
        if binders(s, key).len() >= 1 {
            if s.last().binds(key) {
                assert(binds_at(s, n, key));
            } else {
                let i = choose|i: int| binds_at(t, i, key);
                assert(binds_at(s, i, key));
            }
        }
        if exists|i: int| binds_at(s, i, key) {
            let i = choose|i: int| binds_at(s, i, key);
            if i != n {
                assert(binds_at(t, i, key));
            }
        }
        if binders(s, key).len() >= 2 {
            if s.last().binds(key) {
                let i = choose|i: int| binds_at(t, i, key);
                assert(binds_at(s, i, key) && binds_at(s, n, key) && i < n);
            } else {
                let (i, j) = choose|i: int, j: int|
                    i < j && #[trigger] binds_at(t, i, key) && #[trigger] binds_at(t, j, key);
                assert(binds_at(s, i, key) && binds_at(s, j, key));
            }
        }
        if shared(s, key) {
            let (i, j) = choose|i: int, j: int|
                i < j && #[trigger] binds_at(s, i, key) && #[trigger] binds_at(s, j, key);
            assert(binds_at(t, i, key));
            if j != n {
                assert(binds_at(t, j, key));
            }
        }
    }
}

/// An entry that binds the key is among the key's binders.
pub proof fn lemma_binders_contains(s: Seq<Action>, i: int, key: Key)
    requires
        binds_at(s, i, key),
    ensures
        binders(s, key).contains(s[i]),
    decreases s.len(),
{
    let t = s.drop_last();
    let n = s.len() - 1;
    if i == n {
        let b = binders(s, key);
        assert(b[b.len() - 1] == s[i]);
    } else {
        lemma_binders_contains(t, i, key);
        let idx = choose|idx: int| 0 <= idx < binders(t, key).len() && binders(t, key)[idx] == t[i];
        assert(binders(s, key)[idx] == s[i]);
    }
}

/// A key is among the bound keys exactly when some entry binds it.
pub proof fn lemma_bound_keys_members(s: Seq<Action>, key: Key)
    ensures
        bound_keys(s).contains(key) <==> exists|i: int| #[trigger] binds_at(s, i, key),
    decreases s.len(),
{
    if s.len() > 0 {
        let t = s.drop_last();
        let n = s.len() - 1;
        let own = s.last().spec_keys();
        lemma_bound_keys_members(t, key);
        assert forall|i: int| #[trigger] binds_at(t, i, key) implies binds_at(s, i, key) by {}
        if bound_keys(s).contains(key) {
            let p = choose|p: int| 0 <= p < bound_keys(s).len() && bound_keys(s)[p] == key;
            if p < bound_keys(t).len() {
                assert(bound_keys(t)[p] == key);
                let i = choose|i: int| binds_at(t, i, key);
                assert(binds_at(s, i, key));
            } else {
                assert(own[p - bound_keys(t).len()] == key);
                assert(binds_at(s, n, key));
            }
        }
        if exists|i: int| binds_at(s, i, key) {
            let i = choose|i: int| binds_at(s, i, key);
            if i == n {
                let q = choose|q: int| 0 <= q < own.len() && own[q] == key;
                assert(bound_keys(s)[bound_keys(t).len() + q] == key);
            } else {
                assert(binds_at(t, i, key));
                let p = choose|p: int| 0 <= p < bound_keys(t).len() && bound_keys(t)[p] == key;
                assert(bound_keys(s)[p] == key);
            }
        }
    }
}

/// A key is reported among the first `n` exactly when it occurs there and is
/// bound more than once; no key is reported twice.
pub proof fn lemma_conflict_keys_upto(flat: Seq<Key>, s: Seq<Action>, n: int)
    requires
        0 <= n <= flat.len(),
    ensures
        forall|key: Key|
            conflict_keys_upto(flat, s, n).contains(key) <==> (flat.subrange(0, n).contains(key)
                && binders(s, key).len() > 1),
        conflict_keys_upto(flat, s, n).no_duplicates(),
    decreases n,
{
    if n > 0 {
        lemma_conflict_keys_upto(flat, s, n - 1);
        let rest = conflict_keys_upto(flat, s, n - 1);
        let now = conflict_keys_upto(flat, s, n);
        let k = flat[n - 1];
        let before = flat.subrange(0, n - 1);
        let upto = flat.subrange(0, n);
        assert(upto =~= before.push(k));
        let pushes = !before.contains(k) && binders(s, k).len() > 1;
        assert forall|key: Key|
            now.contains(key) <==> (upto.contains(key) && binders(s, key).len() > 1) by {
            if now.contains(key) {
                let p = choose|p: int| 0 <= p < now.len() && now[p] == key;
                if p < rest.len() {
                    assert(rest[p] == key);
                    assert(rest.contains(key));
                    let q = choose|q: int| 0 <= q < before.len() && before[q] == key;
                    assert(upto[q] == key);
                } else {
                    assert(key == k);
                    assert(upto[n - 1] == key);
                }
            }
            if upto.contains(key) && binders(s, key).len() > 1 {
                let q = choose|q: int| 0 <= q < upto.len() && upto[q] == key;
                if before.contains(key) {
                    assert(rest.contains(key));
                    let p = choose|p: int| 0 <= p < rest.len() && rest[p] == key;
                    assert(now[p] == key);
                } else {
                    if q < n - 1 {
                        assert(before[q] == key);
                    }
                    assert(key == k);
                    assert(now[rest.len() as int] == key);
                }
            }
        }
        if pushes {
            assert(!rest.contains(k));
        }
    }
}

/// A list is free of conflicts exactly when it reports no conflicting key.
pub proof fn lemma_conflict_free_iff_nothing_reported(s: Seq<Action>)
    ensures
        conflict_free(s) <==> conflict_keys(s).len() == 0,
{
    let flat = bound_keys(s);
    let found = conflict_keys(s);
    lemma_conflict_keys_upto(flat, s, flat.len() as int);
    assert(flat.subrange(0, flat.len() as int) =~= flat);
    if found.len() > 0 {
        let k = found[0];
        assert(found.contains(k));
        lemma_binders_count(s, k);
        let (i, j) = choose|i: int, j: int|
            i < j && #[trigger] binds_at(s, i, k) && #[trigger] binds_at(s, j, k);
        assert(s[i].binds(k) && s[j].binds(k));
    }
    if !conflict_free(s) {
        let (i, j, k) = choose|i: int, j: int, k: Key|
            0 <= i < j < s.len() && #[trigger] s[i].binds(k) && #[trigger] s[j].binds(k);
        lemma_shared_key_is_reported(s, i, j, k);
    }
}

/// Whenever two entries of a list share a key, the list has a conflict, the
/// key is reported, and both entries are named among the key's binders.
pub proof fn lemma_shared_key_is_reported(s: Seq<Action>, i: int, j: int, key: Key)
    requires
        0 <= i < j < s.len(),
        s[i].binds(key),
        s[j].binds(key),
    ensures
        !conflict_free(s),
        conflict_keys(s).contains(key),
        binders(s, key).contains(s[i]),
        binders(s, key).contains(s[j]),
{
    let flat = bound_keys(s);
    assert(binds_at(s, i, key) && binds_at(s, j, key));
    lemma_binders_count(s, key);
    lemma_binders_contains(s, i, key);
    lemma_binders_contains(s, j, key);
    lemma_bound_keys_members(s, key);
    lemma_conflict_keys_upto(flat, s, flat.len() as int);
    assert(flat.subrange(0, flat.len() as int) =~= flat);
}


fn binders_of(actions: &Vec<Action>, key: Key) -> (r: Vec<Action>)
    ensures
        r@ == binders(actions@, key),
{
    let mut out: Vec<Action> = Vec::new();
    let mut i: usize = 0;
    while i < actions.len()
        invariant
            i <= actions@.len(),
            out@ == binders(actions@.subrange(0, i as int), key),
        decreases actions@.len() - i,
    {
        proof {
            let next = actions@.subrange(0, i + 1);
            assert(next.drop_last() =~= actions@.subrange(0, i as int));
            assert(next.last() == actions@[i as int]);
        }
        if actions[i].has_key(key) {
            out.push(actions[i]);
        }
        i += 1;
    }
    assert(actions@.subrange(0, i as int) =~= actions@);
    out
}

fn flatten_keys(actions: &Vec<Action>) -> (r: Vec<Key>)
    ensures
        r@ == bound_keys(actions@),
{
    let mut out: Vec<Key> = Vec::new();
    let mut i: usize = 0;
    while i < actions.len()
        invariant
            i <= actions@.len(),
            out@ == bound_keys(actions@.subrange(0, i as int)),
        decreases actions@.len() - i,
    {
        let keys = actions[i].keys();
        let ghost base = out@;
        let mut j: usize = 0;
        while j < keys.len()
            invariant
                j <= keys@.len(),
                out@ == base + keys@.subrange(0, j as int),
            decreases keys@.len() - j,
        {
            out.push(keys[j]);
            assert(keys@.subrange(0, j + 1) =~= keys@.subrange(0, j as int).push(keys@[j as int]));
            j += 1;
        }
        proof {
            let next = actions@.subrange(0, i + 1);
            assert(next.drop_last() =~= actions@.subrange(0, i as int));
            assert(next.last() == actions@[i as int]);
            assert(keys@.subrange(0, j as int) =~= keys@);
        }
        i += 1;
    }
    assert(actions@.subrange(0, i as int) =~= actions@);
    out
}

fn occurs_before(flat: &Vec<Key>, p: usize) -> (r: bool)
    requires
        p < flat@.len(),
    ensures
        r == flat@.subrange(0, p as int).contains(flat@[p as int]),
{
    let mut q: usize = 0;
    while q < p
        invariant
            q <= p < flat@.len(),
            forall|x: int| 0 <= x < q ==> flat@[x] != flat@[p as int],
        decreases p - q,
    {
        if flat[q] == flat[p] {
            assert(flat@.subrange(0, p as int)[q as int] == flat@[p as int]);
            return true;
        }
        q += 1;
    }
    false
}

fn find_conflicts(actions: &Vec<Action>) -> (r: Vec<KeyConflict>)
    ensures
        conflict_entry_keys(r@) == conflict_keys(actions@),
        forall|p: int|
            0 <= p < r@.len() ==> (#[trigger] r@[p]).actions@ == binders(actions@, r@[p].key),
{
    let flat = flatten_keys(actions);
    let mut out: Vec<KeyConflict> = Vec::new();
    let mut p: usize = 0;
    while p < flat.len()
        invariant
            p <= flat@.len(),
            flat@ == bound_keys(actions@),
            conflict_entry_keys(out@) == conflict_keys_upto(flat@, actions@, p as int),
            forall|x: int|
                0 <= x < out@.len() ==> (#[trigger] out@[x]).actions@ == binders(
                    actions@,
                    out@[x].key,
                ),
        decreases flat@.len() - p,
    {
        let key = flat[p];
        let ghost before = out@;
        if !occurs_before(&flat, p) {
            let who = binders_of(actions, key);
            if who.len() > 1 {
                out.push(KeyConflict { key, actions: who });
                assert(conflict_entry_keys(out@) =~= conflict_entry_keys(before).push(key));
            }
        }
        p += 1;
    }
    out
}

/// The actions that are valid in one mode, with the keys that trigger them.
#[derive(Clone, Debug)]
pub struct Actions(Vec<Action>);

impl View for Actions {
    type V = Seq<Action>;

    closed spec fn view(&self) -> Seq<Action> {
        self.0@
    }
}

impl Actions {
    /// A registry is well formed when no key triggers two of its actions.
    pub open spec fn wf(&self) -> bool {
        conflict_free(self@)
    }

    /// Given a key, the first action of the registry that it triggers.
    pub fn find(&self, key: Key) -> (r: Option<&Action>)
        ensures
            match r {
                Some(a) => first_bound(self@, key) == Some(*a),
                None => first_bound(self@, key) is None,
            },
            match r {
                Some(a) => exists|i: int|
                    #![trigger self@[i]]
                    0 <= i < self@.len() && self@[i] == *a && a.binds(key) && forall|j: int|
                        0 <= j < i ==> !(#[trigger] self@[j]).binds(key),
                None => forall|i: int| 0 <= i < self@.len() ==> !(#[trigger] self@[i]).binds(key),
            },
    {
        let mut i: usize = 0;
        assert(self@.subrange(0, self@.len() as int) =~= self@);
        while i < self.0.len()
            invariant
                i <= self@.len(),
                forall|j: int| 0 <= j < i ==> !(#[trigger] self@[j]).binds(key),
                first_bound(self@, key) == first_bound(
                    self@.subrange(i as int, self@.len() as int),
                    key,
                ),
            decreases self@.len() - i,
        {
            let ghost rest = self@.subrange(i as int, self@.len() as int);
            assert(rest[0] == self@[i as int]);
            assert(rest.drop_first() =~= self@.subrange(i + 1, self@.len() as int));
            if self.0[i].has_key(key) {
                return Some(&self.0[i]);
            }
            i += 1;
        }
        None
    }

    /// The actions of the registry, in the order in which they were given.
    pub fn actions(&self) -> (r: &[Action])
        ensures
            r@ == self@,
    {
        self.0.as_slice()
    }

    /// Builds the registry of a list of actions, or reports every key that
    /// more than one of them claims. The message of such an error names
    /// every action that shares a key with another.
    pub fn build(actions: Vec<Action>) -> (r: Result<Actions, BindingError>)
        ensures
            r is Ok <==> conflict_free(actions@),
            r matches Ok(registry) ==> registry@ == actions@ && registry.wf(),
            r matches Err(e) ==> {
                &&& conflict_entry_keys(e.conflicts@) == conflict_keys(actions@)
                &&& forall|p: int|
                    0 <= p < e.conflicts@.len() ==> (#[trigger] e.conflicts@[p]).actions@
                        == binders(actions@, e.conflicts@[p].key)
            },
            r matches Err(e) ==> forall|i: int, j: int, k: Key|
                0 <= i < j < actions@.len() && #[trigger] actions@[i].binds(k)
                    && #[trigger] actions@[j].binds(k) ==> is_infix(actions@[i].text(), e.text())
                    && is_infix(actions@[j].text(), e.text()),
    {
        let conflicts = find_conflicts(&actions);
        proof {
            lemma_conflict_free_iff_nothing_reported(actions@);
        }
        if conflicts.len() == 0 {
            Ok(Actions(actions))
        } else {
            let e = BindingError { conflicts };
            proof {
                assert forall|i: int, j: int, k: Key|
                    0 <= i < j < actions@.len() && #[trigger] actions@[i].binds(k)
                        && #[trigger] actions@[j].binds(k) implies is_infix(
                    actions@[i].text(),
                    e.text(),
                ) && is_infix(actions@[j].text(), e.text()) by {
                    lemma_message_names_both(actions@, e, i, j, k);
                }
            }
            Err(e)
        }
    }

    /// The registry of a list of actions in which no key is claimed twice.
    pub fn from(actions: Vec<Action>) -> (r: Actions)
        requires
            conflict_free(actions@),
        ensures
            r@ == actions@,
            r.wf(),
    {
        Actions(actions)
    }

    /// The help bar: the entries of all actions, separated by bars.
    pub open spec fn text(self) -> Seq<char> {
        join_texts(action_texts(self@), " | "@)
    }

    /// The help bar: the entries of all actions, separated by bars.
    pub fn to_string(&self) -> (r: String)
        ensures
            r@ == self.text(),
    {
        let names = render_actions(&self.0);
        join(&names, " | ")
    }
}

impl Default for Actions {
    fn default() -> (r: Actions)
        ensures
            r@ == Seq::<Action>::empty(),
            r.wf(),
    {
        Actions(Vec::new())
    }
}

/// In a well-formed registry a key triggers at most one action.
pub proof fn lemma_bound_key_has_one_action(s: Seq<Action>, i: int, j: int, key: Key)
    requires
        conflict_free(s),
        0 <= i < s.len(),
        0 <= j < s.len(),
        s[i].binds(key),
        s[j].binds(key),
    ensures
        i == j,
{
}


/// An action that a conflict lists is named in the conflict's wording, and
/// in the wording of every error that holds the conflict.
pub proof fn lemma_message_names_action(e: BindingError, p: int, q: int)
    requires
        0 <= p < e.conflicts@.len(),
        0 <= q < e.conflicts@[p].actions@.len(),
    ensures
        is_infix(e.conflicts@[p].actions@[q].text(), e.conflicts@[p].text()),
        is_infix(e.conflicts@[p].actions@[q].text(), e.text()),
{
    let c = e.conflicts@[p];
    let a = c.actions@[q];
    let names = action_texts(c.actions@);
    let list = join_texts(names, ", "@);
    let head = "Conflict key "@ + key_text(c.key) + " with actions "@;
    lemma_join_holds_part(names, ", "@, q);
    lemma_infix_of_concat(list, head, Seq::empty());
    assert(head + list + Seq::<char>::empty() =~= c.text());
    lemma_infix_transitive(a.text(), list, c.text());
    lemma_join_holds_part(conflict_texts(e.conflicts@), "; "@, p);
    lemma_infix_transitive(a.text(), c.text(), e.text());
}

/// Whenever two entries of a list share a key, an error that reports the
/// list's conflicts names both entries in its message.
pub proof fn lemma_message_names_both(s: Seq<Action>, e: BindingError, i: int, j: int, key: Key)
    requires
        0 <= i < j < s.len(),
        s[i].binds(key),
        s[j].binds(key),
        conflict_entry_keys(e.conflicts@) == conflict_keys(s),
        forall|p: int|
            0 <= p < e.conflicts@.len() ==> (#[trigger] e.conflicts@[p]).actions@ == binders(
                s,
                e.conflicts@[p].key,
            ),
    ensures
        is_infix(s[i].text(), e.text()),
        is_infix(s[j].text(), e.text()),
{
    lemma_shared_key_is_reported(s, i, j, key);
    let keys = conflict_entry_keys(e.conflicts@);
    let p = choose|p: int| 0 <= p < keys.len() && keys[p] == key;
    let who = e.conflicts@[p].actions@;
    assert(who == binders(s, key));
    let qi = choose|q: int| 0 <= q < who.len() && who[q] == s[i];
    let qj = choose|q: int| 0 <= q < who.len() && who[q] == s[j];
    lemma_message_names_action(e, p, qi);
    lemma_message_names_action(e, p, qj);
}

/// What `find` gives in a list: nothing exactly when no entry is triggered
/// by the key, and otherwise the first entry that is.
pub proof fn lemma_first_bound(s: Seq<Action>, key: Key)
    ensures
        first_bound(s, key) is None <==> forall|i: int|
            0 <= i < s.len() ==> !(#[trigger] s[i]).binds(key),
        first_bound(s, key) matches Some(a) ==> exists|i: int|
            #![trigger s[i]]
            0 <= i < s.len() && s[i] == a && a.binds(key) && forall|j: int|
                0 <= j < i ==> !(#[trigger] s[j]).binds(key),
    decreases s.len(),
{
    if s.len() > 0 {
        let t = s.drop_first();
        lemma_first_bound(t, key);
        if s[0].binds(key) {
            assert(s[0] == first_bound(s, key)->0);
        } else {
            assert forall|i: int| 0 < i < s.len() implies s[i] == t[i - 1] by {}
            if first_bound(t, key) is None {
                assert forall|i: int| 0 <= i < s.len() implies !(#[trigger] s[i]).binds(key) by {
                    if i > 0 {
                        assert(!t[i - 1].binds(key));
                    }
                }
            } else {
                let a = first_bound(t, key)->0;
                let i = choose|i: int|
                    #![trigger t[i]]
                    0 <= i < t.len() && t[i] == a && a.binds(key) && forall|j: int|
                        0 <= j < i ==> !(#[trigger] t[j]).binds(key);
                assert(s[i + 1] == a);
                assert forall|j: int| 0 <= j < i + 1 implies !(#[trigger] s[j]).binds(key) by {
                    if j > 0 {
                        assert(!t[j - 1].binds(key));
                    }
                }
            }
        }
    }
}

/// In a registry without conflicts a key finds the one action that it
/// triggers, wherever that action stands, and finds nothing exactly when it
/// triggers none.
pub proof fn lemma_find_gives_the_one_action(s: Seq<Action>, i: int, key: Key)
    requires
        conflict_free(s),
        0 <= i < s.len(),
        s[i].binds(key),
    ensures
        first_bound(s, key) == Some(s[i]),
{
    lemma_first_bound(s, key);
}

} // verus!
