//! Semantic actions and the key-binding registry. An action is a pure
//! identifier with a fixed set of trigger keys; a registry is an ordered list
//! of actions valid in the current context, rejected at construction when two
//! of them share a trigger key.

use vstd::prelude::*;
use crate::inputs::Key;

verus! {

/// A semantic operation the user can trigger with a key press.
#[derive(Debug, Clone, Copy, PartialEq, Eq, Structural)]
pub enum Action {
    /// Leave the event loop.
    Quit,
    /// Ask the async worker to sleep for the configured delay.
    Sleep,
    /// Raise the configured delay by one second, capped at ten.
    IncrementDelay,
    /// Lower the configured delay by one second, floored at one.
    DecrementDelay,
}

impl Action {
    /// The canonical enumeration order of all actions; lookups resolve in
    /// this order, not in registry insertion order.
    pub open spec fn spec_all() -> Seq<Action> {
        seq![Action::Quit, Action::Sleep, Action::IncrementDelay, Action::DecrementDelay]
    }

    /// Every action value occurs in the canonical enumeration.
    pub proof fn lemma_all_complete(a: Action)
        ensures
            Action::spec_all().contains(a),
    {
        match a {
            Action::Quit => assert(Action::spec_all()[0] == a),
            Action::Sleep => assert(Action::spec_all()[1] == a),
            Action::IncrementDelay => assert(Action::spec_all()[2] == a),
            Action::DecrementDelay => assert(Action::spec_all()[3] == a),
        }
    }

    /// All actions, in the canonical enumeration order.
    pub fn iterator() -> (r: Vec<Action>)
        ensures
            r@ == Action::spec_all(),
    {
        let v = vec![
            Action::Quit,
            Action::Sleep,
            Action::IncrementDelay,
            Action::DecrementDelay,
        ];
        proof {
            assert(v@ =~= Action::spec_all());
        }
        v
    }

    /// The fixed trigger keys of each action.
    pub open spec fn spec_keys(self) -> Seq<Key> {
        match self {
            Action::Quit => seq![Key::Char('q'), Key::Ctrl('c')],
            Action::Sleep => seq![Key::Char('s')],
            Action::IncrementDelay => seq![Key::Char('i')],
            Action::DecrementDelay => seq![Key::Char('d')],
        }
    }

    /// Whether `k` is one of this action's trigger keys.
    pub open spec fn owns(self, k: Key) -> bool {
        self.spec_keys().contains(k)
    }

    /// The trigger keys of this action.
    pub fn keys(&self) -> (r: Vec<Key>)
        ensures
            r@ == self.spec_keys(),
    {
        match self {
            Action::Quit => {
                let v = vec![Key::Char('q'), Key::Ctrl('c')];
                proof {
                    assert(v@ =~= self.spec_keys());
                }
                v
            }
            Action::Sleep => {
                let v = vec![Key::Char('s')];
                proof {
                    assert(v@ =~= self.spec_keys());
                }
                v
            }
            Action::IncrementDelay => {
                let v = vec![Key::Char('i')];
                proof {
                    assert(v@ =~= self.spec_keys());
                }
                v
            }
            Action::DecrementDelay => {
                let v = vec![Key::Char('d')];
                proof {
                    assert(v@ =~= self.spec_keys());
                }
                v
            }
        }
    }

    /// Human-readable name of the action, used when a binding conflict is
    /// reported.
    pub fn label(&self) -> (r: &'static str)
        ensures
            r@ == match *self {
                Action::Quit => "Quit"@,
                Action::Sleep => "Sleep"@,
                Action::IncrementDelay => "Increment Delay"@,
                Action::DecrementDelay => "Decrement Delay"@,
            },
    {
        match self {
            Action::Quit => "Quit",
            Action::Sleep => "Sleep",
            Action::IncrementDelay => "Increment Delay",
            Action::DecrementDelay => "Decrement Delay",
        }
    }
}

/// Whether `keys` holds `k`.
fn key_list_contains(keys: &Vec<Key>, k: Key) -> (r: bool)
    ensures
        r == keys@.contains(k),
{
    let mut i: usize = 0;
    while i < keys.len()
        invariant
            i <= keys@.len(),
            forall|m: int| 0 <= m < i ==> keys@[m] != k,
        decreases keys@.len() - i,
    {
        if keys[i] == k {
            return true;
        }
        i = i + 1;
    }
    false
}

/// Whether `list` holds `a`.
fn action_list_contains(list: &Vec<Action>, a: Action) -> (r: bool)
    ensures
        r == list@.contains(a),
{
    let mut i: usize = 0;
    while i < list.len()
        invariant
            i <= list@.len(),
            forall|m: int| 0 <= m < i ==> list@[m] != a,
        decreases list@.len() - i,
    {
        if list[i] == a {
            return true;
        }
        i = i + 1;
    }
    false
}

/// Positions `i` and `j` of `list` both bind the key `k`.
pub open spec fn conflict_at(list: Seq<Action>, i: int, j: int, k: Key) -> bool {
    0 <= i < j < list.len() && list[i].owns(k) && list[j].owns(k)
}

/// Some trigger key is bound by two positions of `list`.
pub open spec fn has_conflict(list: Seq<Action>) -> bool {
    exists|i: int, j: int, k: Key| conflict_at(list, i, j, k)
}

/// The first action of `order` that stands in `list` and binds `k`.
pub open spec fn first_match(order: Seq<Action>, list: Seq<Action>, k: Key) -> Option<Action>
    decreases order.len(),
{
    if order.len() == 0 {
        None
    } else if list.contains(order[0]) && order[0].owns(k) {
        Some(order[0])
    } else {
        first_match(order.drop_first(), list, k)
    }
}

/// What a lookup of `k` in a registry whose list is `list` resolves to:
/// the first owner of `k` in the canonical enumeration order that is present
/// in the list.
pub open spec fn spec_find(list: Seq<Action>, k: Key) -> Option<Action> {
    first_match(Action::spec_all(), list, k)
}

/// One reported binding conflict: a key bound by two or more registered
/// actions, with every action of the list that binds it, in list order.
#[derive(Debug, Clone)]
pub struct Conflict {
    pub key: Key,
    pub actions: Vec<Action>,
}

/// The entry is a real conflict of `list`: at least two offenders, each of
/// which binds the reported key and stands in the list.
pub open spec fn conflict_entry_wf(c: Conflict, list: Seq<Action>) -> bool {
    &&& c.actions@.len() >= 2
    &&& forall|m: int| 0 <= m < c.actions@.len()
            ==> (#[trigger] c.actions@[m]).owns(c.key) && list.contains(c.actions@[m])
}

/// The entry reports key `k` and lists every action of `list` that binds `k`.
pub open spec fn conflict_entry_covers(c: Conflict, list: Seq<Action>, k: Key) -> bool {
    &&& c.key == k
    &&& forall|t: int| 0 <= t < list.len() && (#[trigger] list[t]).owns(k)
            ==> c.actions@.contains(list[t])
}

proof fn lemma_push_preserves_contains<A>(s: Seq<A>, x: A, y: A)
    requires
        s.contains(y),
    ensures
        s.push(x).contains(y),
{
    let i = choose|i: int| 0 <= i < s.len() && s[i] == y;
    assert(s.push(x)[i] == y);
}

/// Every trigger key bound by some action of `list`, deduplicated.
fn keys_of_list(list: &Vec<Action>) -> (r: Vec<Key>)
    ensures
        forall|t: int, k: Key|
            0 <= t < list@.len() && #[trigger] list@[t].owns(k) ==> r@.contains(k),
{
    let mut r: Vec<Key> = Vec::new();
    let mut t: usize = 0;
    while t < list.len()
        invariant
            t <= list@.len(),
            forall|u: int, k: Key|
                0 <= u < t && #[trigger] list@[u].owns(k) ==> r@.contains(k),
        decreases list@.len() - t,
    {
        let a = list[t];
        let a_keys = a.keys();
        let mut n: usize = 0;
        while n < a_keys.len()
            invariant
                n <= a_keys@.len(),
                a_keys@ == a.spec_keys(),
                a == list@[t as int],
                t < list@.len(),
                forall|u: int, k: Key|
                    0 <= u < t && #[trigger] list@[u].owns(k) ==> r@.contains(k),
                forall|m: int| 0 <= m < n ==> r@.contains(#[trigger] a_keys@[m]),
            decreases a_keys@.len() - n,
        {
            let k = a_keys[n];
            if !key_list_contains(&r, k) {
                let ghost old_r = r@;
                r.push(k);
                proof {
                    assert forall|u: int, kk: Key|
                        0 <= u < t && #[trigger] list@[u].owns(kk) implies r@.contains(kk) by {
                        lemma_push_preserves_contains(old_r, k, kk);
                    }
                    assert forall|m: int| 0 <= m < n implies r@.contains(#[trigger] a_keys@[m]) by {
                        lemma_push_preserves_contains(old_r, k, a_keys@[m]);
                    }
                    assert(r@[old_r.len() as int] == k);
                }
            }
            n = n + 1;
        }
        proof {
            assert forall|u: int, k: Key|
                0 <= u < t + 1 && #[trigger] list@[u].owns(k) implies r@.contains(k) by {
                if u == t {
                    let m = choose|m: int| 0 <= m < a.spec_keys().len() && a.spec_keys()[m] == k;
                    assert(r@.contains(a_keys@[m]));
                }
            }
        }
        t = t + 1;
    }
    r
}

/// Every action of `list` that binds `k`, in list order, one entry per
/// position (so a repeated action counts each of its occurrences).
fn owners_of(list: &Vec<Action>, k: Key) -> (r: Vec<Action>)
    ensures
        forall|m: int| 0 <= m < r@.len()
            ==> (#[trigger] r@[m]).owns(k) && list@.contains(r@[m]),
        forall|t: int| 0 <= t < list@.len() && (#[trigger] list@[t]).owns(k)
            ==> r@.contains(list@[t]),
        r@.len() >= 2 <==> (exists|i: int, j: int| conflict_at(list@, i, j, k)),
{
    let mut r: Vec<Action> = Vec::new();
    let ghost mut idxs: Seq<int> = Seq::empty();
    let mut t: usize = 0;
    while t < list.len()
        invariant
            t <= list@.len(),
            r@.len() == idxs.len(),
            forall|m: int| 0 <= m < idxs.len() ==> 0 <= #[trigger] idxs[m] < t,
            forall|m: int| 0 <= m < idxs.len() - 1 ==> #[trigger] idxs[m] < idxs[m + 1],
            forall|m: int| 0 <= m < idxs.len()
                ==> r@[m] == list@[#[trigger] idxs[m]] && list@[idxs[m]].owns(k),
            forall|u: int| 0 <= u < t && (#[trigger] list@[u]).owns(k) ==> idxs.contains(u),
        decreases list@.len() - t,
    {
        let a = list[t];
        let a_keys = a.keys();
        if key_list_contains(&a_keys, k) {
            let ghost old_idxs = idxs;
            r.push(a);
            proof {
                idxs = idxs.push(t as int);
                assert forall|u: int|
                    0 <= u < t + 1 && (#[trigger] list@[u]).owns(k) implies idxs.contains(u) by {
                    if u < t {
                        lemma_push_preserves_contains(old_idxs, t as int, u);
                    } else {
                        assert(idxs[old_idxs.len() as int] == t as int);
                    }
                }
            }
        }
        t = t + 1;
    }
    proof {
        // at least two owners exactly when two positions bind the key
        assert forall|m: int| 0 <= m < r@.len()
            implies (#[trigger] r@[m]).owns(k) && list@.contains(r@[m]) by {
            assert(list@[idxs[m]] == r@[m]);
        }
        if r@.len() >= 2 {
            assert(idxs.len() >= 2);
            assert(0 <= 0 < idxs.len() && 0 <= 1 < idxs.len());
            assert(r@[0] == list@[idxs[0]] && list@[idxs[0]].owns(k));
            assert(r@[1] == list@[idxs[1]] && list@[idxs[1]].owns(k));
            assert(idxs[0] < idxs[1]);
            assert(conflict_at(list@, idxs[0], idxs[1], k));
        }
        if exists|i: int, j: int| conflict_at(list@, i, j, k) {
            let (i, j) = choose|i: int, j: int| conflict_at(list@, i, j, k);
            assert(idxs.contains(i));
            assert(idxs.contains(j));
            let mi = choose|mi: int| 0 <= mi < idxs.len() && idxs[mi] == i;
            let mj = choose|mj: int| 0 <= mj < idxs.len() && idxs[mj] == j;
            assert(mi != mj);
            assert(idxs.len() >= 2);
        }
        assert forall|t2: int| 0 <= t2 < list@.len() && (#[trigger] list@[t2]).owns(k)
            implies r@.contains(list@[t2]) by {
            assert(idxs.contains(t2));
            let m = choose|m: int| 0 <= m < idxs.len() && idxs[m] == t2;
            assert(r@[m] == list@[t2]);
        }
    }
    r
}

/// Registry of the actions valid in the current context, in the order they
/// were given at construction.
#[derive(Debug, Clone)]
pub struct Actions(pub Vec<Action>);

impl View for Actions {
    type V = Seq<Action>;

    open spec fn view(&self) -> Seq<Action> {
        self.0@
    }
}

impl Actions {
    /// No two registered actions share a trigger key.
    pub open spec fn wf(self) -> bool {
        !has_conflict(self@)
    }

    /// Builds the contextual registry, validating key unicity. Construction
    /// succeeds exactly when no trigger key is bound twice; otherwise the
    /// report holds, for every key bound by two positions of the list, an
    /// entry that lists every offending action.
    pub fn build(list: Vec<Action>) -> (r: Result<Actions, Vec<Conflict>>)
        ensures
            match r {
                Ok(acts) => acts@ == list@ && acts.wf(),
                Err(report) => {
                    &&& has_conflict(list@)
                    &&& report@.len() > 0
                    &&& forall|c: int| 0 <= c < report@.len()
                            ==> conflict_entry_wf(#[trigger] report@[c], list@)
                    &&& forall|i: int, j: int, k: Key| conflict_at(list@, i, j, k)
                            ==> exists|c: int|
                                0 <= c < report@.len()
                                && #[trigger] report@[c].key == k
                                && report@[c].actions@.contains(list@[i])
                                && report@[c].actions@.contains(list@[j])
                },
            },
    {
        let seen = keys_of_list(&list);
        let mut report: Vec<Conflict> = Vec::new();
        let mut s: usize = 0;
        while s < seen.len()
            invariant
                s <= seen@.len(),
                forall|t: int, k: Key|
                    0 <= t < list@.len() && #[trigger] list@[t].owns(k) ==> seen@.contains(k),
                forall|c: int| 0 <= c < report@.len()
                    ==> conflict_entry_wf(#[trigger] report@[c], list@),
                report@.len() > 0 ==> has_conflict(list@),
                forall|m: int|
                    0 <= m < s && (exists|i: int, j: int|
                        conflict_at(list@, i, j, #[trigger] seen@[m]))
                    ==> exists|c: int|
                        0 <= c < report@.len()
                        && conflict_entry_covers(#[trigger] report@[c], list@, seen@[m]),
            decreases seen@.len() - s,
        {
            let k = seen[s];
            let owners = owners_of(&list, k);
            let ghost old_report = report@;
            if owners.len() >= 2 {
                report.push(Conflict { key: k, actions: owners });
                proof {
                    let c_new = report@.len() - 1;
                    assert(conflict_entry_wf(report@[c_new], list@));
                    assert(conflict_entry_covers(report@[c_new], list@, k));
                    assert forall|m: int|
                        0 <= m < s + 1 && (exists|i: int, j: int|
                            conflict_at(list@, i, j, #[trigger] seen@[m]))
                        implies exists|c: int|
                            0 <= c < report@.len()
                            && conflict_entry_covers(#[trigger] report@[c], list@, seen@[m]) by {
                        if m < s {
                            let c = choose|c: int|
                                0 <= c < old_report.len()
                                && conflict_entry_covers(#[trigger] old_report[c], list@, seen@[m]);
                            assert(report@[c] == old_report[c]);
                        }
                    }
                }
            } else {
                proof {
                    assert forall|m: int|
                        0 <= m < s + 1 && (exists|i: int, j: int|
                            conflict_at(list@, i, j, #[trigger] seen@[m]))
                        implies exists|c: int|
                            0 <= c < report@.len()
                            && conflict_entry_covers(#[trigger] report@[c], list@, seen@[m]) by {
                        if m == s {
                            // no pair binds this key, against the assumption
                            assert(!(owners@.len() >= 2));
                        }
                    }
                }
            }
            s = s + 1;
        }
        if report.len() == 0 {
            proof {
                if has_conflict(list@) {
                    let (i, j, k) = choose|i: int, j: int, k: Key| conflict_at(list@, i, j, k);
                    assert(list@[i].owns(k));
                    assert(seen@.contains(k));
                    let m = choose|m: int| 0 <= m < seen@.len() && seen@[m] == k;
                    assert(conflict_at(list@, i, j, seen@[m]));
                    assert(false);
                }
            }
            Ok(Actions(list))
        } else {
            proof {
                assert forall|i: int, j: int, k: Key| conflict_at(list@, i, j, k)
                    implies exists|c: int|
                        0 <= c < report@.len()
                        && #[trigger] report@[c].key == k
                        && report@[c].actions@.contains(list@[i])
                        && report@[c].actions@.contains(list@[j]) by {
                    assert(list@[i].owns(k));
                    assert(seen@.contains(k));
                    let m = choose|m: int| 0 <= m < seen@.len() && seen@[m] == k;
                    assert(conflict_at(list@, i, j, seen@[m]));
                    let c = choose|c: int|
                        0 <= c < report@.len()
                        && conflict_entry_covers(#[trigger] report@[c], list@, seen@[m]);
                    assert(report@[c].actions@.contains(list@[i]));
                    assert(report@[c].actions@.contains(list@[j]));
                    assert(report@[c].key == k);
                }
            }
            Err(report)
        }
    }

    /// Looks `key` up among the registered actions: the first action in the
    /// canonical enumeration order that is registered and binds `key`, or
    /// nothing when no registered action binds it.
    pub fn find(&self, key: Key) -> (r: Option<Action>)
        ensures
            r == spec_find(self@, key),
    {
        let order = Action::iterator();
        let mut i: usize = 0;
        proof {
            assert(order@.skip(0) =~= order@);
        }
        while i < order.len()
            invariant
                i <= order@.len(),
                order@ == Action::spec_all(),
                spec_find(self@, key) == first_match(order@.skip(i as int), self@, key),
            decreases order@.len() - i,
        {
            let a = order[i];
            let a_keys = a.keys();
            proof {
                assert(order@.skip(i as int)[0] == a);
            }
            if action_list_contains(&self.0, a) && key_list_contains(&a_keys, key) {
                proof {
                    assert(first_match(order@.skip(i as int), self@, key) == Some(a));
                }
                return Some(a);
            }
            proof {
                assert(order@.skip(i as int).drop_first() =~= order@.skip(i as int + 1));
            }
            i = i + 1;
        }
        proof {
            assert(order@.skip(order@.len() as int).len() == 0);
        }
        None
    }

    /// The registered actions, in registry order.
    pub fn actions(&self) -> (r: &[Action])
        ensures
            r@ == self@,
    {
        self.0.as_slice()
    }
}

proof fn lemma_first_match_unique(order: Seq<Action>, list: Seq<Action>, k: Key, a: Action)
    requires
        order.contains(a),
        list.contains(a),
        a.owns(k),
        forall|b: Action| list.contains(b) && (#[trigger] b.owns(k)) ==> b == a,
    ensures
        first_match(order, list, k) == Some(a),
    decreases order.len(),
{
    if order[0] == a {
        assert(first_match(order, list, k) == Some(a));
    } else {
        let i = choose|i: int| 0 <= i < order.len() && order[i] == a;
        assert(order.drop_first()[i - 1] == a);
        assert(order.drop_first().contains(a));
        lemma_first_match_unique(order.drop_first(), list, k, a);
    }
}

/// In a conflict-free registry every trigger key of a registered action
/// resolves to that action: the lookup returns its unique owner.
pub proof fn lemma_find_unique_owner(list: Seq<Action>, a: Action, k: Key)
    requires
        !has_conflict(list),
        list.contains(a),
        a.owns(k),
    ensures
        spec_find(list, k) == Some(a),
{
    assert forall|b: Action| list.contains(b) && (#[trigger] b.owns(k)) implies b == a by {
        if b != a {
            let i = choose|i: int| 0 <= i < list.len() && list[i] == a;
            let j = choose|j: int| 0 <= j < list.len() && list[j] == b;
            if i < j {
                assert(conflict_at(list, i, j, k));
            } else {
                assert(conflict_at(list, j, i, k));
            }
        }
    }
    Action::lemma_all_complete(a);
    lemma_first_match_unique(Action::spec_all(), list, k, a);
}

/// Which concrete keys a trigger of `a` can be.
proof fn lemma_keys_cases(a: Action, k: Key)
    requires
        a.owns(k),
    ensures
        match a {
            Action::Quit => k == Key::Char('q') || k == Key::Ctrl('c'),
            Action::Sleep => k == Key::Char('s'),
            Action::IncrementDelay => k == Key::Char('i'),
            Action::DecrementDelay => k == Key::Char('d'),
        },
{
    let keys = a.spec_keys();
    let n = choose|n: int| 0 <= n < keys.len() && keys[n] == k;
    match a {
        Action::Quit => {
            assert(keys[0] == Key::Char('q'));
            assert(keys[1] == Key::Ctrl('c'));
            assert(n == 0 || n == 1);
        }
        Action::Sleep => {
            assert(keys[0] == Key::Char('s'));
            assert(n == 0);
        }
        Action::IncrementDelay => {
            assert(keys[0] == Key::Char('i'));
            assert(n == 0);
        }
        Action::DecrementDelay => {
            assert(keys[0] == Key::Char('d'));
            assert(n == 0);
        }
    }
}

/// The full canonical action set binds every key at most once, so the
/// registry of all actions always builds.
pub proof fn lemma_canonical_no_conflict()
    ensures
        !has_conflict(Action::spec_all()),
{
    let s = Action::spec_all();
    assert(s[0] == Action::Quit);
    assert(s[1] == Action::Sleep);
    assert(s[2] == Action::IncrementDelay);
    assert(s[3] == Action::DecrementDelay);
    assert forall|i: int, j: int, k: Key| !conflict_at(s, i, j, k) by {
        if conflict_at(s, i, j, k) {
            lemma_keys_cases(s[i], k);
            lemma_keys_cases(s[j], k);
            assert(false);
        }
    }
}

/// A registry of one action can bind no key twice.
pub proof fn lemma_singleton_no_conflict(a: Action)
    ensures
        !has_conflict(seq![a]),
{
    assert forall|i: int, j: int, k: Key| !conflict_at(seq![a], i, j, k) by {
    }
}

} // verus!
