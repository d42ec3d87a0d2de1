//! Maps from input keys to abstract roles, and the per-role state and
//! history that a frame loop keeps.
use vstd::prelude::*;

verus! {

pub const NUM_OF_ROLES: usize = 11;

#[derive(PartialEq, Eq, Structural, PartialOrd, Ord, Debug, Clone, Copy)]
pub enum InputRole {
    Start,
    Pause,
    Okay,
    Cancel,
    LeftButton,
    RightButton,
    Up,
    Right,
    Down,
    Left,
    Nothing,
    _EndOfVariants,
}

/// The position of a role in a table of roles; `_EndOfVariants` stands past
/// the last one.
pub open spec fn role_index(r: InputRole) -> nat {
    match r {
        InputRole::Start => 0,
        InputRole::Pause => 1,
        InputRole::Okay => 2,
        InputRole::Cancel => 3,
        InputRole::LeftButton => 4,
        InputRole::RightButton => 5,
        InputRole::Up => 6,
        InputRole::Right => 7,
        InputRole::Down => 8,
        InputRole::Left => 9,
        InputRole::Nothing => 10,
        InputRole::_EndOfVariants => 11,
    }
}

impl InputRole {
    /// Stands for all roles at once.
    #[allow(non_upper_case_globals)]
    pub const Whole: InputRole = InputRole::_EndOfVariants;

    pub fn index(self) -> (r: usize)
        ensures
            r == role_index(self),
    {
        match self {
            InputRole::Start => 0,
            InputRole::Pause => 1,
            InputRole::Okay => 2,
            InputRole::Cancel => 3,
            InputRole::LeftButton => 4,
            InputRole::RightButton => 5,
            InputRole::Up => 6,
            InputRole::Right => 7,
            InputRole::Down => 8,
            InputRole::Left => 9,
            InputRole::Nothing => 10,
            InputRole::_EndOfVariants => 11,
        }
    }
}

/// One key of a map: its code, whether it is held, and the roles it stands for.
pub type RoleEntry = (u64, bool, Vec<InputRole>);

/// The abstract form of a [`RoleEntry`].
pub type RoleEntryModel = (u64, bool, Seq<InputRole>);

pub open spec fn entry_model(e: RoleEntry) -> RoleEntryModel {
    (e.0, e.1, e.2@)
}

/// Whether `k` is one of the keys of `es`.
pub open spec fn has_key(es: Seq<RoleEntryModel>, k: u64) -> bool {
    exists|i: int| 0 <= i < es.len() && #[trigger] es[i].0 == k
}

/// The entry of key `k`, which `es` holds once at most.
pub open spec fn key_pos(es: Seq<RoleEntryModel>, k: u64) -> int {
    choose|i: int| 0 <= i < es.len() && #[trigger] es[i].0 == k
}

pub open spec fn keys_unique(es: Seq<RoleEntryModel>) -> bool {
    forall|i: int, j: int| 0 <= i < es.len() && 0 <= j < es.len() && #[trigger] es[i].0 == #[trigger] es[j].0 ==> i == j
}

/// `es` after assigning the role `kr.1` to the key `kr.0`: the role joins the
/// key's list, or the key comes in, released, with that role alone.
pub open spec fn assign_one(es: Seq<RoleEntryModel>, kr: (u64, InputRole)) -> Seq<RoleEntryModel> {
    if has_key(es, kr.0) {
        let i = key_pos(es, kr.0);
        es.update(i, (kr.0, es[i].1, es[i].2.push(kr.1)))
    } else {
        es.push((kr.0, false, seq![kr.1]))
    }
}

/// `es` after assigning each pair of `list` in turn.
pub open spec fn assign_all(es: Seq<RoleEntryModel>, list: Seq<(u64, InputRole)>) -> Seq<RoleEntryModel>
    decreases list.len(),
{
    if list.len() == 0 {
        es
    } else {
        assign_one(assign_all(es, list.drop_last()), list.last())
    }
}

/// `es` with the state of key `k` set to `s`, if `k` is there.
pub open spec fn set_key_state(es: Seq<RoleEntryModel>, k: u64, s: bool) -> Seq<RoleEntryModel> {
    if has_key(es, k) {
        let i = key_pos(es, k);
        es.update(i, (k, s, es[i].2))
    } else {
        es
    }
}

/// Whether some held key of `es` stands for the role at position `r`.
pub open spec fn role_held(es: Seq<RoleEntryModel>, r: nat) -> bool {
    exists|i: int, j: int|
        0 <= i < es.len() && 0 <= j < es[i].2.len() && es[i].1 && role_index(
            #[trigger] es[i].2[j],
        ) == r
}

/// Keys of some kind (keyboard keys, buttons) mapped to the roles they stand for.
pub struct InputRoleMap {
    input_map: Vec<RoleEntry>,
    last_input: Option<u64>,
}

impl InputRoleMap {
    /// The entries, in the order their keys were first assigned.
    pub closed spec fn entries(&self) -> Seq<RoleEntryModel> {
        self.input_map@.map_values(|e: RoleEntry| entry_model(e))
    }

    /// The key last pressed through `update_state_exclusive`, still held.
    pub closed spec fn last(&self) -> Option<u64> {
        self.last_input
    }

    pub closed spec fn wf(&self) -> bool {
        &&& keys_unique(self.entries())
        &&& (self.last_input matches Some(k) ==> has_key(self.entries(), k))
    }

    pub fn new() -> (r: Self)
        ensures
            r.wf(),
            r.entries() == Seq::<RoleEntryModel>::empty(),
            r.last() == Option::<u64>::None,
    {
        let r = InputRoleMap { input_map: Vec::new(), last_input: Option::None };
        proof {
            assert(r.entries() =~= Seq::<RoleEntryModel>::empty());
        }
        r
    }

    /// The position of key `k`, if the map holds it.
    fn find(&self, k: u64) -> (r: Option<usize>)
        requires
            self.wf(),
        ensures
            r matches Some(i) ==> has_key(self.entries(), k) && i == key_pos(self.entries(), k)
                && i < self.entries().len(),
            r is None ==> !has_key(self.entries(), k),
    {
        let mut i: usize = 0;
        while i < self.input_map.len()
            invariant
                self.wf(),
                i <= self.input_map@.len(),
                forall|j: int| 0 <= j < i ==> #[trigger] self.entries()[j].0 != k,
            decreases self.input_map@.len() - i,
        {
            if self.input_map[i].0 == k {
                proof {
                    assert(self.entries()[i as int].0 == k);
                    let p = key_pos(self.entries(), k);
                    assert(0 <= p < self.entries().len() && self.entries()[p].0 == k);
                }
                return Some(i);
            }
            proof {
                assert(self.entries()[i as int].0 != k);
            }
            i += 1;
        }
        None
    }

    /// Assigns each role of `set_list` to its key, in order.
    pub fn assign(&mut self, set_list: &[(u64, InputRole)])
        requires
            old(self).wf(),
        ensures
            final(self).wf(),
            final(self).entries() == assign_all(old(self).entries(), set_list@),
            final(self).last() == old(self).last(),
    {
        let mut n: usize = 0;
        while n < set_list.len()
            invariant
                self.wf(),
                n <= set_list@.len(),
                self.entries() == assign_all(old(self).entries(), set_list@.take(n as int)),
                self.last() == old(self).last(),
            decreases set_list@.len() - n,
        {
            let (k, role) = set_list[n];
            let ghost before = self.entries();
            proof {
                let t = set_list@.take(n as int + 1);
                assert(t.drop_last() =~= set_list@.take(n as int));
            }
            match self.find(k) {
                Some(i) => {
                    self.input_map[i].2.push(role);
                    proof {
                        assert(self.entries() =~= assign_one(before, (k, role)));
                    }
                },
                None => {
                    let mut roles: Vec<InputRole> = Vec::new();
                    roles.push(role);
                    self.input_map.push((k, false, roles));
                    proof {
                        assert(self.entries() =~= assign_one(before, (k, role)));
                        assert forall|j: int| 0 <= j < before.len() implies #[trigger] self.entries()[j].0 != k by {
                            assert(before[j].0 != k);
                        }
                    }
                },
            }
            proof {
                let es = self.entries();
                if let Some(lk) = self.last_input {
                    let p = key_pos(before, lk);
                    assert(es[p].0 == lk);
                }
            }
            n += 1;
        }
        proof {
            assert(set_list@.take(set_list@.len() as int) =~= set_list@);
        }
    }

    /// Releases every key and forgets the last exclusive press.
    pub fn clear_state(&mut self)
        requires
            old(self).wf(),
        ensures
            final(self).wf(),
            final(self).last() == Option::<u64>::None,
            final(self).entries().len() == old(self).entries().len(),
            forall|i: int|
                0 <= i < old(self).entries().len() ==> #[trigger] final(self).entries()[i] == (
                old(self).entries()[i].0,
                false,
                old(self).entries()[i].2,
                ),
    {
        let mut i: usize = 0;
        while i < self.input_map.len()
            invariant
                i <= self.input_map@.len(),
                self.input_map@.len() == old(self).input_map@.len(),
                self.entries().len() == old(self).entries().len(),
                forall|j: int|
                    0 <= j < old(self).entries().len() ==> #[trigger] self.entries()[j] == (
                    old(self).entries()[j].0,
                    if j < i { false } else { old(self).entries()[j].1 },
                    old(self).entries()[j].2,
                    ),
            decreases self.input_map@.len() - i,
        {
            let ghost prev = self.input_map@;
            let ghost pe = self.entries();
            self.input_map[i].1 = false;
            proof {
                assert forall|j: int| 0 <= j < prev.len() && j != i implies self.input_map@[j] == prev[j] by {}
                assert forall|j: int|
                    0 <= j < old(self).entries().len() implies #[trigger] self.entries()[j] == (
                    old(self).entries()[j].0,
                    if j < i + 1 { false } else { old(self).entries()[j].1 },
                    old(self).entries()[j].2,
                    ) by {
                    assert(self.input_map@.len() == prev.len());
                    assert(0 <= j < self.input_map@.len());
                    assert(self.entries()[j] == entry_model(self.input_map@[j]));
                    assert(pe[j] == entry_model(prev[j]));
                    assert(pe[j] == (
                        old(self).entries()[j].0,
                        if j < i { false } else { old(self).entries()[j].1 },
                        old(self).entries()[j].2,
                    ));
                }
            }
            i += 1;
        }
        self.last_input = None;
        proof {
            assert forall|a: int, b: int|
                0 <= a < self.entries().len() && 0 <= b < self.entries().len()
                && #[trigger] self.entries()[a].0 == #[trigger] self.entries()[b].0 implies a == b by {
                assert(old(self).entries()[a].0 == old(self).entries()[b].0);
            }
        }
    }

    /// Sets the state of key `k`, if the map holds it.
    pub fn update_state(&mut self, k: u64, s: bool)
        requires
            old(self).wf(),
        ensures
            final(self).wf(),
            final(self).entries() == set_key_state(old(self).entries(), k, s),
            final(self).last() == old(self).last(),
    {
        if let Some(i) = self.find(k) {
            self.input_map[i].1 = s;
            proof {
                self.lemma_set_state_wf(old(self).entries(), k, s);
            }
        }
    }

    proof fn lemma_set_state_wf(&self, before: Seq<RoleEntryModel>, k: u64, s: bool)
        requires
            keys_unique(before),
            has_key(before, k),
            self.entries() =~= before.update(key_pos(before, k), (k, s, before[key_pos(before, k)].2)),
        ensures
            keys_unique(self.entries()),
            forall|q: u64| has_key(before, q) ==> has_key(self.entries(), q),
            forall|q: u64| has_key(before, q) ==> key_pos(self.entries(), q) == key_pos(before, q),
            self.entries() == set_key_state(before, k, s),
    {
        let es = self.entries();
        assert forall|a: int, b: int| 0 <= a < es.len() && 0 <= b < es.len() && #[trigger] es[a].0 == #[trigger] es[b].0 implies a == b by {
            assert(before[a].0 == before[b].0);
        }
        assert forall|q: u64| has_key(before, q) implies has_key(es, q) && key_pos(es, q) == key_pos(before, q) by {
            let p = key_pos(before, q);
            assert(es[p].0 == q);
        }
    }

    /// Sets the state of key `k`, if the map holds it, so that at most one
    /// key pressed through this method is held at a time: pressing a key
    /// releases the one pressed before it.
    pub fn update_state_exclusive(&mut self, k: u64, s: bool)
        requires
            old(self).wf(),
        ensures
            final(self).wf(),
            !has_key(old(self).entries(), k) ==> *final(self) == *old(self),
            has_key(old(self).entries(), k) && s ==> final(self).entries() == (match old(self).last() {
                Some(lk) if lk != k => set_key_state(set_key_state(old(self).entries(), k, true), lk, false),
                _ => set_key_state(old(self).entries(), k, true),
            }) && final(self).last() == Some(k),
            has_key(old(self).entries(), k) && !s ==> final(self).entries() == set_key_state(old(self).entries(), k, false)
                && final(self).last() == (if old(self).last() == Some(k) {
                Option::<u64>::None
            } else {
                old(self).last()
            }),
    {
        if let Some(i) = self.find(k) {
            self.input_map[i].1 = s;
            proof {
                self.lemma_set_state_wf(old(self).entries(), k, s);
            }
            if s {
                if let Some(last_k) = self.last_input {
                    if last_k != k {
                        let ghost mid = self.entries();
                        if let Some(j) = self.find(last_k) {
                            self.input_map[j].1 = false;
                            proof {
                                self.lemma_set_state_wf(mid, last_k, false);
                            }
                        }
                    }
                }
                self.last_input = Some(k);
            } else {
                if self.last_input == Some(k) {
                    self.last_input = None;
                }
            }
        }
    }
}

/// The state of each role in the current frame, and the last 32 frames of it.
#[derive(Debug, Clone, Copy)]
pub struct InputRoleState {
    state_and_history: [(bool, u32); NUM_OF_ROLES],
}

/// A history word after one more frame: shifted up, with the new state at
/// the bottom.
pub open spec fn history_push(h: u32, s: bool) -> u32 {
    ((h << 1u32) | (if s { 1u32 } else { 0u32 })) as u32
}

/// The bitwise or of the first `n` history words of `t`.
pub open spec fn history_or(t: Seq<(bool, u32)>, n: nat) -> u32
    decreases n,
{
    if n == 0 || n > t.len() {
        0
    } else {
        (history_or(t, (n - 1) as nat) | t[n - 1].1) as u32
    }
}

impl Default for InputRoleState {
    fn default() -> (r: Self)
        ensures
            r.table() == Seq::new(NUM_OF_ROLES as nat, |i: int| (false, 0u32)),
    {
        InputRoleState { state_and_history: [(false, 0); NUM_OF_ROLES] }
    }
}

impl InputRoleState {
    /// The state and history of each role, by position.
    pub closed spec fn table(&self) -> Seq<(bool, u32)> {
        self.state_and_history@
    }

    pub fn new() -> (r: Self)
        ensures
            r.table() == Seq::new(NUM_OF_ROLES as nat, |i: int| (false, 0u32)),
    {
        let r = InputRoleState { state_and_history: [(false, 0); NUM_OF_ROLES] };
        proof {
            assert(r.table() =~= Seq::new(NUM_OF_ROLES as nat, |i: int| (false, 0u32)));
        }
        r
    }

    /// Releases every role and forgets every history.
    pub fn clear_all(&mut self)
        ensures
            final(self).table() == Seq::new(NUM_OF_ROLES as nat, |i: int| (false, 0u32)),
    {
        let mut i: usize = 0;
        while i < NUM_OF_ROLES
            invariant
                i <= NUM_OF_ROLES,
                self.table().len() == NUM_OF_ROLES,
                forall|j: int| 0 <= j < i ==> #[trigger] self.table()[j] == (false, 0u32),
            decreases NUM_OF_ROLES - i,
        {
            self.state_and_history[i] = (false, 0);
            i += 1;
        }
        proof {
            assert(self.table() =~= Seq::new(NUM_OF_ROLES as nat, |i: int| (false, 0u32)));
        }
    }

    /// Releases every role; the histories stay.
    pub fn clear_state(&mut self)
        ensures
            final(self).table() == old(self).table().map_values(|e: (bool, u32)| (false, e.1)),
    {
        let mut i: usize = 0;
        while i < NUM_OF_ROLES
            invariant
                i <= NUM_OF_ROLES,
                self.table().len() == NUM_OF_ROLES,
                forall|j: int|
                    0 <= j < NUM_OF_ROLES ==> #[trigger] self.table()[j] == (
                    if j < i { false } else { old(self).table()[j].0 },
                    old(self).table()[j].1,
                    ),
            decreases NUM_OF_ROLES - i,
        {
            self.state_and_history[i].0 = false;
            i += 1;
        }
        proof {
            assert(self.table() =~= old(self).table().map_values(|e: (bool, u32)| (false, e.1)));
        }
    }

    /// Marks as held every role that a held key of `map` stands for; a key
    /// assigned `_EndOfVariants` stands for no role.
    pub fn update_state(&mut self, map: &InputRoleMap)
        requires
            map.wf(),
        ensures
            final(self).table().len() == NUM_OF_ROLES,
            forall|r: int|
                0 <= r < NUM_OF_ROLES ==> #[trigger] final(self).table()[r] == (
                old(self).table()[r].0 || role_held(map.entries(), r as nat),
                old(self).table()[r].1,
                ),
    {
        let ghost es = map.entries();
        let mut i: usize = 0;
        while i < map.input_map.len()
            invariant
                es == map.entries(),
                i <= es.len(),
                self.table().len() == NUM_OF_ROLES,
                forall|r: int|
                    0 <= r < NUM_OF_ROLES ==> #[trigger] self.table()[r] == (
                    old(self).table()[r].0 || role_held(es.take(i as int), r as nat),
                    old(self).table()[r].1,
                    ),
            decreases es.len() - i,
        {
            let ghost mid = self.table();
            let held = map.input_map[i].1;
            let n = map.input_map[i].2.len();
            let mut j: usize = 0;
            while j < n
                invariant
                    es == map.entries(),
                    i < es.len(),
                    held == es[i as int].1,
                    n == es[i as int].2.len(),
                    j <= n,
                    self.table().len() == NUM_OF_ROLES,
                    forall|r: int|
                        0 <= r < NUM_OF_ROLES ==> #[trigger] self.table()[r] == (
                        mid[r].0 || (held && exists|q: int| 0 <= q < j && role_index(#[trigger] es[i as int].2[q]) == r),
                        mid[r].1,
                        ),
                decreases n - j,
            {
                let role = map.input_map[i].2[j];
                proof {
                    assert(role == es[i as int].2[j as int]);
                }
                let p = role.index();
                if held && p < NUM_OF_ROLES {
                    self.state_and_history[p].0 = true;
                }
                j += 1;
            }
            proof {
                let t = es.take(i as int + 1);
                assert forall|r: int| 0 <= r < NUM_OF_ROLES implies #[trigger] self.table()[r] == (
                    old(self).table()[r].0 || role_held(t, r as nat),
                    old(self).table()[r].1,
                ) by {
                    if role_held(t, r as nat) && !role_held(es.take(i as int), r as nat) {
                        let (a, b) = choose|a: int, b: int|
                            0 <= a < t.len() && 0 <= b < t[a].2.len() && t[a].1 && role_index(
                                #[trigger] t[a].2[b],
                            ) == r;
                        if a < i {
                            assert(es.take(i as int)[a] == t[a]);
                            assert(false);
                        }
                    }
                    if role_held(es.take(i as int), r as nat) {
                        let (a, b) = choose|a: int, b: int|
                            0 <= a < es.take(i as int).len() && 0 <= b < es.take(i as int)[a].2.len()
                                && es.take(i as int)[a].1 && role_index(
                                #[trigger] es.take(i as int)[a].2[b],
                            ) == r;
                        assert(t[a] == es.take(i as int)[a]);
                    }
                    if held && exists|q: int| 0 <= q < n && role_index(#[trigger] es[i as int].2[q]) == r {
                        let q = choose|q: int| 0 <= q < n && role_index(#[trigger] es[i as int].2[q]) == r;
                        assert(t[i as int] == es[i as int]);
                        assert(role_index(t[i as int].2[q]) == r);
                    }
                }
            }
            i += 1;
        }
        proof {
            assert(es.take(es.len() as int) =~= es);
        }
    }

    /// Forgets every history; the states stay.
    pub fn clear_history(&mut self)
        ensures
            final(self).table() == old(self).table().map_values(|e: (bool, u32)| (e.0, 0u32)),
    {
        let mut i: usize = 0;
        while i < NUM_OF_ROLES
            invariant
                i <= NUM_OF_ROLES,
                self.table().len() == NUM_OF_ROLES,
                forall|j: int|
                    0 <= j < NUM_OF_ROLES ==> #[trigger] self.table()[j] == (
                    old(self).table()[j].0,
                    if j < i { 0u32 } else { old(self).table()[j].1 },
                    ),
            decreases NUM_OF_ROLES - i,
        {
            self.state_and_history[i].1 = 0;
            i += 1;
        }
        proof {
            assert(self.table() =~= old(self).table().map_values(|e: (bool, u32)| (e.0, 0u32)));
        }
    }

    /// Shifts the current state of each role into its history.
    pub fn update_history(&mut self)
        ensures
            final(self).table() == old(self).table().map_values(
                |e: (bool, u32)| (e.0, history_push(e.1, e.0)),
            ),
    {
        let mut i: usize = 0;
        while i < NUM_OF_ROLES
            invariant
                i <= NUM_OF_ROLES,
                self.table().len() == NUM_OF_ROLES,
                forall|j: int|
                    0 <= j < NUM_OF_ROLES ==> #[trigger] self.table()[j] == (
                    old(self).table()[j].0,
                    if j < i {
                        history_push(old(self).table()[j].1, old(self).table()[j].0)
                    } else {
                        old(self).table()[j].1
                    },
                    ),
            decreases NUM_OF_ROLES - i,
        {
            let (s, h) = self.state_and_history[i];
            let bit: u32 = if s { 1 } else { 0 };
            self.state_and_history[i].1 = (h << 1) | bit;
            i += 1;
        }
        proof {
            assert(self.table() =~= old(self).table().map_values(
                |e: (bool, u32)| (e.0, history_push(e.1, e.0)),
            ));
        }
    }

    /// The state and history of one role; for `InputRole::Whole`, whether
    /// any role is held and the bitwise or of all histories.
    pub fn get(&self, input_role: InputRole) -> (r: (bool, u32))
        ensures
            input_role != InputRole::Whole ==> r == self.table()[role_index(input_role) as int],
            input_role == InputRole::Whole ==> r == (
                exists|i: int| 0 <= i < NUM_OF_ROLES && #[trigger] self.table()[i].0,
                history_or(self.table(), NUM_OF_ROLES as nat),
            ),
    {
        if input_role != InputRole::Whole {
            self.state_and_history[input_role.index()]
        } else {
            let mut whole_state = false;
            let mut whole_history: u32 = 0;
            let mut i: usize = 0;
            while i < NUM_OF_ROLES
                invariant
                    i <= NUM_OF_ROLES,
                    self.table().len() == NUM_OF_ROLES,
                    whole_state == exists|j: int| 0 <= j < i && #[trigger] self.table()[j].0,
                    whole_history == history_or(self.table(), i as nat),
                decreases NUM_OF_ROLES - i,
            {
                let (s, h) = self.state_and_history[i];
                proof {
                    if s {
                        assert(self.table()[i as int].0);
                    }
                }
                whole_state = whole_state || s;
                whole_history = whole_history | h;
                i += 1;
            }
            (whole_state, whole_history)
        }
    }

    /// Sets the state of one role.
    pub fn set(&mut self, input_role: InputRole, state: bool)
        requires
            input_role != InputRole::Whole,
        ensures
            final(self).table() == old(self).table().update(
                role_index(input_role) as int,
                (state, old(self).table()[role_index(input_role) as int].1),
            ),
    {
        self.state_and_history[input_role.index()].0 = state;
    }

    pub fn set_true(&mut self, input_role: InputRole)
        requires
            input_role != InputRole::Whole,
        ensures
            final(self).table() == old(self).table().update(
                role_index(input_role) as int,
                (true, old(self).table()[role_index(input_role) as int].1),
            ),
    {
        self.set(input_role, true);
    }

    pub fn set_false(&mut self, input_role: InputRole)
        requires
            input_role != InputRole::Whole,
        ensures
            final(self).table() == old(self).table().update(
                role_index(input_role) as int,
                (false, old(self).table()[role_index(input_role) as int].1),
            ),
    {
        self.set(input_role, false);
    }
}

} // verus!
