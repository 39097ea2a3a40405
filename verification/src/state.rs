//! The registry: every sandbox record under its id, and the display-number
//! hint.

use vstd::prelude::*;
use vstd::string::*;

use crate::display::allocate_display;
use crate::error::{ManagerError, ManagerErrorView};
use crate::listing::{
    display_taken, displays_below, distinct_ids, has_id, index_by_id, index_of, keyed_by_id,
    lemma_empty_listing, lemma_index_keyed, lemma_index_of_found, lemma_index_of_position,
    lemma_insert_record, lemma_remove_record, lemma_update_record, lists, recent_first,
    running_displays_distinct,
};
use crate::record::{Sandbox, SandboxStatus, SandboxView};
use crate::text::{contains_text, same_text, texts};

verus! {

/// The display number at which an empty registry starts to look for a free
/// one.
pub const FIRST_DISPLAY: u32 = 50;

/// The mathematical value of a registry: the records by id, and the hint.
pub struct RegistryView {
    pub sandboxes: Map<Seq<char>, SandboxView>,
    pub next_display: u32,
}

impl RegistryView {
    /// What holds of every registry: each record is stored under its own id,
    /// every display number in it lies below the hint, and no two `Running`
    /// records hold the same display number.
    pub open spec fn consistent(self) -> bool {
        &&& keyed_by_id(self.sandboxes)
        &&& displays_below(self.sandboxes, self.next_display)
        &&& running_displays_distinct(self.sandboxes)
    }

    /// The record `sb` can join the registry: its id is new, its display
    /// number, if it has one, lies below the hint, and where it is `Running`
    /// no `Running` record holds that number.
    pub open spec fn admits(self, sb: SandboxView) -> bool {
        &&& !self.sandboxes.contains_key(sb.id)
        &&& sb.display_below(self.next_display)
        &&& forall|d: u32| #[trigger] sb.holds_display(d) ==> !display_taken(self.sandboxes, d)
    }

    /// The registry without records and with the hint at its start.
    pub open spec fn initial() -> RegistryView {
        RegistryView { sandboxes: Map::empty(), next_display: FIRST_DISPLAY }
    }
}

/// The views of a sequence of records, in the same order.
pub open spec fn views_of(records: Seq<Sandbox>) -> Seq<SandboxView> {
    records.map_values(|s: Sandbox| s@)
}

/// What is written to stable storage and read back: every record, and the
/// hint.
#[derive(Debug)]
pub struct Snapshot {
    pub sandboxes: Vec<Sandbox>,
    pub next_display: u32,
}

impl Snapshot {
    /// The records of the snapshot, in the order in which it lists them.
    pub open spec fn records(&self) -> Seq<SandboxView> {
        views_of(self.sandboxes@)
    }

    /// The registry value that the snapshot describes.
    pub open spec fn value(&self) -> RegistryView {
        RegistryView { sandboxes: index_by_id(self.records()), next_display: self.next_display }
    }

    /// The snapshot describes a registry: it lists no id twice, and what it
    /// describes is consistent.
    pub open spec fn valid(&self) -> bool {
        distinct_ids(self.records()) && self.value().consistent()
    }

    /// The snapshot was taken of the registry value `v`: it lists each record
    /// of `v` once and nothing else, and has the hint of `v`.
    pub open spec fn captures(&self, v: RegistryView) -> bool {
        lists(self.records(), v.sandboxes) && self.next_display == v.next_display
    }
}

/// The registry value that a start from `snapshot` yields: what the snapshot
/// describes where there is one and it is valid, the initial registry
/// otherwise.
pub open spec fn restored(snapshot: Option<Snapshot>) -> RegistryView {
    match snapshot {
        Some(s) => if s.valid() {
            s.value()
        } else {
            RegistryView::initial()
        },
        None => RegistryView::initial(),
    }
}

/// A registry that is written out and read back is the registry that was
/// written: a snapshot taken of a consistent registry value restores to that
/// value, with the same ids and, under each id, the same record.
pub proof fn lemma_snapshot_round_trip(v: RegistryView, snapshot: Snapshot)
    requires
        v.consistent(),
        snapshot.captures(v),
    ensures
        restored(Some(snapshot)) == v,
{
    assert(snapshot.value().sandboxes == v.sandboxes);
}

/// In a consistent registry no two `Running` records share a display number.
pub proof fn lemma_running_displays_differ(v: RegistryView, a: Seq<char>, b: Seq<char>)
    requires
        v.consistent(),
        v.sandboxes.contains_key(a),
        v.sandboxes.contains_key(b),
        a != b,
        v.sandboxes[a].running(),
        v.sandboxes[b].running(),
        v.sandboxes[a].display_num is Some,
    ensures
        v.sandboxes[a].display_num != v.sandboxes[b].display_num,
{
    let d = v.sandboxes[a].display_num->0;
    assert(v.sandboxes[a].holds_display(d));
    assert(!v.sandboxes[b].holds_display(d));
}

/// A record with a new id is admitted with a display number that lies below
/// the hint and that no record of the registry holds, whatever the status of
/// those records.
pub proof fn lemma_unheld_display_admitted(v: RegistryView, sb: SandboxView, num: u32)
    requires
        !v.sandboxes.contains_key(sb.id),
        sb.display_num == Some(num),
        num < v.next_display,
        forall|id: Seq<char>|
            v.sandboxes.contains_key(id) ==> (#[trigger] v.sandboxes[id]).display_num != Some(num),
    ensures
        v.admits(sb),
{
    assert forall|d: u32| #[trigger] sb.holds_display(d) implies !display_taken(
        v.sandboxes,
        d,
    ) by {
        if display_taken(v.sandboxes, d) {
            let id = choose|id: Seq<char>|
                v.sandboxes.contains_key(id) && #[trigger] v.sandboxes[id].holds_display(d);
            assert(v.sandboxes[id].display_num != Some(num));
        }
    }
}

/// The registry of sandboxes.
#[derive(Debug)]
pub struct ManagerState {
    sandboxes: Vec<Sandbox>,
    next_display: u32,
}

impl View for ManagerState {
    type V = RegistryView;

    closed spec fn view(&self) -> RegistryView {
        RegistryView {
            sandboxes: index_by_id(views_of(self.sandboxes@)),
            next_display: self.next_display,
        }
    }
}

impl Default for ManagerState {
    /// The empty registry, with the hint at [`FIRST_DISPLAY`].
    fn default() -> (r: Self)
        ensures
            r.wf(),
            r@ == RegistryView::initial(),
    {
        let r = ManagerState { sandboxes: Vec::new(), next_display: FIRST_DISPLAY };
        proof {
            lemma_empty_listing();
            assert(views_of(r.sandboxes@) =~= Seq::<SandboxView>::empty());
        }
        r
    }
}

impl ManagerState {
    /// The records in the order in which the registry keeps them.
    pub closed spec fn records(&self) -> Seq<SandboxView> {
        views_of(self.sandboxes@)
    }

    /// The registry is well formed: it keeps each of its records once, and its
    /// value is consistent.
    pub open spec fn wf(&self) -> bool {
        &&& lists(self.records(), self@.sandboxes)
        &&& self@.consistent()
    }

    /// The hint: a number that no record's display number reaches.
    pub fn next_display(&self) -> (r: u32)
        ensures
            r == self@.next_display,
    {
        self.next_display
    }

    /// The position of the record with id `id`.
    fn find(&self, id: &str) -> (r: Option<usize>)
        requires
            self.wf(),
        ensures
            match r {
                Some(i) => i < self.records().len() && self.records()[i as int].id == id@
                    && self@.sandboxes.contains_key(id@) && self@.sandboxes[id@]
                    == self.records()[i as int],
                None => !self@.sandboxes.contains_key(id@),
            },
    {
        let mut i: usize = 0;
        while i < self.sandboxes.len()
            invariant
                self.wf(),
                i <= self.sandboxes.len(),
                forall|j: int| 0 <= j < i ==> self.records()[j].id != id@,
            decreases self.sandboxes.len() - i,
        {
            if same_text(self.sandboxes[i].id.as_str(), id) {
                proof {
                    lemma_index_of_position(self.records(), i as int);
                }
                return Some(i);
            }
            i = i + 1;
        }
        proof {
            if has_id(self.records(), id@) {
                lemma_index_of_found(self.records(), id@);
            }
        }
        None
    }

    /// The records of the registry, each once, in no order that a caller may
    /// rely on.
    pub fn values(&self) -> (r: &Vec<Sandbox>)
        requires
            self.wf(),
        ensures
            lists(views_of(r@), self@.sandboxes),
    {
        &self.sandboxes
    }

    /// Whether the registry holds a record with id `id`.
    pub fn contains(&self, id: &str) -> (r: bool)
        requires
            self.wf(),
        ensures
            r == self@.sandboxes.contains_key(id@),
    {
        self.find(id).is_some()
    }

    /// The record with id `id`, where the registry holds one.
    pub fn get(&self, id: &str) -> (r: Option<&Sandbox>)
        requires
            self.wf(),
        ensures
            match r {
                Some(sb) => self@.sandboxes.contains_key(id@) && sb@ == self@.sandboxes[id@],
                None => !self@.sandboxes.contains_key(id@),
            },
    {
        match self.find(id) {
            Some(i) => Some(&self.sandboxes[i]),
            None => None,
        }
    }

    /// Whether some `Running` record holds display number `num`.
    fn display_held(&self, num: u32) -> (r: bool)
        requires
            self.wf(),
        ensures
            r == display_taken(self@.sandboxes, num),
    {
        let mut i: usize = 0;
        while i < self.sandboxes.len()
            invariant
                self.wf(),
                i <= self.sandboxes.len(),
                forall|j: int| 0 <= j < i ==> !self.records()[j].holds_display(num),
            decreases self.sandboxes.len() - i,
        {
            let sb = &self.sandboxes[i];
            if sb.is_running() && sb.display_num == Some(num) {
                proof {
                    lemma_index_of_position(self.records(), i as int);
                    assert(self@.sandboxes[self.records()[i as int].id].holds_display(num));
                }
                return true;
            }
            i = i + 1;
        }
        proof {
            if display_taken(self@.sandboxes, num) {
                let id = choose|id: Seq<char>|
                    self@.sandboxes.contains_key(id) && #[trigger] self@.sandboxes[id].holds_display(
                        num,
                    );
                lemma_index_of_found(self.records(), id);
            }
        }
        false
    }

    /// Takes the display number that a search has found: the hint moves just
    /// past it. A number below the hint or at the top of the range is not one
    /// that a search from the hint can have found, and is refused like a
    /// search that found none.
    pub fn claim_display(&mut self, found: Result<u32, ManagerError>) -> (r: Result<
        u32,
        ManagerError,
    >)
        requires
            old(self).wf(),
        ensures
            final(self).wf(),
            final(self)@.sandboxes == old(self)@.sandboxes,
            final(self)@.next_display >= old(self)@.next_display,
            match r {
                Ok(num) => {
                    &&& found matches Ok(n) && n == num
                    &&& old(self)@.next_display <= num < u32::MAX
                    &&& final(self)@.next_display == num + 1
                    &&& forall|id: Seq<char>|
                        old(self)@.sandboxes.contains_key(id) ==> (
                        #[trigger] old(self)@.sandboxes[id]).display_num != Some(num)
                },
                Err(e) => {
                    &&& e@ == ManagerErrorView::ResourceExhausted
                    &&& final(self)@.next_display == old(self)@.next_display
                    &&& !(found matches Ok(n) && old(self)@.next_display <= n < u32::MAX)
                },
            },
    {
        match found {
            Ok(num) => {
                if self.next_display <= num && num < u32::MAX {
                    proof {
                        assert forall|id: Seq<char>|
                            self@.sandboxes.contains_key(id) implies (
                        #[trigger] self@.sandboxes[id]).display_num != Some(num) by {
                            assert(self@.sandboxes[id].display_below(self@.next_display));
                        }
                    }
                    self.next_display = num + 1;
                    proof {
                        assert forall|id: Seq<char>|
                            self@.sandboxes.contains_key(id) implies #[trigger] self@.sandboxes[id].display_below(
                            self@.next_display,
                        ) by {
                            assert(old(self)@.sandboxes[id].display_below(old(self)@.next_display));
                        }
                    }
                    Ok(num)
                } else {
                    Err(ManagerError::ResourceExhausted)
                }
            },
            Err(_) => Err(ManagerError::ResourceExhausted),
        }
    }

    /// Finds a free display number at or above the hint and takes it: the hint
    /// moves just past it, so the number is never handed out again. Which
    /// number is free is for the host to say; where none is found below the
    /// top of the range the registry stays as it was.
    pub fn reserve_display(&mut self) -> (r: Result<u32, ManagerError>)
        requires
            old(self).wf(),
        ensures
            final(self).wf(),
            final(self)@.sandboxes == old(self)@.sandboxes,
            final(self)@.next_display >= old(self)@.next_display,
            match r {
                Ok(num) => {
                    &&& old(self)@.next_display <= num < u32::MAX
                    &&& final(self)@.next_display == num + 1
                    &&& forall|id: Seq<char>|
                        old(self)@.sandboxes.contains_key(id) ==> (
                        #[trigger] old(self)@.sandboxes[id]).display_num != Some(num)
                },
                Err(e) => {
                    &&& e@ == ManagerErrorView::ResourceExhausted
                    &&& final(self)@.next_display == old(self)@.next_display
                },
            },
            old(self)@.next_display == u32::MAX ==> r is Err,
    {
        let found = allocate_display(self.next_display);
        self.claim_display(found)
    }

    /// Registers a record. It is refused with `Conflict`, and the registry
    /// stays as it was, unless the registry admits it.
    pub fn insert(&mut self, sandbox: Sandbox) -> (r: Result<(), ManagerError>)
        requires
            old(self).wf(),
        ensures
            final(self).wf(),
            final(self)@.next_display == old(self)@.next_display,
            match r {
                Ok(()) => {
                    &&& old(self)@.admits(sandbox@)
                    &&& final(self)@.sandboxes == old(self)@.sandboxes.insert(
                        sandbox@.id,
                        sandbox@,
                    )
                },
                Err(e) => {
                    &&& e@ == ManagerErrorView::Conflict
                    &&& !old(self)@.admits(sandbox@)
                    &&& final(self)@ == old(self)@
                },
            },
    {
        if self.find(sandbox.id.as_str()).is_some() {
            return Err(ManagerError::Conflict);
        }
        match sandbox.display_num {
            Some(d) => {
                if d >= self.next_display {
                    return Err(ManagerError::Conflict);
                }
                if sandbox.is_running() && self.display_held(d) {
                    assert(sandbox@.holds_display(d));
                    return Err(ManagerError::Conflict);
                }
            },
            None => {},
        }
        proof {
            let rs = self.records();
            let x = sandbox@;
            assert(!has_id(rs, x.id)) by {
                if has_id(rs, x.id) {
                    lemma_index_of_found(rs, x.id);
                }
            }
            lemma_insert_record(rs, rs.len() as int, x);
            assert(rs.insert(rs.len() as int, x) =~= rs.push(x));
            assert(views_of(self.sandboxes@.push(sandbox)) =~= rs.push(x));
            lemma_index_keyed(rs.push(x));
        }
        self.sandboxes.push(sandbox);
        proof {
            let before = old(self)@.sandboxes;
            let after = self@.sandboxes;
            let x = sandbox@;
            assert(after == before.insert(x.id, x));
            assert forall|id: Seq<char>| after.contains_key(id) implies #[trigger] after[id].display_below(
                self@.next_display,
            ) by {
                if id != x.id {
                    assert(before[id].display_below(old(self)@.next_display));
                }
            }
            assert forall|a: Seq<char>, b: Seq<char>, d: u32|
                after.contains_key(a) && after.contains_key(b) && a != b
                    && #[trigger] after[a].holds_display(d) implies !#[trigger] after[b].holds_display(
                d,
            ) by {
                if a == x.id {
                    assert(x.holds_display(d));
                    if before[b].holds_display(d) {
                        assert(display_taken(before, d));
                    }
                } else if b == x.id {
                    if x.holds_display(d) {
                        assert(display_taken(before, d));
                    }
                } else {
                    assert(before[a].holds_display(d));
                }
            }
        }
        Ok(())
    }

    /// Sets the status of the record with id `id` to `Stopped`, whatever it
    /// was, and returns the record as it stood before. `None`: the registry
    /// holds no such record and stays as it was.
    pub fn mark_stopped(&mut self, id: &str) -> (r: Option<Sandbox>)
        requires
            old(self).wf(),
        ensures
            final(self).wf(),
            final(self)@.next_display == old(self)@.next_display,
            match r {
                Some(prev) => {
                    &&& old(self)@.sandboxes.contains_key(id@)
                    &&& prev@ == old(self)@.sandboxes[id@]
                    &&& final(self)@.sandboxes == old(self)@.sandboxes.insert(
                        id@,
                        prev@.with_status(SandboxStatus::Stopped),
                    )
                },
                None => !old(self)@.sandboxes.contains_key(id@) && final(self)@ == old(self)@,
            },
    {
        match self.find(id) {
            None => None,
            Some(i) => {
                let prev = self.sandboxes[i].clone();
                let stopped = prev.with_status(SandboxStatus::Stopped);
                proof {
                    let rs = self.records();
                    lemma_update_record(rs, i as int, stopped@);
                    assert(views_of(self.sandboxes@.update(i as int, stopped)) =~= rs.update(
                        i as int,
                        stopped@,
                    ));
                    lemma_index_keyed(rs.update(i as int, stopped@));
                }
                self.sandboxes.set(i, stopped);
                proof {
                    let before = old(self)@.sandboxes;
                    let after = self@.sandboxes;
                    let y = prev@.with_status(SandboxStatus::Stopped);
                    assert(after == before.insert(id@, y));
                    assert forall|k: Seq<char>| after.contains_key(k) implies #[trigger] after[k].display_below(
                        self@.next_display,
                    ) by {
                        assert(before[k].display_below(old(self)@.next_display));
                    }
                    assert forall|a: Seq<char>, b: Seq<char>, d: u32|
                        after.contains_key(a) && after.contains_key(b) && a != b
                            && #[trigger] after[a].holds_display(d) implies !#[trigger] after[b].holds_display(
                        d,
                    ) by {
                        assert(before[a].holds_display(d));
                        if b != id@ {
                            assert(!before[b].holds_display(d));
                        }
                    }
                }
                Some(prev)
            },
        }
    }

    /// Takes the record with id `id` out of the registry and returns it.
    /// `None`: the registry holds no such record and stays as it was.
    pub fn remove(&mut self, id: &str) -> (r: Option<Sandbox>)
        requires
            old(self).wf(),
        ensures
            final(self).wf(),
            final(self)@.next_display == old(self)@.next_display,
            match r {
                Some(prev) => {
                    &&& old(self)@.sandboxes.contains_key(id@)
                    &&& prev@ == old(self)@.sandboxes[id@]
                    &&& final(self)@.sandboxes == old(self)@.sandboxes.remove(id@)
                },
                None => !old(self)@.sandboxes.contains_key(id@) && final(self)@ == old(self)@,
            },
    {
        match self.find(id) {
            None => None,
            Some(i) => {
                proof {
                    let rs = self.records();
                    lemma_remove_record(rs, i as int);
                    assert(views_of(self.sandboxes@.remove(i as int)) =~= rs.remove(i as int));
                    lemma_index_keyed(rs.remove(i as int));
                }
                let prev = self.sandboxes.remove(i);
                proof {
                    let before = old(self)@.sandboxes;
                    let after = self@.sandboxes;
                    assert(after == before.remove(id@));
                    assert forall|k: Seq<char>| after.contains_key(k) implies #[trigger] after[k].display_below(
                        self@.next_display,
                    ) by {
                        assert(before[k].display_below(old(self)@.next_display));
                    }
                    assert forall|a: Seq<char>, b: Seq<char>, d: u32|
                        after.contains_key(a) && after.contains_key(b) && a != b
                            && #[trigger] after[a].holds_display(d) implies !#[trigger] after[b].holds_display(
                        d,
                    ) by {
                        assert(before[a].holds_display(d));
                        assert(!before[b].holds_display(d));
                    }
                }
                Some(prev)
            },
        }
    }

    /// Brings the registry in line with what was seen of the sessions: every
    /// `Running` record whose session is among `gone` becomes `Dead`. No other
    /// record changes, no record changes in any other field, and none comes or
    /// goes.
    pub fn reconcile_pids(&mut self, gone: &Vec<String>)
        requires
            old(self).wf(),
        ensures
            final(self).wf(),
            final(self)@.next_display == old(self)@.next_display,
            final(self)@.sandboxes.dom() == old(self)@.sandboxes.dom(),
            forall|id: Seq<char>|
                old(self)@.sandboxes.contains_key(id) ==> #[trigger] final(self)@.sandboxes[id]
                    == old(self)@.sandboxes[id].reconciled(texts(gone@)),
    {
        let ghost before = self.records();
        let ghost gone_texts = texts(gone@);
        let mut i: usize = 0;
        while i < self.sandboxes.len()
            invariant
                i <= self.sandboxes.len(),
                self.next_display == old(self).next_display,
                distinct_ids(before),
                before == old(self).records(),
                gone_texts == texts(gone@),
                self.records().len() == before.len(),
                forall|j: int|
                    0 <= j < before.len() ==> #[trigger] self.records()[j] == if j < i {
                        before[j].reconciled(gone_texts)
                    } else {
                        before[j]
                    },
            decreases self.sandboxes.len() - i,
        {
            let sb = &self.sandboxes[i];
            let demote = sb.is_running() && match &sb.tmux_session {
                Some(session) => contains_text(gone, session.as_str()),
                None => false,
            };
            assert(demote == before[i as int].session_gone(gone_texts)) by {
                assert(self.records()[i as int] == before[i as int]);
            }
            if demote {
                let dead = sb.with_status(SandboxStatus::Dead);
                let ghost prior = self.records();
                self.sandboxes.set(i, dead);
                assert(self.records() =~= prior.update(i as int, dead@));
            }
            i = i + 1;
        }
        proof {
            let after = self.records();
            assert forall|a: int, b: int| 0 <= a < b < after.len() implies after[a].id
                != after[b].id by {
                assert(after[a].id == before[a].id);
                assert(after[b].id == before[b].id);
            }
            lemma_index_keyed(after);
            let old_map = old(self)@.sandboxes;
            let new_map = self@.sandboxes;
            assert forall|id: Seq<char>| old_map.contains_key(id) <==> new_map.contains_key(
                id,
            ) by {
                if old_map.contains_key(id) {
                    lemma_index_of_found(before, id);
                    let j = index_of(before, id);
                    assert(after[j].id == id);
                }
                if new_map.contains_key(id) {
                    lemma_index_of_found(after, id);
                    let j = index_of(after, id);
                    assert(before[j].id == id);
                }
            }
            assert(new_map.dom() =~= old_map.dom());
            assert forall|id: Seq<char>| old_map.contains_key(id) implies #[trigger] new_map[id]
                == old_map[id].reconciled(gone_texts) by {
                lemma_index_of_found(before, id);
                let j = index_of(before, id);
                lemma_index_of_position(before, j);
                assert(after[j].id == id);
                lemma_index_of_position(after, j);
            }
            assert forall|k: Seq<char>| new_map.contains_key(k) implies #[trigger] new_map[k].display_below(
                self@.next_display,
            ) by {
                assert(old_map[k].display_below(old(self)@.next_display));
            }
            assert forall|a: Seq<char>, b: Seq<char>, d: u32|
                new_map.contains_key(a) && new_map.contains_key(b) && a != b
                    && #[trigger] new_map[a].holds_display(d) implies !#[trigger] new_map[b].holds_display(
                d,
            ) by {
                assert(old_map[a].holds_display(d));
                assert(!old_map[b].holds_display(d));
            }
        }
    }

    /// Every record of the registry, each once, the most recently created
    /// first.
    pub fn list(&self) -> (r: Vec<Sandbox>)
        requires
            self.wf(),
        ensures
            lists(views_of(r@), self@.sandboxes),
            recent_first(views_of(r@)),
    {
        let mut out: Vec<Sandbox> = Vec::new();
        let mut i: usize = 0;
        proof {
            lemma_empty_listing();
            assert(views_of(out@) =~= Seq::<SandboxView>::empty());
            assert(self.records().take(0) =~= Seq::<SandboxView>::empty());
        }
        while i < self.sandboxes.len()
            invariant
                self.wf(),
                i <= self.sandboxes.len(),
                lists(views_of(out@), index_by_id(self.records().take(i as int))),
                recent_first(views_of(out@)),
            decreases self.sandboxes.len() - i,
        {
            let item = self.sandboxes[i].clone();
            let mut k: usize = 0;
            while k < out.len() && !out[k].created_at.is_before(&item.created_at)
                invariant
                    k <= out.len(),
                    forall|j: int|
                        0 <= j < k ==> !(#[trigger] views_of(out@)[j]).created_at.before(
                            item@.created_at,
                        ),
                decreases out.len() - k,
            {
                k = k + 1;
            }
            proof {
                let rs = self.records();
                let seen = rs.take(i as int);
                let x = item@;
                assert(x == rs[i as int]);
                assert forall|a: int, b: int| 0 <= a < b < seen.len() implies seen[a].id
                    != seen[b].id by {
                    assert(rs[a].id != rs[b].id);
                }
                assert(!has_id(seen, x.id)) by {
                    if has_id(seen, x.id) {
                        lemma_index_of_found(seen, x.id);
                        let j = index_of(seen, x.id);
                        assert(rs[j].id != rs[i as int].id);
                    }
                }
                let shown = views_of(out@);
                assert(!has_id(shown, x.id)) by {
                    if has_id(shown, x.id) {
                        lemma_index_of_found(shown, x.id);
                    }
                }
                lemma_insert_record(shown, k as int, x);
                lemma_insert_record(seen, seen.len() as int, x);
                assert(seen.insert(seen.len() as int, x) =~= rs.take(i + 1));
                assert(views_of(out@.insert(k as int, item)) =~= shown.insert(k as int, x));
                let next = shown.insert(k as int, x);
                assert forall|a: int, b: int| 0 <= a < b < next.len() implies !(
                #[trigger] next[a]).created_at.before((#[trigger] next[b]).created_at) by {
                    if a == k {
                        assert(next[b] == shown[b - 1]);
                        if k < b - 1 {
                            assert(!shown[k as int].created_at.before(shown[b - 1].created_at));
                        }
                    } else if b == k {
                        assert(next[a] == shown[a]);
                    } else {
                        let oa = if a < k { a } else { a - 1 };
                        let ob = if b < k { b } else { b - 1 };
                        assert(next[a] == shown[oa] && next[b] == shown[ob]);
                    }
                }
            }
            out.insert(k, item);
            i = i + 1;
        }
        proof {
            assert(self.records().take(i as int) =~= self.records());
        }
        out
    }

    /// The session of every `Running` record that has one: the sessions whose
    /// liveness a reconciliation has to look at.
    pub fn running_sessions(&self) -> (r: Vec<String>)
        requires
            self.wf(),
        ensures
            forall|session: Seq<char>|
                #[trigger] texts(r@).contains(session) <==> exists|id: Seq<char>|
                    self@.sandboxes.contains_key(id) && (#[trigger] self@.sandboxes[id]).running()
                        && self@.sandboxes[id].tmux_session == Some(session),
    {
        let mut out: Vec<String> = Vec::new();
        let mut i: usize = 0;
        while i < self.sandboxes.len()
            invariant
                self.wf(),
                i <= self.sandboxes.len(),
                forall|session: Seq<char>|
                    #[trigger] texts(out@).contains(session) <==> exists|j: int|
                        0 <= j < i && (#[trigger] self.records()[j]).running()
                            && self.records()[j].tmux_session == Some(session),
            decreases self.sandboxes.len() - i,
        {
            let sb = &self.sandboxes[i];
            let ghost prior = texts(out@);
            if sb.is_running() {
                match &sb.tmux_session {
                    Some(session) => {
                        let copy = session.clone();
                        out.push(copy);
                        proof {
                            let now = texts(out@);
                            assert(now =~= prior.push(session@));
                            assert forall|s: Seq<char>| #[trigger]
                                now.contains(s) <==> exists|j: int|
                                    0 <= j < i + 1 && (#[trigger] self.records()[j]).running()
                                        && self.records()[j].tmux_session == Some(s) by {
                                if now.contains(s) {
                                    let p = choose|p: int| 0 <= p < now.len() && now[p] == s;
                                    if p < prior.len() {
                                        assert(prior[p] == s);
                                        assert(prior.contains(s));
                                    } else {
                                        assert(self.records()[i as int].running());
                                    }
                                }
                                if exists|j: int|
                                    0 <= j < i + 1 && (#[trigger] self.records()[j]).running()
                                        && self.records()[j].tmux_session == Some(s) {
                                    let j = choose|j: int|
                                        0 <= j < i + 1 && (#[trigger] self.records()[j]).running()
                                            && self.records()[j].tmux_session == Some(s);
                                    if j < i {
                                        assert(prior.contains(s));
                                        let p = choose|p: int| 0 <= p < prior.len() && prior[p] == s;
                                        assert(now[p] == s);
                                    } else {
                                        assert(now[prior.len() as int] == s);
                                    }
                                }
                            }
                        }
                    },
                    None => {},
                }
            }
            i = i + 1;
        }
        proof {
            assert forall|session: Seq<char>| #[trigger]
                texts(out@).contains(session) <==> exists|id: Seq<char>|
                    self@.sandboxes.contains_key(id) && (#[trigger] self@.sandboxes[id]).running()
                        && self@.sandboxes[id].tmux_session == Some(session) by {
                if texts(out@).contains(session) {
                    let j = choose|j: int|
                        0 <= j < i && (#[trigger] self.records()[j]).running()
                            && self.records()[j].tmux_session == Some(session);
                    lemma_index_of_position(self.records(), j);
                    assert(self@.sandboxes[self.records()[j].id].running());
                }
                if exists|id: Seq<char>|
                    self@.sandboxes.contains_key(id) && (#[trigger] self@.sandboxes[id]).running()
                        && self@.sandboxes[id].tmux_session == Some(session) {
                    let id = choose|id: Seq<char>|
                        self@.sandboxes.contains_key(id) && (#[trigger] self@.sandboxes[id]).running()
                            && self@.sandboxes[id].tmux_session == Some(session);
                    lemma_index_of_found(self.records(), id);
                    assert(self.records()[index_of(self.records(), id)].running());
                }
            }
        }
        out
    }

    /// The snapshot of the registry: what has to reach stable storage.
    pub fn save(&self) -> (r: Snapshot)
        requires
            self.wf(),
        ensures
            r.captures(self@),
    {
        let mut copies: Vec<Sandbox> = Vec::new();
        let mut i: usize = 0;
        while i < self.sandboxes.len()
            invariant
                i <= self.sandboxes.len(),
                views_of(copies@) =~= self.records().take(i as int),
            decreases self.sandboxes.len() - i,
        {
            let copy = self.sandboxes[i].clone();
            let ghost prior = views_of(copies@);
            copies.push(copy);
            proof {
                assert(views_of(copies@) =~= prior.push(copy@));
                assert(self.records().take(i + 1) =~= self.records().take(i as int).push(
                    self.records()[i as int],
                ));
            }
            i = i + 1;
        }
        proof {
            assert(self.records().take(i as int) =~= self.records());
        }
        Snapshot { sandboxes: copies, next_display: self.next_display }
    }

    /// The registry at the start of a run. It never fails: without a snapshot,
    /// or with one that is not valid, the registry starts empty with the hint
    /// at [`FIRST_DISPLAY`].
    pub fn load(snapshot: Option<Snapshot>) -> (r: Self)
        ensures
            r.wf(),
            r@ == restored(snapshot),
    {
        let snap = match snapshot {
            Some(s) => s,
            None => {
                return ManagerState::default();
            },
        };
        let ghost recs = snap.records();
        let mut state = ManagerState { sandboxes: Vec::new(), next_display: snap.next_display };
        proof {
            lemma_empty_listing();
            assert(views_of(state.sandboxes@) =~= Seq::<SandboxView>::empty());
            assert(recs.take(0) =~= Seq::<SandboxView>::empty());
        }
        let mut k: usize = 0;
        while k < snap.sandboxes.len()
            invariant
                k <= snap.sandboxes.len(),
                recs == snap.records(),
                snapshot == Some(snap),
                state.wf(),
                state@.next_display == snap.next_display,
                distinct_ids(recs.take(k as int)),
                state@.sandboxes == index_by_id(recs.take(k as int)),
            decreases snap.sandboxes.len() - k,
        {
            let record = snap.sandboxes[k].clone();
            let ghost x = record@;
            let ghost seen = recs.take(k as int);
            assert(x == recs[k as int]);
            match state.insert(record) {
                Ok(()) => {
                    proof {
                        assert(!has_id(seen, x.id));
                        lemma_insert_record(seen, k as int, x);
                        assert(seen.insert(k as int, x) =~= recs.take(k + 1));
                    }
                },
                Err(_) => {
                    proof {
                        let prior = index_by_id(seen);
                        if distinct_ids(recs) {
                            lemma_index_of_position(recs, k as int);
                            let full = index_by_id(recs);
                            if prior.contains_key(x.id) {
                                lemma_index_of_found(seen, x.id);
                                let j = index_of(seen, x.id);
                                assert(recs[j].id == recs[k as int].id);
                            } else if !x.display_below(snap.next_display) {
                                assert(!full[x.id].display_below(snap.next_display));
                            } else {
                                let d = choose|d: u32| #[trigger]
                                    x.holds_display(d) && display_taken(prior, d);
                                let other = choose|id: Seq<char>|
                                    prior.contains_key(id) && #[trigger] prior[id].holds_display(d);
                                lemma_index_of_found(seen, other);
                                let j = index_of(seen, other);
                                assert(recs[j] == seen[j]);
                                lemma_index_of_position(recs, j);
                                assert(recs[j].id != recs[k as int].id);
                                assert(full[recs[j].id].holds_display(d));
                                assert(full[x.id].holds_display(d));
                            }
                        }
                        assert(!snap.valid());
                    }
                    return ManagerState::default();
                },
            }
            k = k + 1;
        }
        proof {
            assert(recs.take(k as int) =~= recs);
        }
        state
    }
}

} // verus!
