//! The registry of backends known at run time, keyed by backend id. Each
//! registered backend gets a serial number; a task that acts on a backend
//! names it by id and serial, so that it never acts on a later backend that
//! was registered under the same id.

use vstd::prelude::*;
use crate::json::{JsonValue, views};
use crate::kind::{BackendKind, BackendStatus, parse_kind, unknown_kind_message};
use crate::outside::{json_string_list, parse_string_list};
use crate::runtime::{
    BackendConfig, BackendEvent, EventOutcome, ManagedBackend, RuntimeState, event_answer,
    event_step, idle_state,
};
use crate::store;
use crate::text::{clone_opt, opt_view};

verus! {

/// A registered backend, abstractly: its serial and its state.
pub struct Slot {
    pub serial: u64,
    pub state: RuntimeState,
}

/// The registry, abstractly.
pub struct RegistryView {
    pub backends: Map<Seq<char>, Slot>,
    /// The serial that the next registered backend gets.
    pub next_serial: u64,
}

struct Entry {
    id: String,
    serial: u64,
    backend: ManagedBackend,
}

/// The backends known at run time.
pub struct BackendRegistry {
    entries: Vec<Entry>,
    next_serial: u64,
}

/// The index of the entry with key `k`.
spec fn index_of(s: Seq<Entry>, k: Seq<char>) -> int {
    choose|i: int| 0 <= i < s.len() && s[i].id@ == k
}

spec fn slot_of(e: Entry) -> Slot {
    Slot { serial: e.serial, state: e.backend@ }
}

spec fn entries_map(s: Seq<Entry>) -> Map<Seq<char>, Slot> {
    Map::new(
        |k: Seq<char>| exists|i: int| 0 <= i < s.len() && s[i].id@ == k,
        |k: Seq<char>| slot_of(s[index_of(s, k)]),
    )
}

spec fn keys_distinct(s: Seq<Entry>) -> bool {
    forall|i: int, j: int| 0 <= i < j < s.len() ==> s[i].id@ != s[j].id@
}

spec fn serials_below(s: Seq<Entry>, bound: u64) -> bool {
    forall|i: int| 0 <= i < s.len() ==> s[i].serial < bound
}

/// Every registered serial is below the next one.
pub open spec fn serials_fresh(v: RegistryView) -> bool {
    forall|k: Seq<char>| v.backends.contains_key(k) ==> #[trigger] v.backends[k].serial
        < v.next_serial
}

/// The registry after registering a backend in state `st` under `id`.
pub open spec fn registered(v: RegistryView, id: Seq<char>, st: RuntimeState) -> RegistryView {
    RegistryView {
        backends: v.backends.insert(id, Slot { serial: v.next_serial, state: st }),
        next_serial: (v.next_serial + 1) as u64,
    }
}

/// The registry after forgetting `id`.
pub open spec fn forgotten(v: RegistryView, id: Seq<char>) -> RegistryView {
    RegistryView { backends: v.backends.remove(id), ..v }
}

/// Whether the handle `(id, serial)` names a registered backend.
pub open spec fn addresses(v: RegistryView, id: Seq<char>, serial: u64) -> bool {
    v.backends.contains_key(id) && v.backends[id].serial == serial
}

/// The arguments of a stored backend, parsed; unreadable arguments are none.
pub open spec fn stored_args(row: store::ManagedBackend) -> Option<Seq<Seq<char>>> {
    match row.start_args {
        Some(t) => json_string_list(t@),
        None => None,
    }
}

/// Whether `c` is the configuration read from the stored backend `row` with
/// kind `k`.
pub open spec fn config_from_row(c: BackendConfig, row: store::ManagedBackend, k: BackendKind) -> bool {
    &&& c.id@ == row.id@
    &&& c.name@ == row.name@
    &&& c.kind == k
    &&& c.start_command@ == row.start_command@
    &&& match c.start_args {
        Some(a) => stored_args(row) == Some(views(a@)),
        None => stored_args(row) is None,
    }
    &&& opt_view(c.working_dir) == opt_view(row.working_dir)
    &&& c.host@ == row.host@
    &&& c.port == row.port
    &&& c.health_path@ == row.health_path@
    &&& opt_view(c.api_key) == opt_view(row.api_key)
    &&& c.env_json == store::stored_env(row)
    &&& c.auto_restart == row.auto_restart
    &&& c.startup_timeout_ms == row.startup_timeout_ms
}

/// The runtime record of a stored backend. Its arguments and environment are
/// read from their JSON text (unreadable ones count as none). A kind that is
/// not known is refused.
pub fn backend_from_row(row: &store::ManagedBackend) -> (r: Result<
    ManagedBackend,
    String,
>)
    ensures
        match r {
            Ok(b) => {
                &&& parse_kind(row.kind@) == Some(b@.config.kind)
                &&& config_from_row(b@.config, *row, b@.config.kind)
                &&& b@ == idle_state(b@.config)
            },
            Err(e) => parse_kind(row.kind@) is None && e@ == unknown_kind_message(row.kind@),
        },
{
    let start_args = match &row.start_args {
        Some(t) => parse_string_list(t.as_str()),
        None => None,
    };
    let env_json = store::read_env(&row.env_json);
    let kind = BackendKind::from_str(row.kind.as_str())?;
    Ok(
        ManagedBackend::new(
            row.id.clone(),
            row.name.clone(),
            kind,
            row.start_command.clone(),
            start_args,
            clone_opt(&row.working_dir),
            row.host.clone(),
            row.port,
            row.health_path.clone(),
            clone_opt(&row.api_key),
            env_json,
            row.auto_restart,
            row.startup_timeout_ms,
        ),
    )
}

proof fn lemma_entry_in_map(s: Seq<Entry>, i: int)
    requires
        keys_distinct(s),
        0 <= i < s.len(),
    ensures
        entries_map(s).contains_key(s[i].id@),
        entries_map(s)[s[i].id@] == slot_of(s[i]),
{
    let k = s[i].id@;
    assert(exists|j: int| 0 <= j < s.len() && s[j].id@ == k);
    let j = index_of(s, k);
    assert(s[j].id@ == k);
    if j != i {
        if j < i {
            assert(s[j].id@ != s[i].id@);
        } else {
            assert(s[i].id@ != s[j].id@);
        }
    }
}

proof fn lemma_map_after_push(s: Seq<Entry>, e: Entry)
    requires
        keys_distinct(s),
        !entries_map(s).contains_key(e.id@),
    ensures
        keys_distinct(s.push(e)),
        entries_map(s.push(e)) == entries_map(s).insert(e.id@, slot_of(e)),
{
    let t = s.push(e);
    assert forall|i: int, j: int| 0 <= i < j < t.len() implies t[i].id@ != t[j].id@ by {
        if j == s.len() {
            if t[i].id@ == e.id@ {
                assert(s[i].id@ == e.id@);
                assert(entries_map(s).contains_key(e.id@));
            }
        }
    }
    let m = entries_map(t);
    let m2 = entries_map(s).insert(e.id@, slot_of(e));
    assert forall|k: Seq<char>| m.contains_key(k) <==> m2.contains_key(k) by {
        if m.contains_key(k) && k != e.id@ {
            let i = choose|i: int| 0 <= i < t.len() && t[i].id@ == k;
            assert(s[i].id@ == k);
        }
        if m2.contains_key(k) && k != e.id@ {
            let i = choose|i: int| 0 <= i < s.len() && s[i].id@ == k;
            assert(t[i].id@ == k);
        }
        if k == e.id@ {
            assert(t[s.len() as int].id@ == k);
        }
    }
    assert forall|k: Seq<char>| m.contains_key(k) implies m[k] == m2[k] by {
        let i = choose|i: int| 0 <= i < t.len() && t[i].id@ == k;
        lemma_entry_in_map(t, i);
        if i < s.len() {
            lemma_entry_in_map(s, i);
            assert(t[i] == s[i]);
        }
    }
    assert(m =~= m2);
}

proof fn lemma_map_after_remove(s: Seq<Entry>, i: int)
    requires
        keys_distinct(s),
        0 <= i < s.len(),
    ensures
        keys_distinct(s.remove(i)),
        entries_map(s.remove(i)) == entries_map(s).remove(s[i].id@),
{
    let t = s.remove(i);
    let k0 = s[i].id@;
    assert forall|a: int, b: int| 0 <= a < b < t.len() implies t[a].id@ != t[b].id@ by {
        let a2 = if a < i { a } else { a + 1 };
        let b2 = if b < i { b } else { b + 1 };
        assert(t[a] == s[a2]);
        assert(t[b] == s[b2]);
    }
    let m = entries_map(t);
    let m2 = entries_map(s).remove(k0);
    assert forall|k: Seq<char>| m.contains_key(k) <==> m2.contains_key(k) by {
        if m.contains_key(k) {
            let a = choose|a: int| 0 <= a < t.len() && t[a].id@ == k;
            let a2 = if a < i { a } else { a + 1 };
            assert(s[a2].id@ == k);
            assert(a2 != i);
        }
        if m2.contains_key(k) {
            let a = choose|a: int| 0 <= a < s.len() && s[a].id@ == k;
            assert(a != i);
            let a1 = if a < i { a } else { a - 1 };
            assert(t[a1] == s[a]);
        }
    }
    assert forall|k: Seq<char>| m.contains_key(k) implies m[k] == m2[k] by {
        let a = choose|a: int| 0 <= a < t.len() && t[a].id@ == k;
        let a2 = if a < i { a } else { a + 1 };
        assert(t[a] == s[a2]);
        lemma_entry_in_map(t, a);
        lemma_entry_in_map(s, a2);
    }
    assert(m =~= m2);
}

proof fn lemma_map_after_update(s: Seq<Entry>, i: int, e: Entry)
    requires
        keys_distinct(s),
        0 <= i < s.len(),
        e.id@ == s[i].id@,
    ensures
        keys_distinct(s.update(i, e)),
        entries_map(s.update(i, e)) == entries_map(s).insert(e.id@, slot_of(e)),
{
    let t = s.update(i, e);
    assert forall|a: int, b: int| 0 <= a < b < t.len() implies t[a].id@ != t[b].id@ by {
        assert(t[a].id@ == s[a].id@);
        assert(t[b].id@ == s[b].id@);
    }
    let m = entries_map(t);
    let m2 = entries_map(s).insert(e.id@, slot_of(e));
    assert forall|k: Seq<char>| m.contains_key(k) <==> m2.contains_key(k) by {
        if m.contains_key(k) {
            let a = choose|a: int| 0 <= a < t.len() && t[a].id@ == k;
            assert(s[a].id@ == k);
        }
        if m2.contains_key(k) && k != e.id@ {
            let a = choose|a: int| 0 <= a < s.len() && s[a].id@ == k;
            assert(t[a].id@ == k);
        }
        if k == e.id@ {
            assert(t[i].id@ == k);
        }
    }
    assert forall|k: Seq<char>| m.contains_key(k) implies m[k] == m2[k] by {
        let a = choose|a: int| 0 <= a < t.len() && t[a].id@ == k;
        lemma_entry_in_map(t, a);
        if a != i {
            lemma_entry_in_map(s, a);
        }
    }
    assert(m =~= m2);
}

proof fn lemma_fresh(s: Seq<Entry>, bound: u64)
    requires
        keys_distinct(s),
        serials_below(s, bound),
    ensures
        serials_fresh(RegistryView { backends: entries_map(s), next_serial: bound }),
{
    assert forall|k: Seq<char>| entries_map(s).contains_key(k) implies #[trigger] entries_map(
        s,
    )[k].serial < bound by {
        let i = choose|i: int| 0 <= i < s.len() && s[i].id@ == k;
        lemma_entry_in_map(s, i);
    }
}

impl View for BackendRegistry {
    type V = RegistryView;

    closed spec fn view(&self) -> RegistryView {
        RegistryView { backends: entries_map(self.entries@), next_serial: self.next_serial }
    }
}

impl BackendRegistry {
    #[verifier::type_invariant]
    spec fn well_formed(&self) -> bool {
        &&& keys_distinct(self.entries@)
        &&& serials_below(self.entries@, self.next_serial)
    }

    /// An empty registry.
    pub fn new() -> (r: BackendRegistry)
        ensures
            r@.backends == Map::<Seq<char>, Slot>::empty(),
            r@.next_serial == 0,
            serials_fresh(r@),
    {
        let r = BackendRegistry { entries: Vec::new(), next_serial: 0 };
        assert(r@.backends =~= Map::<Seq<char>, Slot>::empty());
        r
    }

    fn find(&self, id: &str) -> (r: Option<usize>)
        ensures
            match r {
                Some(i) => i < self.entries@.len() && self.entries@[i as int].id@ == id@,
                None => !self@.backends.contains_key(id@),
            },
    {
        let mut i: usize = 0;
        while i < self.entries.len()
            invariant
                i <= self.entries@.len(),
                forall|j: int| 0 <= j < i ==> self.entries@[j].id@ != id@,
            decreases self.entries@.len() - i,
        {
            if crate::text::str_eq(self.entries[i].id.as_str(), id) {
                return Some(i);
            }
            i = i + 1;
        }
        None
    }

    /// Whether another backend can be registered: serials are not used up.
    pub fn can_register(&self) -> (r: bool)
        ensures
            r == (self@.next_serial < u64::MAX),
    {
        self.next_serial < u64::MAX
    }

    /// Whether a backend is registered under `id`.
    pub fn contains(&self, id: &str) -> (r: bool)
        ensures
            r == self@.backends.contains_key(id@),
    {
        proof {
            use_type_invariant(self);
        }
        match self.find(id) {
            Some(i) => {
                proof {
                    lemma_entry_in_map(self.entries@, i as int);
                }
                true
            },
            None => false,
        }
    }

    /// The serial of the backend registered under `id`, if any.
    pub fn serial(&self, id: &str) -> (r: Option<u64>)
        ensures
            serials_fresh(self@),
            match r {
                Some(s) => self@.backends.contains_key(id@) && self@.backends[id@].serial == s,
                None => !self@.backends.contains_key(id@),
            },
    {
        proof {
            use_type_invariant(self);
            lemma_fresh(self.entries@, self.next_serial);
        }
        match self.find(id) {
            Some(i) => {
                proof {
                    lemma_entry_in_map(self.entries@, i as int);
                }
                Some(self.entries[i].serial)
            },
            None => None,
        }
    }

    /// The backend registered under `id`, if any.
    pub fn get(&self, id: &str) -> (r: Option<&ManagedBackend>)
        ensures
            match r {
                Some(b) => self@.backends.contains_key(id@) && b@ == self@.backends[id@].state,
                None => !self@.backends.contains_key(id@),
            },
    {
        proof {
            use_type_invariant(self);
        }
        match self.find(id) {
            Some(i) => {
                proof {
                    lemma_entry_in_map(self.entries@, i as int);
                }
                Some(&self.entries[i].backend)
            },
            None => None,
        }
    }

    /// Registers a backend read from its stored form, unless one is
    /// registered under `id` already; answers with the serial of the
    /// backend registered under `id`. A stored kind that is not known is
    /// refused and nothing changes.
    pub fn register(&mut self, id: &str, row: &store::ManagedBackend) -> (r: Result<u64, String>)
        requires
            !old(self)@.backends.contains_key(id@) ==> old(self)@.next_serial < u64::MAX,
        ensures
            serials_fresh(final(self)@),
            old(self)@.backends.contains_key(id@) ==> {
                &&& r == Ok::<u64, String>(old(self)@.backends[id@].serial)
                &&& final(self)@ == old(self)@
            },
            !old(self)@.backends.contains_key(id@) ==> match r {
                Ok(s) => {
                    let st = final(self)@.backends[id@].state;
                    &&& s == old(self)@.next_serial
                    &&& final(self)@ == registered(old(self)@, id@, st)
                    &&& parse_kind(row.kind@) == Some(st.config.kind)
                    &&& config_from_row(st.config, *row, st.config.kind)
                    &&& st == idle_state(st.config)
                },
                Err(e) => {
                    &&& parse_kind(row.kind@) is None
                    &&& e@ == unknown_kind_message(row.kind@)
                    &&& final(self)@ == old(self)@
                },
            },
    {
        proof {
            use_type_invariant(&*self);
        }
        match self.find(id) {
            Some(i) => {
                proof {
                    lemma_entry_in_map(self.entries@, i as int);
                }
                return Ok(self.entries[i].serial);
            },
            None => {},
        }
        let backend = backend_from_row(row)?;
        let serial = self.next_serial;
        let mut entries: Vec<Entry> = Vec::new();
        std::mem::swap(&mut entries, &mut self.entries);
        let ghost before = entries@;
        let e = Entry { id: String::from_str(id), serial, backend };
        proof {
            lemma_map_after_push(before, e);
        }
        entries.push(e);
        *self = BackendRegistry { entries, next_serial: serial + 1 };
        Ok(serial)
    }

    /// Removes the backend registered under `id`, if any.
    pub fn forget(&mut self, id: &str)
        ensures
            serials_fresh(final(self)@),
            final(self)@ == forgotten(old(self)@, id@),
    {
        proof {
            use_type_invariant(&*self);
        }
        match self.find(id) {
            Some(i) => {
                let mut entries: Vec<Entry> = Vec::new();
                std::mem::swap(&mut entries, &mut self.entries);
                let ghost before = entries@;
                proof {
                    lemma_map_after_remove(before, i as int);
                }
                entries.remove(i);
                let next = self.next_serial;
                *self = BackendRegistry { entries, next_serial: next };
            },
            None => {
                assert(self@.backends.remove(id@) =~= self@.backends);
            },
        }
    }

    /// The status, process id and last error of the backend registered
    /// under `id`, if any.
    pub fn runtime_state(&self, id: &str) -> (r: Option<(BackendStatus, Option<u32>, Option<String>)>)
        ensures
            match r {
                Some(t) => {
                    &&& self@.backends.contains_key(id@)
                    &&& t.0 == self@.backends[id@].state.status
                    &&& t.1 == self@.backends[id@].state.pid
                    &&& opt_view(t.2) == self@.backends[id@].state.last_error
                },
                None => !self@.backends.contains_key(id@),
            },
    {
        match self.get(id) {
            Some(b) => Some((b.status(), b.pid(), b.last_error())),
            None => None,
        }
    }

    /// The ids of the registered backends.
    pub fn ids(&self) -> (r: Vec<String>)
        ensures
            views(r@).to_set() == self@.backends.dom(),
            views(r@).len() == self@.backends.dom().len(),
    {
        proof {
            use_type_invariant(self);
        }
        let mut r: Vec<String> = Vec::new();
        let mut i: usize = 0;
        while i < self.entries.len()
            invariant
                i <= self.entries@.len(),
                keys_distinct(self.entries@),
                views(r@) == self.entries@.take(i as int).map_values(|e: Entry| e.id@),
            decreases self.entries@.len() - i,
        {
            let ghost prev = r@;
            let k = self.entries[i].id.clone();
            assert(k@ == self.entries@[i as int].id@);
            r.push(k);
            assert(views(r@) =~= views(prev).push(self.entries@[i as int].id@));
            assert(self.entries@.take(i + 1).map_values(|e: Entry| e.id@) =~= self.entries@.take(
                i as int,
            ).map_values(|e: Entry| e.id@).push(self.entries@[i as int].id@));
            i = i + 1;
        }
        let ghost keys = self.entries@.map_values(|e: Entry| e.id@);
        assert(self.entries@.take(self.entries@.len() as int) =~= self.entries@);
        assert(views(r@).to_set() =~= self@.backends.dom()) by {
            assert forall|k: Seq<char>| views(r@).to_set().contains(k) implies self@.backends.dom().contains(k) by {
                let j = choose|j: int| 0 <= j < keys.len() && keys[j] == k;
                lemma_entry_in_map(self.entries@, j);
            }
            assert forall|k: Seq<char>| self@.backends.dom().contains(k) implies views(r@).to_set().contains(k) by {
                let j = choose|j: int| 0 <= j < self.entries@.len() && self.entries@[j].id@ == k;
                assert(keys[j] == k);
            }
        }
        proof {
            assert(keys.no_duplicates()) by {
                assert forall|a: int, b: int| 0 <= a < keys.len() && 0 <= b < keys.len() && a != b implies keys[a] != keys[b] by {
                    if a < b {
                        assert(self.entries@[a].id@ != self.entries@[b].id@);
                    } else {
                        assert(self.entries@[b].id@ != self.entries@[a].id@);
                    }
                }
            }
            keys.unique_seq_to_set();
        }
        r
    }

    /// Reports an event to the backend named by the handle `(id, serial)`,
    /// and answers it; a handle that names no registered backend (because
    /// it was forgotten, or replaced by a later one) changes nothing.
    pub fn apply(&mut self, id: &str, serial: u64, ev: BackendEvent) -> (r: Option<EventOutcome>)
        ensures
            serials_fresh(final(self)@),
            addresses(old(self)@, id@, serial) ==> (r matches Some(out) && event_answer(
                old(self)@.backends[id@].state,
                ev,
                out,
            ) && final(self)@ == (RegistryView {
                backends: old(self)@.backends.insert(
                    id@,
                    Slot { serial, state: event_step(old(self)@.backends[id@].state, ev) },
                ),
                ..old(self)@
            })),
            !addresses(old(self)@, id@, serial) ==> r is None && final(self)@ == old(self)@,
    {
        proof {
            use_type_invariant(&*self);
        }
        let i = match self.find(id) {
            Some(i) => i,
            None => {
                return None;
            },
        };
        proof {
            lemma_entry_in_map(self.entries@, i as int);
        }
        if self.entries[i].serial != serial {
            return None;
        }
        let mut entries: Vec<Entry> = Vec::new();
        std::mem::swap(&mut entries, &mut self.entries);
        let ghost before = entries@;
        let mut e = entries.remove(i);
        let out = e.backend.handle_event(ev);
        proof {
            lemma_map_after_update(before, i as int, e);
            assert(before.remove(i as int).insert(i as int, e) =~= before.update(i as int, e));
        }
        entries.insert(i, e);
        let next = self.next_serial;
        *self = BackendRegistry { entries, next_serial: next };
        Some(out)
    }
}

/// Registering a backend makes its id known, under a serial that no backend
/// registered before holds; forgetting it afterwards leaves the registry's
/// backends as they were.
pub proof fn lemma_register_then_forget(v: RegistryView, id: Seq<char>, st: RuntimeState)
    requires
        serials_fresh(v),
        !v.backends.contains_key(id),
        v.next_serial < u64::MAX,
    ensures
        registered(v, id, st).backends.contains_key(id),
        forall|k: Seq<char>| #[trigger] v.backends.contains_key(k) ==> v.backends[k].serial
            != registered(v, id, st).backends[id].serial,
        serials_fresh(registered(v, id, st)),
        forgotten(registered(v, id, st), id).backends == v.backends,
{
    assert(forgotten(registered(v, id, st), id).backends =~= v.backends);
}

/// Registering is cached: right after a backend is registered under `id`,
/// it is found there under the serial that registering answered, in the
/// state it was registered with, so that registering `id` again answers the
/// same serial and changes nothing.
pub proof fn lemma_registered_is_found(v: RegistryView, id: Seq<char>, st: RuntimeState)
    ensures
        registered(v, id, st).backends.contains_key(id),
        registered(v, id, st).backends[id] == (Slot { serial: v.next_serial, state: st }),
        addresses(registered(v, id, st), id, v.next_serial),
{
}

/// Forgetting a backend and registering `id` again gives a fresh backend:
/// the new one holds the new state under a serial no earlier backend held,
/// and every other backend stays as it was.
pub proof fn lemma_forget_then_register(v: RegistryView, id: Seq<char>, st: RuntimeState, other: Seq<char>)
    requires
        serials_fresh(v),
        v.next_serial < u64::MAX,
        other != id,
    ensures
        !forgotten(v, id).backends.contains_key(id),
        forgotten(v, id).next_serial == v.next_serial,
        registered(forgotten(v, id), id, st).backends[id] == (Slot { serial: v.next_serial, state: st }),
        v.backends.contains_key(id) ==> v.backends[id].serial != v.next_serial,
        registered(forgotten(v, id), id, st).backends.contains_key(other) == v.backends.contains_key(other),
        v.backends.contains_key(other) ==> registered(forgotten(v, id), id, st).backends[other]
            == v.backends[other],
{
}

/// A handle outlives its backend harmlessly: once the backend under `id` is
/// forgotten, its handle names nothing, and it still names nothing after a
/// new backend was registered under the same id.
pub proof fn lemma_stale_handle(v: RegistryView, id: Seq<char>, st: RuntimeState)
    requires
        serials_fresh(v),
        v.backends.contains_key(id),
        v.next_serial < u64::MAX,
    ensures
        !addresses(forgotten(v, id), id, v.backends[id].serial),
        !addresses(registered(forgotten(v, id), id, st), id, v.backends[id].serial),
{
}

/// Forgetting a backend leaves the others as they were, and forgetting is
/// idempotent.
pub proof fn lemma_forget_is_local(v: RegistryView, id: Seq<char>, other: Seq<char>)
    requires
        other != id,
    ensures
        forgotten(v, id).backends.contains_key(other) == v.backends.contains_key(other),
        v.backends.contains_key(other) ==> forgotten(v, id).backends[other] == v.backends[other],
        !forgotten(v, id).backends.contains_key(id),
        forgotten(forgotten(v, id), id) == forgotten(v, id),
{
    assert(forgotten(forgotten(v, id), id).backends =~= forgotten(v, id).backends);
}


/// An event reported through a handle changes only the backend it names:
/// every other registered backend, and the next serial, stay as they were.
pub proof fn lemma_event_is_local(v: RegistryView, id: Seq<char>, serial: u64, ev: BackendEvent, other: Seq<char>)
    requires
        addresses(v, id, serial),
        other != id,
    ensures
        ({
            let after = RegistryView {
                backends: v.backends.insert(
                    id,
                    Slot { serial, state: event_step(v.backends[id].state, ev) },
                ),
                ..v
            };
            &&& after.backends.contains_key(other) == v.backends.contains_key(other)
            &&& v.backends.contains_key(other) ==> after.backends[other] == v.backends[other]
            &&& after.next_serial == v.next_serial
            &&& addresses(after, id, serial)
        }),
{
}

} // verus!
