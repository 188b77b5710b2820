//! The stored form of a backend (a row of the `managed_backends` table) and
//! the values and statements that writing it takes. Running the statements
//! against the database is the caller's part.

use vstd::prelude::*;
use crate::json::views;
use crate::json::JsonValue;
use crate::outside::{
    is_lower_hex, json_document, json_string_list, json_text, json_text_of_strings,
    parse_json, random_uuid_simple, strings_to_json, to_json_text,
};
use crate::text::{decimal, decimal_string, opt_view};

verus! {

broadcast use vstd::string::group_string_axioms;

/// A backend as stored.
pub struct ManagedBackend {
    pub id: String,
    pub name: String,
    pub kind: String,
    pub enabled: bool,
    pub managed: bool,
    pub start_command: String,
    /// The arguments, as a JSON array of strings.
    pub start_args: Option<String>,
    pub working_dir: Option<String>,
    pub host: String,
    pub port: u16,
    pub health_path: String,
    pub api_key: Option<String>,
    /// The environment, as a JSON object.
    pub env_json: Option<String>,
    pub auto_restart: bool,
    pub startup_timeout_ms: u64,
    pub status: String,
    pub pid: Option<i32>,
    pub last_error: Option<String>,
    pub created_at: i64,
    pub updated_at: i64,
}

/// The values of a new row; the timestamps are the database's own.
pub struct NewBackend {
    pub id: String,
    pub name: String,
    pub kind: String,
    pub start_command: String,
    pub start_args: Option<String>,
    pub working_dir: Option<String>,
    pub host: String,
    pub port: u16,
    pub health_path: String,
    pub api_key: Option<String>,
    pub env_json: Option<String>,
    pub auto_restart: bool,
    pub startup_timeout_ms: u64,
}

/// An `UPDATE` statement and its parameters, one per `?`, in order.
pub struct UpdateStatement {
    pub sql: String,
    pub params: Vec<String>,
}

/// A `DELETE` statement and its parameters, one per `?`, in order.
pub struct DeleteStatement {
    pub sql: String,
    pub params: Vec<String>,
}

/// The statement that removes the stored backend `id`.
pub fn delete_statement(id: &str) -> (r: DeleteStatement)
    ensures
        r.sql@ == "DELETE FROM managed_backends WHERE id=?"@,
        views(r.params@) == seq![id@],
{
    let mut params: Vec<String> = Vec::new();
    params.push(String::from_str(id));
    assert(views(params@) =~= seq![id@]);
    DeleteStatement { sql: String::from_str("DELETE FROM managed_backends WHERE id=?"), params }
}

/// The shape of a backend id: `bk_` and the 32 lowercase hexadecimal digits
/// of a version 4 UUID (version digit `4`, variant digit `8`, `9`, `a` or `b`).
pub open spec fn is_backend_id(s: Seq<char>) -> bool {
    &&& s.len() == 35
    &&& s.take(3) == "bk_"@
    &&& forall|i: int| 3 <= i < 35 ==> is_lower_hex(#[trigger] s[i])
    &&& s[15] == '4'
    &&& (s[19] == '8' || s[19] == '9' || s[19] == 'a' || s[19] == 'b')
}

/// The environment of a stored backend, read from its JSON text; text that
/// is not JSON reads as none.
pub open spec fn stored_env(b: ManagedBackend) -> Option<JsonValue> {
    match b.env_json {
        Some(t) => json_document(t@),
        None => None,
    }
}

/// The JSON text of an optional environment.
pub open spec fn env_text(env: Option<JsonValue>) -> Option<Seq<char>> {
    match env {
        Some(v) => Some(json_text(v)),
        None => None,
    }
}

/// `true` or `false`, as `bool::to_string` writes it.
pub open spec fn bool_text(b: bool) -> Seq<char> {
    if b {
        "true"@
    } else {
        "false"@
    }
}

/// The JSON text of optional arguments.
pub open spec fn args_text(args: Option<Vec<String>>) -> Option<Seq<char>> {
    match args {
        Some(a) => Some(json_text_of_strings(views(a@))),
        None => None,
    }
}

/// `parts` joined with `sep` between consecutive parts.
pub open spec fn join(parts: Seq<Seq<char>>, sep: Seq<char>) -> Seq<char>
    decreases parts.len(),
{
    if parts.len() == 0 {
        Seq::empty()
    } else if parts.len() == 1 {
        parts[0]
    } else {
        join(parts.drop_last(), sep) + sep + parts.last()
    }
}

/// `sets` with the assignment `column=?` of `value` appended when a value is given.
pub open spec fn with_change(
    sets: Seq<(Seq<char>, Seq<char>)>,
    column: Seq<char>,
    value: Option<Seq<char>>,
) -> Seq<(Seq<char>, Seq<char>)> {
    match value {
        Some(v) => sets.push((column + "=?"@, v)),
        None => sets,
    }
}

/// The column assignments of an update and their values, in the order of
/// the columns: each given field, as text.
pub open spec fn changes(
    name: Option<Seq<char>>,
    start_command: Option<Seq<char>>,
    start_args: Option<Seq<char>>,
    working_dir: Option<Seq<char>>,
    host: Option<Seq<char>>,
    port: Option<u16>,
    health_path: Option<Seq<char>>,
    api_key: Option<Seq<char>>,
    env_json: Option<Seq<char>>,
    auto_restart: Option<bool>,
    startup_timeout_ms: Option<u64>,
    enabled: Option<bool>,
) -> Seq<(Seq<char>, Seq<char>)> {
    let s = with_change(Seq::empty(), "name"@, name);
    let s = with_change(s, "start_command"@, start_command);
    let s = with_change(s, "start_args"@, start_args);
    let s = with_change(s, "working_dir"@, working_dir);
    let s = with_change(s, "host"@, host);
    let s = with_change(
        s,
        "port"@,
        match port {
            Some(p) => Some(decimal(p as nat)),
            None => None,
        },
    );
    let s = with_change(s, "health_path"@, health_path);
    let s = with_change(s, "api_key"@, api_key);
    let s = with_change(s, "env_json"@, env_json);
    let s = with_change(
        s,
        "auto_restart"@,
        match auto_restart {
            Some(b) => Some(bool_text(b)),
            None => None,
        },
    );
    let s = with_change(
        s,
        "startup_timeout_ms"@,
        match startup_timeout_ms {
            Some(t) => Some(decimal(t as nat)),
            None => None,
        },
    );
    with_change(
        s,
        "enabled"@,
        match enabled {
            Some(b) => Some(bool_text(b)),
            None => None,
        },
    )
}

/// The assignment that stamps the time of an update.
pub open spec fn touch_assignment() -> Seq<char> {
    "updated_at=strftime('%s','now')"@
}

/// The text of an update statement with the given column assignments.
pub open spec fn update_sql(sets: Seq<(Seq<char>, Seq<char>)>) -> Seq<char> {
    "UPDATE managed_backends SET "@ + join(
        sets.map_values(|p: (Seq<char>, Seq<char>)| p.0).push(touch_assignment()),
        ","@,
    ) + " WHERE id=?"@
}

/// The environment read from its stored JSON text; text that is not JSON
/// reads as none.
pub fn read_env(text: &Option<String>) -> (r: Option<JsonValue>)
    ensures
        r == match *text {
            Some(t) => json_document(t@),
            None => None,
        },
{
    match text {
        Some(t) => match parse_json(t.as_str()) {
            Ok(v) => Some(v),
            Err(_) => None,
        },
        None => None,
    }
}

/// A new backend id: `bk_` followed by a random UUID in simple form.
pub fn new_backend_id() -> (r: String)
    ensures
        is_backend_id(r@),
{
    let u = random_uuid_simple();
    let mut id = String::from_str("bk_");
    id.append(u.as_str());
    proof {
        reveal_strlit("bk_");
        assert(id@.take(3) =~= "bk_"@);
        assert forall|i: int| 3 <= i < 35 implies is_lower_hex(#[trigger] id@[i]) by {
            assert(id@[i] == u@[i - 3]);
        }
        assert(id@[15] == u@[12]);
        assert(id@[19] == u@[16]);
    }
    id
}

/// The values of a new row for the given fields, under a new id; the
/// arguments are stored as a JSON array (which reads back as the same
/// arguments) and the environment as JSON text.
pub fn insert_values(
    name: &str,
    kind: &str,
    start_command: &str,
    start_args: Option<&Vec<String>>,
    working_dir: Option<&str>,
    host: &str,
    port: u16,
    health_path: &str,
    api_key: Option<&str>,
    env_json: Option<&JsonValue>,
    auto_restart: bool,
    startup_timeout_ms: u64,
) -> (r: NewBackend)
    ensures
        is_backend_id(r.id@),
        r.name@ == name@,
        r.kind@ == kind@,
        r.start_command@ == start_command@,
        opt_view(r.start_args) == match start_args {
            Some(a) => Some(json_text_of_strings(views(a@))),
            None => None::<Seq<char>>,
        },
        opt_view(r.working_dir) == match working_dir {
            Some(w) => Some(w@),
            None => None::<Seq<char>>,
        },
        r.host@ == host@,
        r.port == port,
        r.health_path@ == health_path@,
        opt_view(r.api_key) == match api_key {
            Some(k) => Some(k@),
            None => None::<Seq<char>>,
        },
        opt_view(r.env_json) == match env_json {
            Some(e) => Some(json_text(*e)),
            None => None::<Seq<char>>,
        },
        start_args matches Some(a) ==> (r.start_args matches Some(t) && json_string_list(t@) == Some(
            views(a@),
        )),
        r.auto_restart == auto_restart,
        r.startup_timeout_ms == startup_timeout_ms,
{
    let id = new_backend_id();
    let sa = match start_args {
        Some(a) => Some(strings_to_json(a)),
        None => None,
    };
    NewBackend {
        id,
        name: String::from_str(name),
        kind: String::from_str(kind),
        start_command: String::from_str(start_command),
        start_args: sa,
        working_dir: match working_dir {
            Some(w) => Some(String::from_str(w)),
            None => None,
        },
        host: String::from_str(host),
        port,
        health_path: String::from_str(health_path),
        api_key: match api_key {
            Some(k) => Some(String::from_str(k)),
            None => None,
        },
        env_json: match env_json {
            Some(e) => Some(to_json_text(e)),
            None => None,
        },
        auto_restart,
        startup_timeout_ms,
    }
}

fn bool_string(b: bool) -> (r: String)
    ensures
        r@ == bool_text(b),
{
    if b {
        String::from_str("true")
    } else {
        String::from_str("false")
    }
}

fn add_change(
    sets: &mut Vec<String>,
    vals: &mut Vec<String>,
    column: &str,
    value: Option<String>,
    Ghost(spec_sets): Ghost<Seq<(Seq<char>, Seq<char>)>>,
) -> (r: Ghost<Seq<(Seq<char>, Seq<char>)>>)
    requires
        views(old(sets)@) == spec_sets.map_values(|p: (Seq<char>, Seq<char>)| p.0),
        views(old(vals)@) == spec_sets.map_values(|p: (Seq<char>, Seq<char>)| p.1),
    ensures
        r@ == with_change(spec_sets, column@, opt_view(value)),
        views(final(sets)@) == r@.map_values(|p: (Seq<char>, Seq<char>)| p.0),
        views(final(vals)@) == r@.map_values(|p: (Seq<char>, Seq<char>)| p.1),
{
    match value {
        Some(v) => {
            let mut a = String::from_str(column);
            a.append("=?");
            let ghost pair = (a@, v@);
            sets.push(a);
            vals.push(v);
            let ghost r = spec_sets.push(pair);
            assert(views(sets@) =~= views(old(sets)@).push(pair.0));
            assert(views(vals@) =~= views(old(vals)@).push(pair.1));
            assert(r.map_values(|p: (Seq<char>, Seq<char>)| p.0) =~= spec_sets.map_values(
                |p: (Seq<char>, Seq<char>)| p.0,
            ).push(pair.0));
            assert(r.map_values(|p: (Seq<char>, Seq<char>)| p.1) =~= spec_sets.map_values(
                |p: (Seq<char>, Seq<char>)| p.1,
            ).push(pair.1));
            Ghost(r)
        },
        None => Ghost(spec_sets),
    }
}

fn opt_string(o: Option<&str>) -> (r: Option<String>)
    ensures
        opt_view(r) == match o {
            Some(s) => Some(s@),
            None => None::<Seq<char>>,
        },
{
    match o {
        Some(s) => Some(String::from_str(s)),
        None => None,
    }
}

/// Joins strings with a separator.
pub fn join_strings(parts: &Vec<String>, sep: &str) -> (r: String)
    ensures
        r@ == join(views(parts@), sep@),
{
    let mut r = String::new();
    let mut i: usize = 0;
    while i < parts.len()
        invariant
            i <= parts@.len(),
            r@ == join(views(parts@.take(i as int)), sep@),
        decreases parts@.len() - i,
    {
        assert(views(parts@.take(i + 1)).drop_last() =~= views(parts@.take(i as int)));
        if i > 0 {
            r.append(sep);
        }
        r.append(parts[i].as_str());
        i = i + 1;
    }
    assert(parts@.take(parts@.len() as int) =~= parts@);
    r
}

/// The statement that updates the given fields of the backend `id` and
/// stamps the time of the update. Arguments are written as a JSON array, the
/// environment as JSON text, numbers in decimal and flags as `true` or
/// `false`.
pub fn update_statement(
    id: &str,
    name: Option<&str>,
    start_command: Option<&str>,
    start_args: Option<&Vec<String>>,
    working_dir: Option<&str>,
    host: Option<&str>,
    port: Option<u16>,
    health_path: Option<&str>,
    api_key: Option<&str>,
    env_json: Option<&JsonValue>,
    auto_restart: Option<bool>,
    startup_timeout_ms: Option<u64>,
    enabled: Option<bool>,
) -> (r: UpdateStatement)
    ensures
        ({
            let sets = changes(
                match name { Some(s) => Some(s@), None => None },
                match start_command { Some(s) => Some(s@), None => None },
                match start_args { Some(a) => Some(json_text_of_strings(views(a@))), None => None },
                match working_dir { Some(s) => Some(s@), None => None },
                match host { Some(s) => Some(s@), None => None },
                port,
                match health_path { Some(s) => Some(s@), None => None },
                match api_key { Some(s) => Some(s@), None => None },
                match env_json { Some(v) => Some(json_text(*v)), None => None },
                auto_restart,
                startup_timeout_ms,
                enabled,
            );
            &&& r.sql@ == update_sql(sets)
            &&& views(r.params@) == sets.map_values(|p: (Seq<char>, Seq<char>)| p.1).push(id@)
        }),
        start_args matches Some(a) ==> json_string_list(json_text_of_strings(views(a@))) == Some(
            views(a@),
        ),
{
    let mut sets: Vec<String> = Vec::new();
    let mut vals: Vec<String> = Vec::new();
    let ghost s0 = Seq::<(Seq<char>, Seq<char>)>::empty();
    assert(views(sets@) =~= s0.map_values(|p: (Seq<char>, Seq<char>)| p.0));
    assert(views(vals@) =~= s0.map_values(|p: (Seq<char>, Seq<char>)| p.1));
    let Ghost(s1) = add_change(&mut sets, &mut vals, "name", opt_string(name), Ghost(s0));
    let Ghost(s2) = add_change(
        &mut sets,
        &mut vals,
        "start_command",
        opt_string(start_command),
        Ghost(s1),
    );
    let sa = match start_args {
        Some(a) => Some(strings_to_json(a)),
        None => None,
    };
    let Ghost(s3) = add_change(&mut sets, &mut vals, "start_args", sa, Ghost(s2));
    let Ghost(s4) = add_change(
        &mut sets,
        &mut vals,
        "working_dir",
        opt_string(working_dir),
        Ghost(s3),
    );
    let Ghost(s5) = add_change(&mut sets, &mut vals, "host", opt_string(host), Ghost(s4));
    let p = match port {
        Some(p) => Some(decimal_string(p as u64)),
        None => None,
    };
    let Ghost(s6) = add_change(&mut sets, &mut vals, "port", p, Ghost(s5));
    let Ghost(s7) = add_change(
        &mut sets,
        &mut vals,
        "health_path",
        opt_string(health_path),
        Ghost(s6),
    );
    let Ghost(s8) = add_change(&mut sets, &mut vals, "api_key", opt_string(api_key), Ghost(s7));
    let ej = match env_json {
        Some(v) => Some(to_json_text(v)),
        None => None,
    };
    let Ghost(s9) = add_change(&mut sets, &mut vals, "env_json", ej, Ghost(s8));
    let ar = match auto_restart {
        Some(b) => Some(bool_string(b)),
        None => None,
    };
    let Ghost(s10) = add_change(&mut sets, &mut vals, "auto_restart", ar, Ghost(s9));
    let st = match startup_timeout_ms {
        Some(t) => Some(decimal_string(t)),
        None => None,
    };
    let Ghost(s11) = add_change(&mut sets, &mut vals, "startup_timeout_ms", st, Ghost(s10));
    let en = match enabled {
        Some(b) => Some(bool_string(b)),
        None => None,
    };
    let Ghost(s12) = add_change(&mut sets, &mut vals, "enabled", en, Ghost(s11));
    sets.push(String::from_str("updated_at=strftime('%s','now')"));
    let mut sql = String::from_str("UPDATE managed_backends SET ");
    let joined = join_strings(&sets, ",");
    sql.append(joined.as_str());
    sql.append(" WHERE id=?");
    vals.push(String::from_str(id));
    assert(views(sets@) =~= s12.map_values(|p: (Seq<char>, Seq<char>)| p.0).push(touch_assignment()));
    assert(views(vals@) =~= s12.map_values(|p: (Seq<char>, Seq<char>)| p.1).push(id@));
    UpdateStatement { sql, params: vals }
}


/// How many times `c` occurs in `s`.
pub open spec fn occurrences(s: Seq<char>, c: char) -> nat
    decreases s.len(),
{
    if s.len() == 0 {
        0
    } else {
        occurrences(s.drop_last(), c) + if s.last() == c {
            1nat
        } else {
            0nat
        }
    }
}

proof fn lemma_occurrences_concat(a: Seq<char>, b: Seq<char>, c: char)
    ensures
        occurrences(a + b, c) == occurrences(a, c) + occurrences(b, c),
    decreases b.len(),
{
    if b.len() == 0 {
        assert(a + b =~= a);
    } else {
        lemma_occurrences_concat(a, b.drop_last(), c);
        assert((a + b).drop_last() =~= a + b.drop_last());
    }
}

proof fn lemma_occurrences_none(s: Seq<char>, c: char)
    requires
        forall|i: int| 0 <= i < s.len() ==> s[i] != c,
    ensures
        occurrences(s, c) == 0,
    decreases s.len(),
{
    if s.len() > 0 {
        lemma_occurrences_none(s.drop_last(), c);
    }
}

/// The number of `?` in each of `parts`, added up.
pub open spec fn placeholders_in(parts: Seq<Seq<char>>) -> nat
    decreases parts.len(),
{
    if parts.len() == 0 {
        0
    } else {
        placeholders_in(parts.drop_last()) + occurrences(parts.last(), '?')
    }
}

proof fn lemma_join_placeholders(parts: Seq<Seq<char>>)
    ensures
        occurrences(join(parts, ","@), '?') == placeholders_in(parts),
    decreases parts.len(),
{
    reveal_strlit(",");
    lemma_occurrences_none(","@, '?');
    if parts.len() == 0 {
        assert(occurrences(Seq::<char>::empty(), '?') == 0);
    } else if parts.len() == 1 {
        assert(parts.drop_last().len() == 0);
        assert(placeholders_in(parts.drop_last()) == 0);
        assert(parts.last() == parts[0]);
    } else {
        lemma_join_placeholders(parts.drop_last());
        lemma_occurrences_concat(join(parts.drop_last(), ","@), ","@, '?');
        lemma_occurrences_concat(join(parts.drop_last(), ","@) + ","@, parts.last(), '?');
        assert(join(parts, ","@) == join(parts.drop_last(), ","@) + ","@ + parts.last());
        assert(placeholders_in(parts) == placeholders_in(parts.drop_last()) + occurrences(
            parts.last(),
            '?',
        ));
    }
}

proof fn lemma_assignment_placeholders(
    sets: Seq<(Seq<char>, Seq<char>)>,
)
    requires
        forall|i: int| 0 <= i < sets.len() ==> occurrences(#[trigger] sets[i].0, '?') == 1,
    ensures
        placeholders_in(sets.map_values(|p: (Seq<char>, Seq<char>)| p.0)) == sets.len(),
    decreases sets.len(),
{
    if sets.len() > 0 {
        lemma_assignment_placeholders(sets.drop_last());
        assert(sets.map_values(|p: (Seq<char>, Seq<char>)| p.0).drop_last() =~= sets.drop_last().map_values(
            |p: (Seq<char>, Seq<char>)| p.0,
        ));
    }
}

proof fn lemma_one_placeholder(column: Seq<char>)
    requires
        forall|i: int| 0 <= i < column.len() ==> column[i] != '?',
    ensures
        occurrences(column + "=?"@, '?') == 1,
{
    reveal_strlit("=?");
    lemma_occurrences_none(column, '?');
    lemma_occurrences_concat(column, "=?"@, '?');
    let l = "=?"@;
    assert(l.len() == 2);
    assert(l.last() == '?');
    assert(l.drop_last().last() == '=');
    assert(l.drop_last().drop_last().len() == 0);
    assert(occurrences(l.drop_last().drop_last(), '?') == 0);
    assert(occurrences(l.drop_last(), '?') == 0);
    assert(occurrences(l, '?') == 1);
}

proof fn lemma_with_change(
    sets: Seq<(Seq<char>, Seq<char>)>,
    column: Seq<char>,
    value: Option<Seq<char>>,
)
    requires
        forall|i: int| 0 <= i < sets.len() ==> occurrences(#[trigger] sets[i].0, '?') == 1,
        forall|i: int| 0 <= i < column.len() ==> column[i] != '?',
    ensures
        forall|i: int|
            0 <= i < with_change(sets, column, value).len() ==> occurrences(
                #[trigger] with_change(sets, column, value)[i].0,
                '?',
            ) == 1,
{
    lemma_one_placeholder(column);
}

/// The values that the assignments of `sets` with the text `assignment`
/// (such as `host=?`) take, in order.
pub open spec fn values_assigned(
    sets: Seq<(Seq<char>, Seq<char>)>,
    assignment: Seq<char>,
) -> Seq<Seq<char>>
    decreases sets.len(),
{
    if sets.len() == 0 {
        Seq::empty()
    } else if sets.last().0 == assignment {
        values_assigned(sets.drop_last(), assignment).push(sets.last().1)
    } else {
        values_assigned(sets.drop_last(), assignment)
    }
}

/// A value given or not, as the values it is assigned: one or none.
pub open spec fn given(value: Option<Seq<char>>) -> Seq<Seq<char>> {
    match value {
        Some(v) => seq![v],
        None => Seq::empty(),
    }
}

proof fn lemma_values_after_change(
    sets: Seq<(Seq<char>, Seq<char>)>,
    column: Seq<char>,
    value: Option<Seq<char>>,
)
    ensures
        forall|assignment: Seq<char>| #[trigger] values_assigned(with_change(sets, column, value), assignment)
            == if column + "=?"@ == assignment {
            values_assigned(sets, assignment) + given(value)
        } else {
            values_assigned(sets, assignment)
        },
{
    assert forall|assignment: Seq<char>| #[trigger] values_assigned(with_change(sets, column, value), assignment)
        == if column + "=?"@ == assignment {
        values_assigned(sets, assignment) + given(value)
    } else {
        values_assigned(sets, assignment)
    } by {
        if value is Some {
            let t = with_change(sets, column, value);
            assert(t.drop_last() =~= sets);
        } else {
            assert(values_assigned(sets, assignment) + given(value) =~= values_assigned(sets, assignment));
        }
    }
}

/// An update writes exactly the fields it is given: each given field has
/// exactly one assignment `column=?` in the statement, whose parameter is
/// the field's value as text, and a field not given has none.
pub proof fn lemma_update_writes_given_fields(
    name: Option<Seq<char>>,
    start_command: Option<Seq<char>>,
    start_args: Option<Seq<char>>,
    working_dir: Option<Seq<char>>,
    host: Option<Seq<char>>,
    port: Option<u16>,
    health_path: Option<Seq<char>>,
    api_key: Option<Seq<char>>,
    env_json: Option<Seq<char>>,
    auto_restart: Option<bool>,
    startup_timeout_ms: Option<u64>,
    enabled: Option<bool>,
)
    ensures
        ({
            let sets = changes(
                name,
                start_command,
                start_args,
                working_dir,
                host,
                port,
                health_path,
                api_key,
                env_json,
                auto_restart,
                startup_timeout_ms,
                enabled,
            );
            &&& values_assigned(sets, "name=?"@) == given(name)
            &&& values_assigned(sets, "start_command=?"@) == given(start_command)
            &&& values_assigned(sets, "start_args=?"@) == given(start_args)
            &&& values_assigned(sets, "working_dir=?"@) == given(working_dir)
            &&& values_assigned(sets, "host=?"@) == given(host)
            &&& values_assigned(sets, "port=?"@) == given(
                match port {
                    Some(p) => Some(decimal(p as nat)),
                    None => None,
                },
            )
            &&& values_assigned(sets, "health_path=?"@) == given(health_path)
            &&& values_assigned(sets, "api_key=?"@) == given(api_key)
            &&& values_assigned(sets, "env_json=?"@) == given(env_json)
            &&& values_assigned(sets, "auto_restart=?"@) == given(
                match auto_restart {
                    Some(b) => Some(if b { "true"@ } else { "false"@ }),
                    None => None,
                },
            )
            &&& values_assigned(sets, "startup_timeout_ms=?"@) == given(
                match startup_timeout_ms {
                    Some(t) => Some(decimal(t as nat)),
                    None => None,
                },
            )
            &&& values_assigned(sets, "enabled=?"@) == given(
                match enabled {
                    Some(b) => Some(if b { "true"@ } else { "false"@ }),
                    None => None,
                },
            )
        }),
{
    reveal_strlit("=?");
    reveal_strlit("true");
    reveal_strlit("false");
    reveal_strlit("name");
    reveal_strlit("name=?");
    assert("name"@ + "=?"@ =~= "name=?"@);
    reveal_strlit("start_command");
    reveal_strlit("start_command=?");
    assert("start_command"@ + "=?"@ =~= "start_command=?"@);
    reveal_strlit("start_args");
    reveal_strlit("start_args=?");
    assert("start_args"@ + "=?"@ =~= "start_args=?"@);
    reveal_strlit("working_dir");
    reveal_strlit("working_dir=?");
    assert("working_dir"@ + "=?"@ =~= "working_dir=?"@);
    reveal_strlit("host");
    reveal_strlit("host=?");
    assert("host"@ + "=?"@ =~= "host=?"@);
    reveal_strlit("port");
    reveal_strlit("port=?");
    assert("port"@ + "=?"@ =~= "port=?"@);
    reveal_strlit("health_path");
    reveal_strlit("health_path=?");
    assert("health_path"@ + "=?"@ =~= "health_path=?"@);
    reveal_strlit("api_key");
    reveal_strlit("api_key=?");
    assert("api_key"@ + "=?"@ =~= "api_key=?"@);
    reveal_strlit("env_json");
    reveal_strlit("env_json=?");
    assert("env_json"@ + "=?"@ =~= "env_json=?"@);
    reveal_strlit("auto_restart");
    reveal_strlit("auto_restart=?");
    assert("auto_restart"@ + "=?"@ =~= "auto_restart=?"@);
    reveal_strlit("startup_timeout_ms");
    reveal_strlit("startup_timeout_ms=?");
    assert("startup_timeout_ms"@ + "=?"@ =~= "startup_timeout_ms=?"@);
    reveal_strlit("enabled");
    reveal_strlit("enabled=?");
    assert("enabled"@ + "=?"@ =~= "enabled=?"@);
    let pv = match port {
        Some(p) => Some(decimal(p as nat)),
        None => None,
    };
    let av = match auto_restart {
        Some(b) => Some(bool_text(b)),
        None => None,
    };
    let tv = match startup_timeout_ms {
        Some(t) => Some(decimal(t as nat)),
        None => None,
    };
    let ev = match enabled {
        Some(b) => Some(bool_text(b)),
        None => None,
    };
    let s0 = Seq::<(Seq<char>, Seq<char>)>::empty();
    assert forall|a: Seq<char>| #[trigger] values_assigned(s0, a) == Seq::<Seq<char>>::empty() by {}
    let s1 = with_change(s0, "name"@, name);
    lemma_values_after_change(s0, "name"@, name);
    assert(values_assigned(s1, "name=?"@) == given(name));
    let s2 = with_change(s1, "start_command"@, start_command);
    lemma_values_after_change(s1, "start_command"@, start_command);
    let s3 = with_change(s2, "start_args"@, start_args);
    lemma_values_after_change(s2, "start_args"@, start_args);
    let s4 = with_change(s3, "working_dir"@, working_dir);
    lemma_values_after_change(s3, "working_dir"@, working_dir);
    let s5 = with_change(s4, "host"@, host);
    lemma_values_after_change(s4, "host"@, host);
    let s6 = with_change(s5, "port"@, pv);
    lemma_values_after_change(s5, "port"@, pv);
    let s7 = with_change(s6, "health_path"@, health_path);
    lemma_values_after_change(s6, "health_path"@, health_path);
    let s8 = with_change(s7, "api_key"@, api_key);
    lemma_values_after_change(s7, "api_key"@, api_key);
    let s9 = with_change(s8, "env_json"@, env_json);
    lemma_values_after_change(s8, "env_json"@, env_json);
    let s10 = with_change(s9, "auto_restart"@, av);
    lemma_values_after_change(s9, "auto_restart"@, av);
    let s11 = with_change(s10, "startup_timeout_ms"@, tv);
    lemma_values_after_change(s10, "startup_timeout_ms"@, tv);
    let s12 = with_change(s11, "enabled"@, ev);
    lemma_values_after_change(s11, "enabled"@, ev);
    assert(Seq::<Seq<char>>::empty() + given(name) =~= given(name));
    assert("api_key=?"@[0] != "enabled=?"@[0]);
    assert("name=?"@[0] != "host=?"@[0]);
    assert("name=?"@[0] != "port=?"@[0]);
    assert("host=?"@[0] != "port=?"@[0]);
    assert("working_dir=?"@[0] != "health_path=?"@[0]);
    assert(values_assigned(s12, "name=?"@) == given(name));
    assert(values_assigned(s12, "start_command=?"@) == given(start_command));
    assert(values_assigned(s12, "start_args=?"@) == given(start_args));
    assert(values_assigned(s12, "working_dir=?"@) == given(working_dir));
    assert(values_assigned(s12, "host=?"@) == given(host));
    assert(values_assigned(s12, "port=?"@) == given(pv));
    assert(values_assigned(s12, "health_path=?"@) == given(health_path));
    assert(values_assigned(s12, "api_key=?"@) == given(api_key));
    assert(values_assigned(s12, "env_json=?"@) == given(env_json));
    assert(values_assigned(s12, "auto_restart=?"@) == given(av));
    assert(values_assigned(s12, "startup_timeout_ms=?"@) == given(tv));
    assert(values_assigned(s12, "enabled=?"@) == given(ev));
}

/// Every update statement has as many `?` placeholders as parameters: one
/// for each changed column, and one for the id.
pub proof fn lemma_update_placeholders(
    name: Option<Seq<char>>,
    start_command: Option<Seq<char>>,
    start_args: Option<Seq<char>>,
    working_dir: Option<Seq<char>>,
    host: Option<Seq<char>>,
    port: Option<u16>,
    health_path: Option<Seq<char>>,
    api_key: Option<Seq<char>>,
    env_json: Option<Seq<char>>,
    auto_restart: Option<bool>,
    startup_timeout_ms: Option<u64>,
    enabled: Option<bool>,
)
    ensures
        ({
            let sets = changes(
                name,
                start_command,
                start_args,
                working_dir,
                host,
                port,
                health_path,
                api_key,
                env_json,
                auto_restart,
                startup_timeout_ms,
                enabled,
            );
            occurrences(update_sql(sets), '?') == sets.len() + 1
        }),
{
    reveal_strlit("name");
    reveal_strlit("start_command");
    reveal_strlit("start_args");
    reveal_strlit("working_dir");
    reveal_strlit("host");
    reveal_strlit("port");
    reveal_strlit("health_path");
    reveal_strlit("api_key");
    reveal_strlit("env_json");
    reveal_strlit("auto_restart");
    reveal_strlit("startup_timeout_ms");
    reveal_strlit("enabled");
    let s0 = Seq::<(Seq<char>, Seq<char>)>::empty();
    let s1 = with_change(s0, "name"@, name);
    lemma_with_change(s0, "name"@, name);
    let s2 = with_change(s1, "start_command"@, start_command);
    lemma_with_change(s1, "start_command"@, start_command);
    let s3 = with_change(s2, "start_args"@, start_args);
    lemma_with_change(s2, "start_args"@, start_args);
    let s4 = with_change(s3, "working_dir"@, working_dir);
    lemma_with_change(s3, "working_dir"@, working_dir);
    let s5 = with_change(s4, "host"@, host);
    lemma_with_change(s4, "host"@, host);
    let pv = match port {
        Some(p) => Some(decimal(p as nat)),
        None => None,
    };
    let s6 = with_change(s5, "port"@, pv);
    lemma_with_change(s5, "port"@, pv);
    let s7 = with_change(s6, "health_path"@, health_path);
    lemma_with_change(s6, "health_path"@, health_path);
    let s8 = with_change(s7, "api_key"@, api_key);
    lemma_with_change(s7, "api_key"@, api_key);
    let s9 = with_change(s8, "env_json"@, env_json);
    lemma_with_change(s8, "env_json"@, env_json);
    let av = match auto_restart {
        Some(b) => Some(bool_text(b)),
        None => None,
    };
    let s10 = with_change(s9, "auto_restart"@, av);
    lemma_with_change(s9, "auto_restart"@, av);
    let tv = match startup_timeout_ms {
        Some(t) => Some(decimal(t as nat)),
        None => None,
    };
    let s11 = with_change(s10, "startup_timeout_ms"@, tv);
    lemma_with_change(s10, "startup_timeout_ms"@, tv);
    let ev = match enabled {
        Some(b) => Some(bool_text(b)),
        None => None,
    };
    let s12 = with_change(s11, "enabled"@, ev);
    lemma_with_change(s11, "enabled"@, ev);
    lemma_assignment_placeholders(s12);
    let cols = s12.map_values(|p: (Seq<char>, Seq<char>)| p.0);
    let parts = cols.push(touch_assignment());
    reveal_strlit("updated_at=strftime('%s','now')");
    lemma_occurrences_none(touch_assignment(), '?');
    assert(parts.drop_last() =~= cols);
    lemma_join_placeholders(parts);
    reveal_strlit("UPDATE managed_backends SET ");
    reveal_strlit(" WHERE id=?");
    lemma_occurrences_none("UPDATE managed_backends SET "@, '?');
    let tail = " WHERE id=?"@;
    assert(occurrences(tail, '?') == 1) by {
        lemma_occurrences_none(tail.drop_last(), '?');
    }
    lemma_occurrences_concat("UPDATE managed_backends SET "@, join(parts, ","@), '?');
    lemma_occurrences_concat("UPDATE managed_backends SET "@ + join(parts, ","@), tail, '?');
}

} // verus!
