//! SQL text built with `sql_builder` and parsed with `gluesql`.
//!
//! A [`QueryBuilder`] carries an `sql_builder::SqlBuilder` together with a model
//! of what it holds; each method makes one call on the builder and states how
//! that call changes the model, and [`QueryBuilder::sql`] states the text the
//! builder renders from it.
use crate::service::character::adapter::repository::scan::lexically_safe;
use crate::text::decimal_int;
use gluesql::Query;
use sql_builder::SqlBuilder;
use vstd::prelude::*;

verus! {

/// `sql_builder::SqlBuilder`, carried opaquely inside [`QueryBuilder`].
#[verifier::external_type_specification]
#[verifier::external_body]
pub struct ExSqlBuilder(SqlBuilder);

/// `gluesql::Query`, a parsed statement handed to the engine for execution.
#[verifier::external_type_specification]
#[verifier::external_body]
pub struct ExQuery(Query);

/// The statement a builder renders.
pub enum StatementKind {
    Select,
    Insert,
}

/// Model of a builder: the parts of the statement collected so far.
#[verifier::ext_equal]
pub struct BuilderState {
    pub kind: StatementKind,
    pub table: Seq<char>,
    pub fields: Seq<Seq<char>>,
    /// One entry per `values` call, already written as `(v1, v2, ...)`.
    pub values: Seq<Seq<char>>,
    pub wheres: Seq<Seq<char>>,
    pub limit: Option<Seq<char>>,
    pub offset: Option<Seq<char>>,
}

/// A fresh builder for a statement of kind `kind` on `table`.
pub open spec fn new_state(kind: StatementKind, table: Seq<char>) -> BuilderState {
    BuilderState {
        kind,
        table,
        fields: seq![],
        values: seq![],
        wheres: seq![],
        limit: None,
        offset: None,
    }
}

/// `parts` joined with `sep` between consecutive parts.
pub open spec fn join(parts: Seq<Seq<char>>, sep: Seq<char>) -> Seq<char>
    decreases parts.len(),
{
    if parts.len() == 0 {
        seq![]
    } else if parts.len() == 1 {
        parts[0]
    } else {
        join(parts.drop_last(), sep) + sep + parts.last()
    }
}

/// SQL string escaping: every single quote is doubled.
pub open spec fn escape(s: Seq<char>) -> Seq<char>
    decreases s.len(),
{
    if s.len() == 0 {
        seq![]
    } else {
        escape(s.drop_last()) + if s.last() == '\'' {
            seq!['\'', '\'']
        } else {
            seq![s.last()]
        }
    }
}

/// An SQL string literal holding `s`.
pub open spec fn quoted(s: Seq<char>) -> Seq<char> {
    seq!['\''] + escape(s) + seq!['\'']
}

proof fn lemma_escape_last(s: Seq<char>)
    requires
        s.len() > 0,
    ensures
        escape(s).len() > 0,
        escape(s).last() == s.last(),
{
}

/// Escaping loses nothing: two texts with the same escaped form are equal.
pub proof fn lemma_escape_injective(a: Seq<char>, b: Seq<char>)
    requires
        escape(a) == escape(b),
    ensures
        a == b,
    decreases a.len(),
{
    if a.len() == 0 {
        if b.len() > 0 {
            lemma_escape_last(b);
        }
        assert(b =~= a);
    } else {
        lemma_escape_last(a);
        if b.len() == 0 {
            assert(false);
        }
        lemma_escape_last(b);
        let x = a.last();
        assert(b.last() == x);
        let ea = escape(a.drop_last());
        let eb = escape(b.drop_last());
        if x == '\'' {
            assert((ea + seq!['\'', '\'']).subrange(0, ea.len() as int) =~= ea);
            assert((eb + seq!['\'', '\'']).subrange(0, eb.len() as int) =~= eb);
            assert(ea.len() == eb.len());
        } else {
            assert((ea + seq![x]).drop_last() =~= ea);
            assert((eb + seq![x]).drop_last() =~= eb);
        }
        assert(ea == eb);
        lemma_escape_injective(a.drop_last(), b.drop_last());
        assert(a =~= a.drop_last().push(x));
        assert(b =~= b.drop_last().push(x));
    }
}

/// Quoting loses nothing: distinct texts give distinct SQL literals, so a
/// condition `field = quoted(v)` names exactly the value `v`.
pub proof fn lemma_quoted_injective(a: Seq<char>, b: Seq<char>)
    requires
        quoted(a) == quoted(b),
    ensures
        a == b,
{
    let qa = quoted(a);
    assert(qa.subrange(1, qa.len() - 1) =~= escape(a));
    assert(quoted(b).subrange(1, quoted(b).len() - 1) =~= escape(b));
    lemma_escape_injective(a, b);
}

/// The `WHERE` part: one condition as is, several each parenthesized and joined by `AND`.
pub open spec fn where_text(wheres: Seq<Seq<char>>) -> Seq<char> {
    if wheres.len() == 0 {
        seq![]
    } else if wheres.len() == 1 {
        " WHERE "@ + wheres[0]
    } else {
        " WHERE "@ + join(wheres.map_values(|w: Seq<char>| seq!['('] + w + seq![')']), " AND "@)
    }
}

/// The text the builder renders, or `None` when it refuses to render
/// (no table name; an insert without values).
pub open spec fn rendered(st: BuilderState) -> Option<Seq<char>> {
    if st.table.len() == 0 {
        None
    } else {
        match st.kind {
            StatementKind::Select => Some(
                "SELECT "@ + (if st.fields.len() == 0 { "*"@ } else { join(st.fields, ", "@) })
                    + " FROM "@ + st.table + where_text(st.wheres)
                    + (match st.limit { Some(l) => " LIMIT "@ + l, None => seq![] })
                    + (match st.offset { Some(o) => " OFFSET "@ + o, None => seq![] })
                    + ";"@,
            ),
            StatementKind::Insert => if st.values.len() == 0 {
                None
            } else {
                Some(
                    "INSERT INTO "@ + st.table + " ("@ + join(st.fields, ", "@) + ") VALUES "@
                        + join(st.values, ", "@) + ";"@,
                )
            },
        }
    }
}

/// Models of a slice of string slices.
pub open spec fn strs_view(v: Seq<&str>) -> Seq<Seq<char>> {
    v.map_values(|s: &str| s@)
}

/// Models of a sequence of strings.
pub open spec fn owned_strs_view(v: Seq<String>) -> Seq<Seq<char>> {
    v.map_values(|s: String| s@)
}

/// An `sql_builder::SqlBuilder` with a model of what it holds.
pub struct QueryBuilder {
    builder: SqlBuilder,
    state: Ghost<BuilderState>,
}

impl View for QueryBuilder {
    type V = BuilderState;

    closed spec fn view(&self) -> BuilderState {
        self.state@
    }
}

/// `sql_builder::quote`: the text as an SQL string literal, single quotes doubled.
#[verifier::external_body]
pub(crate) fn quote(s: &str) -> (q: String)
    ensures
        q@ == quoted(s@),
{
    sql_builder::quote(s)
}

impl QueryBuilder {
    /// `SqlBuilder::select_from`: a `SELECT` on `table`.
    #[verifier::external_body]
    pub(crate) fn select_from(table: &str) -> (b: Self)
        ensures
            b@ == new_state(StatementKind::Select, table@),
    {
        QueryBuilder {
            builder: SqlBuilder::select_from(table),
            state: Ghost(new_state(StatementKind::Select, table@)),
        }
    }

    /// `SqlBuilder::insert_into`: an `INSERT` into `table`.
    #[verifier::external_body]
    pub(crate) fn insert_into(table: &str) -> (b: Self)
        ensures
            b@ == new_state(StatementKind::Insert, table@),
    {
        QueryBuilder {
            builder: SqlBuilder::insert_into(table),
            state: Ghost(new_state(StatementKind::Insert, table@)),
        }
    }

    /// `SqlBuilder::field`: appends one field.
    #[verifier::external_body]
    pub(crate) fn field(&mut self, field: &str)
        ensures
            final(self)@ == (BuilderState { fields: old(self)@.fields.push(field@), ..old(self)@ }),
    {
        self.builder.field(field);
    }

    /// `SqlBuilder::fields`: appends the fields in order.
    #[verifier::external_body]
    pub(crate) fn fields(&mut self, fields: &[&str])
        ensures
            final(self)@ == (BuilderState {
                fields: old(self)@.fields + strs_view(fields@),
                ..old(self)@
            }),
    {
        self.builder.fields(fields);
    }

    /// `SqlBuilder::values`: appends one row of values, written `(v1, v2, ...)`.
    #[verifier::external_body]
    pub(crate) fn values(&mut self, values: &[String])
        ensures
            final(self)@ == (BuilderState {
                values: old(self)@.values.push(
                    seq!['('] + join(owned_strs_view(values@), ", "@) + seq![')'],
                ),
                ..old(self)@
            }),
    {
        self.builder.values(values);
    }

    /// `SqlBuilder::count_as`: appends the field `COUNT(field) AS name`.
    #[verifier::external_body]
    pub(crate) fn count_as(&mut self, field: &str, name: &str)
        ensures
            final(self)@ == (BuilderState {
                fields: old(self)@.fields.push("COUNT("@ + field@ + ") AS "@ + name@),
                ..old(self)@
            }),
    {
        self.builder.count_as(field, name);
    }

    /// `SqlBuilder::and_where_eq`: appends the condition `field = value`.
    #[verifier::external_body]
    pub(crate) fn and_where_eq(&mut self, field: &str, value: &str)
        ensures
            final(self)@ == (BuilderState {
                wheres: old(self)@.wheres.push(field@ + " = "@ + value@),
                ..old(self)@
            }),
    {
        self.builder.and_where_eq(field, value);
    }

    /// `SqlBuilder::and_where_like_any`: appends `field LIKE '%mask%'`, the mask escaped.
    #[verifier::external_body]
    pub(crate) fn and_where_like_any(&mut self, field: &str, mask: &str)
        ensures
            final(self)@ == (BuilderState {
                wheres: old(self)@.wheres.push(field@ + " LIKE '%"@ + escape(mask@) + "%'"@),
                ..old(self)@
            }),
    {
        self.builder.and_where_like_any(field, mask);
    }

    /// `SqlBuilder::limit`: sets the limit, written in decimal.
    #[verifier::external_body]
    pub(crate) fn limit(&mut self, limit: i64)
        ensures
            final(self)@ == (BuilderState { limit: Some(decimal_int(limit as int)), ..old(self)@ }),
    {
        self.builder.limit(limit);
    }

    /// `SqlBuilder::offset`: sets the offset, written in decimal.
    #[verifier::external_body]
    pub(crate) fn offset(&mut self, offset: i64)
        ensures
            final(self)@ == (BuilderState { offset: Some(decimal_int(offset as int)), ..old(self)@ }),
    {
        self.builder.offset(offset);
    }

    /// `SqlBuilder::sql`: the complete statement text, or an error when the
    /// builder refuses to render it.
    #[verifier::external_body]
    pub(crate) fn sql(&self) -> (res: Result<String, ()>)
        ensures
            match rendered(self@) {
                Some(text) => res matches Ok(s) && s@ == text,
                None => res is Err,
            },
    {
        self.builder.sql().map_err(|_| ())
    }
}

/// The script made of the statements that `states` render, each followed by
/// `;` and a line break, or `None` when some builder refuses to render.
pub open spec fn script_of(states: Seq<BuilderState>) -> Option<Seq<char>>
    decreases states.len(),
{
    if states.len() == 0 {
        Some(seq![])
    } else {
        match (script_of(states.drop_last()), rendered(states.last())) {
            (Some(prefix), Some(text)) => Some(prefix + text + seq![';', '\n']),
            _ => None,
        }
    }
}

/// The condition `name = value`.
pub open spec fn eq_condition(name: Seq<char>, value: Seq<char>) -> Seq<char> {
    name + " = "@ + value
}

/// The text searched by a keyword: lowercase profile name, a space, lowercase profile id.
pub open spec fn keyword_target() -> Seq<char> {
    "LOWER(profile_name) || ' ' || LOWER(profile_id)"@
}

/// The condition that [`keyword_target`] holds `pattern` anywhere, the pattern escaped.
pub open spec fn keyword_condition(pattern: Seq<char>) -> Seq<char> {
    keyword_target() + " LIKE '%"@ + escape(pattern) + "%'"@
}

/// A statement parsed from a script, with the script it was read from and its
/// position among the script's statements.
pub struct ParsedQuery {
    query: Query,
    source: Ghost<(Seq<char>, nat)>,
}

impl View for ParsedQuery {
    type V = (Seq<char>, nat);

    closed spec fn view(&self) -> (Seq<char>, nat) {
        self.source@
    }
}

impl ParsedQuery {
    /// The parsed statement, for the engine to execute.
    pub fn into_query(self) -> Query {
        self.query
    }

    /// The parsed statement, borrowed.
    pub fn query(&self) -> &Query {
        &self.query
    }
}

/// Each of `queries` is the statement of `script` at its own position.
pub open spec fn parsed_from(queries: Seq<ParsedQuery>, script: Seq<char>) -> bool {
    forall|i: int| 0 <= i < queries.len() ==> #[trigger] queries[i]@ == (script, i as nat)
}

/// What `gluesql::parse` gives for a script: the number of statements, or the
/// parser's error message.
pub uninterp spec fn parse_outcome(sql: Seq<char>) -> Result<nat, Seq<char>>;

/// `gluesql::parse`: splits a script into parsed statements, one per statement
/// of the script and in the script's order (sqlparser's `parse_statements`
/// pushes each statement as it reads it); each is labelled here with the
/// script and its position.
/// Claimed: the outcome depends on the script text alone (the parser is a pure
/// function of its input); on failure the error's display text is returned.
/// The script must be [`lexically_safe`]: sqlparser 0.8 with the generic
/// dialect panics on operator tokens it ranks but cannot parse (`<<`, `>>`,
/// `]`, `#`) and overflows the stack on deeply nested input. Outside string
/// literals, quoted names and comments such a script holds none of those
/// tokens, and each statement at most 128 letters (so at most 64 keywords),
/// 8 opening brackets and 4 signs, which bounds how deep the parser recurses.
#[verifier::external_body]
pub(crate) fn parse(sql: &str) -> (res: Result<Vec<ParsedQuery>, String>)
    requires
        lexically_safe(sql@),
    ensures
        match res {
            Ok(queries) => parse_outcome(sql@) == Ok::<nat, Seq<char>>(queries.len() as nat)
                && parsed_from(queries@, sql@),
            Err(message) => parse_outcome(sql@) == Err::<nat, Seq<char>>(message@),
        },
{
    match gluesql::parse(sql) {
        Ok(queries) => Ok(queries.into_iter().enumerate().map(
            |(i, query)| ParsedQuery { query, source: Ghost((sql@, i as nat)) },
        ).collect()),
        Err(e) => Err(e.to_string()),
    }
}

} // verus!
