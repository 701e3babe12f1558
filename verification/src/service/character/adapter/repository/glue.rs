//! Character repository backed by the GlueSQL engine: statement building,
//! the stored row model and the assembly of search results.
use crate::glue::Error;
use crate::glue::error_message;
use crate::service::character::adapter::repository::sql::{
    escape, join, keyword_target, new_state,
    owned_strs_view, parse, parse_outcome, parsed_from, quote, quoted, rendered, where_text,
    script_of, strs_view, BuilderState, ParsedQuery, QueryBuilder, StatementKind,
};
use crate::service::character::adapter::repository::lexical::{
    lemma_find_clean, lemma_insert_clean, lemma_profile_clean, lemma_schema_safe,
    lemma_script_safe, schema_text,
};
use crate::service::character::adapter::repository::scan::lexically_safe;
use crate::service::character::domain::{
    Appearance, Character, CharacterView, Gender, Profile, ProfileView, Skin,
};
use crate::service::character::port::repository::{
    ErrorKind, ErrorKindView, FindParams, FindParamsView, FindResult, FindResultView, opt_text,
};
use crate::text::{decimal, decimal_int, decimal_nat, lowercase, push_char, signed_decimal, to_lowercase};
use gluesql::SledStorage;
use std::sync::Arc;
use vstd::prelude::*;
use vstd::string::*;

verus! {

/// Settings of the GlueSQL repository.
pub struct Config {
    pub enabled: bool,
    pub uri: String,
}

/// Whether the repository is enabled when the setting is absent.
pub fn default_enabled() -> (b: bool)
    ensures
        b,
{
    true
}

/// Storage location used when the setting is absent.
pub fn default_uri() -> (s: String)
    ensures
        s@ == "glue.db"@,
{
    String::from_str("glue.db")
}

impl Default for Config {
    fn default() -> (c: Self)
        ensures
            c.enabled,
            c.uri@ == "glue.db"@,
    {
        Config { enabled: default_enabled(), uri: default_uri() }
    }
}

/// `gluesql::SledStorage`: a handle on the sled database holding the tables.
#[verifier::external_type_specification]
#[verifier::external_body]
pub struct ExSledStorage(SledStorage);

/// `<SledStorage as Clone>::clone`: another handle on the same database.
/// Nothing is stated of the handle, which Verus cannot look into.
#[verifier::external_body]
fn clone_storage(storage: &SledStorage) -> SledStorage {
    storage.clone()
}

/// A character repository stored with GlueSQL: its settings and, once opened,
/// the storage.
pub struct GlueRepository {
    config: Config,
    storage: Option<Arc<SledStorage>>,
}

/// Model of a [`GlueRepository`]: its settings and whether storage is open.
pub struct GlueRepositoryView {
    pub enabled: bool,
    pub uri: Seq<char>,
    pub has_storage: bool,
}

impl View for GlueRepository {
    type V = GlueRepositoryView;

    closed spec fn view(&self) -> GlueRepositoryView {
        GlueRepositoryView {
            enabled: self.config.enabled,
            uri: self.config.uri@,
            has_storage: self.storage is Some,
        }
    }
}

impl GlueRepository {
    /// A repository with default settings and no storage yet.
    pub fn new() -> (r: Self)
        ensures
            r@ == (GlueRepositoryView { enabled: true, uri: "glue.db"@, has_storage: false }),
    {
        Self { config: Config::default(), storage: None }
    }

    /// A handle on the storage, or `NotEnabled` when no storage has been opened.
    pub fn get_storage(&self) -> (res: Result<SledStorage, ErrorKind>)
        ensures
            self@.has_storage <==> res is Ok,
            res matches Err(e) ==> e@ == ErrorKindView::NotEnabled,
    {
        match &self.storage {
            None => Err(ErrorKind::NotEnabled),
            Some(storage) => Ok(clone_storage(&**storage)),
        }
    }

    /// Whether storage is to be opened: only when the repository is enabled.
    pub fn storage_wanted(&self) -> (b: bool)
        ensures
            b == self@.enabled,
    {
        self.config.enabled
    }

    /// The repository's settings.
    pub fn config(&self) -> (c: &Config)
        ensures
            c.enabled == self@.enabled,
            c.uri@ == self@.uri,
    {
        &self.config
    }

    /// Takes the settings read from configuration; a reading failure is
    /// reported as an initialization error and leaves the repository unchanged.
    pub fn configure(&mut self, settings: Result<Config, String>) -> (res: Option<ErrorKind>)
        ensures
            match settings {
                Ok(c) => res is None && final(self)@ == (GlueRepositoryView {
                    enabled: c.enabled,
                    uri: c.uri@,
                    ..old(self)@
                }),
                Err(detail) => {
                    &&& final(self)@ == old(self)@
                    &&& res matches Some(e)
                    &&& e@ == ErrorKindView::InitializationFailed("failed to obtain configuration : "@ + detail@)
                },
            },
    {
        match settings {
            Ok(c) => {
                self.config = c;
                None
            },
            Err(detail) => Some(configuration_failed(detail.as_str())),
        }
    }

    /// Takes the storage opened at the configured location; a failure to open
    /// it is reported as an initialization error and leaves the repository unchanged.
    pub fn attach_storage(&mut self, storage: Result<SledStorage, String>) -> (res: Option<ErrorKind>)
        ensures
            match storage {
                Ok(_) => res is None && final(self)@ == (GlueRepositoryView {
                    has_storage: true,
                    ..old(self)@
                }),
                Err(detail) => {
                    &&& final(self)@ == old(self)@
                    &&& res matches Some(e)
                    &&& e@ == ErrorKindView::InitializationFailed("failed to create new storage : "@ + detail@)
                },
            },
    {
        match storage {
            Ok(s) => {
                self.storage = Some(Arc::new(s));
                None
            },
            Err(detail) => Some(storage_failed(detail.as_str())),
        }
    }
}

/// The table that holds characters.
pub open spec fn table_name() -> Seq<char> {
    "character"@
}

/// A character as stored: one row of the `character` table.
#[derive(Debug)]
pub struct Model {
    pub id: String,
    pub profile_id: String,
    pub profile_name: String,
    pub profile_gender: i64,
    pub appearance_skin: i64,
}

/// Model of a stored row.
pub struct ModelView {
    pub id: Seq<char>,
    pub profile_id: Seq<char>,
    pub profile_name: Seq<char>,
    pub profile_gender: i64,
    pub appearance_skin: i64,
}

impl View for Model {
    type V = ModelView;

    open spec fn view(&self) -> ModelView {
        ModelView {
            id: self.id@,
            profile_id: self.profile_id@,
            profile_name: self.profile_name@,
            profile_gender: self.profile_gender,
            appearance_skin: self.appearance_skin,
        }
    }
}

/// The stored code of a gender: its position in the declaration.
pub open spec fn gender_code(g: Gender) -> i64 {
    match g {
        Gender::Unknown => 0,
        Gender::Male => 1,
        Gender::Female => 2,
    }
}

/// The stored code of a skin tone: its position in the declaration.
pub open spec fn skin_code(s: Skin) -> i64 {
    match s {
        Skin::Unknown => 0,
        Skin::White => 1,
        Skin::Black => 2,
        Skin::Yellow => 3,
    }
}

/// The gender of a stored code; an unknown code reads as `Unknown`.
pub open spec fn gender_of_code(code: i64) -> Gender {
    if code == 2 {
        Gender::Female
    } else if code == 1 {
        Gender::Male
    } else {
        Gender::Unknown
    }
}

/// The skin tone of a stored code; an unknown code reads as `Unknown`.
pub open spec fn skin_of_code(code: i64) -> Skin {
    if code == 2 {
        Skin::Black
    } else if code == 1 {
        Skin::White
    } else if code == 3 {
        Skin::Yellow
    } else {
        Skin::Unknown
    }
}

/// The row stored for a character.
pub open spec fn model_of(c: CharacterView) -> ModelView {
    ModelView {
        id: c.id,
        profile_id: c.profile.id,
        profile_name: c.profile.name,
        profile_gender: gender_code(c.profile.gender),
        appearance_skin: skin_code(c.appearance.skin),
    }
}

/// The character read back from a stored row.
pub open spec fn character_of(m: ModelView) -> CharacterView {
    CharacterView {
        id: m.id,
        profile: ProfileView {
            id: m.profile_id,
            gender: gender_of_code(m.profile_gender),
            name: m.profile_name,
        },
        appearance: Appearance { skin: skin_of_code(m.appearance_skin) },
    }
}

/// Codes that some gender and some skin tone are stored as.
pub open spec fn has_known_codes(m: ModelView) -> bool {
    &&& 0 <= m.profile_gender <= 2
    &&& 0 <= m.appearance_skin <= 3
}

/// Storing a character and reading the row back gives the same character.
pub proof fn lemma_character_round_trip(c: CharacterView)
    ensures
        character_of(model_of(c)) == c,
{
}

/// A row whose codes name a gender and a skin tone is stored again unchanged
/// after being read as a character.
pub proof fn lemma_row_round_trip(m: ModelView)
    requires
        has_known_codes(m),
    ensures
        model_of(character_of(m)) == m,
{
}

/// Every row reads as a character whose row has known codes.
pub proof fn lemma_read_codes_known(m: ModelView)
    ensures
        has_known_codes(model_of(character_of(m))),
{
}

fn gender_to_code(g: Gender) -> (code: i64)
    ensures
        code == gender_code(g),
{
    match g {
        Gender::Unknown => 0,
        Gender::Male => 1,
        Gender::Female => 2,
    }
}

fn skin_to_code(s: Skin) -> (code: i64)
    ensures
        code == skin_code(s),
{
    match s {
        Skin::Unknown => 0,
        Skin::White => 1,
        Skin::Black => 2,
        Skin::Yellow => 3,
    }
}

impl Model {
    /// The row stored for a character.
    pub fn from_domain(character: Character) -> (m: Model)
        ensures
            m@ == model_of(character@),
    {
        let id = character.get_id().clone();
        let profile = character.get_profile();
        let gender = gender_to_code(profile.gender);
        let skin = skin_to_code(character.get_appearance().skin);
        Model {
            id: id,
            profile_id: profile.id.clone(),
            profile_name: profile.name.clone(),
            profile_gender: gender,
            appearance_skin: skin,
        }
    }

    /// The character a stored row describes; unknown codes read as `Unknown`.
    pub fn into_domain(self) -> (c: Character)
        ensures
            c@ == character_of(self@),
    {
        let gender = if self.profile_gender == 2 {
            Gender::Female
        } else if self.profile_gender == 1 {
            Gender::Male
        } else {
            Gender::Unknown
        };
        let skin = if self.appearance_skin == 2 {
            Skin::Black
        } else if self.appearance_skin == 1 {
            Skin::White
        } else if self.appearance_skin == 3 {
            Skin::Yellow
        } else {
            Skin::Unknown
        };
        Character::new_with_id(
            Profile { id: self.profile_id, name: self.profile_name, gender: gender },
            Appearance { skin: skin },
            self.id,
        )
    }
}

/// The number of matching records of a search, as stored in a count row.
#[derive(Debug)]
pub struct TotalRecords {
    pub total_records: i64,
}


/// Outcome of building the statements of several builders: the number of
/// parsed statements, or the error reported.
pub open spec fn queries_outcome(states: Seq<BuilderState>) -> Result<nat, ErrorKindView> {
    match script_of(states) {
        None => Err(ErrorKindView::Driver("failed to build query"@)),
        Some(script) => match parse_outcome(script) {
            Ok(n) => Ok(n),
            Err(message) => Err(ErrorKindView::Driver("parse query failed: "@ + message)),
        },
    }
}

/// Outcome of building the one statement of a builder.
pub open spec fn query_outcome(state: BuilderState) -> Result<(), ErrorKindView> {
    match queries_outcome(seq![state]) {
        Err(e) => Err(e),
        Ok(n) => if n == 1 {
            Ok(())
        } else {
            Err(
                ErrorKindView::Driver(
                    "query must have only one statement, got "@ + decimal_nat(n) + " statements"@,
                ),
            )
        },
    }
}

/// Once some builder refuses to render, the whole script is refused.
proof fn lemma_script_refused(states: Seq<BuilderState>, i: int)
    requires
        0 <= i <= states.len(),
        script_of(states.take(i)) is None,
    ensures
        script_of(states) is None,
    decreases states.len() - i,
{
    if i == states.len() {
        assert(states.take(i) =~= states);
    } else {
        assert(states.take(i + 1).drop_last() =~= states.take(i));
        lemma_script_refused(states, i + 1);
    }
}

/// Models of a sequence of builders.
pub open spec fn builders_view(v: Seq<QueryBuilder>) -> Seq<BuilderState> {
    v.map_values(|b: QueryBuilder| b@)
}

/// Renders every builder and joins the statements into one script, each
/// followed by `;` and a line break.
pub fn build_script(builders: &Vec<QueryBuilder>) -> (res: Result<String, ErrorKind>)
    ensures
        match script_of(builders_view(builders@)) {
            Some(text) => res matches Ok(script) && script@ == text,
            None => res matches Err(err) && err@ == ErrorKindView::Driver("failed to build query"@),
        },
{
    let ghost states = builders_view(builders@);
    let mut script = String::new();
    let mut i: usize = 0;
    assert(states.take(0) =~= seq![]);
    while i < builders.len()
        invariant
            i <= builders.len(),
            states == builders_view(builders@),
            script_of(states.take(i as int)) == Some(script@),
        decreases builders.len() - i,
    {
        assert(states.take(i + 1).drop_last() =~= states.take(i as int));
        assert(states.take(i + 1).last() == builders@[i as int]@);
        match builders[i].sql() {
            Err(_) => {
                proof {
                    lemma_script_refused(states, i + 1);
                }
                return Err(ErrorKind::Driver(String::from_str("failed to build query")));
            },
            Ok(text) => {
                script.append(text.as_str());
                push_char(&mut script, ';');
                push_char(&mut script, '\n');
                assert(script_of(states.take(i + 1)) == Some(script@));
            },
        }
        i = i + 1;
    }
    assert(states.take(builders.len() as int) =~= states);
    Ok(script)
}

/// Renders every builder, joins the statements into one script and parses it;
/// the statements come back in the order of the builders.
pub fn build_queries(builders: &Vec<QueryBuilder>) -> (res: Result<Vec<ParsedQuery>, ErrorKind>)
    requires
        script_of(builders_view(builders@)) matches Some(script) ==> lexically_safe(script),
    ensures
        match queries_outcome(builders_view(builders@)) {
            Ok(n) => res matches Ok(queries) && queries.len() == n && (script_of(
                builders_view(builders@),
            ) matches Some(script) && parsed_from(queries@, script)),
            Err(e) => res matches Err(err) && err@ == e,
        },
{
    let script = build_script(builders)?;
    match parse(script.as_str()) {
        Ok(queries) => Ok(queries),
        Err(message) => {
            let mut detail = String::from_str("parse query failed: ");
            detail.append(message.as_str());
            Err(ErrorKind::Driver(detail))
        },
    }
}

/// Renders and parses the statement of one builder, which must parse to exactly
/// one statement: that statement, the first of its script.
pub fn build_query(builder: QueryBuilder) -> (res: Result<ParsedQuery, ErrorKind>)
    requires
        script_of(seq![builder@]) matches Some(script) ==> lexically_safe(script),
    ensures
        match query_outcome(builder@) {
            Ok(_) => res matches Ok(query) && script_of(seq![builder@]) == Some(query@.0)
                && query@.1 == 0,
            Err(e) => res matches Err(err) && err@ == e,
        },
{
    let ghost state = builder@;
    let builders = vec![builder];
    assert(builders_view(builders@) =~= seq![state]);
    let mut queries = build_queries(&builders)?;
    if queries.len() != 1 {
        let mut detail = String::from_str("query must have only one statement, got ");
        let count = decimal(queries.len() as u64);
        detail.append(count.as_str());
        detail.append(" statements");
        return Err(ErrorKind::Driver(detail));
    }
    assert(queries@[0]@.1 == 0);
    match queries.pop() {
        Some(query) => Ok(query),
        None => Err(ErrorKind::Driver(String::from_str("cannot build query, no sufficient query"))),
    }
}


/// The builder state of the statement that stores a character.
pub open spec fn insert_state(c: CharacterView) -> BuilderState {
    BuilderState {
        fields: seq!["id"@, "profile_id"@, "profile_name"@, "profile_gender"@, "appearance_skin"@],
        values: seq![
            seq!['('] + join(
                seq![
                    quoted(c.id),
                    quoted(c.profile.id),
                    quoted(c.profile.name),
                    decimal_int(gender_code(c.profile.gender) as int),
                    decimal_int(skin_code(c.appearance.skin) as int),
                ],
                ", "@,
            ) + seq![')'],
        ],
        ..new_state(StatementKind::Insert, table_name())
    }
}

/// The statement that stores a character: its identifier, profile and
/// appearance codes inserted into the `character` table.
pub fn insert_builder(character: &Character) -> (b: QueryBuilder)
    ensures
        b@ == insert_state(character@),
{
    let mut b = QueryBuilder::insert_into("character");
    let fields = vec!["id", "profile_id", "profile_name", "profile_gender", "appearance_skin"];
    proof {
        reveal_strlit("character");
        reveal_strlit("id");
        reveal_strlit("profile_id");
        reveal_strlit("profile_name");
        reveal_strlit("profile_gender");
        reveal_strlit("appearance_skin");
    }
    b.fields(fields.as_slice());
    let profile = character.get_profile();
    let values = vec![
        quote(character.get_id().as_str()),
        quote(profile.id.as_str()),
        quote(profile.name.as_str()),
        signed_decimal(gender_to_code(profile.gender)),
        signed_decimal(skin_to_code(character.get_appearance().skin)),
    ];
    b.values(values.as_slice());
    assert(strs_view(fields@) =~= seq![
        "id"@, "profile_id"@, "profile_name"@, "profile_gender"@, "appearance_skin"@]);
    assert(owned_strs_view(values@) =~= seq![
        quoted(character@.id),
        quoted(character@.profile.id),
        quoted(character@.profile.name),
        decimal_int(gender_code(character@.profile.gender) as int),
        decimal_int(skin_code(character@.appearance.skin) as int),
    ]);
    assert(b@ =~= insert_state(character@));
    b
}

/// The row of values `(id, profile id, profile name, gender, skin)` of a stored row.
pub open spec fn row_values_text(m: ModelView) -> Seq<char> {
    seq!['('] + join(
        seq![
            quoted(m.id),
            quoted(m.profile_id),
            quoted(m.profile_name),
            decimal_int(m.profile_gender as int),
            decimal_int(m.appearance_skin as int),
        ],
        ", "@,
    ) + seq![')']
}

/// The statement storing a character inserts into the `character` table, in
/// column order, exactly the row the character is stored as: its identifier,
/// profile identifier and name, and its gender and skin tone by their
/// positions among the variants; and reading that row back gives the
/// character again.
pub proof fn lemma_insert_writes_row(c: CharacterView)
    ensures
        insert_state(c).kind is Insert,
        insert_state(c).table == "character"@,
        insert_state(c).fields == seq![
            "id"@,
            "profile_id"@,
            "profile_name"@,
            "profile_gender"@,
            "appearance_skin"@,
        ],
        insert_state(c).values == seq![row_values_text(model_of(c))],
        model_of(c).profile_gender == match c.profile.gender {
            Gender::Unknown => 0i64,
            Gender::Male => 1i64,
            Gender::Female => 2i64,
        },
        model_of(c).appearance_skin == match c.appearance.skin {
            Skin::Unknown => 0i64,
            Skin::White => 1i64,
            Skin::Black => 2i64,
            Skin::Yellow => 3i64,
        },
        character_of(model_of(c)) == c,
{
    assert(insert_state(c).values =~= seq![row_values_text(model_of(c))]);
}

/// The builder state of the query that reads characters by profile identifier.
pub open spec fn profile_state(profile_id: Seq<char>) -> BuilderState {
    BuilderState {
        fields: seq!["*"@],
        wheres: seq!["profile_id"@ + " = "@ + quoted(profile_id)],
        ..new_state(StatementKind::Select, table_name())
    }
}

/// The query that reads the characters with a given profile identifier.
pub fn profile_builder(profile_id: &str) -> (b: QueryBuilder)
    ensures
        b@ == profile_state(profile_id@),
{
    let mut b = QueryBuilder::select_from("character");
    b.field("*");
    let value = quote(profile_id);
    b.and_where_eq("profile_id", value.as_str());
    proof {
        reveal_strlit("character");
        reveal_strlit("*");
        reveal_strlit("profile_id");
    }
    assert(b@ =~= profile_state(profile_id@));
    b
}

/// The search conditions of a search: the keyword, when given and not empty,
/// matched in lowercase anywhere in [`keyword_target`]; then equality on the
/// profile identifier and on the profile name, when given.
pub open spec fn filter_wheres(params: FindParamsView) -> Seq<Seq<char>> {
    (match params.keyword {
        Some(k) => if k.len() > 0 {
            seq![keyword_target() + " LIKE '%"@ + escape(lowercase(k)) + "%'"@]
        } else {
            seq![]
        },
        None => seq![],
    }) + (match params.profile_id {
        Some(id) => seq!["profile_id"@ + " = "@ + quoted(id)],
        None => seq![],
    }) + (match params.profile_name {
        Some(name) => seq!["profile_name"@ + " = "@ + quoted(name)],
        None => seq![],
    })
}

/// Adds the search conditions of `params` to a query.
pub fn apply_filters(sql: &mut QueryBuilder, params: &FindParams)
    ensures
        final(sql)@ == (BuilderState {
            wheres: old(sql)@.wheres + filter_wheres(params@),
            ..old(sql)@
        }),
{
    proof {
        reveal_strlit("LOWER(profile_name) || ' ' || LOWER(profile_id)");
        reveal_strlit("profile_id");
        reveal_strlit("profile_name");
    }
    let ghost start = sql@;
    let ghost p = params@;
    assert(p.keyword == opt_text(params.keyword));
    let ghost keyword_part: Seq<Seq<char>> = match p.keyword {
        Some(k) => if k.len() > 0 {
            seq![keyword_target() + " LIKE '%"@ + escape(lowercase(k)) + "%'"@]
        } else {
            seq![]
        },
        None => seq![],
    };
    let ghost id_part: Seq<Seq<char>> = match p.profile_id {
        Some(id) => seq!["profile_id"@ + " = "@ + quoted(id)],
        None => seq![],
    };
    let ghost name_part: Seq<Seq<char>> = match p.profile_name {
        Some(name) => seq!["profile_name"@ + " = "@ + quoted(name)],
        None => seq![],
    };
    match &params.keyword {
        Some(keyword) => {
            assert(keyword@.len() == 0 ==> keyword@ =~= Seq::<char>::empty());
            if !(*keyword == String::new()) {
                let lower = to_lowercase(keyword.as_str());
                sql.and_where_like_any(
                    "LOWER(profile_name) || ' ' || LOWER(profile_id)",
                    lower.as_str(),
                );
                assert(keyword@.len() > 0);
                assert(lower@ == lowercase(keyword@));
                assert(sql@.wheres =~= start.wheres + keyword_part);
            } else {
                assert(keyword@.len() == 0);
            }
        },
        None => {},
    }
    assert(sql@ =~= BuilderState { wheres: start.wheres + keyword_part, ..start });
    match &params.profile_id {
        Some(id) => {
            let value = quote(id.as_str());
            sql.and_where_eq("profile_id", value.as_str());
        },
        None => {},
    }
    assert(sql@ =~= BuilderState { wheres: start.wheres + keyword_part + id_part, ..start });
    match &params.profile_name {
        Some(name) => {
            let value = quote(name.as_str());
            sql.and_where_eq("profile_name", value.as_str());
        },
        None => {},
    }
    assert(sql@ =~= BuilderState {
        wheres: start.wheres + keyword_part + id_part + name_part,
        ..start
    });
    assert(keyword_part + id_part + name_part =~= filter_wheres(p));
    assert(start.wheres + keyword_part + id_part + name_part =~= start.wheres + filter_wheres(p));
}


/// The script that drops and creates the `character` table.
pub fn character_schema() -> (s: String)
    ensures
        s@ == schema_text(),
{
    let mut s = String::from_str("\n    DROP TABLE IF EXISTS character");
    s.append(";");
    s.append("\n    CREATE TABLE character (");
    s.append("\n        id TEXT UNIQUE,");
    s.append("\n        profile_id TEXT UNIQUE,");
    s.append("\n        profile_name TEXT,");
    s.append("\n        profile_gender INTEGER,");
    s.append("\n        appearance_skin INTEGER");
    s.append("\n    )");
    s.append(";");
    s.append("\n");
    s
}

/// The statements that drop and create the `character` table, parsed.
pub fn schema_queries() -> (res: Result<Vec<ParsedQuery>, String>)
    ensures
        match parse_outcome(schema_text()) {
            Ok(n) => res matches Ok(queries) && queries.len() == n && parsed_from(
                queries@,
                schema_text(),
            ),
            Err(message) => res matches Err(e) && e@ == message,
        },
{
    let script = character_schema();
    proof {
        lemma_schema_safe();
    }
    parse(script.as_str())
}

/// The statement that stores a character, built and parsed.
pub fn create_query(character: &Character) -> (res: Result<ParsedQuery, ErrorKind>)
    ensures
        match query_outcome(insert_state(character@)) {
            Ok(_) => res matches Ok(query) && script_of(seq![insert_state(character@)]) == Some(
                query@.0,
            ) && query@.1 == 0,
            Err(e) => res matches Err(err) && err@ == e,
        },
{
    proof {
        lemma_insert_clean(character@);
        lemma_script_safe(seq![insert_state(character@)]);
    }
    build_query(insert_builder(character))
}

/// The query reading characters by profile identifier, built and parsed.
pub fn profile_query(profile_id: &str) -> (res: Result<ParsedQuery, ErrorKind>)
    ensures
        match query_outcome(profile_state(profile_id@)) {
            Ok(_) => res matches Ok(query) && script_of(seq![profile_state(profile_id@)]) == Some(
                query@.0,
            ) && query@.1 == 0,
            Err(e) => res matches Err(err) && err@ == e,
        },
{
    proof {
        lemma_profile_clean(profile_id@);
        lemma_script_safe(seq![profile_state(profile_id@)]);
    }
    build_query(profile_builder(profile_id))
}

/// The query listing the matching characters of a search: all columns, the
/// search conditions, the requested limit and `skip` as offset.
pub open spec fn find_records_state(params: FindParamsView) -> BuilderState {
    BuilderState {
        fields: seq!["*"@],
        wheres: filter_wheres(params),
        limit: match params.limit {
            Some(l) => Some(decimal_int(l as int)),
            None => None,
        },
        offset: Some(decimal_int(params.skip as int)),
        ..new_state(StatementKind::Select, table_name())
    }
}

/// The records query of every search lists all columns of the `character`
/// table and skips `skip` matching records, whether or not a limit is given;
/// it ends with ` LIMIT ` and the limit when one is given, then ` OFFSET `
/// and `skip`.
pub proof fn lemma_records_query_offset(params: FindParamsView)
    ensures
        find_records_state(params).offset == Some(decimal_int(params.skip as int)),
        find_records_state(params).limit == match params.limit {
            Some(l) => Some(decimal_int(l as int)),
            None => None::<Seq<char>>,
        },
        rendered(find_records_state(params)) matches Some(t) && (match params.limit {
            Some(l) => exists|prefix: Seq<char>|
                t == prefix + " LIMIT "@ + decimal_int(l as int) + " OFFSET "@ + decimal_int(
                    params.skip as int,
                ) + ";"@,
            None => exists|prefix: Seq<char>|
                t == prefix + " OFFSET "@ + decimal_int(params.skip as int) + ";"@,
        }),
{
    let st = find_records_state(params);
    let prefix = "SELECT "@ + join(st.fields, ", "@) + " FROM "@ + st.table + where_text(
        st.wheres,
    );
    let ds = decimal_int(params.skip as int);
    assert(st.fields.len() != 0);
    assert(st.table.len() != 0) by {
        reveal_strlit("character");
    }
    match params.limit {
        Some(l) => {
            let dl = decimal_int(l as int);
            let t = prefix + (" LIMIT "@ + dl) + (" OFFSET "@ + ds) + ";"@;
            assert(rendered(st) == Some(t));
            assert(t =~= prefix + " LIMIT "@ + dl + " OFFSET "@ + ds + ";"@);
        },
        None => {
            let t = prefix + Seq::<char>::empty() + (" OFFSET "@ + ds) + ";"@;
            assert(rendered(st) == Some(t));
            assert(t =~= prefix + " OFFSET "@ + ds + ";"@);
        },
    }
}

/// The query counting the matching characters of a search as `total_records`.
pub open spec fn find_count_state(params: FindParamsView) -> BuilderState {
    BuilderState {
        fields: seq!["COUNT("@ + "id"@ + ") AS "@ + "total_records"@],
        wheres: filter_wheres(params),
        ..new_state(StatementKind::Select, table_name())
    }
}

/// The two statement builders of a search: the page of records, then the
/// count of all matching records.
pub fn find_builders(params: &FindParams) -> (builders: Vec<QueryBuilder>)
    ensures
        builders_view(builders@) == seq![find_records_state(params@), find_count_state(params@)],
{
    proof {
        reveal_strlit("character");
        reveal_strlit("*");
    }
    let mut select_sql = QueryBuilder::select_from("character");
    select_sql.field("*");
    select_sql.offset(params.skip);
    match params.limit {
        Some(limit) => select_sql.limit(limit),
        None => {},
    }
    apply_filters(&mut select_sql, params);
    assert(select_sql@ =~= find_records_state(params@));
    let mut total_records_sql = QueryBuilder::select_from("character");
    total_records_sql.count_as("id", "total_records");
    apply_filters(&mut total_records_sql, params);
    assert(total_records_sql@ =~= find_count_state(params@));
    let builders = vec![select_sql, total_records_sql];
    assert(builders_view(builders@) =~= seq![find_records_state(params@), find_count_state(params@)]);
    builders
}

/// The two queries of a search, built and parsed together: the page of
/// records, then the count of all matching records.
pub fn find_queries(params: &FindParams) -> (res: Result<Vec<ParsedQuery>, ErrorKind>)
    ensures
        match queries_outcome(seq![find_records_state(params@), find_count_state(params@)]) {
            Ok(n) => res matches Ok(queries) && queries.len() == n && (script_of(
                seq![find_records_state(params@), find_count_state(params@)],
            ) matches Some(script) && parsed_from(queries@, script)),
            Err(e) => res matches Err(err) && err@ == e,
        },
{
    let builders = find_builders(params);
    proof {
        lemma_find_clean(params@);
        lemma_script_safe(seq![find_records_state(params@), find_count_state(params@)]);
    }
    build_queries(&builders)
}

/// The error reported when executing a statement fails with `detail`.
pub fn execute_failed(detail: &str) -> (e: ErrorKind)
    ensures
        e@ == ErrorKindView::Driver("execute query failed: "@ + detail@),
{
    let mut s = String::from_str("execute query failed: ");
    s.append(detail);
    ErrorKind::Driver(s)
}

/// The error reported when the repository settings cannot be read.
pub fn configuration_failed(detail: &str) -> (e: ErrorKind)
    ensures
        e@ == ErrorKindView::InitializationFailed("failed to obtain configuration : "@ + detail@),
{
    let mut s = String::from_str("failed to obtain configuration : ");
    s.append(detail);
    ErrorKind::InitializationFailed(s)
}

/// The error reported when the storage cannot be opened.
pub fn storage_failed(detail: &str) -> (e: ErrorKind)
    ensures
        e@ == ErrorKindView::InitializationFailed("failed to create new storage : "@ + detail@),
{
    let mut s = String::from_str("failed to create new storage : ");
    s.append(detail);
    ErrorKind::InitializationFailed(s)
}

/// The character read by profile identifier: the first matching row, or the
/// reading error described as a driver error.
pub fn character_from_row(row: Result<Model, Error>) -> (res: Result<Character, ErrorKind>)
    ensures
        match row {
            Ok(m) => res matches Ok(c) && c@ == character_of(m@),
            Err(e) => res matches Err(err) && err@ == ErrorKindView::Driver(error_message(e)),
        },
{
    match row {
        Ok(m) => Ok(m.into_domain()),
        Err(e) => Err(ErrorKind::Driver(e.message())),
    }
}


/// The number of pages of `total` records at `limit` records per page:
/// `total / limit` rounded up. With no room per page (`limit == 0`) the count
/// is the largest or smallest `i64` by the sign of `total`, and `0` for no
/// records; a quotient beyond `i64::MAX` is `i64::MAX`.
/// The quotient is exact: no floating-point rounding enters, so totals beyond
/// `2^53` are counted exactly too (`2^53 + 1` records at one per page make
/// `2^53 + 1` pages, where a division in `f64` would give `2^53`).
pub open spec fn is_page_count(total: i64, limit: i64, pages: i64) -> bool {
    if limit > 0 {
        (pages - 1) * limit < total <= pages * limit
    } else if limit < 0 {
        if total == i64::MIN && limit == -1 {
            pages == i64::MAX
        } else {
            pages * limit <= total < (pages - 1) * limit
        }
    } else if total > 0 {
        pages == i64::MAX
    } else if total < 0 {
        pages == i64::MIN
    } else {
        pages == 0
    }
}

/// `a / b` rounded up, for `b > 0`.
fn ceil_div(a: i128, b: i128) -> (q: i128)
    requires
        b > 0,
        -0x1_0000_0000_0000_0000i128 <= a <= 0x1_0000_0000_0000_0000i128,
        b <= 0x1_0000_0000_0000_0000i128,
    ensures
        (q - 1) * b < a <= q * b,
        -0x2_0000_0000_0000_0000i128 <= q <= 0x2_0000_0000_0000_0000i128,
{
    if a >= 0 {
        let q = (a + b - 1) / b;
        let r = (a + b - 1) % b;
        assert(a + b - 1 == q * b + r && 0 <= r < b) by {
            vstd::arithmetic::div_mod::lemma_fundamental_div_mod((a + b - 1) as int, b as int);
            vstd::arithmetic::div_mod::lemma_mod_pos_bound((a + b - 1) as int, b as int);
            assert(b * q == q * b) by (nonlinear_arith);
        }
        assert((q - 1) * b == q * b - b) by (nonlinear_arith);
        assert(0 <= q <= a + b) by (nonlinear_arith)
            requires
                a + b - 1 == q * b + r,
                0 <= r < b,
                a >= 0,
        ;
        q
    } else {
        let m = 0 - a;
        let f = m / b;
        let r = m % b;
        assert(m == f * b + r && 0 <= r < b) by {
            vstd::arithmetic::div_mod::lemma_fundamental_div_mod(m as int, b as int);
            vstd::arithmetic::div_mod::lemma_mod_pos_bound(m as int, b as int);
            assert(b * f == f * b) by (nonlinear_arith);
        }
        assert(0 <= f <= m) by (nonlinear_arith)
            requires
                m == f * b + r,
                0 <= r < b,
                b > 0,
                m > 0,
        ;
        let q = 0 - f;
        assert(q * b == -(f * b)) by (nonlinear_arith)
            requires
                q == -f,
        ;
        assert((q - 1) * b == q * b - b) by (nonlinear_arith);
        q
    }
}

/// The number of pages of `total` records at `limit` records per page.
pub fn total_pages(total: i64, limit: i64) -> (pages: i64)
    ensures
        is_page_count(total, limit, pages),
{
    if limit == 0 {
        if total > 0 {
            i64::MAX
        } else if total < 0 {
            i64::MIN
        } else {
            0
        }
    } else {
        let (a, b): (i128, i128) = if limit > 0 {
            (total as i128, limit as i128)
        } else {
            (0 - (total as i128), 0 - (limit as i128))
        };
        let q = ceil_div(a, b);
        if q > i64::MAX as i128 {
            assert(q * b >= a);
            assert(limit < 0 ==> total == i64::MIN && limit == -1) by (nonlinear_arith)
                requires
                    (q - 1) * b < a,
                    q > 0x7fff_ffff_ffff_ffffi128,
                    b >= 1,
                    limit < 0 ==> a == -total && b == -limit,
                    limit > 0 ==> a == total,
                    a <= 0x8000_0000_0000_0000i128,
            ;
            assert(limit > 0 ==> false) by (nonlinear_arith)
                requires
                    (q - 1) * b < a,
                    q > 0x7fff_ffff_ffff_ffffi128,
                    b >= 1,
                    limit > 0 ==> a == total,
                    a <= 0x8000_0000_0000_0000i128,
                    total <= 0x7fff_ffff_ffff_ffffi64,
            ;
            i64::MAX
        } else {
            assert(q >= i64::MIN as i128) by (nonlinear_arith)
                requires
                    a <= q * b,
                    b >= 1,
                    a >= -0x8000_0000_0000_0000i128,
                    q <= 0x7fff_ffff_ffff_ffffi128,
            ;
            let pages = q as i64;
            if limit < 0 {
                assert(!(total == i64::MIN && limit == -1)) by (nonlinear_arith)
                    requires
                        a <= q * b,
                        q <= 0x7fff_ffff_ffff_ffffi128,
                        a == -total,
                        b == -limit,
                ;
                assert(pages * limit == -(q * b)) by (nonlinear_arith)
                    requires
                        pages == q,
                        limit == -b,
                ;
                assert((pages - 1) * limit == -((q - 1) * b)) by (nonlinear_arith)
                    requires
                        pages == q,
                        limit == -b,
                ;
            }
            pages
        }
    }
}

/// The starting point of a search result: no records, no count, zero pages.
pub fn empty_find_result() -> (r: FindResult)
    ensures
        r@ == (FindResultView { records: seq![], total_records: 0, total_pages: Some(0) }),
{
    let r = FindResult { records: Vec::new(), total_records: 0, total_pages: Some(0) };
    assert(r@.records =~= seq![]);
    r
}

/// The collectors that assemble a search result, in the order they run.
#[derive(Debug, Clone, Copy, PartialEq, Eq)]
pub enum Collector {
    /// Fills in the page of records.
    Records,
    /// Fills in the number of matching records.
    TotalRecords,
    /// Works out the number of pages.
    TotalPages,
}

/// The collector at position `k`.
pub open spec fn collector_at(k: int) -> Collector {
    if k == 0 {
        Collector::Records
    } else if k == 1 {
        Collector::TotalRecords
    } else {
        Collector::TotalPages
    }
}

/// One step of a search: a collector, and the position of the statement whose
/// result it is given, or `None` for an empty result.
#[derive(Debug, Clone, Copy, PartialEq, Eq)]
pub struct FindStep {
    pub collector: Collector,
    pub statement: Option<usize>,
}

/// The steps of a search once its statements are parsed: the three result
/// collectors (records, total records, page count) run in turn while parsed
/// statements remain and once more after the last; each is given the result
/// of the statement at its own position, or an empty result past the last one.
pub fn find_steps(parsed: usize) -> (steps: Vec<FindStep>)
    ensures
        steps.len() == if parsed < 2 { parsed + 1 } else { 3 },
        forall|k: int|
            0 <= k < steps.len() ==> (#[trigger] steps@[k]).collector == collector_at(k)
                && steps@[k].statement == if k < parsed {
                Some(k as usize)
            } else {
                None::<usize>
            },
{
    let mut steps: Vec<FindStep> = Vec::new();
    let mut k: usize = 0;
    while k < 3 && k <= parsed
        invariant
            k <= 3,
            k <= parsed + 1,
            steps.len() == k,
            forall|j: int|
                0 <= j < k ==> (#[trigger] steps@[j]).collector == collector_at(j)
                    && steps@[j].statement == if j < parsed {
                    Some(j as usize)
                } else {
                    None::<usize>
                },
        decreases 3 - k,
    {
        let collector = if k == 0 {
            Collector::Records
        } else if k == 1 {
            Collector::TotalRecords
        } else {
            Collector::TotalPages
        };
        let statement = if k < parsed {
            Some(k)
        } else {
            None
        };
        steps.push(FindStep { collector, statement });
        k = k + 1;
    }
    steps
}

/// Models of a sequence of stored rows read as characters.
pub open spec fn characters_of(models: Seq<Model>) -> Seq<CharacterView> {
    models.map_values(|m: Model| character_of(m@))
}

/// Fills in the page of records from the rows read by the listing query.
pub fn collect_records(result: FindResult, rows: Result<Vec<Model>, Error>) -> (res: Result<FindResult, ErrorKind>)
    ensures
        match rows {
            Ok(models) => res matches Ok(r) && r@ == (FindResultView {
                records: characters_of(models@),
                ..result@
            }),
            Err(_) => res matches Err(e) && e@ == ErrorKindView::Driver("failed to get total_pages data"@),
        },
{
    match rows {
        Err(_) => Err(ErrorKind::Driver(String::from_str("failed to get total_pages data"))),
        Ok(models) => {
            let ghost all = models@;
            let mut remaining = models;
            let mut records: Vec<Character> = Vec::new();
            let mut result = result;
            while remaining.len() > 0
                invariant
                    records@.len() + remaining@.len() == all.len(),
                    records@.map_values(|c: Character| c@) =~= characters_of(all.take(records@.len() as int)),
                    remaining@ =~= all.skip(records@.len() as int),
                decreases remaining.len(),
            {
                let ghost k: int = records@.len() as int;
                let ghost before = records@.map_values(|c: Character| c@);
                let m = remaining.remove(0);
                assert(m == all[k]);
                let c = m.into_domain();
                records.push(c);
                assert(records@.map_values(|c: Character| c@) =~= before.push(c@));
                assert(all.take(k + 1) =~= all.take(k).push(all[k]));
                assert(characters_of(all.take(k + 1)) =~= characters_of(all.take(k)).push(character_of(all[k]@)));
            }
            assert(all.take(all.len() as int) =~= all);
            result.records = records;
            Ok(result)
        },
    }
}

/// Fills in the number of matching records from the row read by the count query.
pub fn collect_total_records(result: FindResult, total: Result<TotalRecords, Error>) -> (res: Result<FindResult, ErrorKind>)
    ensures
        match total {
            Ok(t) => res matches Ok(r) && r@ == (FindResultView {
                total_records: t.total_records,
                ..result@
            }),
            Err(_) => res matches Err(e) && e@ == ErrorKindView::Driver("failed to get total_records data"@),
        },
{
    match total {
        Err(_) => Err(ErrorKind::Driver(String::from_str("failed to get total_records data"))),
        Ok(t) => {
            let mut result = result;
            result.total_records = t.total_records;
            Ok(result)
        },
    }
}

/// Fills in the number of pages when the search has a limit; without one the
/// page count is left as it was.
pub fn collect_total_pages(params: &FindParams, result: FindResult) -> (r: FindResult)
    ensures
        match params.limit {
            Some(limit) => {
                &&& r@.records == result@.records
                &&& r@.total_records == result@.total_records
                &&& r@.total_pages matches Some(pages)
                &&& is_page_count(result@.total_records, limit, pages)
            },
            None => r@ == result@,
        },
{
    let mut result = result;
    match params.limit {
        Some(limit) => {
            result.total_pages = Some(total_pages(result.total_records, limit));
        },
        None => {},
    }
    result
}

} // verus!
