use icale_core::glue::Error;
use icale_core::service::character::adapter::repository::glue::{
    apply_filters, build_queries, build_query, build_script, character_from_row, collect_records,
    collect_total_pages, collect_total_records, configuration_failed, create_query,
    empty_find_result, execute_failed, find_queries, find_steps, insert_builder, profile_builder,
    profile_query, schema_queries, Collector, FindStep, character_schema, find_builders, storage_failed, total_pages, Config, GlueRepository, Model, TotalRecords,
};
use icale_core::service::character::domain::{Appearance, Character, Gender, Profile, Skin};
use icale_core::service::character::port::repository::{ErrorKind, FindParams};

fn euiko() -> Character {
    Character::new_with_id(
        Profile {
            id: "euiko".to_string(),
            name: "Candra Kharista".to_string(),
            gender: Gender::Male,
        },
        Appearance { skin: Skin::Yellow },
        "id-1".to_string(),
    )
}

fn params() -> FindParams {
    FindParams { profile_id: None, profile_name: None, keyword: None, skip: 0, limit: None }
}

fn driver(e: ErrorKind) -> String {
    match e {
        ErrorKind::Driver(s) => s,
        other => panic!("unexpected error {:?}", other),
    }
}

#[test]
fn config_defaults() {
    let c = Config::default();
    assert!(c.enabled);
    assert_eq!(c.uri, "glue.db");
}

#[test]
fn model_round_trip() {
    let m = Model::from_domain(euiko());
    assert_eq!(m.id, "id-1");
    assert_eq!(m.profile_id, "euiko");
    assert_eq!(m.profile_name, "Candra Kharista");
    assert_eq!(m.profile_gender, 1);
    assert_eq!(m.appearance_skin, 3);
    assert_eq!(m.into_domain(), euiko());
}

#[test]
fn unknown_codes_read_as_unknown() {
    let m = Model {
        id: "x".to_string(),
        profile_id: "p".to_string(),
        profile_name: "n".to_string(),
        profile_gender: 7,
        appearance_skin: -1,
    };
    let c = m.into_domain();
    assert_eq!(c.get_profile().gender, Gender::Unknown);
    assert_eq!(c.get_appearance().skin, Skin::Unknown);
    let m = Model {
        id: "x".to_string(),
        profile_id: "p".to_string(),
        profile_name: "n".to_string(),
        profile_gender: 2,
        appearance_skin: 2,
    };
    let c = m.into_domain();
    assert_eq!(c.get_profile().gender, Gender::Female);
    assert_eq!(c.get_appearance().skin, Skin::Black);
}

fn script(b: icale_core::service::character::adapter::repository::sql::QueryBuilder) -> String {
    build_script(&vec![b]).unwrap()
}

#[test]
fn quoting_doubles_single_quotes() {
    assert_eq!(
        script(profile_builder("O'Neil")),
        "SELECT * FROM character WHERE profile_id = 'O''Neil';;\n"
    );
    assert_eq!(script(profile_builder("")), "SELECT * FROM character WHERE profile_id = '';;\n");
}

#[test]
fn insert_statement_text() {
    assert_eq!(
        script(insert_builder(&euiko())),
        "INSERT INTO character (id, profile_id, profile_name, profile_gender, appearance_skin) \
         VALUES ('id-1', 'euiko', 'Candra Kharista', 1, 3);;\n"
    );
    assert!(create_query(&euiko()).is_ok());
}

#[test]
fn profile_statement_text() {
    assert!(profile_query("euiko").is_ok());
    assert!(build_query(profile_builder("it's")).is_ok());
}

#[test]
fn filters_lowercase_keyword_and_quote_values() {
    let mut b = profile_builder("euiko");
    let p = FindParams {
        profile_name: Some("O'Neil".to_string()),
        keyword: Some("CanDra".to_string()),
        ..params()
    };
    apply_filters(&mut b, &p);
    assert_eq!(
        script(b),
        "SELECT * FROM character WHERE (profile_id = 'euiko') AND \
         (LOWER(profile_name) || ' ' || LOWER(profile_id) LIKE '%candra%') \
         AND (profile_name = 'O''Neil');;\n"
    );
    let mut b = profile_builder("euiko");
    let p = FindParams { keyword: Some(String::new()), ..params() };
    apply_filters(&mut b, &p);
    assert_eq!(script(b), "SELECT * FROM character WHERE profile_id = 'euiko';;\n");
}

#[test]
fn find_builds_two_queries() {
    let p = FindParams { limit: Some(10), skip: 20, keyword: Some("x".to_string()), ..params() };
    assert_eq!(find_queries(&p).unwrap().len(), 2);
}

#[test]
fn several_statements_in_one_script() {
    let builders = vec![profile_builder("a"), insert_builder(&euiko())];
    assert_eq!(build_queries(&builders).unwrap().len(), 2);
    assert_eq!(
        build_script(&builders).unwrap(),
        "SELECT * FROM character WHERE profile_id = 'a';;\nINSERT INTO character \
         (id, profile_id, profile_name, profile_gender, appearance_skin) \
         VALUES ('id-1', 'euiko', 'Candra Kharista', 1, 3);;\n"
    );
}

#[test]
fn error_kind_messages() {
    assert_eq!(ErrorKind::Driver("x".to_string()).message(), "driver implementation error : x");
    assert_eq!(
        ErrorKind::InitializationFailed("y".to_string()).message(),
        "error occured when initializing repository : y"
    );
    assert_eq!(ErrorKind::NotEnabled.message(), "repository is not enabled");
    assert_eq!(ErrorKind::NotFound.message(), "related data is not found");
    assert_eq!(
        ErrorKind::PermissionDenied.message(),
        "permission denied to access this resource"
    );
    assert_eq!(driver(execute_failed("boom")), "execute query failed: boom");
    match configuration_failed("bad") {
        ErrorKind::InitializationFailed(s) => assert_eq!(s, "failed to obtain configuration : bad"),
        other => panic!("{:?}", other),
    }
    match storage_failed("io") {
        ErrorKind::InitializationFailed(s) => assert_eq!(s, "failed to create new storage : io"),
        other => panic!("{:?}", other),
    }
}

#[test]
fn reading_a_character() {
    let m = Model::from_domain(euiko());
    assert_eq!(character_from_row(Ok(m)).unwrap(), euiko());
    assert_eq!(driver(character_from_row(Err(Error::NotFound)).unwrap_err()), "result not found");
}

#[test]
fn page_counts() {
    assert_eq!(total_pages(10, 3), 4);
    assert_eq!(total_pages(9, 3), 3);
    assert_eq!(total_pages(0, 5), 0);
    assert_eq!(total_pages(-7, 2), -3);
    assert_eq!(total_pages(7, -2), -3);
    assert_eq!(total_pages(5, 0), i64::MAX);
    assert_eq!(total_pages(-5, 0), i64::MIN);
    assert_eq!(total_pages(0, 0), 0);
    assert_eq!(total_pages(i64::MIN, -1), i64::MAX);
    assert_eq!(total_pages(i64::MAX, 1), i64::MAX);
}

#[test]
fn assembling_a_search_result() {
    let r = empty_find_result();
    assert_eq!(r.total_pages, Some(0));
    let r = collect_records(r, Ok(vec![Model::from_domain(euiko())])).unwrap();
    assert_eq!(r.records, vec![euiko()]);
    let r = collect_total_records(r, Ok(TotalRecords { total_records: 11 })).unwrap();
    assert_eq!(r.total_records, 11);
    let p = FindParams { limit: Some(5), ..params() };
    let r = collect_total_pages(&p, r);
    assert_eq!(r.total_pages, Some(3));
    let r = collect_total_pages(&params(), r);
    assert_eq!(r.total_pages, Some(3));
    assert_eq!(
        driver(collect_records(empty_find_result(), Err(Error::DeserializeFailed)).unwrap_err()),
        "failed to get total_pages data"
    );
    assert_eq!(
        driver(collect_total_records(empty_find_result(), Err(Error::NotFound)).unwrap_err()),
        "failed to get total_records data"
    );
}

#[test]
fn glue_repository_settings() {
    let mut repo = GlueRepository::new();
    assert!(repo.config().enabled);
    assert_eq!(repo.config().uri, "glue.db");
    match repo.get_storage() {
        Err(ErrorKind::NotEnabled) => {}
        _ => panic!("storage should not be open"),
    }
    match repo.configure(Err("missing".to_string())) {
        Some(ErrorKind::InitializationFailed(s)) => {
            assert_eq!(s, "failed to obtain configuration : missing")
        }
        other => panic!("{:?}", other),
    }
    assert!(repo
        .configure(Ok(Config { enabled: false, uri: "other.db".to_string() }))
        .is_none());
    assert!(!repo.config().enabled);
    assert_eq!(repo.config().uri, "other.db");
    match repo.attach_storage(Err("locked".to_string())) {
        Some(ErrorKind::InitializationFailed(s)) => {
            assert_eq!(s, "failed to create new storage : locked")
        }
        other => panic!("{:?}", other),
    }
    assert!(repo.get_storage().is_err());
}

#[test]
fn find_steps_pad_one_empty_result() {
    let step = |collector, statement| FindStep { collector, statement };
    assert_eq!(
        find_steps(2),
        vec![
            step(Collector::Records, Some(0)),
            step(Collector::TotalRecords, Some(1)),
            step(Collector::TotalPages, None)
        ]
    );
    assert_eq!(
        find_steps(1),
        vec![step(Collector::Records, Some(0)), step(Collector::TotalRecords, None)]
    );
    assert_eq!(find_steps(0), vec![step(Collector::Records, None)]);
    assert_eq!(
        find_steps(4),
        vec![
            step(Collector::Records, Some(0)),
            step(Collector::TotalRecords, Some(1)),
            step(Collector::TotalPages, Some(2))
        ]
    );
}

#[test]
fn schema_parses_to_two_statements() {
    assert_eq!(schema_queries().unwrap().len(), 2);
}

#[test]
fn search_script_text() {
    let p = FindParams {
        limit: Some(10),
        skip: 20,
        keyword: Some("Ab".to_string()),
        profile_id: Some("x".to_string()),
        ..params()
    };
    assert_eq!(
        build_script(&find_builders(&p)).unwrap(),
        "SELECT * FROM character WHERE (LOWER(profile_name) || ' ' || LOWER(profile_id) \
         LIKE '%ab%') AND (profile_id = 'x') LIMIT 10 OFFSET 20;;\n\
         SELECT COUNT(id) AS total_records FROM character WHERE (LOWER(profile_name) || ' ' \
         || LOWER(profile_id) LIKE '%ab%') AND (profile_id = 'x');;\n"
    );
    assert_eq!(find_queries(&p).unwrap().len(), 2);
}

#[test]
fn schema_text_drops_and_creates() {
    let s = character_schema();
    assert!(s.starts_with("\n    DROP TABLE IF EXISTS character;"));
    assert!(s.contains("CREATE TABLE character ("));
    assert!(s.ends_with(");\n"));
}

#[test]
fn storage_wanted_follows_enabled() {
    let mut repo = GlueRepository::new();
    assert!(repo.storage_wanted());
    assert!(repo.configure(Ok(Config { enabled: false, uri: "x".to_string() })).is_none());
    assert!(!repo.storage_wanted());
}
