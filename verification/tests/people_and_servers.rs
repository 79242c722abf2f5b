use snow_core::knowledge_sync::Moment;
use snow_core::query::{Operator, Query};
use snow_core::reference::reference_filter;
use snow_core::row::{Cell, Failure, Row};
use snow_core::server::{
    flatten_server_get, judge_server_find, judge_server_read, plan_server_get, server_base_query,
    server_page_query, ServerFailure, ServerGetError, ServerLookup, ServerQuery, ServerRequest,
};
use snow_core::user::{
    cached_user_row_from_record, cached_users, judge_users, parse_bool, user_lookup_cache_key,
    user_lookup_candidates, user_lookup_query, user_record_from_cached_row,
    user_record_from_record, user_search_cache_key, user_search_query, UserLookup, UserSearch,
    UserStep,
};

const ID: &str = "0123456789abcdef0123456789abcdef";

fn s(text: &str) -> String {
    text.to_string()
}

fn at(seconds: i64) -> Moment {
    Moment { seconds, nanos: 0 }
}

fn row(cells: &[(&str, &str)]) -> Row {
    Row {
        table: s("sys_user"),
        sys_id: s(ID),
        cells: cells
            .iter()
            .map(|(name, raw)| Cell { name: s(name), raw: Some(s(raw)), display: None, other: None })
            .collect(),
    }
}

fn lookup() -> UserLookup {
    UserLookup {
        query: None,
        user_name: None,
        email: None,
        employee_number: None,
        sys_id: None,
        active: None,
    }
}

fn search() -> UserSearch {
    UserSearch {
        first_name: None,
        last_name: None,
        name_contains: None,
        email_contains: None,
        limit: None,
        active: None,
    }
}

fn has(q: &Query, field: &str, operator: Operator, value: &str) -> bool {
    q.conditions.iter().any(|c| {
        !c.alternative && c.field == field && c.operator == operator && c.value == value
    })
}

fn fault(failure: Failure, refuses_access: bool) -> ServerFailure {
    ServerFailure { failure, message: s("detail"), refuses_access }
}

#[test]
fn lookups_take_one_selector() {
    assert_eq!(
        lookup().validate_selector(),
        Err(s("missing required user lookup: provide exactly one of query, user_name, email, employee_number, or sys_id"))
    );
    let two = UserLookup { query: Some(s("x")), email: Some(s("y")), ..lookup() };
    assert_eq!(
        two.validate_selector(),
        Err(s("ambiguous user lookup: provide exactly one of query, user_name, email, employee_number, or sys_id"))
    );
    let one = UserLookup { query: Some(s("x")), email: Some(s("  ")), ..lookup() };
    assert_eq!(one.validate_selector(), Ok(()));
}

#[test]
fn free_text_is_tried_on_the_likely_columns() {
    let fields = |q: &str| -> Vec<&'static str> {
        user_lookup_candidates(&UserLookup { query: Some(s(q)), ..lookup() })
            .unwrap()
            .iter()
            .map(|c| c.field)
            .collect()
    };
    assert_eq!(fields("casey@example.com"), vec!["email", "user_name"]);
    assert_eq!(fields(ID), vec!["sys_id"]);
    assert_eq!(fields("casey"), vec!["user_name", "email", "employee_number"]);
    let bad = UserLookup { sys_id: Some(s("nope")), ..lookup() };
    assert!(user_lookup_candidates(&bad).is_err());
}

#[test]
fn lookup_queries_name_the_column() {
    let candidates =
        user_lookup_candidates(&UserLookup { user_name: Some(s(" casey ")), ..lookup() }).unwrap();
    let q = user_lookup_query(&candidates[0], true);
    assert_eq!(q.table, "sys_user");
    assert!(has(&q, "user_name", Operator::Equals, "casey"));
    assert!(has(&q, "active", Operator::Equals, "true"));
}

#[test]
fn searches_are_bounded_and_not_empty() {
    assert!(search().validate().is_err());
    let zero = UserSearch { first_name: Some(s("Casey")), limit: Some(0), ..search() };
    assert_eq!(zero.validated_limit(), Err(s("`limit` must be at least 1")));
    let many = UserSearch { limit: Some(101), ..zero };
    assert_eq!(many.validated_limit(), Err(s("`limit` must be at most 100")));
    let fine = UserSearch { limit: Some(5), last_name: Some(s("User")), ..many };
    let q = user_search_query(&fine).unwrap();
    assert_eq!(q.limit, Some(5));
    assert!(has(&q, "first_name", Operator::Equals, "Casey"));
    assert!(has(&q, "last_name", Operator::Equals, "User"));
    assert!(user_search_query(&search()).is_err());
}

#[test]
fn cached_users_are_the_users_that_were_kept() {
    let r = row(&[
        ("name", "Casey User"),
        ("user_name", "casey"),
        ("email", "casey@example.com"),
        ("active", "true"),
        ("title", " "),
    ]);
    let live = user_record_from_record(&r);
    assert_eq!(live.display, "Casey User");
    assert_eq!(live.active, Some(true));
    assert_eq!(live.title, None);
    let kept = cached_user_row_from_record(&r, s("{}"), at(100));
    assert_eq!(user_record_from_cached_row(&kept), live);
    let found = cached_users(&vec![s(ID)], &vec![kept.clone()], at(150), 60).unwrap();
    assert_eq!(found, vec![live]);
    assert!(cached_users(&vec![s(ID)], &vec![kept.clone()], at(161), 60).is_none());
    assert!(cached_users(&vec![s(ID), s("other")], &vec![kept], at(150), 60).is_none());
}

#[test]
fn truth_words_are_read() {
    assert_eq!(parse_bool(" Yes "), Some(true));
    assert_eq!(parse_bool("0"), Some(false));
    assert_eq!(parse_bool("maybe"), None);
}

#[test]
fn cache_keys_do_not_depend_on_case() {
    assert_eq!(
        user_lookup_cache_key("email", " Casey@Example.com", true),
        "lookup|active=true|email=casey@example.com"
    );
    assert_eq!(
        user_lookup_cache_key("email", "CASEY@EXAMPLE.COM", true),
        user_lookup_cache_key("email", "casey@example.com", true)
    );
    let one = UserSearch { first_name: Some(s("Casey")), ..search() };
    assert_eq!(
        user_search_cache_key(&one).unwrap(),
        "search|active=true|first_name=casey|limit=20"
    );
    assert!(user_search_cache_key(&search()).is_err());
}

#[test]
fn users_are_found_only_when_single() {
    let c = user_lookup_candidates(&UserLookup { email: Some(s("a@b")), ..lookup() }).unwrap();
    let user = user_record_from_record(&row(&[("name", "Casey")]));
    assert_eq!(judge_users(&c[0], Vec::new(), false), UserStep::Next);
    match judge_users(&c[0], vec![user.clone()], false) {
        UserStep::Found(found) => assert_eq!(found.matched_by, "email"),
        _ => panic!("one user"),
    }
    assert_eq!(
        judge_users(&c[0], vec![user.clone(), user.clone()], false),
        UserStep::Failed(s("multiple sys_user records matched email=a@b"))
    );
    assert_eq!(
        judge_users(&c[0], vec![user.clone(), user], true),
        UserStep::Failed(s("multiple cached sys_user records matched email=a@b"))
    );
}

#[test]
fn server_lookups_are_planned() {
    match plan_server_get(ServerLookup::ExactName(s(" web01 "))) {
        Ok(ServerRequest::Find { query, selector }) => {
            assert_eq!(query.table, "cmdb_ci_server");
            assert!(has(&query, "name", Operator::Equals, "web01"));
            assert_eq!(selector, "name=web01");
        }
        _ => panic!("a query by name"),
    }
    match plan_server_get(ServerLookup::IpAddress(s("10.0.0.1"))) {
        Ok(ServerRequest::Find { selector, .. }) => assert_eq!(selector, "ip_address=10.0.0.1"),
        _ => panic!("a query by address"),
    }
    match plan_server_get(ServerLookup::SysId(s(ID))) {
        Ok(ServerRequest::Read { form, sys_id }) => {
            assert_eq!(sys_id, ID);
            assert_eq!(form.table, "cmdb_ci_server");
            assert!(form.without_links);
        }
        _ => panic!("a read"),
    }
    assert!(plan_server_get(ServerLookup::ExactName(s(" "))).is_err());
    assert!(plan_server_get(ServerLookup::IpAddress(s(""))).is_err());
    assert!(plan_server_get(ServerLookup::SysId(s("x"))).is_err());
}

#[test]
fn server_failures_are_told_apart() {
    assert!(matches!(
        judge_server_read(Err(fault(Failure::Api(404), false))),
        Err(ServerGetError::NotFound)
    ));
    assert_eq!(
        ServerGetError::from_api(fault(Failure::Api(500), false)),
        ServerGetError::Other(s("detail"))
    );
    assert!(matches!(
        ServerGetError::from_api(fault(Failure::Api(403), true)),
        ServerGetError::AclRestricted(_)
    ));
    assert!(matches!(
        ServerGetError::from_api(fault(Failure::Http, false)),
        ServerGetError::Network(_)
    ));
    let two = judge_server_find(Ok(vec![row(&[]), row(&[])]), s("name=web01"));
    match two {
        Err(e) => assert_eq!(e.message(), "multiple servers matched name=web01 (2 matches)"),
        Ok(_) => panic!("two servers"),
    }
    assert!(matches!(judge_server_find(Ok(Vec::new()), s("x")), Err(ServerGetError::NotFound)));
    assert!(judge_server_find(Ok(vec![row(&[])]), s("x")).is_ok());
    assert!(judge_server_read(Ok(row(&[]))).is_ok());
    assert_eq!(ServerGetError::NotFound.message(), "server not found");
}

#[test]
fn absent_servers_are_no_error() {
    assert_eq!(flatten_server_get(Ok::<u8, ServerGetError>(3)), Ok(Some(3)));
    assert_eq!(flatten_server_get(Err::<u8, _>(ServerGetError::NotFound)), Ok(None));
    assert_eq!(
        flatten_server_get(Err::<u8, _>(ServerGetError::Network(s("down")))),
        Err(s("network error reaching ServiceNow: down"))
    );
    assert_eq!(
        flatten_server_get(Err::<u8, _>(ServerGetError::AclRestricted(s("no")))),
        Err(s("server is ACL-restricted: no"))
    );
    assert_eq!(
        flatten_server_get(Err::<u8, _>(ServerGetError::Hydration(s("bad")))),
        Err(s("server record failed hydration: bad"))
    );
}

#[test]
fn server_searches_carry_their_filters() {
    let q = server_page_query(
        &ServerQuery {
            name: Some(s("web")),
            ip_address: Some(s("10.0.0.1")),
            class: None,
            text: Some(s("prod")),
            ci_owner_group: Some(s(ID)),
        },
        &vec![s("cmdb_ci_linux_server"), s("cmdb_ci_win_server")],
        10,
        20,
    );
    assert_eq!(q.limit, Some(10));
    assert_eq!(q.offset, Some(20));
    assert!(has(&q, "sys_class_name", Operator::In, "cmdb_ci_linux_server,cmdb_ci_win_server"));
    assert!(has(&q, "name", Operator::Contains, "web"));
    assert!(has(&q, "ip_address", Operator::Equals, "10.0.0.1"));
    assert!(has(&q, "managed_by_group", Operator::Equals, ID));
}

#[test]
fn server_search_builds_supported_filters() {
    let wanted = ServerQuery {
        name: Some(s("app01")),
        ip_address: Some(s("192.0.2.10")),
        class: Some(s("cmdb_ci_linux_server")),
        text: None,
        ci_owner_group: Some(s("Platform Operations")),
    };
    let q = server_base_query(&wanted, &vec![s("cmdb_ci_win_server")], 3);
    let conditions: Vec<(&str, Operator, &str)> = q
        .conditions
        .iter()
        .map(|c| (c.field.as_str(), c.operator, c.value.as_str()))
        .collect();
    assert_eq!(
        conditions,
        vec![
            ("sys_class_name", Operator::Equals, "cmdb_ci_linux_server"),
            ("name", Operator::Contains, "app01"),
            ("ip_address", Operator::Equals, "192.0.2.10"),
            ("managed_by_group.name", Operator::Contains, "Platform Operations"),
        ]
    );
    assert_eq!(q.table, "cmdb_ci_server");
    assert_eq!(q.limit, Some(3));
    assert!(q.fields.is_empty());
}

#[test]
fn references_are_asked_for_by_id_or_by_name() {
    let plain = || Query::of("kb_knowledge");
    let none = reference_filter(plain(), "kb_category", None);
    assert!(none.conditions.is_empty());
    let blank = reference_filter(plain(), "kb_category", Some("  "));
    assert!(blank.conditions.is_empty());
    let capitals = ID.to_uppercase();
    let id = reference_filter(plain(), "kb_category", Some(capitals.as_str()));
    assert_eq!(id.conditions.len(), 1);
    assert!(has(&id, "kb_category", Operator::Equals, ID));
    let name = reference_filter(plain(), "kb_category", Some("  Remote Access "));
    assert_eq!(name.conditions.len(), 1);
    assert!(has(&name, "kb_category.name", Operator::Contains, "Remote Access"));
}

#[test]
fn a_blank_class_stands_for_every_server() {
    let wanted = ServerQuery {
        name: None,
        ip_address: None,
        class: Some(s(" ")),
        text: None,
        ci_owner_group: Some(s(" ")),
    };
    let q = server_base_query(&wanted, &vec![s("cmdb_ci_win_server")], 3);
    assert_eq!(q.conditions.len(), 1);
    assert!(has(&q, "sys_class_name", Operator::In, "cmdb_ci_win_server"));
}
