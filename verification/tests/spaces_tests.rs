use soulbook::error::AppError;
use soulbook::spaces::{
    apply_user_space_visibility_scope, apply_workspace_scope, check_space_access,
    create_space_db_error, create_space_optional_fields, create_space_sql,
    create_space_workspace_values, ensure_slug_available, ensure_space_has_no_documents,
    ensure_space_owner, find_space_by_id, find_space_by_slug, first_count_from_rows,
    is_slug_conflict_message, member_space_ids_query, member_space_lookup_key,
    member_space_lookup_where_clause, member_user_ids, merge_member_spaces, new_space_for_request,
    plan_space_list, sanitize_slug_for_query, sanitize_space_id_for_query, space_identity_key,
    space_list_totals, space_stats_queries, space_update_data, sum_view_counts,
    CreateSpaceRequest, Space, SpaceListQuery, SpaceOwnerAction, SpaceStats, UpdateSpaceRequest,
    UpdateValue,
};

fn query(workspace: Option<&str>, team_id: Option<&str>) -> SpaceListQuery {
    SpaceListQuery {
        page: None,
        limit: None,
        search: None,
        owner_id: None,
        workspace: workspace.map(|s| s.to_string()),
        team_id: team_id.map(|s| s.to_string()),
        is_public: None,
        sort: None,
        order: None,
    }
}

fn create_request(workspace: Option<&str>, team_id: Option<&str>) -> CreateSpaceRequest {
    CreateSpaceRequest {
        name: "Team Space".to_string(),
        slug: "team-space".to_string(),
        description: None,
        avatar_url: None,
        is_public: None,
        settings: None,
        workspace: workspace.map(|s| s.to_string()),
        team_id: team_id.map(|s| s.to_string()),
    }
}

#[test]
fn test_create_space_optional_fields_omit_none_values() {
    let fields = create_space_optional_fields(&None, &None);
    assert!(!fields.contains("description: $description"));
    assert!(!fields.contains("avatar_url: $avatar_url"));

    let fields = create_space_optional_fields(&Some("desc".to_string()), &None);
    assert!(fields.contains("description: $description"));
    assert!(!fields.contains("avatar_url: $avatar_url"));

    let fields = create_space_optional_fields(&None, &Some("avatar".to_string()));
    assert!(!fields.contains("description: $description"));
    assert!(fields.contains("avatar_url: $avatar_url"));
}

#[test]
fn workspace_space_scope_personal_includes_legacy_personal_spaces() {
    let query = query(Some("personal"), None);
    let mut conditions = Vec::new();
    let mut params = Vec::new();

    apply_workspace_scope(&query, &mut conditions, &mut params).unwrap();

    let clause = conditions.join(" AND ");
    assert!(clause.contains("!workspace_kind"));
    assert!(clause.contains("workspace_kind = 'personal'"));
    assert!(!params.iter().any(|(k, _)| k == "team_id"));
}

#[test]
fn workspace_space_scope_team_filters_by_team_id() {
    let query = query(Some("team"), Some("team-514"));
    let mut conditions = Vec::new();
    let mut params = Vec::new();

    apply_workspace_scope(&query, &mut conditions, &mut params).unwrap();

    let clause = conditions.join(" AND ");
    assert!(clause.contains("workspace_kind = 'team'"));
    assert!(clause.contains("team_id = $team_id"));
    assert_eq!(
        params.iter().find(|(k, _)| k == "team_id").map(|(_, v)| v.as_str()),
        Some("team-514")
    );
}

#[test]
fn create_space_workspace_values_require_team_id_for_team_spaces() {
    let request = create_request(Some("team"), Some("team-514"));

    let values = create_space_workspace_values(&request).unwrap();

    assert_eq!(values.workspace_kind, "team");
    assert_eq!(values.team_id.as_deref(), Some("team-514"));

    let missing_team_id = CreateSpaceRequest {
        team_id: None,
        ..request
    };

    assert!(create_space_workspace_values(&missing_team_id).is_err());
}

#[test]
fn team_workspace_visibility_uses_team_membership_not_space_owner() {
    let query = query(Some("team"), Some("team-514"));
    let mut conditions = Vec::new();
    let mut params = Vec::new();

    apply_user_space_visibility_scope(&query, "user-1", &mut conditions, &mut params);

    let clause = conditions.join(" AND ");
    assert!(clause.contains("FROM team_member"));
    assert!(clause.contains("status = 'active'"));
    assert!(!clause.contains("owner_id"));
    assert_eq!(
        params.iter().find(|(k, _)| k == "user_id_raw").map(|(_, v)| v.as_str()),
        Some("user-1")
    );
}

#[test]
fn member_spaces_query_returns_value_strings_not_objects() {
    let query = member_space_ids_query();

    assert!(query.contains("SELECT VALUE"));
    assert!(query.contains("type::string(space_id)"));
    assert!(query.contains("$local_user_id_bracketed"));
    assert!(query.contains("$local_user_id_plain"));
    assert!(!query.contains("SELECT space_id"));
}

#[test]
fn member_space_lookup_matches_record_id_or_slug() {
    let clause = member_space_lookup_where_clause();

    assert!(clause.contains("type::string(id) = $space_id"));
    assert!(clause.contains("string::replace(type::string(id), 'space:', '') = $space_key"));
    assert!(clause.contains("slug = $space_key"));
}

#[test]
fn member_space_key_strips_record_wrappers_before_lookup() {
    assert_eq!(member_space_lookup_key("space:⟨asd⟩"), "asd");
    assert_eq!(member_space_lookup_key("⟨asd⟩"), "asd");
    assert_eq!(member_space_lookup_key("space:asd"), "asd");
    assert_eq!(member_space_lookup_key("⟨space:asd⟩"), "asd");
    assert_eq!(member_space_lookup_key("space:⟨space:asd⟩"), "asd");
    assert_eq!(member_space_lookup_key("space:⟨⟨space:asd⟩⟩"), "asd");
}

#[test]
fn space_identity_key_falls_back_to_slug_when_id_missing() {
    let mut space = Space::new("514".to_string(), "514".to_string(), "owner".to_string());

    assert_eq!(space_identity_key(&space), Some("slug:514".to_string()));

    space.id = Some(String::new());
    assert_eq!(space_identity_key(&space), Some("slug:514".to_string()));

    space.id = Some("space-id".to_string());
    assert_eq!(space_identity_key(&space), Some("id:space-id".to_string()));
}

#[test]
fn space_stats_queries_match_record_space_ids() {
    let queries = space_stats_queries();
    let queries = [
        queries.document_count,
        queries.public_document_count,
        queries.member_count,
        queries.tag_count,
        queries.comment_count,
        queries.view_count,
        queries.last_activity,
    ];

    for query in queries {
        assert!(query.contains("type::record($space_id)"));
        assert!(!query.contains("space_id = $space_id"));
    }
}

#[test]
fn space_stats_count_queries_return_named_grouped_counts() {
    let queries = space_stats_queries();
    let count_queries = [
        queries.document_count,
        queries.public_document_count,
        queries.member_count,
        queries.tag_count,
        queries.comment_count,
    ];

    for query in count_queries {
        assert!(query.contains("count() AS count"));
        assert!(query.contains("GROUP ALL"));
    }
}

#[test]
fn space_stats_count_rows_extract_first_count() {
    let rows = vec![Some(3u64)];

    assert_eq!(first_count_from_rows(&rows), 3);
    assert_eq!(first_count_from_rows(&[]), 0);
    assert_eq!(first_count_from_rows(&[None]), 0);
}

#[test]
fn space_stats_last_activity_returns_string_datetime() {
    let queries = space_stats_queries();

    assert!(queries.last_activity.contains("type::string(updated_at) AS updated_at"));
}

#[test]
fn space_stats_view_count_query_returns_rows_for_rust_sum() {
    let queries = space_stats_queries();

    assert_eq!(
        queries.view_count,
        "SELECT view_count FROM document WHERE space_id = type::record($space_id) AND is_deleted = false"
    );
    assert!(!queries.view_count.contains("math::sum"));
}

#[test]
fn space_stats_response_includes_member_and_tag_counts() {
    let stats = SpaceStats::default();

    assert_eq!(stats.member_count, 0);
    assert_eq!(stats.tag_count, 0);
}

#[test]
fn view_counts_are_summed() {
    assert_eq!(sum_view_counts(&[Some(2), None, Some(5)]), 7);
    assert_eq!(sum_view_counts(&[]), 0);
}

#[test]
fn slugs_and_ids_are_checked_before_queries() {
    assert_eq!(sanitize_slug_for_query("team-514").unwrap(), "team-514");
    assert!(matches!(sanitize_slug_for_query(""), Err(AppError::Validation(m)) if m == "space slug cannot be empty"));
    assert!(matches!(sanitize_slug_for_query("a b"), Err(AppError::Validation(m)) if m == "invalid space slug format"));
    assert_eq!(sanitize_space_id_for_query("space:⟨abc_1⟩").unwrap(), "abc_1");
    assert!(matches!(sanitize_space_id_for_query("space:"), Err(AppError::Validation(m)) if m == "space id cannot be empty"));
    assert!(matches!(sanitize_space_id_for_query("a;b"), Err(AppError::Validation(m)) if m == "invalid space id format"));
}

#[test]
fn personal_and_team_listings_never_share_a_scope() {
    let personal = plan_space_list(&query(None, None), Some("u1")).unwrap();
    assert!(personal.where_clause.contains("workspace_kind = 'personal'"));
    assert!(!personal.where_clause.contains("workspace_kind = 'team'"));
    assert!(personal.include_member_spaces);
    assert!(personal.where_clause.contains("type::string(owner_id) END) IN [$user_id_raw"));
    assert!(personal.where_clause.contains("is_deleted = false"));

    let team = plan_space_list(&query(Some("team"), Some("t1")), Some("u1")).unwrap();
    assert!(team.where_clause.contains("workspace_kind = 'team'"));
    assert!(team.where_clause.contains("team_id = $team_id"));
    assert!(!team.where_clause.contains("workspace_kind = 'personal'"));
    assert!(team.text_params.iter().any(|(k, v)| k == "team_id" && v == "t1"));
    assert!(!team.include_member_spaces);
    assert!(team.where_clause.contains("FROM team_member"));
}

#[test]
fn space_list_plan_pages_and_sorts() {
    let mut q = query(Some(""), None);
    q.page = Some(3);
    q.limit = Some(10);
    q.search = Some("Doc".to_string());
    q.is_public = Some(true);
    q.sort = Some("name".to_string());
    q.order = Some("asc".to_string());
    let plan = plan_space_list(&q, Some("⟨u1⟩")).unwrap();
    assert_eq!(plan.offset, 20);
    assert_eq!(plan.order_clause, "ORDER BY name asc");
    assert!(plan.data_query.ends_with(" ORDER BY name asc LIMIT 10 START 20"));
    assert!(plan.count_query.starts_with("SELECT count() AS total FROM space WHERE "));
    assert!(plan.count_query.ends_with(" GROUP ALL"));
    assert!(plan.text_params.iter().any(|(k, v)| k == "user_id_plain_prefixed" && v == "user:u1"));
    assert!(plan.text_params.iter().any(|(k, v)| k == "search" && v == "Doc"));
    assert_eq!(plan.flag_params, vec![("is_public".to_string(), true)]);
}

#[test]
fn anonymous_and_unknown_scopes() {
    let plan = plan_space_list(&query(None, None), None).unwrap();
    assert!(plan.where_clause.starts_with("WHERE 1 = 0 AND is_deleted = false"));
    assert!(!plan.include_member_spaces);
    assert!(matches!(
        plan_space_list(&query(Some("other"), None), Some("u")),
        Err(AppError::Validation(m)) if m == "unsupported workspace scope: other"
    ));
    assert!(matches!(
        plan_space_list(&query(Some("team"), None), Some("u")),
        Err(AppError::Validation(m)) if m == "team_id is required for team workspace"
    ));
}

#[test]
fn list_totals_and_pages() {
    assert_eq!(space_list_totals(Some(25), 3, 10), (25, 3));
    assert_eq!(space_list_totals(Some(2), 5, 10), (5, 1));
    assert_eq!(space_list_totals(None, 0, 20), (0, 0));
}

fn space(id: Option<&str>, slug: &str) -> Space {
    let mut s = Space::new(slug.to_string(), slug.to_string(), "o".to_string());
    s.id = id.map(|x| x.to_string());
    s
}

#[test]
fn member_spaces_are_added_once() {
    let owned = vec![space(Some("a"), "a")];
    let members = vec![
        space(Some("a"), "a"),
        space(Some("b"), "b"),
        space(Some("b"), "b2"),
        space(None, ""),
        space(None, "c"),
    ];
    let merged = merge_member_spaces(owned, members);
    let slugs: Vec<&str> = merged.iter().map(|s| s.slug.as_str()).collect();
    assert_eq!(slugs, vec!["a", "b", "", "c"]);
}

#[test]
fn access_ownership_and_deletion_rules() {
    assert!(check_space_access(true, false).is_ok());
    assert!(check_space_access(false, true).is_ok());
    assert!(matches!(check_space_access(false, false), Err(AppError::Authorization(m)) if m == "Access denied to this space"));
    assert!(ensure_space_owner("u", "u", SpaceOwnerAction::Delete).is_ok());
    assert!(matches!(
        ensure_space_owner("u", "v", SpaceOwnerAction::Update),
        Err(AppError::Authorization(m)) if m == "Only space owner can update space"
    ));
    assert!(matches!(
        ensure_space_owner("u", "v", SpaceOwnerAction::Delete),
        Err(AppError::Authorization(m)) if m == "Only space owner can delete space"
    ));
    assert!(ensure_space_has_no_documents(Some(0)).is_ok());
    assert!(ensure_space_has_no_documents(None).is_ok());
    assert!(matches!(
        ensure_space_has_no_documents(Some(2)),
        Err(AppError::Conflict(m)) if m == "Cannot delete space with existing documents"
    ));
}

#[test]
fn finds_spaces_by_slug_and_id() {
    let spaces = vec![space(Some("1"), "x"), space(None, "y"), space(Some("3"), "y")];
    assert_eq!(find_space_by_slug(&spaces, "y"), Some(1));
    assert_eq!(find_space_by_slug(&spaces, "z"), None);
    assert_eq!(find_space_by_id(&spaces, "3"), Some(2));
    assert_eq!(find_space_by_id(&spaces, "2"), None);
}

#[test]
fn slug_conflicts_are_reported_as_conflicts() {
    assert!(is_slug_conflict_message("index space_slug_unique_idx already contains 'x'"));
    assert!(is_slug_conflict_message("Database index already contains"));
    assert!(!is_slug_conflict_message("connection reset"));
    assert!(matches!(
        create_space_db_error("space_slug_unique_idx"),
        AppError::Conflict(m) if m == "Space slug already exists globally. Please choose a different slug."
    ));
    assert!(matches!(create_space_db_error("timeout"), AppError::Database(m) if m == "timeout"));
    assert!(ensure_slug_available(false).is_ok());
    assert!(matches!(ensure_slug_available(true), Err(AppError::Conflict(_))));
}

#[test]
fn creation_statement_and_new_space() {
    let sql = create_space_sql("description: $description,");
    assert!(sql.contains("slug: $slug,\n                description: $description,\n                is_public: $is_public,"));
    let mut req = create_request(None, None);
    req.is_public = Some(true);
    req.description = Some("d".to_string());
    let s = new_space_for_request(req, "u1".to_string());
    assert!(s.is_public);
    assert_eq!(s.owner_id, "u1");
    assert_eq!(s.description.as_deref(), Some("d"));
    assert!(s.avatar_url.is_none());
    assert!(create_space_workspace_values(&create_request(Some("x"), None)).is_err());
    let personal = create_space_workspace_values(&create_request(Some(""), None)).unwrap();
    assert_eq!(personal.workspace_kind, "personal");
    assert!(personal.team_id.is_none());
}

#[test]
fn update_data_and_member_ids() {
    let data = space_update_data(&UpdateSpaceRequest {
        name: Some("N".to_string()),
        description: None,
        avatar_url: None,
        is_public: Some(false),
        settings: None,
    });
    assert!(data.iter().any(|(k, v)| k == "name" && matches!(v, UpdateValue::Text(s) if s == "N")));
    assert!(data.iter().any(|(k, v)| k == "is_public" && matches!(v, UpdateValue::Flag(false))));
    assert!(!data.iter().any(|(k, _)| k == "description"));
    let ids = member_user_ids(" user:⟨abc⟩ ");
    assert_eq!(ids.user_id_raw, "abc");
    assert_eq!(ids.user_id_bracketed, "user:⟨abc⟩");
    assert_eq!(ids.user_id_plain, "user:abc");
    assert_eq!(ids.local_user_id_plain, "local_user:abc");
}

fn named_request(name: &str, slug: &str) -> CreateSpaceRequest {
    CreateSpaceRequest {
        name: name.to_string(),
        slug: slug.to_string(),
        description: None,
        avatar_url: None,
        is_public: None,
        settings: None,
        workspace: None,
        team_id: None,
    }
}

#[test]
fn test_create_space_validation() {
    let request = named_request("", "test-space");
    assert!(request.validate().is_err());
}

#[test]
fn test_slug_validation() {
    let valid_request = named_request("Test Space", "test-space");
    assert!(valid_request.validate().is_ok());

    let invalid_request = named_request("Test Space", "Test Space");
    assert!(invalid_request.validate().is_err());
}

#[test]
fn create_space_validation_names_each_broken_rule() {
    let errors = named_request("", "Bad Slug").validate().unwrap_err();
    assert_eq!(errors.len(), 2);
    assert_eq!(errors[0].field, "name");
    assert_eq!(errors[0].message, "length");
    assert_eq!(errors[1].field, "slug");
    assert_eq!(errors[1].message, "regex");

    let errors = named_request("Docs", "").validate().unwrap_err();
    assert_eq!(errors.len(), 1);
    assert_eq!(errors[0].field, "slug");
    assert!(named_request("Docs", "docs-2024").validate().is_ok());
    assert!(named_request("Docs", "docs_2024").validate().is_err());
}

#[test]
fn update_space_validation_rejects_only_an_empty_name() {
    let mut request = UpdateSpaceRequest {
        name: None,
        description: None,
        avatar_url: None,
        is_public: None,
        settings: None,
    };
    assert!(request.validate().is_ok());
    request.name = Some("Renamed".to_string());
    assert!(request.validate().is_ok());
    request.name = Some(String::new());
    let errors = request.validate().unwrap_err();
    assert_eq!(errors.len(), 1);
    assert_eq!(errors[0].field, "name");
    assert_eq!(errors[0].message, "length");
}

#[test]
fn member_lookup_key_of_a_key_is_the_key() {
    for id in ["space:⟨asd⟩", "⟨space:asd⟩", "space:⟨⟨space:asd⟩⟩", " 'x' ", "plain", ""] {
        let key = member_space_lookup_key(id);
        assert_eq!(member_space_lookup_key(&key), key);
        assert!(!key.starts_with("space:"));
    }
}
