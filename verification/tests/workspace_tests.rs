use soulbook::error::AppError;
use soulbook::models::{CreateTeamRequest, Team, TeamMemberRow, TeamRole};
use soulbook::workspace::{
    assemble_workspaces, clean_user_id, create_team_optional_fields, create_team_sql,
    created_team_workspace, ensure_team_slug_available, member_teams_to_fetch,
    owned_teams_query, owner_membership_sql, team_by_slug_query, team_memberships_query,
    team_projection_query, team_slug_count_query, team_slug_taken, user_id_candidates,
};

fn team(id: &str, name: &str) -> Team {
    Team {
        id: id.to_string(),
        name: name.to_string(),
        slug: name.to_lowercase(),
        description: None,
        owner_id: "user-1".to_string(),
        is_deleted: Some(false),
        created_at: None,
        updated_at: None,
    }
}

#[test]
fn validates_team_slug() {
    let valid = CreateTeamRequest {
        name: "Team 514".to_string(),
        slug: "team-514".to_string(),
        description: None,
    };
    assert!(valid.validate().is_ok());

    let invalid = CreateTeamRequest {
        name: "Team".to_string(),
        slug: "Team_514".to_string(),
        description: None,
    };
    assert!(invalid.validate().is_err());
}

#[test]
fn team_validation_reports_each_broken_rule() {
    let bad = CreateTeamRequest {
        name: String::new(),
        slug: String::new(),
        description: Some("x".repeat(301)),
    };
    let errors = bad.validate().unwrap_err();
    let pairs: Vec<(&str, &str)> = errors
        .iter()
        .map(|e| (e.field.as_str(), e.message.as_str()))
        .collect();
    assert_eq!(
        pairs,
        vec![
            ("name", "Team name must be between 1 and 80 characters"),
            ("slug", "Team slug must be between 1 and 50 characters"),
            ("slug", "Team slug can only contain lowercase letters, numbers, and hyphens"),
            ("description", "Team description cannot exceed 300 characters"),
        ]
    );
}

#[test]
fn strips_team_prefix_for_workspace_id() {
    let team = Team {
        id: "team:abc".to_string(),
        name: "ABC".to_string(),
        slug: "abc".to_string(),
        description: None,
        owner_id: "user-1".to_string(),
        is_deleted: Some(false),
        created_at: None,
        updated_at: None,
    };

    let workspace = team.into_workspace(TeamRole::Owner);
    assert_eq!(workspace.id, "abc");
    assert_eq!(workspace.role, TeamRole::Owner);
}

#[test]
fn builds_user_id_candidates_from_record_id() {
    assert_eq!(
        user_id_candidates("user:⟨abc⟩"),
        vec![
            "abc".to_string(),
            "user:abc".to_string(),
            "user:⟨abc⟩".to_string()
        ]
    );
}

#[test]
fn optional_description_field_only_when_present() {
    assert_eq!(create_team_optional_fields(&None), "");
    assert_eq!(
        create_team_optional_fields(&Some("desc".to_string())),
        "description: $description,"
    );
}

#[test]
fn cleans_user_ids() {
    assert_eq!(clean_user_id(" users:`u7` "), "u7");
    assert_eq!(clean_user_id("plain"), "plain");
}

#[test]
fn team_statements() {
    let sql = create_team_sql("description: $description,");
    assert!(sql.starts_with("CREATE team CONTENT {"));
    assert!(sql.contains("slug: $slug,\n                description: $description,\n                owner_id: $owner_id,"));
    assert!(team_projection_query().contains("= $team_id"));
}

#[test]
fn member_teams_skip_owned_and_repeated_ids() {
    let owned = vec![team("t1", "One")];
    let rows = vec![
        TeamMemberRow {
            team_id: "team:t1".to_string(),
            role: TeamRole::Admin,
        },
        TeamMemberRow {
            team_id: "team:t2".to_string(),
            role: TeamRole::Member,
        },
        TeamMemberRow {
            team_id: "t2".to_string(),
            role: TeamRole::Admin,
        },
    ];
    assert_eq!(
        member_teams_to_fetch(&owned, &rows),
        vec![("t2".to_string(), TeamRole::Member)]
    );
}

#[test]
fn workspaces_are_listed_once_by_lowercased_name() {
    let owned = vec![team("b", "beta"), team("a", "Alpha")];
    let fetched = vec![
        ("c".to_string(), team("team:c", "Gamma"), TeamRole::Member),
        ("d".to_string(), team("d", "delta"), TeamRole::Admin),
    ];
    let r = assemble_workspaces(owned, fetched);
    assert_eq!(r.personal.id, "personal");
    assert_eq!(r.personal.name, "个人工作区");
    let names: Vec<&str> = r.teams.iter().map(|t| t.name.as_str()).collect();
    assert_eq!(names, vec!["Alpha", "beta", "delta", "Gamma"]);
    assert_eq!(r.teams[0].role, TeamRole::Owner);
    assert_eq!(r.teams[2].role, TeamRole::Admin);
    assert!(r.teams.iter().all(|t| !t.id.starts_with("team:")));
}

#[test]
fn a_team_reached_twice_by_one_id_is_listed_once() {
    let owned = vec![team("x", "Same")];
    let fetched = vec![("x".to_string(), team("x", "Same"), TeamRole::Admin)];
    let r = assemble_workspaces(owned, fetched);
    assert_eq!(r.teams.len(), 1);
}

#[test]
fn team_creation_checks() {
    assert!(team_slug_taken(&[Some(1)]));
    assert!(!team_slug_taken(&[Some(0)]));
    assert!(!team_slug_taken(&[None]));
    assert!(!team_slug_taken(&[]));
    assert!(ensure_team_slug_available(false).is_ok());
    assert!(matches!(
        ensure_team_slug_available(true),
        Err(AppError::Conflict(m)) if m == "Team slug already exists. Please choose a different slug."
    ));
    let w = created_team_workspace(Some(team("team:z", "Zed"))).unwrap();
    assert_eq!(w.id, "z");
    assert_eq!(w.role, TeamRole::Owner);
    assert!(matches!(
        created_team_workspace(None),
        Err(AppError::Internal(m)) if m == "Failed to fetch created team"
    ));
}

#[test]
fn team_role_defaults_to_member() {
    assert_eq!(TeamRole::default(), TeamRole::Member);
}

#[test]
fn team_queries_select_live_teams_of_the_user() {
    let owned = owned_teams_query();
    assert!(owned.contains("FROM team\n"));
    assert!(owned.contains("IN $user_ids"));
    assert!(owned.contains("AND is_deleted = false"));
    assert!(owned.contains("ORDER BY updated_at DESC"));

    let memberships = team_memberships_query();
    assert!(memberships.contains("FROM team_member"));
    assert!(memberships.contains("WHERE user_id IN $user_ids"));
    assert!(memberships.contains("AND status = 'active'"));

    assert!(team_by_slug_query().contains("WHERE slug = $slug AND is_deleted = false"));
    assert!(team_by_slug_query().contains("LIMIT 1"));
    assert_eq!(
        team_slug_count_query(),
        "SELECT count() AS count FROM team WHERE slug = $slug AND is_deleted = false GROUP ALL"
    );
    let owner = owner_membership_sql();
    assert!(owner.starts_with("CREATE team_member SET"));
    assert!(owner.contains("role = 'owner'"));
    assert!(owner.contains("status = 'active'"));
}
