use vstd::prelude::*;

verus! {

// ---------------------------------------------------------------------------
// Notifications
// ---------------------------------------------------------------------------

/// The kind of a notification.
#[derive(Debug, Clone, Copy, PartialEq, Eq, Structural)]
pub enum NotificationType {
    SpaceInvitation,
    DocumentShared,
    CommentMention,
    DocumentUpdate,
    System,
}

/// A change of a notification's read state.
#[derive(Debug, Clone, Copy)]
pub struct UpdateNotificationRequest {
    pub is_read: Option<bool>,
}

/// The paging and filter of a notification list.
#[derive(Debug, Clone, Copy)]
pub struct NotificationListQuery {
    pub page: Option<u32>,
    pub limit: Option<u32>,
    pub unread_only: Option<bool>,
}

// ---------------------------------------------------------------------------
// Teams and workspaces
// ---------------------------------------------------------------------------

/// The role of a member in a team.
#[derive(Debug, Clone, Copy, PartialEq, Eq, Structural)]
pub enum TeamRole {
    Owner,
    Admin,
    Member,
}

impl Default for TeamRole {
    fn default() -> (r: TeamRole)
        ensures
            r == TeamRole::Member,
    {
        TeamRole::Member
    }
}

/// A team, as read from the database (its id without the `team:` table prefix
/// where the query strips it; timestamps as RFC 3339 text).
#[derive(Debug, Clone)]
pub struct Team {
    pub id: String,
    pub name: String,
    pub slug: String,
    pub description: Option<String>,
    pub owner_id: String,
    pub is_deleted: Option<bool>,
    pub created_at: Option<String>,
    pub updated_at: Option<String>,
}

/// A user's active membership of a team.
#[derive(Debug, Clone)]
pub struct TeamMemberRow {
    pub team_id: String,
    pub role: TeamRole,
}

/// A team workspace as the workspace list shows it.
#[derive(Debug, Clone)]
pub struct TeamWorkspaceResponse {
    pub id: String,
    pub name: String,
    pub slug: String,
    pub description: Option<String>,
    pub role: TeamRole,
}

/// The personal workspace of a user.
#[derive(Debug, Clone)]
pub struct PersonalWorkspaceResponse {
    pub id: String,
    pub name: String,
}

/// The workspaces of a user: the personal one and the teams.
#[derive(Debug, Clone)]
pub struct WorkspacesResponse {
    pub personal: PersonalWorkspaceResponse,
    pub teams: Vec<TeamWorkspaceResponse>,
}

/// A request to create a team.
#[derive(Debug, Clone)]
pub struct CreateTeamRequest {
    pub name: String,
    pub slug: String,
    pub description: Option<String>,
}

// ---------------------------------------------------------------------------
// Tags
// ---------------------------------------------------------------------------

/// A request to create a tag.
#[derive(Debug, Clone)]
pub struct CreateTagRequest {
    pub name: String,
    pub description: Option<String>,
    pub color: String,
    pub space_id: Option<String>,
}

/// A request to change a tag.
#[derive(Debug, Clone)]
pub struct UpdateTagRequest {
    pub name: Option<String>,
    pub description: Option<String>,
    pub color: Option<String>,
}

/// A request to tag a document with tags.
#[derive(Debug, Clone)]
pub struct TagDocumentRequest {
    pub document_id: String,
    pub tag_ids: Vec<String>,
}

// ---------------------------------------------------------------------------
// Field validation
// ---------------------------------------------------------------------------

/// A field that broke one of its rules, with the rule's message.
#[derive(Debug, Clone)]
pub struct FieldError {
    pub field: String,
    pub message: String,
}

pub open spec fn field_errors_view(v: Seq<FieldError>) -> Seq<(Seq<char>, Seq<char>)> {
    Seq::new(v.len(), |i: int| (v[i].field@, v[i].message@))
}

} // verus!
