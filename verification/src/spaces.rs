use vstd::prelude::*;

use crate::error::AppError;
use crate::models::{field_errors_view, FieldError};
use crate::text::{
    all_in_set, chars_eq, chars_of, has_prefix, in_set, lemma_trim_end_prefix, lemma_trim_start_prefix,
    push_chars, push_string, string_of, strings, strip_prefix, strip_prefix_chars, trim, trim_chars, trim_end_set,
    trim_set, trim_set_chars, trim_start_set, pairs_view, CharSet,
};

verus! {

/// A document space, with the fields that the space logic reads.
#[derive(Debug, Clone)]
pub struct Space {
    pub id: Option<String>,
    pub name: String,
    pub slug: String,
    pub description: Option<String>,
    pub avatar_url: Option<String>,
    pub is_public: bool,
    pub is_deleted: bool,
    pub owner_id: String,
    pub settings: Option<String>,
    pub member_count: u32,
    pub document_count: u32,
    pub created_by: String,
    pub updated_by: String,
    pub created_at: Option<String>,
    pub updated_at: Option<String>,
}

impl Space {
    /// A new private space, without id, description or avatar, owned by `owner_id`.
    pub fn new(name: String, slug: String, owner_id: String) -> (s: Space)
        ensures
            s.id is None,
            s.name == name,
            s.slug == slug,
            s.owner_id == owner_id,
            s.description is None,
            s.avatar_url is None,
            !s.is_public,
            !s.is_deleted,
            s.settings is None,
            s.member_count == 0,
            s.document_count == 0,
            s.created_by == owner_id,
            s.updated_by == owner_id,
            s.created_at is None,
            s.updated_at is None,
    {
        Space {
            id: None,
            name,
            slug,
            description: None,
            avatar_url: None,
            is_public: false,
            is_deleted: false,
            created_by: owner_id.clone(),
            updated_by: owner_id.clone(),
            owner_id,
            settings: None,
            member_count: 0,
            document_count: 0,
            created_at: None,
            updated_at: None,
        }
    }
}

/// The statistics of a space.
#[derive(Debug, Clone)]
pub struct SpaceStats {
    pub document_count: u32,
    pub public_document_count: u32,
    pub member_count: u32,
    pub tag_count: u32,
    pub comment_count: u32,
    pub view_count: u32,
    pub last_activity: Option<String>,
}

impl Default for SpaceStats {
    fn default() -> (s: SpaceStats)
        ensures
            s.document_count == 0,
            s.public_document_count == 0,
            s.member_count == 0,
            s.tag_count == 0,
            s.comment_count == 0,
            s.view_count == 0,
            s.last_activity is None,
    {
        SpaceStats {
            document_count: 0,
            public_document_count: 0,
            member_count: 0,
            tag_count: 0,
            comment_count: 0,
            view_count: 0,
            last_activity: None,
        }
    }
}

/// A request to create a space.
#[derive(Debug, Clone)]
pub struct CreateSpaceRequest {
    pub name: String,
    pub slug: String,
    pub description: Option<String>,
    pub avatar_url: Option<String>,
    pub is_public: Option<bool>,
    pub settings: Option<String>,
    pub workspace: Option<String>,
    pub team_id: Option<String>,
}

/// The workspace a new space belongs to.
#[derive(Debug, Clone)]
pub struct CreateSpaceWorkspaceValues {
    pub workspace_kind: String,
    pub team_id: Option<String>,
}

// ---------------------------------------------------------------------------
// Specifications
// ---------------------------------------------------------------------------

pub open spec fn opt_view(o: Option<String>) -> Option<Seq<char>> {
    match o {
        Some(s) => Some(s@),
        None => None,
    }
}

/// The workspace scope named by a request, `personal` when none is given.
pub open spec fn workspace_scope(workspace: Option<String>) -> Seq<char> {
    match workspace {
        Some(w) => w@,
        None => "personal"@,
    }
}

/// A slug that can stand in a query literal: non-empty, ASCII letters, digits and `-`.
pub open spec fn query_safe_slug(slug: Seq<char>) -> bool {
    slug.len() > 0 && forall|i: int| 0 <= i < slug.len() ==> in_set(CharSet::SlugChar, #[trigger] slug[i])
}

/// A space id without one leading `space:` and the quoting characters around it.
pub open spec fn space_id_key(id: Seq<char>) -> Seq<char> {
    let s = match strip_prefix(id, "space:"@) {
        Some(t) => t,
        None => id,
    };
    trim_set(s, CharSet::RecordQuotesSpace)
}

/// A key that can stand in a record id: non-empty, ASCII letters, digits, `-` and `_`.
pub open spec fn query_safe_id(key: Seq<char>) -> bool {
    key.len() > 0 && forall|i: int| 0 <= i < key.len() ==> in_set(CharSet::IdChar, #[trigger] key[i])
}

/// One round of unwrapping a member space id: a leading `space:` and the quotes around.
pub open spec fn lookup_key_step(s: Seq<char>) -> Seq<char> {
    trim_set(
        match strip_prefix(s, "space:"@) {
            Some(t) => t,
            None => s,
        },
        CharSet::RecordQuotesSpace,
    )
}

/// Unwraps until nothing changes.
pub open spec fn lookup_key_fix(s: Seq<char>) -> Seq<char>
    decreases s.len(),
{
    let n = lookup_key_step(s);
    if n == s {
        s
    } else {
        proof {
            lemma_lookup_key_step_shrinks(s);
        }
        lookup_key_fix(n)
    }
}

/// The key under which a member space is looked up: the id with every
/// `space:` prefix and quoting layer taken off.
pub open spec fn member_lookup_key(space_id: Seq<char>) -> Seq<char> {
    lookup_key_fix(trim_set(trim(space_id), CharSet::RecordQuotesSpace))
}

/// The key by which spaces are told apart: the trimmed id when there is one,
/// else the trimmed slug, else none.
pub open spec fn identity_key(id: Option<Seq<char>>, slug: Seq<char>) -> Option<Seq<char>> {
    if id is Some && trim(id->0).len() > 0 {
        Some("id:"@ + trim(id->0))
    } else if trim(slug).len() > 0 {
        Some("slug:"@ + trim(slug))
    } else {
        None
    }
}

pub open spec fn space_key(s: Space) -> Option<Seq<char>> {
    identity_key(opt_view(s.id), s.slug@)
}

/// The optional fields of the space creation statement.
pub open spec fn space_optional_fields(has_description: bool, has_avatar: bool) -> Seq<char> {
    if has_description && has_avatar {
        "description: $description,"@ + "\n                "@ + "avatar_url: $avatar_url,"@
    } else if has_description {
        "description: $description,"@
    } else if has_avatar {
        "avatar_url: $avatar_url,"@
    } else {
        Seq::empty()
    }
}

// ---------------------------------------------------------------------------
// Lemmas
// ---------------------------------------------------------------------------

proof fn lemma_trim_set_subrange(s: Seq<char>, set: CharSet)
    ensures
        trim_set(s, set).len() <= s.len(),
        trim_set(s, set).len() == s.len() ==> trim_set(s, set) == s,
{
    lemma_trim_start_prefix(s, set);
    let a = trim_start_set(s, set);
    lemma_trim_end_prefix(a, set);
    if trim_set(s, set).len() == s.len() {
        assert(a.len() == s.len());
        assert(s.skip(0) =~= s);
        assert(a.take(a.len() as int) =~= a);
    }
}

pub proof fn lemma_lookup_key_step_shrinks(s: Seq<char>)
    ensures
        lookup_key_step(s) != s ==> lookup_key_step(s).len() < s.len(),
{
    reveal_strlit("space:");
    let t = match strip_prefix(s, "space:"@) {
        Some(x) => x,
        None => s,
    };
    lemma_trim_set_subrange(t, CharSet::RecordQuotesSpace);
}

proof fn lemma_lookup_key_fix_is_fixpoint(s: Seq<char>)
    ensures
        lookup_key_step(lookup_key_fix(s)) == lookup_key_fix(s),
    decreases s.len(),
{
    if lookup_key_step(s) != s {
        lemma_lookup_key_step_shrinks(s);
        lemma_lookup_key_fix_is_fixpoint(lookup_key_step(s));
    }
}

/// The key a member space is looked up by has nothing left to take off: it
/// does not start with `space:`, and no quoting character (`⟨⟩"'`` ` or a
/// space) stands at either end; one more round of unwrapping leaves it as it is.
pub proof fn law_member_lookup_key_fully_unwrapped(space_id: Seq<char>)
    ensures
        lookup_key_step(member_lookup_key(space_id)) == member_lookup_key(space_id),
        !has_prefix(member_lookup_key(space_id), "space:"@),
        member_lookup_key(space_id).len() > 0 ==> !in_set(
            CharSet::RecordQuotesSpace,
            member_lookup_key(space_id)[0],
        ) && !in_set(CharSet::RecordQuotesSpace, member_lookup_key(space_id).last()),
{
    reveal_strlit("space:");
    let k = member_lookup_key(space_id);
    lemma_lookup_key_fix_is_fixpoint(trim_set(trim(space_id), CharSet::RecordQuotesSpace));
    let t = match strip_prefix(k, "space:"@) {
        Some(x) => x,
        None => k,
    };
    lemma_trim_set_subrange(t, CharSet::RecordQuotesSpace);
    crate::text::lemma_trim_set_ends(t, CharSet::RecordQuotesSpace);
    if has_prefix(k, "space:"@) {
        assert(t.len() == k.len() - 6);
        assert(false);
    }
}

proof fn lemma_lookup_key_keeps_only_space(s: Seq<char>)
    requires
        crate::text::only_space_whitespace(s),
    ensures
        crate::text::only_space_whitespace(lookup_key_fix(s)),
    decreases s.len(),
{
    reveal_strlit("space:");
    let t = match strip_prefix(s, "space:"@) {
        Some(x) => x,
        None => s,
    };
    assert(crate::text::only_space_whitespace(t)) by {
        if has_prefix(s, "space:"@) {
            assert forall|i: int| 0 <= i < t.len() implies (crate::text::is_whitespace(#[trigger] t[i])
                ==> t[i] == ' ') by {
                assert(t[i] == s[i + 6]);
            }
        }
    }
    crate::text::lemma_trim_set_only_space_whitespace(t, CharSet::RecordQuotesSpace);
    if lookup_key_step(s) != s {
        lemma_lookup_key_step_shrinks(s);
        lemma_lookup_key_keeps_only_space(lookup_key_step(s));
    }
}

/// Looking up the key of a member space key gives that key back, for ids
/// whose only whitespace is plain spaces (the lookup first trims all
/// whitespace, while its unwrapping strips only spaces).
pub proof fn law_member_lookup_key_idempotent(space_id: Seq<char>)
    requires
        crate::text::only_space_whitespace(space_id),
    ensures
        member_lookup_key(member_lookup_key(space_id)) == member_lookup_key(space_id),
{
    let k = member_lookup_key(space_id);
    crate::text::lemma_trim_set_only_space_whitespace(space_id, CharSet::Whitespace);
    crate::text::lemma_trim_set_only_space_whitespace(trim(space_id), CharSet::RecordQuotesSpace);
    lemma_lookup_key_keeps_only_space(trim_set(trim(space_id), CharSet::RecordQuotesSpace));
    law_member_lookup_key_fully_unwrapped(space_id);
    if k.len() > 0 {
        assert(!in_set(CharSet::RecordQuotesSpace, k[0]));
        assert(!crate::text::is_whitespace(k[0]));
        assert(!crate::text::is_whitespace(k[k.len() - 1]));
    }
    crate::text::lemma_trim_set_keeps(k, CharSet::Whitespace);
    crate::text::lemma_trim_set_keeps(k, CharSet::RecordQuotesSpace);
    assert(lookup_key_fix(k) == k);
}

// ---------------------------------------------------------------------------
// Functions
// ---------------------------------------------------------------------------

/// Checks that a slug can be written into a query literal: it must be non-empty
/// and made of ASCII letters, digits and `-`.
pub fn sanitize_slug_for_query(slug: &str) -> (r: Result<String, AppError>)
    ensures
        match r {
            Ok(s) => query_safe_slug(slug@) && s@ == slug@,
            Err(AppError::Validation(m)) => !query_safe_slug(slug@) && (if slug@.len() == 0 {
                m@ == "space slug cannot be empty"@
            } else {
                m@ == "invalid space slug format"@
            }),
            Err(_) => false,
        },
{
    let chars = chars_of(slug);
    if chars.len() == 0 {
        return Err(AppError::Validation("space slug cannot be empty".to_string()));
    }
    if all_in_set(&chars, CharSet::SlugChar) {
        return Ok(slug.to_string());
    }
    Err(AppError::Validation("invalid space slug format".to_string()))
}

/// The key of a space id, checked to be usable in a record id.
pub fn sanitize_space_id_for_query(id: &str) -> (r: Result<String, AppError>)
    ensures
        match r {
            Ok(s) => query_safe_id(space_id_key(id@)) && s@ == space_id_key(id@),
            Err(AppError::Validation(m)) => !query_safe_id(space_id_key(id@)) && (if space_id_key(
                id@,
            ).len() == 0 {
                m@ == "space id cannot be empty"@
            } else {
                m@ == "invalid space id format"@
            }),
            Err(_) => false,
        },
{
    let chars = chars_of(id);
    let stripped = match strip_prefix_chars(&chars, &chars_of("space:")) {
        Some(t) => t,
        None => chars,
    };
    let clean = trim_set_chars(&stripped, CharSet::RecordQuotesSpace);
    if clean.len() == 0 {
        return Err(AppError::Validation("space id cannot be empty".to_string()));
    }
    if all_in_set(&clean, CharSet::IdChar) {
        return Ok(string_of(&clean));
    }
    Err(AppError::Validation("invalid space id format".to_string()))
}

/// The key under which a member space is looked up: all `space:` prefixes and
/// quoting layers (`⟨⟩"'`` ` and spaces) are taken off, however deeply nested.
pub fn member_space_lookup_key(space_id: &str) -> (r: String)
    ensures
        r@ == member_lookup_key(space_id@),
{
    let mut clean = trim_set_chars(&trim_chars(&chars_of(space_id)), CharSet::RecordQuotesSpace);
    let prefix = chars_of("space:");
    loop
        invariant
            prefix@ == "space:"@,
            lookup_key_fix(clean@) == member_lookup_key(space_id@),
        decreases clean@.len(),
    {
        let stripped = match strip_prefix_chars(&clean, &prefix) {
            Some(t) => t,
            None => slice_all(&clean),
        };
        let next = trim_set_chars(&stripped, CharSet::RecordQuotesSpace);
        assert(next@ == lookup_key_step(clean@));
        if chars_eq(&next, &clean) {
            return string_of(&clean);
        }
        proof {
            lemma_lookup_key_step_shrinks(clean@);
        }
        clean = next;
    }
}

fn slice_all(v: &Vec<char>) -> (r: Vec<char>)
    ensures
        r@ == v@,
{
    let r = crate::text::slice(v, 0, v.len());
    assert(r@ =~= v@);
    r
}

/// The key by which merged space lists tell spaces apart.
pub fn space_identity_key(space: &Space) -> (r: Option<String>)
    ensures
        opt_view(r) == space_key(*space),
{
    match &space.id {
        Some(id) => {
            let t = trim_chars(&chars_of(id.as_str()));
            if t.len() > 0 {
                let mut key = String::new();
                key.append("id:");
                push_chars(&mut key, &t);
                return Some(key);
            }
        },
        None => {},
    }
    let s = trim_chars(&chars_of(space.slug.as_str()));
    if s.len() > 0 {
        let mut key = String::new();
        key.append("slug:");
        push_chars(&mut key, &s);
        Some(key)
    } else {
        None
    }
}

/// The optional fields of the space creation statement: only those with a value.
pub fn create_space_optional_fields(description: &Option<String>, avatar_url: &Option<String>) -> (r: String)
    ensures
        r@ == space_optional_fields(description is Some, avatar_url is Some),
{
    let mut fields = String::new();
    if description.is_some() {
        fields.append("description: $description,");
    }
    if avatar_url.is_some() {
        if description.is_some() {
            fields.append("\n                ");
        }
        fields.append("avatar_url: $avatar_url,");
    }
    fields
}

/// A space slug of lowercase letters, digits and `-` only (`^[a-z0-9-]+$`).
pub open spec fn space_slug_pattern(slug: Seq<char>) -> bool {
    slug.len() > 0 && forall|i: int| 0 <= i < slug.len() ==> in_set(CharSet::LowerSlugChar, #[trigger] slug[i])
}

/// The rules of a space creation request that it breaks, in order: the name
/// must not be empty and the slug must match `^[a-z0-9-]+$`.
pub open spec fn create_space_errors(r: CreateSpaceRequest) -> Seq<(Seq<char>, Seq<char>)> {
    (if r.name@.len() >= 1 {
        Seq::empty()
    } else {
        seq![("name"@, "length"@)]
    }) + (if space_slug_pattern(r.slug@) {
        Seq::empty()
    } else {
        seq![("slug"@, "regex"@)]
    })
}

/// The rule of a space update request that it breaks: a name, when given,
/// must not be empty.
pub open spec fn update_space_errors(r: UpdateSpaceRequest) -> Seq<(Seq<char>, Seq<char>)> {
    if r.name is Some && r.name->0@.len() == 0 {
        seq![("name"@, "length"@)]
    } else {
        Seq::empty()
    }
}

fn push_rule_error(errors: &mut Vec<FieldError>, field: &str, rule: &str)
    ensures
        field_errors_view(final(errors)@) == field_errors_view(old(errors)@).push((field@, rule@)),
{
    let ghost before = field_errors_view(errors@);
    errors.push(FieldError { field: field.to_string(), message: rule.to_string() });
    assert(field_errors_view(errors@) =~= before.push((field@, rule@)));
}

impl CreateSpaceRequest {
    /// Checks the request: `Ok` when no rule is broken, else each broken rule
    /// with its field and the rule's name.
    pub fn validate(&self) -> (r: Result<(), Vec<FieldError>>)
        ensures
            match r {
                Ok(()) => create_space_errors(*self).len() == 0,
                Err(errors) => create_space_errors(*self).len() > 0 && field_errors_view(errors@)
                    == create_space_errors(*self),
            },
    {
        let mut errors: Vec<FieldError> = Vec::new();
        let ghost e0 = field_errors_view(errors@);
        if chars_of(self.name.as_str()).len() == 0 {
            push_rule_error(&mut errors, "name", "length");
        }
        let ghost e1 = field_errors_view(errors@);
        let slug = chars_of(self.slug.as_str());
        if !(slug.len() > 0 && all_in_set(&slug, CharSet::LowerSlugChar)) {
            push_rule_error(&mut errors, "slug", "regex");
        }
        assert(field_errors_view(errors@) =~= create_space_errors(*self));
        if errors.len() == 0 {
            Ok(())
        } else {
            Err(errors)
        }
    }
}

impl UpdateSpaceRequest {
    /// Checks the request: `Ok` when no rule is broken, else the broken rule.
    pub fn validate(&self) -> (r: Result<(), Vec<FieldError>>)
        ensures
            match r {
                Ok(()) => update_space_errors(*self).len() == 0,
                Err(errors) => update_space_errors(*self).len() > 0 && field_errors_view(errors@)
                    == update_space_errors(*self),
            },
    {
        let mut errors: Vec<FieldError> = Vec::new();
        match &self.name {
            Some(n) => {
                if chars_of(n.as_str()).len() == 0 {
                    push_rule_error(&mut errors, "name", "length");
                }
            },
            None => {},
        }
        assert(field_errors_view(errors@) =~= update_space_errors(*self));
        if errors.len() == 0 {
            Ok(())
        } else {
            Err(errors)
        }
    }
}

/// The workspace of a new space: a team space needs a team id; a personal one
/// (also when no or an empty scope is given) has none; other scopes are refused.
pub fn create_space_workspace_values(request: &CreateSpaceRequest) -> (r: Result<CreateSpaceWorkspaceValues, AppError>)
    ensures
        workspace_scope(request.workspace) == "team"@ ==> match r {
            Ok(v) => request.team_id is Some && v.workspace_kind@ == "team"@ && opt_view(v.team_id)
                == opt_view(request.team_id),
            Err(AppError::Validation(m)) => request.team_id is None && m@
                == "team_id is required for team workspace"@,
            Err(_) => false,
        },
        (workspace_scope(request.workspace) == "personal"@ || workspace_scope(request.workspace)
            == ""@) ==> (r matches Ok(v) && v.workspace_kind@ == "personal"@ && v.team_id is None),
        (workspace_scope(request.workspace) != "team"@ && workspace_scope(request.workspace)
            != "personal"@ && workspace_scope(request.workspace) != ""@) ==> (r matches Err(
            AppError::Validation(m),
        ) && m@ == "unsupported workspace scope: "@ + workspace_scope(request.workspace)),
{
    proof {
        reveal_strlit("");
        reveal_strlit("team");
        reveal_strlit("personal");
    }
    let scope = match &request.workspace {
        Some(w) => chars_of(w.as_str()),
        None => chars_of("personal"),
    };
    if chars_eq(&scope, &chars_of("team")) {
        assert(scope@ == "team"@);
        assert(scope@ != "personal"@);
        assert(scope@ != ""@);
        match &request.team_id {
            Some(t) => Ok(
                CreateSpaceWorkspaceValues {
                    workspace_kind: "team".to_string(),
                    team_id: Some(t.clone()),
                },
            ),
            None => Err(AppError::Validation("team_id is required for team workspace".to_string())),
        }
    } else if chars_eq(&scope, &chars_of("personal")) || scope.len() == 0 {
        proof {
            if scope@.len() == 0 {
                assert(scope@ =~= ""@);
            }
        }
        Ok(CreateSpaceWorkspaceValues { workspace_kind: "personal".to_string(), team_id: None })
    } else {
        assert(scope@ != "personal"@);
        assert(scope@.len() != 0);
        assert(scope@ == workspace_scope(request.workspace));
        let mut m = String::new();
        m.append("unsupported workspace scope: ");
        push_chars(&mut m, &scope);
        Err(AppError::Validation(m))
    }
}

// ---------------------------------------------------------------------------
// Listing spaces
// ---------------------------------------------------------------------------

/// The filters of a space list request.
#[derive(Debug, Clone)]
pub struct SpaceListQuery {
    pub page: Option<u32>,
    pub limit: Option<u32>,
    pub search: Option<String>,
    pub owner_id: Option<String>,
    pub workspace: Option<String>,
    pub team_id: Option<String>,
    pub is_public: Option<bool>,
    pub sort: Option<String>,
    pub order: Option<String>,
}

/// The queries and parameters of one space list request.
#[derive(Debug)]
pub struct SpaceListPlan {
    pub page: u32,
    pub limit: u32,
    pub offset: u32,
    pub where_clause: String,
    pub order_clause: String,
    pub text_params: Vec<(String, String)>,
    pub flag_params: Vec<(String, bool)>,
    pub count_query: String,
    pub data_query: String,
    /// Whether the spaces the user is a member of are added to the list.
    pub include_member_spaces: bool,
}

pub open spec fn team_visibility_condition() -> Seq<char> {
    "$team_id IN (\n                SELECT VALUE string::replace(type::string(team_id), 'team:', '')\n                FROM team_member\n                WHERE user_id IN [$user_id_raw, $user_id_bracketed, $user_id_plain_prefixed]\n                  AND status = 'active'\n            )"@
}

pub open spec fn owner_visibility_condition() -> Seq<char> {
    "(IF owner_id = NONE THEN '' ELSE type::string(owner_id) END) IN [$user_id_raw, $user_id_bracketed, $user_id_plain_prefixed]"@
}

pub open spec fn search_condition() -> Seq<char> {
    "(string::lowercase(name) CONTAINS string::lowercase($search) OR string::lowercase(description) CONTAINS string::lowercase($search))"@
}

pub open spec fn owner_filter_condition() -> Seq<char> {
    "(IF owner_id = NONE THEN '' ELSE type::string(owner_id) END) IN [$owner_raw, $owner_bracketed, $owner_plain_prefixed]"@
}

pub open spec fn personal_scope_condition() -> Seq<char> {
    "(!workspace_kind OR workspace_kind = NONE OR workspace_kind = 'personal')"@
}

pub open spec fn is_team_query(q: SpaceListQuery) -> bool {
    q.workspace is Some && q.workspace->0@ == "team"@
}

/// Which spaces a caller may list: a signed-in user sees the spaces of the
/// team whose members they are (team scope) or the spaces they own; an
/// anonymous caller sees none.
pub open spec fn visibility_conditions(q: SpaceListQuery, user: Option<Seq<char>>) -> Seq<Seq<char>> {
    match user {
        None => seq!["1 = 0"@],
        Some(_) => if is_team_query(q) {
            seq![team_visibility_condition()]
        } else {
            seq![owner_visibility_condition()]
        },
    }
}

/// A workspace scope that the list accepts.
pub open spec fn scope_ok(q: SpaceListQuery) -> bool {
    ||| (workspace_scope(q.workspace) == "team"@ && q.team_id is Some)
    ||| workspace_scope(q.workspace) == "personal"@
    ||| workspace_scope(q.workspace) == ""@
}

pub open spec fn scope_conditions(q: SpaceListQuery) -> Seq<Seq<char>> {
    if workspace_scope(q.workspace) == "team"@ {
        seq!["workspace_kind = 'team'"@, "team_id = $team_id"@]
    } else {
        seq![personal_scope_condition()]
    }
}

pub open spec fn list_conditions(q: SpaceListQuery, user: Option<Seq<char>>) -> Seq<Seq<char>> {
    visibility_conditions(q, user) + seq!["is_deleted = false"@] + (if q.search is Some {
        seq![search_condition()]
    } else {
        Seq::empty()
    }) + (if q.owner_id is Some {
        seq![owner_filter_condition()]
    } else {
        Seq::empty()
    }) + (if q.is_public is Some {
        seq!["is_public = $is_public"@]
    } else {
        Seq::empty()
    }) + scope_conditions(q)
}

pub open spec fn user_params(user: Option<Seq<char>>) -> Seq<(Seq<char>, Seq<char>)> {
    match user {
        None => Seq::empty(),
        Some(u) => seq![
            ("user_id_raw"@, u),
            ("user_id_bracketed"@, "user:"@ + u),
            ("user_id_plain_prefixed"@, "user:"@ + trim_set(u, CharSet::Brackets)),
        ],
    }
}

pub open spec fn list_text_params(q: SpaceListQuery, user: Option<Seq<char>>) -> Seq<(Seq<char>, Seq<char>)> {
    user_params(user) + (match q.search {
        Some(s) => seq![("search"@, s@)],
        None => Seq::empty(),
    }) + (match q.owner_id {
        Some(o) => seq![
            ("owner_raw"@, o@),
            ("owner_bracketed"@, "user:"@ + o@),
            ("owner_plain_prefixed"@, "user:"@ + trim_set(o@, CharSet::Brackets)),
        ],
        None => Seq::empty(),
    }) + scope_params(q)
}

/// The parameter a workspace scope binds: the team's id for a team scope.
pub open spec fn scope_params(q: SpaceListQuery) -> Seq<(Seq<char>, Seq<char>)> {
    if workspace_scope(q.workspace) == "team"@ {
        seq![("team_id"@, q.team_id->0@)]
    } else {
        Seq::empty()
    }
}

pub open spec fn list_flag_params(q: SpaceListQuery) -> Seq<(Seq<char>, bool)> {
    match q.is_public {
        Some(b) => seq![("is_public"@, b)],
        None => Seq::empty(),
    }
}

pub open spec fn flags_view(v: Seq<(String, bool)>) -> Seq<(Seq<char>, bool)> {
    Seq::new(v.len(), |i: int| (v[i].0@, v[i].1))
}

pub open spec fn space_projection_list() -> Seq<char> {
    "SELECT string::replace(type::string(id), 'space:', '') AS id, name, slug, description, avatar_url, is_public, is_deleted, (IF owner_id = NONE THEN '' ELSE type::string(owner_id) END) as owner_id, settings, theme_config, member_count, document_count, created_at, updated_at, (IF created_by = NONE THEN '' ELSE type::string(created_by) END) as created_by, (IF updated_by = NONE THEN '' ELSE type::string(updated_by) END) as updated_by FROM space "@
}

pub open spec fn page_of(q: SpaceListQuery) -> int {
    match q.page {
        Some(p) => p as int,
        None => 1,
    }
}

pub open spec fn limit_of(q: SpaceListQuery) -> int {
    match q.limit {
        Some(l) => l as int,
        None => 20,
    }
}

/// The page arithmetic of a list request does not overflow.
pub open spec fn list_paging_ok(q: SpaceListQuery) -> bool {
    page_of(q) >= 1 && (page_of(q) - 1) * limit_of(q) <= u32::MAX
}

/// The errors of a refused workspace scope.
pub open spec fn scope_error(q: SpaceListQuery) -> Seq<char> {
    if workspace_scope(q.workspace) == "team"@ {
        "team_id is required for team workspace"@
    } else {
        "unsupported workspace scope: "@ + workspace_scope(q.workspace)
    }
}

fn push_text_param(params: &mut Vec<(String, String)>, key: &str, value: String)
    ensures
        pairs_view(final(params)@) == pairs_view(old(params)@).push((key@, value@)),
{
    let ghost before = pairs_view(params@);
    params.push((key.to_string(), value));
    assert(pairs_view(params@) =~= before.push((key@, value@)));
}

fn push_condition(conds: &mut Vec<String>, c: &str)
    ensures
        strings(final(conds)@) == strings(old(conds)@).push(c@),
{
    push_string(conds, c.to_string());
}

fn prefixed(prefix: &str, v: &Vec<char>) -> (r: String)
    ensures
        r@ == prefix@ + v@,
{
    let mut s = String::new();
    s.append(prefix);
    push_chars(&mut s, v);
    s
}

/// Limits a space list to what a signed-in user may see: for a team scope,
/// the spaces of a team the user is an active member of; otherwise the spaces
/// the user owns, matched by the raw id, `user:` and the id, and `user:` and
/// the id without angle brackets, which are bound as parameters.
pub fn apply_user_space_visibility_scope(
    query: &SpaceListQuery,
    user_id: &str,
    where_conditions: &mut Vec<String>,
    params: &mut Vec<(String, String)>,
)
    ensures
        strings(final(where_conditions)@) == strings(old(where_conditions)@) + visibility_conditions(
            *query,
            Some(user_id@),
        ),
        pairs_view(final(params)@) == pairs_view(old(params)@) + user_params(Some(user_id@)),
{
    let ghost c0 = strings(where_conditions@);
    let ghost p0 = pairs_view(params@);
    let is_team = match &query.workspace {
        Some(w) => chars_eq(&chars_of(w.as_str()), &chars_of("team")),
        None => false,
    };
    if is_team {
        push_condition(
            where_conditions,
            "$team_id IN (\n                SELECT VALUE string::replace(type::string(team_id), 'team:', '')\n                FROM team_member\n                WHERE user_id IN [$user_id_raw, $user_id_bracketed, $user_id_plain_prefixed]\n                  AND status = 'active'\n            )",
        );
    } else {
        push_condition(
            where_conditions,
            "(IF owner_id = NONE THEN '' ELSE type::string(owner_id) END) IN [$user_id_raw, $user_id_bracketed, $user_id_plain_prefixed]",
        );
    }
    assert(strings(where_conditions@) =~= c0 + visibility_conditions(*query, Some(user_id@)));
    let uc = chars_of(user_id);
    push_text_param(params, "user_id_raw", user_id.to_string());
    push_text_param(params, "user_id_bracketed", prefixed("user:", &uc));
    let plain = trim_set_chars(&uc, CharSet::Brackets);
    push_text_param(params, "user_id_plain_prefixed", prefixed("user:", &plain));
    assert(pairs_view(params@) =~= p0 + user_params(Some(user_id@)));
}

/// Limits a space list to a workspace: a team scope keeps the spaces of the
/// given team and binds `team_id` (a team scope without a team is refused);
/// the personal scope, also when none or an empty one is named, keeps personal
/// spaces, including those stored before spaces had a workspace; any other
/// scope is refused, and nothing is added then.
pub fn apply_workspace_scope(
    query: &SpaceListQuery,
    where_conditions: &mut Vec<String>,
    params: &mut Vec<(String, String)>,
) -> (r: Result<(), AppError>)
    ensures
        match r {
            Ok(_) => {
                &&& scope_ok(*query)
                &&& strings(final(where_conditions)@) == strings(old(where_conditions)@)
                    + scope_conditions(*query)
                &&& pairs_view(final(params)@) == pairs_view(old(params)@) + scope_params(*query)
            },
            Err(AppError::Validation(m)) => {
                &&& !scope_ok(*query)
                &&& m@ == scope_error(*query)
                &&& final(where_conditions)@ == old(where_conditions)@
                &&& final(params)@ == old(params)@
            },
            Err(_) => false,
        },
{
    let ghost c0 = strings(where_conditions@);
    let ghost p0 = pairs_view(params@);
    let scope = match &query.workspace {
        Some(w) => chars_of(w.as_str()),
        None => chars_of("personal"),
    };
    assert(scope@ == workspace_scope(query.workspace));
    let is_team_scope = chars_eq(&scope, &chars_of("team"));
    proof {
        reveal_strlit("");
        reveal_strlit("team");
        reveal_strlit("personal");
        assert("team"@.len() == 4);
        assert("team"@ != "personal"@ && "team"@ != ""@);
    }
    if is_team_scope {
        match &query.team_id {
            Some(t) => {
                push_condition(where_conditions, "workspace_kind = 'team'");
                push_condition(where_conditions, "team_id = $team_id");
                push_text_param(params, "team_id", t.clone());
                assert(strings(where_conditions@) =~= c0 + scope_conditions(*query));
                assert(pairs_view(params@) =~= p0 + scope_params(*query));
                Ok(())
            },
            None => Err(AppError::Validation("team_id is required for team workspace".to_string())),
        }
    } else if chars_eq(&scope, &chars_of("personal")) || scope.len() == 0 {
        proof {
            if scope@.len() == 0 {
                assert(scope@ =~= ""@);
            }
        }
        push_condition(
            where_conditions,
            "(!workspace_kind OR workspace_kind = NONE OR workspace_kind = 'personal')",
        );
        assert(strings(where_conditions@) =~= c0 + scope_conditions(*query));
        assert(pairs_view(params@) =~= p0 + scope_params(*query));
        Ok(())
    } else {
        assert(scope@ != "personal"@ && scope@.len() != 0);
        Err(AppError::Validation(prefixed("unsupported workspace scope: ", &scope)))
    }
}

proof fn lemma_contains_add<T>(a: Seq<T>, b: Seq<T>, x: T)
    ensures
        (a + b).contains(x) <==> (a.contains(x) || b.contains(x)),
{
    if (a + b).contains(x) {
        let i = choose|i: int| 0 <= i < (a + b).len() && (a + b)[i] == x;
        if i < a.len() {
            assert(a[i] == x);
        } else {
            assert(b[i - a.len()] == x);
        }
    }
    if a.contains(x) {
        let i = choose|i: int| 0 <= i < a.len() && a[i] == x;
        assert((a + b)[i] == x);
    }
    if b.contains(x) {
        let i = choose|i: int| 0 <= i < b.len() && b[i] == x;
        assert((a + b)[a.len() + i] == x);
    }
}

proof fn lemma_contains_one(a: Seq<char>, x: Seq<char>)
    ensures
        seq![a].contains(x) <==> a == x,
        !Seq::<Seq<char>>::empty().contains(x),
{
    if a == x {
        assert(seq![a][0] == x);
    }
}

proof fn lemma_contains_two(a: Seq<char>, b: Seq<char>, x: Seq<char>)
    ensures
        seq![a, b].contains(x) <==> (a == x || b == x),
{
    if a == x {
        assert(seq![a, b][0] == x);
    }
    if b == x {
        assert(seq![a, b][1] == x);
    }
}

/// Which of the conditions of a space list stand in it, segment by segment.
proof fn lemma_list_conditions_contains(q: SpaceListQuery, user: Option<Seq<char>>, x: Seq<char>)
    ensures
        list_conditions(q, user).contains(x) <==> (visibility_conditions(q, user).contains(x) || x
            == "is_deleted = false"@ || (q.search is Some && x == search_condition()) || (
        q.owner_id is Some && x == owner_filter_condition()) || (q.is_public is Some && x
            == "is_public = $is_public"@) || scope_conditions(q).contains(x)),
{
    let v = visibility_conditions(q, user);
    let d = seq!["is_deleted = false"@];
    let se = if q.search is Some {
        seq![search_condition()]
    } else {
        Seq::empty()
    };
    let o = if q.owner_id is Some {
        seq![owner_filter_condition()]
    } else {
        Seq::empty()
    };
    let p = if q.is_public is Some {
        seq!["is_public = $is_public"@]
    } else {
        Seq::empty()
    };
    let sc = scope_conditions(q);
    lemma_contains_add(v + d + se + o + p, sc, x);
    lemma_contains_add(v + d + se + o, p, x);
    lemma_contains_add(v + d + se, o, x);
    lemma_contains_add(v + d, se, x);
    lemma_contains_add(v, d, x);
    lemma_contains_one("is_deleted = false"@, x);
    lemma_contains_one(search_condition(), x);
    lemma_contains_one(owner_filter_condition(), x);
    lemma_contains_one("is_public = $is_public"@, x);
}

/// Who sees what in a space list: an anonymous caller's list matches no space
/// at all; a signed-in user's list keeps only the spaces the user owns, or,
/// for a team scope, those of a team the user is an active member of; and
/// deleted spaces are never listed.
pub proof fn law_listing_visibility(q: SpaceListQuery, user: Option<Seq<char>>)
    ensures
        list_conditions(q, user).contains("is_deleted = false"@),
        user is None ==> list_conditions(q, user).contains("1 = 0"@),
        user is Some && is_team_query(q) ==> list_conditions(q, user).contains(
            team_visibility_condition(),
        ),
        user is Some && !is_team_query(q) ==> list_conditions(q, user).contains(
            owner_visibility_condition(),
        ),
{
    lemma_list_conditions_contains(q, user, "is_deleted = false"@);
    lemma_list_conditions_contains(q, user, "1 = 0"@);
    lemma_list_conditions_contains(q, user, team_visibility_condition());
    lemma_list_conditions_contains(q, user, owner_visibility_condition());
    lemma_contains_one("1 = 0"@, "1 = 0"@);
    lemma_contains_one(team_visibility_condition(), team_visibility_condition());
    lemma_contains_one(owner_visibility_condition(), owner_visibility_condition());
}

/// A search in a space list matches a space when the lowercased term is
/// contained in the space's lowercased name or in its lowercased
/// description: with a term, the list's conditions hold the clause that tests
/// the name and the description, joined by `OR`, and the term is bound as
/// `$search`; without one, no such clause stands in the list.
pub proof fn law_list_search_matches_name_or_description(q: SpaceListQuery, user: Option<Seq<char>>)
    ensures
        ({
            let name_test = "string::lowercase(name) CONTAINS string::lowercase($search)"@;
            let description_test = "string::lowercase(description) CONTAINS string::lowercase($search)"@;
            let clause = "("@ + name_test + " OR "@ + description_test + ")"@;
            &&& q.search is Some ==> list_conditions(q, user).contains(clause)
            &&& q.search matches Some(s) ==> list_text_params(q, user).contains(("search"@, s@))
            &&& q.search is None ==> !list_conditions(q, user).contains(clause)
        }),
{
    reveal_strlit("string::lowercase(name) CONTAINS string::lowercase($search)");
    reveal_strlit("string::lowercase(description) CONTAINS string::lowercase($search)");
    reveal_strlit("(");
    reveal_strlit(" OR ");
    reveal_strlit(")");
    reveal_strlit("search");
    reveal_strlit("1 = 0");
    reveal_strlit("is_deleted = false");
    reveal_strlit("is_public = $is_public");
    reveal_strlit("workspace_kind = 'team'");
    reveal_strlit("team_id = $team_id");
    reveal_strlit("(!workspace_kind OR workspace_kind = NONE OR workspace_kind = 'personal')");
    reveal_strlit(
        "(string::lowercase(name) CONTAINS string::lowercase($search) OR string::lowercase(description) CONTAINS string::lowercase($search))",
    );
    reveal_strlit(
        "(IF owner_id = NONE THEN '' ELSE type::string(owner_id) END) IN [$owner_raw, $owner_bracketed, $owner_plain_prefixed]",
    );
    reveal_strlit(
        "(IF owner_id = NONE THEN '' ELSE type::string(owner_id) END) IN [$user_id_raw, $user_id_bracketed, $user_id_plain_prefixed]",
    );
    reveal_strlit(
        "$team_id IN (\n                SELECT VALUE string::replace(type::string(team_id), 'team:', '')\n                FROM team_member\n                WHERE user_id IN [$user_id_raw, $user_id_bracketed, $user_id_plain_prefixed]\n                  AND status = 'active'\n            )",
    );
    let name_test = "string::lowercase(name) CONTAINS string::lowercase($search)"@;
    let description_test = "string::lowercase(description) CONTAINS string::lowercase($search)"@;
    let clause = "("@ + name_test + " OR "@ + description_test + ")"@;
    assert(clause =~= search_condition());
    lemma_list_conditions_contains(q, user, clause);
    if q.search is None {
        lemma_contains_one("1 = 0"@, clause);
        lemma_contains_one(team_visibility_condition(), clause);
        lemma_contains_one(owner_visibility_condition(), clause);
        lemma_contains_one(personal_scope_condition(), clause);
        lemma_contains_two("workspace_kind = 'team'"@, "team_id = $team_id"@, clause);
        assert(clause[1] == 's');
        assert(owner_visibility_condition()[1] == 'I');
        assert(owner_filter_condition()[1] == 'I');
        assert(personal_scope_condition()[1] == '!');
        assert(team_visibility_condition()[0] == '$');
    }
    if q.search is Some {
        let s = q.search->0;
        let u = user_params(user);
        let se = seq![("search"@, s@)];
        let o = match q.owner_id {
            Some(o) => seq![
                ("owner_raw"@, o@),
                ("owner_bracketed"@, "user:"@ + o@),
                ("owner_plain_prefixed"@, "user:"@ + trim_set(o@, CharSet::Brackets)),
            ],
            None => Seq::empty(),
        };
        assert(list_text_params(q, user) == u + se + o + scope_params(q));
        assert(se[0] == ("search"@, s@));
        lemma_contains_add(u, se, ("search"@, s@));
        lemma_contains_add(u + se, o, ("search"@, s@));
        lemma_contains_add(u + se + o, scope_params(q), ("search"@, s@));
    }
}

/// Spaces are scoped to the workspace a list asks for, so the personal and the
/// team workspaces never share a list: a personal listing (also when no or an
/// empty workspace is named) keeps the personal spaces, those stored before
/// spaces had a workspace included, and never filters by team; a team listing
/// keeps the spaces of that team, binds its id, and never takes the personal
/// spaces.
pub proof fn law_workspace_scopes_are_disjoint(q: SpaceListQuery, user: Option<Seq<char>>)
    ensures
        (workspace_scope(q.workspace) == "personal"@ || workspace_scope(q.workspace) == ""@) ==> {
            &&& list_conditions(q, user).contains(personal_scope_condition())
            &&& !list_conditions(q, user).contains("workspace_kind = 'team'"@)
            &&& !list_conditions(q, user).contains("team_id = $team_id"@)
            &&& !list_text_params(q, user).contains(("team_id"@, q.team_id->0@))
        },
        (workspace_scope(q.workspace) == "team"@ && q.team_id is Some) ==> {
            &&& list_conditions(q, user).contains("workspace_kind = 'team'"@)
            &&& list_conditions(q, user).contains("team_id = $team_id"@)
            &&& !list_conditions(q, user).contains(personal_scope_condition())
            &&& list_text_params(q, user).contains(("team_id"@, q.team_id->0@))
        },
{
    reveal_strlit("personal");
    reveal_strlit("team");
    reveal_strlit("");
    reveal_strlit("1 = 0");
    reveal_strlit("is_deleted = false");
    reveal_strlit("is_public = $is_public");
    reveal_strlit("workspace_kind = 'team'");
    reveal_strlit("team_id = $team_id");
    reveal_strlit("team_id");
    reveal_strlit("(!workspace_kind OR workspace_kind = NONE OR workspace_kind = 'personal')");
    reveal_strlit(
        "(string::lowercase(name) CONTAINS string::lowercase($search) OR string::lowercase(description) CONTAINS string::lowercase($search))",
    );
    reveal_strlit(
        "(IF owner_id = NONE THEN '' ELSE type::string(owner_id) END) IN [$owner_raw, $owner_bracketed, $owner_plain_prefixed]",
    );
    reveal_strlit(
        "(IF owner_id = NONE THEN '' ELSE type::string(owner_id) END) IN [$user_id_raw, $user_id_bracketed, $user_id_plain_prefixed]",
    );
    reveal_strlit(
        "$team_id IN (\n                SELECT VALUE string::replace(type::string(team_id), 'team:', '')\n                FROM team_member\n                WHERE user_id IN [$user_id_raw, $user_id_bracketed, $user_id_plain_prefixed]\n                  AND status = 'active'\n            )",
    );
    let team_kind = "workspace_kind = 'team'"@;
    let team_id = "team_id = $team_id"@;
    let personal = personal_scope_condition();
    lemma_list_conditions_contains(q, user, team_kind);
    lemma_list_conditions_contains(q, user, team_id);
    lemma_list_conditions_contains(q, user, personal);
    lemma_contains_one("1 = 0"@, team_kind);
    lemma_contains_one("1 = 0"@, team_id);
    lemma_contains_one("1 = 0"@, personal);
    lemma_contains_one(team_visibility_condition(), team_kind);
    lemma_contains_one(team_visibility_condition(), team_id);
    lemma_contains_one(team_visibility_condition(), personal);
    lemma_contains_one(owner_visibility_condition(), team_kind);
    lemma_contains_one(owner_visibility_condition(), team_id);
    lemma_contains_one(owner_visibility_condition(), personal);
    lemma_contains_one(personal, team_kind);
    lemma_contains_one(personal, team_id);
    lemma_contains_one(personal, personal);
    lemma_contains_two(team_kind, team_id, team_kind);
    lemma_contains_two(team_kind, team_id, team_id);
    lemma_contains_two(team_kind, team_id, personal);
    assert(team_kind[0] != personal[0]);
    assert(personal[1] != owner_visibility_condition()[1]);
    assert(personal[1] != owner_filter_condition()[1]);
    assert(personal[1] != search_condition()[1]);
    assert(personal[0] != team_visibility_condition()[0]);
    assert(personal[0] != "is_deleted = false"@[0]);
    assert(personal[0] != "is_public = $is_public"@[0]);
    assert(personal[0] != "1 = 0"@[0]);
    assert(team_id[0] != personal[0]);
    assert(team_id.len() != team_kind.len());
    assert("is_deleted = false"@[0] != team_id[0]);
    let up = user_params(user);
    let se = match q.search {
        Some(s) => seq![("search"@, s@)],
        None => Seq::<(Seq<char>, Seq<char>)>::empty(),
    };
    let ow = match q.owner_id {
        Some(o) => seq![
            ("owner_raw"@, o@),
            ("owner_bracketed"@, "user:"@ + o@),
            ("owner_plain_prefixed"@, "user:"@ + trim_set(o@, CharSet::Brackets)),
        ],
        None => Seq::<(Seq<char>, Seq<char>)>::empty(),
    };
    let tp = list_text_params(q, user);
    assert(tp == up + se + ow + scope_params(q));
    if workspace_scope(q.workspace) == "team"@ && q.team_id is Some {
        assert(tp[tp.len() - 1] == ("team_id"@, q.team_id->0@));
    }
    if workspace_scope(q.workspace) == "personal"@ || workspace_scope(q.workspace) == ""@ {
        let ws = workspace_scope(q.workspace);
        assert(ws != "team"@) by {
            if ws == "personal"@ {
                assert(ws[0] != "team"@[0]);
            } else {
                assert(ws.len() == 0);
            }
        }
        assert(scope_conditions(q) == seq![personal]);
        assert(scope_params(q) =~= Seq::<(Seq<char>, Seq<char>)>::empty());
        assert(tp =~= up + se + ow);
        reveal_strlit("user_id_raw");
        reveal_strlit("user_id_bracketed");
        reveal_strlit("user_id_plain_prefixed");
        reveal_strlit("search");
        reveal_strlit("owner_raw");
        reveal_strlit("owner_bracketed");
        reveal_strlit("owner_plain_prefixed");
        assert("team_id"@.len() == 7);
        assert forall|i: int| 0 <= i < up.len() implies #[trigger] up[i].0.len() != 7 by {
            assert(user is Some);
            if i == 0 {
                assert(up[0].0 == "user_id_raw"@);
            } else if i == 1 {
                assert(up[1].0 == "user_id_bracketed"@);
            } else {
                assert(up[2].0 == "user_id_plain_prefixed"@);
            }
        }
        assert forall|i: int| 0 <= i < se.len() implies #[trigger] se[i].0.len() != 7 by {
            assert(se[0].0 == "search"@);
        }
        assert forall|i: int| 0 <= i < ow.len() implies #[trigger] ow[i].0.len() != 7 by {
            if i == 0 {
                assert(ow[0].0 == "owner_raw"@);
            } else if i == 1 {
                assert(ow[1].0 == "owner_bracketed"@);
            } else {
                assert(ow[2].0 == "owner_plain_prefixed"@);
            }
        }
        assert forall|i: int| 0 <= i < tp.len() implies #[trigger] tp[i].0 != "team_id"@ by {
            if i < up.len() {
                assert(tp[i] == up[i]);
                assert(up[i].0.len() != 7);
            } else if i < up.len() + se.len() {
                assert(tp[i] == se[i - up.len()]);
                assert(se[i - up.len()].0.len() != 7);
            } else {
                assert(tp[i] == ow[i - up.len() - se.len()]);
                assert(ow[i - up.len() - se.len()].0.len() != 7);
            }
        }
    }
}

fn list_queries(query: &SpaceListQuery, where_clause: &String, limit: u32, offset: u32) -> (r: (
    String,
    String,
    String,
))
    ensures
        ({
            let order_clause = "ORDER BY "@ + match query.sort {
                Some(s) => s@,
                None => "updated_at"@,
            } + " "@ + match query.order {
                Some(o) => o@,
                None => "desc"@,
            };
            &&& r.0@ == order_clause
            &&& r.1@ == "SELECT count() AS total FROM space "@ + where_clause@ + " GROUP ALL"@
            &&& r.2@ == space_projection_list() + where_clause@ + " "@ + order_clause + " LIMIT "@
                + crate::num::decimal(limit as nat) + " START "@ + crate::num::decimal(offset as nat)
        }),
{
    let mut order_clause = String::new();
    order_clause.append("ORDER BY ");
    match &query.sort {
        Some(s) => order_clause.append(s.as_str()),
        None => order_clause.append("updated_at"),
    }
    order_clause.append(" ");
    match &query.order {
        Some(o) => order_clause.append(o.as_str()),
        None => order_clause.append("desc"),
    }
    let mut count_query = String::new();
    count_query.append("SELECT count() AS total FROM space ");
    count_query.append(where_clause.as_str());
    count_query.append(" GROUP ALL");
    let mut data_query = String::new();
    data_query.append(
        "SELECT string::replace(type::string(id), 'space:', '') AS id, name, slug, description, avatar_url, is_public, is_deleted, (IF owner_id = NONE THEN '' ELSE type::string(owner_id) END) as owner_id, settings, theme_config, member_count, document_count, created_at, updated_at, (IF created_by = NONE THEN '' ELSE type::string(created_by) END) as created_by, (IF updated_by = NONE THEN '' ELSE type::string(updated_by) END) as updated_by FROM space ",
    );
    data_query.append(where_clause.as_str());
    data_query.append(" ");
    data_query.append(order_clause.as_str());
    data_query.append(" LIMIT ");
    data_query.append(crate::num::decimal_string(limit as u64).as_str());
    data_query.append(" START ");
    data_query.append(crate::num::decimal_string(offset as u64).as_str());
    (order_clause, count_query, data_query)
}

/// The queries of a space list request: which spaces the caller may see
/// (owned spaces, or those of the team for a team scope; none when anonymous),
/// the optional search, owner and visibility filters, and the workspace scope;
/// with the sort, the page and the parameters they bind.
#[verifier::rlimit(60)]
#[verifier::spinoff_prover]
pub fn plan_space_list(query: &SpaceListQuery, user_id: Option<&str>) -> (r: Result<SpaceListPlan, AppError>)
    requires
        list_paging_ok(*query),
    ensures
        match r {
            Ok(p) => {
                let user = match user_id {
                    Some(u) => Some(u@),
                    None => None,
                };
                let where_clause = "WHERE "@ + crate::text::join(
                    list_conditions(*query, user),
                    " AND "@,
                );
                let order_clause = "ORDER BY "@ + match query.sort {
                    Some(s) => s@,
                    None => "updated_at"@,
                } + " "@ + match query.order {
                    Some(o) => o@,
                    None => "desc"@,
                };
                &&& scope_ok(*query)
                &&& p.page == page_of(*query)
                &&& p.limit == limit_of(*query)
                &&& p.offset == (page_of(*query) - 1) * limit_of(*query)
                &&& p.where_clause@ == where_clause
                &&& p.order_clause@ == order_clause
                &&& pairs_view(p.text_params@) == list_text_params(*query, user)
                &&& flags_view(p.flag_params@) == list_flag_params(*query)
                &&& p.count_query@ == "SELECT count() AS total FROM space "@ + where_clause
                    + " GROUP ALL"@
                &&& p.data_query@ == space_projection_list() + where_clause + " "@ + order_clause
                    + " LIMIT "@ + crate::num::decimal(p.limit as nat) + " START "@
                    + crate::num::decimal(p.offset as nat)
                &&& p.include_member_spaces == (user_id is Some && workspace_scope(query.workspace)
                    != "team"@)
            },
            Err(AppError::Validation(m)) => !scope_ok(*query) && m@ == scope_error(*query),
            Err(_) => false,
        },
{
    proof {
        reveal_strlit("");
        reveal_strlit("team");
        reveal_strlit("personal");
    }
    let page: u32 = match query.page {
        Some(p) => p,
        None => 1,
    };
    let limit: u32 = match query.limit {
        Some(l) => l,
        None => 20,
    };
    assert((page - 1) * limit <= u32::MAX) by (nonlinear_arith)
        requires
            page >= 1,
            (page - 1) * limit <= u32::MAX,
    ;
    let offset: u32 = (page - 1) * limit;
    let ghost user = match user_id {
        Some(u) => Some(u@),
        None => None,
    };
    let mut conds: Vec<String> = Vec::new();
    let mut text_params: Vec<(String, String)> = Vec::new();
    let mut flag_params: Vec<(String, bool)> = Vec::new();
    match user_id {
        Some(u) => {
            apply_user_space_visibility_scope(query, u, &mut conds, &mut text_params);
        },
        None => {
            push_condition(&mut conds, "1 = 0");
        },
    }
    assert(strings(conds@) =~= visibility_conditions(*query, user));
    assert(pairs_view(text_params@) =~= user_params(user));
    push_condition(&mut conds, "is_deleted = false");
    let ghost c1 = strings(conds@);
    let ghost t1 = pairs_view(text_params@);
    match &query.search {
        Some(s) => {
            push_condition(
                &mut conds,
                "(string::lowercase(name) CONTAINS string::lowercase($search) OR string::lowercase(description) CONTAINS string::lowercase($search))",
            );
            push_text_param(&mut text_params, "search", s.clone());
        },
        None => {},
    }
    let ghost c2 = strings(conds@);
    let ghost t2 = pairs_view(text_params@);
    match &query.owner_id {
        Some(o) => {
            push_condition(
                &mut conds,
                "(IF owner_id = NONE THEN '' ELSE type::string(owner_id) END) IN [$owner_raw, $owner_bracketed, $owner_plain_prefixed]",
            );
            let oc = chars_of(o.as_str());
            push_text_param(&mut text_params, "owner_raw", o.clone());
            push_text_param(&mut text_params, "owner_bracketed", prefixed("user:", &oc));
            let plain = trim_set_chars(&oc, CharSet::Brackets);
            push_text_param(&mut text_params, "owner_plain_prefixed", prefixed("user:", &plain));
        },
        None => {},
    }
    let ghost c3 = strings(conds@);
    let ghost t3 = pairs_view(text_params@);
    match query.is_public {
        Some(b) => {
            push_condition(&mut conds, "is_public = $is_public");
            flag_params.push(("is_public".to_string(), b));
        },
        None => {},
    }
    let ghost c4 = strings(conds@);
    let ghost t4 = pairs_view(text_params@);
    match apply_workspace_scope(query, &mut conds, &mut text_params) {
        Ok(_) => {},
        Err(e) => {
            return Err(e);
        },
    }
    let is_team_scope = match &query.workspace {
        Some(w) => chars_eq(&chars_of(w.as_str()), &chars_of("team")),
        None => false,
    };
    proof {
        reveal_strlit("team");
        reveal_strlit("personal");
        assert("team"@.len() == 4);
        assert("team"@ != "personal"@);
    }
    assert(is_team_scope == (workspace_scope(query.workspace) == "team"@));
    assert(strings(conds@) =~= list_conditions(*query, user));
    assert(pairs_view(text_params@) =~= list_text_params(*query, user));
    assert(flags_view(flag_params@) =~= list_flag_params(*query));
    let conds = crate::text::to_chars_all(&conds);
    let joined = crate::text::join_chars(&conds, &chars_of(" AND "));
    let where_clause = prefixed("WHERE ", &joined);
    let (order_clause, count_query, data_query) = list_queries(query, &where_clause, limit, offset);
    let include_member_spaces = user_id.is_some() && !is_team_scope;
    Ok(
        SpaceListPlan {
            page,
            limit,
            offset,
            where_clause,
            order_clause,
            text_params,
            flag_params,
            count_query,
            data_query,
            include_member_spaces,
        },
    )
}

/// The total and the page count of a listing: the larger of the counted total
/// and the number of spaces listed (each taken modulo 2^32, as `as u32` does),
/// and the number of pages of `limit` spaces that hold it.
pub fn space_list_totals(owner_total: Option<u64>, visible: usize, limit: u32) -> (r: (u32, u32))
    requires
        ({
            let t = if (match owner_total { Some(x) => x, None => 0u64 }) as u32 >= visible as u32 {
                (match owner_total { Some(x) => x, None => 0u64 }) as u32
            } else {
                visible as u32
            };
            t > 0 ==> limit > 0 && t + limit <= u32::MAX
        }),
    ensures
        ({
            let owner = (match owner_total {
                Some(x) => x,
                None => 0u64,
            }) as u32;
            let t = if owner >= visible as u32 {
                owner
            } else {
                visible as u32
            };
            &&& r.0 == t
            &&& r.1 == if t == 0 {
                0
            } else {
                (t + limit - 1) / (limit as int)
            }
        }),
{
    let owner: u32 = match owner_total {
        Some(x) => x as u32,
        None => 0,
    };
    let visible32: u32 = visible as u32;
    let total = if owner >= visible32 {
        owner
    } else {
        visible32
    };
    let pages = if total == 0 {
        0
    } else {
        (total + limit - 1) / limit
    };
    (total, pages)
}

/// The member spaces added to a listing, from the front: a space whose key is
/// already known is skipped; one with a new key is added and its key becomes
/// known; one without a key is always added.
pub open spec fn merged_members(keys: Set<Seq<char>>, members: Seq<Space>) -> Seq<Space>
    decreases members.len(),
{
    if members.len() == 0 {
        Seq::empty()
    } else {
        let m = members[0];
        match space_key(m) {
            Some(k) => if keys.contains(k) {
                merged_members(keys, members.drop_first())
            } else {
                seq![m] + merged_members(keys.insert(k), members.drop_first())
            },
            None => seq![m] + merged_members(keys, members.drop_first()),
        }
    }
}

/// The keys of the spaces that have one.
pub open spec fn keys_of(spaces: Seq<Space>) -> Set<Seq<char>>
    decreases spaces.len(),
{
    if spaces.len() == 0 {
        Set::empty()
    } else {
        let r = keys_of(spaces.drop_last());
        match space_key(spaces.last()) {
            Some(k) => r.insert(k),
            None => r,
        }
    }
}

proof fn lemma_merged_members_new_keys(keys: Set<Seq<char>>, members: Seq<Space>)
    ensures
        forall|i: int|
            0 <= i < merged_members(keys, members).len() && #[trigger] space_key(
                merged_members(keys, members)[i],
            ) is Some ==> !keys.contains(space_key(merged_members(keys, members)[i])->0),
        forall|i: int, j: int|
            0 <= i < j < merged_members(keys, members).len() && #[trigger] space_key(
                merged_members(keys, members)[i],
            ) is Some ==> space_key(merged_members(keys, members)[i]) != #[trigger] space_key(
                merged_members(keys, members)[j],
            ),
    decreases members.len(),
{
    if members.len() > 0 {
        let m = members[0];
        let rest = members.drop_first();
        match space_key(m) {
            Some(k) => {
                if keys.contains(k) {
                    lemma_merged_members_new_keys(keys, rest);
                } else {
                    lemma_merged_members_new_keys(keys.insert(k), rest);
                    let t = merged_members(keys.insert(k), rest);
                    let a = seq![m] + t;
                    assert forall|i: int| 0 <= i < a.len() && #[trigger] space_key(a[i]) is Some implies !keys.contains(
                        space_key(a[i])->0,
                    ) by {
                        if i > 0 {
                            assert(a[i] == t[i - 1]);
                        }
                    }
                    assert forall|i: int, j: int|
                        0 <= i < j < a.len() && #[trigger] space_key(a[i]) is Some implies space_key(a[i])
                        != #[trigger] space_key(a[j]) by {
                        assert(a[j] == t[j - 1]);
                        if i > 0 {
                            assert(a[i] == t[i - 1]);
                        } else {
                            assert(a[i] == m);
                            if space_key(t[j - 1]) is Some {
                                assert(!keys.insert(k).contains(space_key(t[j - 1])->0));
                            }
                        }
                    }
                }
            },
            None => {
                lemma_merged_members_new_keys(keys, rest);
                let t = merged_members(keys, rest);
                let a = seq![m] + t;
                assert forall|i: int| 0 <= i < a.len() && #[trigger] space_key(a[i]) is Some implies !keys.contains(
                    space_key(a[i])->0,
                ) by {
                    if i > 0 {
                        assert(a[i] == t[i - 1]);
                    }
                }
                assert forall|i: int, j: int|
                    0 <= i < j < a.len() && #[trigger] space_key(a[i]) is Some implies space_key(a[i])
                    != #[trigger] space_key(a[j]) by {
                    assert(a[j] == t[j - 1]);
                    assert(i > 0);
                    assert(a[i] == t[i - 1]);
                }
            },
        }
    }
}

/// Merging the spaces a user is a member of into the spaces listed for them
/// never repeats a space: every member space that is added has a key that no
/// listed space has, and no two added spaces share a key (spaces without a key
/// are added as they are).
pub proof fn law_member_spaces_added_once(spaces: Seq<Space>, members: Seq<Space>)
    ensures
        ({
            let added = merged_members(keys_of(spaces), members);
            &&& forall|i: int|
                0 <= i < added.len() && #[trigger] space_key(added[i]) is Some ==> !keys_of(
                    spaces,
                ).contains(space_key(added[i])->0)
            &&& forall|i: int, j: int|
                0 <= i < j < added.len() && #[trigger] space_key(added[i]) is Some ==> space_key(
                    added[i],
                ) != #[trigger] space_key(added[j])
        }),
{
    lemma_merged_members_new_keys(keys_of(spaces), members);
}

proof fn lemma_push_contains(s: Seq<Seq<char>>, k: Seq<char>, x: Seq<char>)
    ensures
        s.push(k).contains(x) <==> (s.contains(x) || x == k),
{
    if s.contains(x) {
        let i = choose|i: int| 0 <= i < s.len() && s[i] == x;
        assert(s.push(k)[i] == x);
    }
    if x == k {
        assert(s.push(k)[s.len() as int] == x);
    }
    if s.push(k).contains(x) {
        let j = choose|j: int| 0 <= j < s.push(k).len() && s.push(k)[j] == x;
        if j < s.len() {
            assert(s[j] == x);
        }
    }
}

fn key_known(keys: &Vec<Vec<char>>, k: &Vec<char>) -> (r: bool)
    ensures
        r == crate::text::seqs(keys@).contains(k@),
{
    let n = keys.len();
    for i in 0..n
        invariant
            n == keys.len(),
            forall|j: int| 0 <= j < i ==> keys@[j]@ != k@,
    {
        if chars_eq(&keys[i], k) {
            assert(crate::text::seqs(keys@)[i as int] == k@);
            return true;
        }
    }
    assert forall|j: int| 0 <= j < crate::text::seqs(keys@).len() implies crate::text::seqs(
        keys@,
    )[j] != k@ by {
        assert(crate::text::seqs(keys@)[j] == keys@[j]@);
    }
    false
}

/// The listing with the member spaces merged in: the listed spaces first, in
/// order, then each member space whose key is not yet present (and each one
/// without a key), in order.
pub fn merge_member_spaces(spaces: Vec<Space>, member_spaces: Vec<Space>) -> (r: Vec<Space>)
    ensures
        r@ == spaces@ + merged_members(keys_of(spaces@), member_spaces@),
{
    let mut keys: Vec<Vec<char>> = Vec::new();
    let ghost mut ks: Set<Seq<char>> = Set::empty();
    let n = spaces.len();
    for i in 0..n
        invariant
            n == spaces.len(),
            ks == keys_of(spaces@.take(i as int)),
            forall|x: Seq<char>| crate::text::seqs(keys@).contains(x) <==> ks.contains(x),
    {
        let k = space_identity_key(&spaces[i]);
        let ghost before = crate::text::seqs(keys@);
        assert(spaces@.take(i + 1).drop_last() =~= spaces@.take(i as int));
        match k {
            Some(key) => {
                keys.push(chars_of(key.as_str()));
                assert(crate::text::seqs(keys@) =~= before.push(key@));
                assert forall|x: Seq<char>| crate::text::seqs(keys@).contains(x) <==> ks.insert(key@).contains(x) by {
                    lemma_push_contains(before, key@, x);
                }
                proof {
                    ks = ks.insert(key@);
                }
            },
            None => {
                assert(crate::text::seqs(keys@) =~= before);
            },
        }
    }
    assert(spaces@.take(n as int) =~= spaces@);
    let ghost all_keys = keys_of(spaces@);
    assert(ks == all_keys);
    let mut out = spaces;
    let ghost base = out@;
    let m = member_spaces.len();
    let mut rest = member_spaces;
    let ghost members0 = rest@;
    let mut idx: usize = 0;
    assert(members0.skip(0) =~= members0);
    while idx < m
        invariant
            m == members0.len(),
            rest@ == members0,
            idx <= m,
            forall|x: Seq<char>| crate::text::seqs(keys@).contains(x) <==> ks.contains(x),
            out@ + merged_members(ks, members0.skip(idx as int)) == base + merged_members(
                all_keys,
                members0,
            ),
        decreases m - idx,
    {
        let space = rest[idx].clone_space();
        assert(space == members0[idx as int]);
        let ghost tail = members0.skip(idx as int);
        assert(tail[0] == space);
        assert(tail.drop_first() =~= members0.skip(idx + 1));
        let ghost known = ks;
        match space_identity_key(&space) {
            Some(key) => {
                let kc = chars_of(key.as_str());
                if !key_known(&keys, &kc) {
                    let ghost before = crate::text::seqs(keys@);
                    keys.push(kc);
                    assert(crate::text::seqs(keys@) =~= before.push(key@));
                    assert forall|x: Seq<char>| crate::text::seqs(keys@).contains(x) <==> ks.insert(key@).contains(x) by {
                        lemma_push_contains(before, key@, x);
                    }
                    proof {
                        ks = ks.insert(key@);
                    }
                    let ghost o = out@;
                    out.push(space);
                    assert(out@ =~= o + seq![members0[idx as int]]);
                } else {
                    assert(ks.contains(key@));
                }
            },
            None => {
                let ghost o = out@;
                out.push(space);
                assert(out@ =~= o + seq![members0[idx as int]]);
            },
        }
        idx = idx + 1;
    }
    assert(members0.skip(m as int) =~= Seq::<Space>::empty());
    out
}

impl Space {
    /// A copy of the space with the same field values.
    pub fn clone_space(&self) -> (r: Space)
        ensures
            r == *self,
    {
        Space {
            id: self.id.clone(),
            name: self.name.clone(),
            slug: self.slug.clone(),
            description: self.description.clone(),
            avatar_url: self.avatar_url.clone(),
            is_public: self.is_public,
            is_deleted: self.is_deleted,
            owner_id: self.owner_id.clone(),
            settings: self.settings.clone(),
            member_count: self.member_count,
            document_count: self.document_count,
            created_by: self.created_by.clone(),
            updated_by: self.updated_by.clone(),
            created_at: self.created_at.clone(),
            updated_at: self.updated_at.clone(),
        }
    }
}

// ---------------------------------------------------------------------------
// Reading, changing and removing one space
// ---------------------------------------------------------------------------

/// An anonymous caller may only see a public space; a signed-in one any space
/// (membership is checked by each route).
pub fn check_space_access(space_is_public: bool, authenticated: bool) -> (r: Result<(), AppError>)
    ensures
        match r {
            Ok(()) => authenticated || space_is_public,
            Err(AppError::Authorization(m)) => !authenticated && !space_is_public && m@
                == "Access denied to this space"@,
            Err(_) => false,
        },
{
    if !authenticated && !space_is_public {
        return Err(AppError::Authorization("Access denied to this space".to_string()));
    }
    Ok(())
}

/// The index of the first space with the given slug.
pub fn find_space_by_slug(spaces: &Vec<Space>, slug: &str) -> (r: Option<usize>)
    ensures
        match r {
            Some(i) => i < spaces@.len() && spaces@[i as int].slug@ == slug@ && forall|j: int|
                0 <= j < i ==> spaces@[j].slug@ != slug@,
            None => forall|j: int| 0 <= j < spaces@.len() ==> spaces@[j].slug@ != slug@,
        },
{
    let target = chars_of(slug);
    let n = spaces.len();
    for i in 0..n
        invariant
            n == spaces@.len(),
            target@ == slug@,
            forall|j: int| 0 <= j < i ==> spaces@[j].slug@ != slug@,
    {
        if chars_eq(&chars_of(spaces[i].slug.as_str()), &target) {
            return Some(i);
        }
    }
    None
}

/// The index of the first space with the given id.
pub fn find_space_by_id(spaces: &Vec<Space>, id: &str) -> (r: Option<usize>)
    ensures
        match r {
            Some(i) => i < spaces@.len() && opt_view(spaces@[i as int].id) == Some(id@) && forall|
                j: int,
            |
                0 <= j < i ==> opt_view(spaces@[j].id) != Some(id@),
            None => forall|j: int| 0 <= j < spaces@.len() ==> opt_view(spaces@[j].id) != Some(id@),
        },
{
    let target = chars_of(id);
    let n = spaces.len();
    for i in 0..n
        invariant
            n == spaces@.len(),
            target@ == id@,
            forall|j: int| 0 <= j < i ==> opt_view(spaces@[j].id) != Some(id@),
    {
        match &spaces[i].id {
            Some(sid) => {
                if chars_eq(&chars_of(sid.as_str()), &target) {
                    return Some(i);
                }
            },
            None => {},
        }
    }
    None
}

/// What the owner of a space is asked to do.
#[derive(Debug, Clone, Copy)]
pub enum SpaceOwnerAction {
    Update,
    Delete,
}

/// Only the owner of a space may change or remove it.
pub fn ensure_space_owner(owner_id: &str, user_id: &str, action: SpaceOwnerAction) -> (r: Result<(), AppError>)
    ensures
        match r {
            Ok(()) => owner_id@ == user_id@,
            Err(AppError::Authorization(m)) => owner_id@ != user_id@ && m@ == match action {
                SpaceOwnerAction::Update => "Only space owner can update space"@,
                SpaceOwnerAction::Delete => "Only space owner can delete space"@,
            },
            Err(_) => false,
        },
{
    if chars_eq(&chars_of(owner_id), &chars_of(user_id)) {
        Ok(())
    } else {
        match action {
            SpaceOwnerAction::Update => Err(
                AppError::Authorization("Only space owner can update space".to_string()),
            ),
            SpaceOwnerAction::Delete => Err(
                AppError::Authorization("Only space owner can delete space".to_string()),
            ),
        }
    }
}

/// A space that still holds documents cannot be deleted.
pub fn ensure_space_has_no_documents(document_count: Option<u32>) -> (r: Result<(), AppError>)
    ensures
        match r {
            Ok(()) => document_count is None || document_count->0 == 0,
            Err(AppError::Conflict(m)) => document_count is Some && document_count->0 > 0 && m@
                == "Cannot delete space with existing documents"@,
            Err(_) => false,
        },
{
    match document_count {
        Some(count) => {
            if count > 0 {
                return Err(
                    AppError::Conflict("Cannot delete space with existing documents".to_string()),
                );
            }
        },
        None => {},
    }
    Ok(())
}

/// A request to change a space.
#[derive(Debug, Clone)]
pub struct UpdateSpaceRequest {
    pub name: Option<String>,
    pub description: Option<String>,
    pub avatar_url: Option<String>,
    pub is_public: Option<bool>,
    pub settings: Option<String>,
}

/// A value written into a space record.
#[derive(Debug, Clone)]
pub enum UpdateValue {
    Text(String),
    Flag(bool),
    /// The empty object `{}`.
    EmptyObject,
}

pub open spec fn update_view(v: UpdateValue) -> (int, Seq<char>, bool) {
    match v {
        UpdateValue::Text(s) => (0, s@, false),
        UpdateValue::Flag(b) => (1, Seq::empty(), b),
        UpdateValue::EmptyObject => (2, Seq::empty(), false),
    }
}

pub open spec fn updates_view(v: Seq<(String, UpdateValue)>) -> Seq<(Seq<char>, (int, Seq<char>, bool))> {
    Seq::new(v.len(), |i: int| (v[i].0@, update_view(v[i].1)))
}

/// The fields written by a space update: each given field with its value;
/// when settings are given, the settings and the theme are reset to `{}`.
pub open spec fn space_updates(req: UpdateSpaceRequest) -> Seq<(Seq<char>, (int, Seq<char>, bool))> {
    (match req.name {
        Some(n) => seq![("name"@, (0int, n@, false))],
        None => Seq::empty(),
    }) + (match req.description {
        Some(d) => seq![("description"@, (0int, d@, false))],
        None => Seq::empty(),
    }) + (match req.avatar_url {
        Some(a) => seq![("avatar_url"@, (0int, a@, false))],
        None => Seq::empty(),
    }) + (match req.is_public {
        Some(b) => seq![("is_public"@, (1int, Seq::<char>::empty(), b))],
        None => Seq::empty(),
    }) + (if req.settings is Some {
        seq![
            ("settings"@, (2int, Seq::<char>::empty(), false)),
            ("theme_config"@, (2int, Seq::<char>::empty(), false)),
        ]
    } else {
        Seq::empty()
    })
}

/// Whether the written fields hold `key`.
pub open spec fn writes_key(u: Seq<(Seq<char>, (int, Seq<char>, bool))>, key: Seq<char>) -> bool {
    exists|i: int| 0 <= i < u.len() && (#[trigger] u[i]).0 == key
}

/// A space update writes each field that the request gives, with the given
/// value (a text for the name, description and avatar, a flag for
/// visibility, `{}` for the settings and the theme when settings are given),
/// and writes no field that the request leaves out.
pub proof fn law_space_update_writes_given_fields(req: UpdateSpaceRequest)
    ensures
        req.name matches Some(n) ==> space_updates(req).contains(("name"@, (0int, n@, false))),
        req.description matches Some(d) ==> space_updates(req).contains(
            ("description"@, (0int, d@, false)),
        ),
        req.avatar_url matches Some(a) ==> space_updates(req).contains(
            ("avatar_url"@, (0int, a@, false)),
        ),
        req.is_public matches Some(b) ==> space_updates(req).contains(
            ("is_public"@, (1int, Seq::<char>::empty(), b)),
        ),
        req.settings is Some ==> space_updates(req).contains(
            ("settings"@, (2int, Seq::<char>::empty(), false)),
        ) && space_updates(req).contains(("theme_config"@, (2int, Seq::<char>::empty(), false))),
        req.name is None ==> !writes_key(space_updates(req), "name"@),
        req.description is None ==> !writes_key(space_updates(req), "description"@),
        req.avatar_url is None ==> !writes_key(space_updates(req), "avatar_url"@),
        req.is_public is None ==> !writes_key(space_updates(req), "is_public"@),
        req.settings is None ==> !writes_key(space_updates(req), "settings"@) && !writes_key(
            space_updates(req),
            "theme_config"@,
        ),
{
    reveal_strlit("name");
    reveal_strlit("description");
    reveal_strlit("avatar_url");
    reveal_strlit("is_public");
    reveal_strlit("settings");
    reveal_strlit("theme_config");
    let a = match req.name {
        Some(n) => seq![("name"@, (0int, n@, false))],
        None => Seq::empty(),
    };
    let b = match req.description {
        Some(text) => seq![("description"@, (0int, text@, false))],
        None => Seq::empty(),
    };
    let c = match req.avatar_url {
        Some(x) => seq![("avatar_url"@, (0int, x@, false))],
        None => Seq::empty(),
    };
    let d = match req.is_public {
        Some(f) => seq![("is_public"@, (1int, Seq::<char>::empty(), f))],
        None => Seq::empty(),
    };
    let e = if req.settings is Some {
        seq![
            ("settings"@, (2int, Seq::<char>::empty(), false)),
            ("theme_config"@, (2int, Seq::<char>::empty(), false)),
        ]
    } else {
        Seq::empty()
    };
    let u = space_updates(req);
    assert(u == a + b + c + d + e);
    // Every written pair comes from one of the five pieces.
    assert forall|x: (Seq<char>, (int, Seq<char>, bool))| #[trigger] u.contains(x) <==> (a.contains(x)
        || b.contains(x) || c.contains(x) || d.contains(x) || e.contains(x)) by {
        lemma_contains_add(a + b + c + d, e, x);
        lemma_contains_add(a + b + c, d, x);
        lemma_contains_add(a + b, c, x);
        lemma_contains_add(a, b, x);
    }
    if req.name is Some {
        assert(a.contains(a[0]));
    }
    if req.description is Some {
        assert(b.contains(b[0]));
    }
    if req.avatar_url is Some {
        assert(c.contains(c[0]));
    }
    if req.is_public is Some {
        assert(d.contains(d[0]));
    }
    if req.settings is Some {
        assert(e.contains(e[0]));
        assert(e.contains(e[1]));
    }
    assert forall|key: Seq<char>| #[trigger] writes_key(u, key) implies (key == "name"@ && req.name is Some)
        || (key == "description"@ && req.description is Some) || (key == "avatar_url"@
        && req.avatar_url is Some) || (key == "is_public"@ && req.is_public is Some) || ((key
        == "settings"@ || key == "theme_config"@) && req.settings is Some) by {
        let i = choose|i: int| 0 <= i < u.len() && (#[trigger] u[i]).0 == key;
        assert(u.contains(u[i]));
        let x = u[i];
        if a.contains(x) {
            let j = choose|j: int| 0 <= j < a.len() && a[j] == x;
        } else if b.contains(x) {
            let j = choose|j: int| 0 <= j < b.len() && b[j] == x;
        } else if c.contains(x) {
            let j = choose|j: int| 0 <= j < c.len() && c[j] == x;
        } else if d.contains(x) {
            let j = choose|j: int| 0 <= j < d.len() && d[j] == x;
        } else {
            let j = choose|j: int| 0 <= j < e.len() && e[j] == x;
        }
    }
    assert("name"@.len() == 4 && "description"@.len() == 11 && "avatar_url"@.len() == 10);
    assert("is_public"@.len() == 9 && "settings"@.len() == 8 && "theme_config"@.len() == 12);
}

fn push_update(data: &mut Vec<(String, UpdateValue)>, key: &str, value: UpdateValue)
    ensures
        updates_view(final(data)@) == updates_view(old(data)@).push((key@, update_view(value))),
{
    let ghost before = updates_view(data@);
    let ghost vv = update_view(value);
    data.push((key.to_string(), value));
    assert(updates_view(data@) =~= before.push((key@, vv)));
}

/// The fields and values that a space update writes.
pub fn space_update_data(request: &UpdateSpaceRequest) -> (r: Vec<(String, UpdateValue)>)
    ensures
        updates_view(r@) == space_updates(*request),
        request.name matches Some(n) ==> updates_view(r@).contains(("name"@, (0int, n@, false))),
        request.description matches Some(d) ==> updates_view(r@).contains(
            ("description"@, (0int, d@, false)),
        ),
        request.avatar_url matches Some(a) ==> updates_view(r@).contains(
            ("avatar_url"@, (0int, a@, false)),
        ),
        request.is_public matches Some(b) ==> updates_view(r@).contains(
            ("is_public"@, (1int, Seq::<char>::empty(), b)),
        ),
        request.name is None ==> !writes_key(updates_view(r@), "name"@),
        request.description is None ==> !writes_key(updates_view(r@), "description"@),
        request.avatar_url is None ==> !writes_key(updates_view(r@), "avatar_url"@),
        request.is_public is None ==> !writes_key(updates_view(r@), "is_public"@),
{
    proof {
        law_space_update_writes_given_fields(*request);
    }
    let mut data: Vec<(String, UpdateValue)> = Vec::new();
    let ghost s0 = updates_view(data@);
    match &request.name {
        Some(n) => push_update(&mut data, "name", UpdateValue::Text(n.clone())),
        None => {},
    }
    let ghost s1 = updates_view(data@);
    match &request.description {
        Some(d) => push_update(&mut data, "description", UpdateValue::Text(d.clone())),
        None => {},
    }
    let ghost s2 = updates_view(data@);
    match &request.avatar_url {
        Some(a) => push_update(&mut data, "avatar_url", UpdateValue::Text(a.clone())),
        None => {},
    }
    let ghost s3 = updates_view(data@);
    match request.is_public {
        Some(b) => push_update(&mut data, "is_public", UpdateValue::Flag(b)),
        None => {},
    }
    let ghost s4 = updates_view(data@);
    if request.settings.is_some() {
        push_update(&mut data, "settings", UpdateValue::EmptyObject);
        push_update(&mut data, "theme_config", UpdateValue::EmptyObject);
    }
    assert(updates_view(data@) =~= space_updates(*request));
    data
}

// ---------------------------------------------------------------------------
// Membership and statistics
// ---------------------------------------------------------------------------

/// The forms under which a user's id is stored in space memberships.
#[derive(Debug, Clone)]
pub struct MemberUserIds {
    pub user_id_raw: String,
    pub user_id_bracketed: String,
    pub user_id_plain: String,
    pub local_user_id_bracketed: String,
    pub local_user_id_plain: String,
}

/// The bare id of a user: one `user:` prefix (looked for after trimming, else
/// the id as given) and the `⟨⟩` brackets around it taken off.
pub open spec fn member_clean_user_id(user_id: Seq<char>) -> Seq<char> {
    trim_set(
        match strip_prefix(trim(user_id), "user:"@) {
            Some(t) => t,
            None => user_id,
        },
        CharSet::Brackets,
    )
}

/// The user id forms that a space membership may hold for a user.
pub fn member_user_ids(user_id: &str) -> (r: MemberUserIds)
    ensures
        r.user_id_raw@ == member_clean_user_id(user_id@),
        r.user_id_bracketed@ == "user:⟨"@ + member_clean_user_id(user_id@) + "⟩"@,
        r.user_id_plain@ == "user:"@ + member_clean_user_id(user_id@),
        r.local_user_id_bracketed@ == "local_user:⟨"@ + member_clean_user_id(user_id@) + "⟩"@,
        r.local_user_id_plain@ == "local_user:"@ + member_clean_user_id(user_id@),
{
    let chars = chars_of(user_id);
    let t = trim_chars(&chars);
    let stripped = match strip_prefix_chars(&t, &chars_of("user:")) {
        Some(s) => s,
        None => chars,
    };
    let clean = trim_set_chars(&stripped, CharSet::Brackets);
    let mut bracketed = prefixed("user:⟨", &clean);
    bracketed.append("⟩");
    let mut local_bracketed = prefixed("local_user:⟨", &clean);
    local_bracketed.append("⟩");
    MemberUserIds {
        user_id_raw: string_of(&clean),
        user_id_bracketed: bracketed,
        user_id_plain: prefixed("user:", &clean),
        local_user_id_bracketed: local_bracketed,
        local_user_id_plain: prefixed("local_user:", &clean),
    }
}

/// The query for the ids of the spaces a user has accepted membership of.
pub fn member_space_ids_query() -> (r: &'static str)
    ensures
        r@ == "\n        SELECT VALUE type::string(space_id)\n        FROM space_member\n        WHERE type::string(user_id) IN [$user_id_bracketed, $user_id_plain, $local_user_id_bracketed, $local_user_id_plain, $user_id_raw]\n          AND status = 'accepted'\n    "@,
{
    "\n        SELECT VALUE type::string(space_id)\n        FROM space_member\n        WHERE type::string(user_id) IN [$user_id_bracketed, $user_id_plain, $local_user_id_bracketed, $local_user_id_plain, $user_id_raw]\n          AND status = 'accepted'\n    "
}

/// The condition that finds a member space by record id, bare key or slug.
pub fn member_space_lookup_where_clause() -> (r: &'static str)
    ensures
        r@ == "(type::string(id) = $space_id OR string::replace(type::string(id), 'space:', '') = $space_key OR slug = $space_key)"@,
{
    "(type::string(id) = $space_id OR string::replace(type::string(id), 'space:', '') = $space_key OR slug = $space_key)"
}

/// The query that reads one member space.
pub fn member_space_query() -> (r: String)
    ensures
        r@ == "SELECT\n                        string::replace(type::string(id), 'space:', '') AS id,\n                        name, slug, description, avatar_url, is_public, is_deleted,\n                        (IF owner_id = NONE THEN '' ELSE type::string(owner_id) END) AS owner_id,\n                        settings, theme_config, member_count, document_count,\n                        created_at, updated_at,\n                        (IF created_by = NONE THEN '' ELSE type::string(created_by) END) AS created_by,\n                        (IF updated_by = NONE THEN '' ELSE type::string(updated_by) END) AS updated_by\n                     FROM space\n                     WHERE "@
            + "(type::string(id) = $space_id OR string::replace(type::string(id), 'space:', '') = $space_key OR slug = $space_key)"@
            + " AND is_deleted = false"@,
{
    let mut q = String::new();
    q.append(
        "SELECT\n                        string::replace(type::string(id), 'space:', '') AS id,\n                        name, slug, description, avatar_url, is_public, is_deleted,\n                        (IF owner_id = NONE THEN '' ELSE type::string(owner_id) END) AS owner_id,\n                        settings, theme_config, member_count, document_count,\n                        created_at, updated_at,\n                        (IF created_by = NONE THEN '' ELSE type::string(created_by) END) AS created_by,\n                        (IF updated_by = NONE THEN '' ELSE type::string(updated_by) END) AS updated_by\n                     FROM space\n                     WHERE ",
    );
    q.append(member_space_lookup_where_clause());
    q.append(" AND is_deleted = false");
    q
}

/// The queries of a space's statistics.
#[derive(Debug, Clone, Copy)]
pub struct SpaceStatsQueries {
    pub document_count: &'static str,
    pub public_document_count: &'static str,
    pub member_count: &'static str,
    pub tag_count: &'static str,
    pub comment_count: &'static str,
    pub view_count: &'static str,
    pub last_activity: &'static str,
}

/// The statistics queries, each bound to the space's record id `$space_id`.
pub fn space_stats_queries() -> (r: SpaceStatsQueries)
    ensures
        r.document_count@ == "SELECT count() AS count FROM document WHERE space_id = type::record($space_id) AND is_deleted = false GROUP ALL"@,
        r.public_document_count@ == "SELECT count() AS count FROM document WHERE space_id = type::record($space_id) AND is_deleted = false AND is_public = true GROUP ALL"@,
        r.member_count@ == "SELECT count() AS count FROM space_member WHERE space_id = type::record($space_id) AND status = 'accepted' GROUP ALL"@,
        r.tag_count@ == "SELECT count() AS count FROM tag WHERE space_id = type::record($space_id) GROUP ALL"@,
        r.comment_count@ == "SELECT count() AS count FROM comment WHERE document_id IN (SELECT id FROM document WHERE space_id = type::record($space_id) AND is_deleted = false) GROUP ALL"@,
        r.view_count@ == "SELECT view_count FROM document WHERE space_id = type::record($space_id) AND is_deleted = false"@,
        r.last_activity@ == "SELECT type::string(updated_at) AS updated_at FROM document WHERE space_id = type::record($space_id) AND is_deleted = false ORDER BY updated_at DESC LIMIT 1"@,
{
    SpaceStatsQueries {
        document_count: "SELECT count() AS count FROM document WHERE space_id = type::record($space_id) AND is_deleted = false GROUP ALL",
        public_document_count: "SELECT count() AS count FROM document WHERE space_id = type::record($space_id) AND is_deleted = false AND is_public = true GROUP ALL",
        member_count: "SELECT count() AS count FROM space_member WHERE space_id = type::record($space_id) AND status = 'accepted' GROUP ALL",
        tag_count: "SELECT count() AS count FROM tag WHERE space_id = type::record($space_id) GROUP ALL",
        comment_count: "SELECT count() AS count FROM comment WHERE document_id IN (SELECT id FROM document WHERE space_id = type::record($space_id) AND is_deleted = false) GROUP ALL",
        view_count: "SELECT view_count FROM document WHERE space_id = type::record($space_id) AND is_deleted = false",
        last_activity: "SELECT type::string(updated_at) AS updated_at FROM document WHERE space_id = type::record($space_id) AND is_deleted = false ORDER BY updated_at DESC LIMIT 1",
    }
}

/// The count in the first row of a grouped count query (`None` for a row
/// without a count), 0 without rows, taken modulo 2^32 as `as u32` does.
pub fn first_count_from_rows(counts: &[Option<u64>]) -> (r: u32)
    ensures
        r == (if counts@.len() > 0 && counts@[0] is Some {
            counts@[0]->0
        } else {
            0u64
        }) as u32,
{
    if counts.len() > 0 {
        match counts[0] {
            Some(c) => c as u32,
            None => 0,
        }
    } else {
        0
    }
}

/// The sum of the view counts that rows hold (rows without one count 0).
pub open spec fn view_sum(counts: Seq<Option<u64>>) -> int
    decreases counts.len(),
{
    if counts.len() == 0 {
        0
    } else {
        view_sum(counts.drop_last()) + match counts.last() {
            Some(c) => c as int,
            None => 0,
        }
    }
}

proof fn lemma_view_sum_monotone(counts: Seq<Option<u64>>, i: int)
    requires
        0 <= i <= counts.len(),
    ensures
        view_sum(counts.take(i)) <= view_sum(counts),
        view_sum(counts.take(i)) >= 0,
    decreases counts.len() - i,
{
    if i < counts.len() {
        lemma_view_sum_monotone(counts, i + 1);
        assert(counts.take(i + 1).drop_last() =~= counts.take(i));
    } else {
        assert(counts.take(i) =~= counts);
    }
    lemma_view_sum_nonneg(counts.take(i));
}

proof fn lemma_view_sum_nonneg(counts: Seq<Option<u64>>)
    ensures
        view_sum(counts) >= 0,
    decreases counts.len(),
{
    if counts.len() > 0 {
        lemma_view_sum_nonneg(counts.drop_last());
    }
}

/// The total view count of a space's documents, taken modulo 2^32 as `as u32` does.
pub fn sum_view_counts(counts: &[Option<u64>]) -> (r: u32)
    requires
        view_sum(counts@) <= u64::MAX,
    ensures
        r == (view_sum(counts@) as u64) as u32,
{
    let mut total: u64 = 0;
    let n = counts.len();
    for i in 0..n
        invariant
            n == counts@.len(),
            view_sum(counts@) <= u64::MAX,
            total == view_sum(counts@.take(i as int)),
    {
        proof {
            lemma_view_sum_monotone(counts@, i + 1);
            assert(counts@.take(i + 1).drop_last() =~= counts@.take(i as int));
        }
        match counts[i] {
            Some(c) => {
                total = total + c;
            },
            None => {},
        }
    }
    assert(counts@.take(n as int) =~= counts@);
    total as u32
}

// ---------------------------------------------------------------------------
// Creating spaces
// ---------------------------------------------------------------------------

/// The message a creation is refused with when the slug is already taken.
pub open spec fn slug_taken_message() -> Seq<char> {
    "Space slug already exists globally. Please choose a different slug."@
}

/// Whether a database error says that the slug is already taken: it names the
/// unique slug index, or says that the index already contains the value.
pub fn is_slug_conflict_message(message: &str) -> (r: bool)
    ensures
        r == (crate::text::contains_str(message@, "space_slug_unique_idx"@)
            || crate::text::contains_str(message@, "already contains"@)),
{
    let m = chars_of(message);
    crate::text::contains_str_chars(&m, &chars_of("space_slug_unique_idx"))
        || crate::text::contains_str_chars(&m, &chars_of("already contains"))
}

/// The error a failed space creation is reported with: a conflict when the
/// database says the slug is taken, else the database error itself.
pub fn create_space_db_error(message: &str) -> (r: AppError)
    ensures
        (crate::text::contains_str(message@, "space_slug_unique_idx"@) || crate::text::contains_str(
            message@,
            "already contains"@,
        )) ==> (r matches AppError::Conflict(m) && m@ == slug_taken_message()),
        !(crate::text::contains_str(message@, "space_slug_unique_idx"@)
            || crate::text::contains_str(message@, "already contains"@)) ==> (r matches AppError::Database(
            m,
        ) && m@ == message@),
{
    if is_slug_conflict_message(message) {
        AppError::Conflict("Space slug already exists globally. Please choose a different slug.".to_string())
    } else {
        AppError::Database(message.to_string())
    }
}

/// A space can be created only under a slug no other space has.
pub fn ensure_slug_available(slug_exists: bool) -> (r: Result<(), AppError>)
    ensures
        !slug_exists ==> r is Ok,
        slug_exists ==> (r matches Err(AppError::Conflict(m)) && m@ == slug_taken_message()),
{
    if slug_exists {
        Err(AppError::Conflict("Space slug already exists globally. Please choose a different slug.".to_string()))
    } else {
        Ok(())
    }
}

/// The query that tells whether a live space has a slug (bound as `$slug`).
pub fn slug_exists_query() -> (r: &'static str)
    ensures
        r@ == "SELECT VALUE type::string(id) FROM space WHERE slug = $slug AND is_deleted = false LIMIT 1"@,
{
    "SELECT VALUE type::string(id) FROM space WHERE slug = $slug AND is_deleted = false LIMIT 1"
}

/// The statement that creates a space, with the optional fields in their place.
pub fn create_space_sql(optional_fields: &str) -> (r: String)
    ensures
        r@ == "\n            CREATE space CONTENT {\n                name: $name,\n                slug: $slug,\n                "@
            + optional_fields@
            + "\n                is_public: $is_public,\n                is_deleted: false,\n                workspace_kind: $workspace_kind,\n                team_id: $team_id,\n                owner_id: $owner_id,\n                settings: {},\n                theme_config: {},\n                member_count: 0,\n                document_count: 0,\n                created_by: $created_by,\n                updated_by: $updated_by,\n                created_at: time::now(),\n                updated_at: time::now()\n            };\n        "@,
{
    let mut q = String::new();
    q.append("\n            CREATE space CONTENT {\n                name: $name,\n                slug: $slug,\n                ");
    q.append(optional_fields);
    q.append(
        "\n                is_public: $is_public,\n                is_deleted: false,\n                workspace_kind: $workspace_kind,\n                team_id: $team_id,\n                owner_id: $owner_id,\n                settings: {},\n                theme_config: {},\n                member_count: 0,\n                document_count: 0,\n                created_by: $created_by,\n                updated_by: $updated_by,\n                created_at: time::now(),\n                updated_at: time::now()\n            };\n        ",
    );
    q
}

/// The space that a creation request describes, owned by the requesting user:
/// a new space with the request's description, avatar, visibility and settings
/// where given.
pub fn new_space_for_request(request: CreateSpaceRequest, user_id: String) -> (s: Space)
    ensures
        s.id is None,
        s.name == request.name,
        s.slug == request.slug,
        s.owner_id == user_id,
        s.description == request.description,
        s.avatar_url == request.avatar_url,
        s.is_public == match request.is_public {
            Some(b) => b,
            None => false,
        },
        s.settings == request.settings,
        !s.is_deleted,
{
    let mut space = Space::new(request.name, request.slug, user_id);
    if let Some(description) = request.description {
        space.description = Some(description);
    }
    if let Some(avatar_url) = request.avatar_url {
        space.avatar_url = Some(avatar_url);
    }
    if let Some(is_public) = request.is_public {
        space.is_public = is_public;
    }
    if let Some(settings) = request.settings {
        space.settings = Some(settings);
    }
    space
}

/// The query that reads a space by a slug checked by `sanitize_slug_for_query`.
pub fn space_by_slug_query(slug_literal: &str) -> (r: String)
    ensures
        r@ == "SELECT\n                    string::replace(type::string(id), 'space:', '') AS id,\n                    name, slug, description, avatar_url, is_public, is_deleted,\n                    (IF owner_id = NONE THEN '' ELSE type::string(owner_id) END) AS owner_id,\n                    settings, theme_config, member_count, document_count,\n                    created_at, updated_at,\n                    (IF created_by = NONE THEN '' ELSE type::string(created_by) END) AS created_by,\n                    (IF updated_by = NONE THEN '' ELSE type::string(updated_by) END) AS updated_by\n                 FROM space\n                 WHERE slug = '"@
            + slug_literal@ + "' AND is_deleted = false\n                 LIMIT 1"@,
{
    let mut q = String::new();
    q.append(
        "SELECT\n                    string::replace(type::string(id), 'space:', '') AS id,\n                    name, slug, description, avatar_url, is_public, is_deleted,\n                    (IF owner_id = NONE THEN '' ELSE type::string(owner_id) END) AS owner_id,\n                    settings, theme_config, member_count, document_count,\n                    created_at, updated_at,\n                    (IF created_by = NONE THEN '' ELSE type::string(created_by) END) AS created_by,\n                    (IF updated_by = NONE THEN '' ELSE type::string(updated_by) END) AS updated_by\n                 FROM space\n                 WHERE slug = '",
    );
    q.append(slug_literal);
    q.append("' AND is_deleted = false\n                 LIMIT 1");
    q
}

/// The query that reads a space by its record id `space:<key>`.
pub fn space_by_id_query(space_key: &str) -> (r: String)
    ensures
        r@ == "SELECT\n                    string::replace(type::string(id), 'space:', '') AS id,\n                    name, slug, description, avatar_url, is_public, is_deleted,\n                    (IF owner_id = NONE THEN '' ELSE type::string(owner_id) END) AS owner_id,\n                    settings, theme_config, member_count, document_count,\n                    created_at, updated_at,\n                    (IF created_by = NONE THEN '' ELSE type::string(created_by) END) AS created_by,\n                    (IF updated_by = NONE THEN '' ELSE type::string(updated_by) END) AS updated_by\n                 FROM ONLY type::record('space:"@
            + space_key@ + "')\n                 WHERE is_deleted = false\n                 LIMIT 1"@,
{
    let mut q = String::new();
    q.append(
        "SELECT\n                    string::replace(type::string(id), 'space:', '') AS id,\n                    name, slug, description, avatar_url, is_public, is_deleted,\n                    (IF owner_id = NONE THEN '' ELSE type::string(owner_id) END) AS owner_id,\n                    settings, theme_config, member_count, document_count,\n                    created_at, updated_at,\n                    (IF created_by = NONE THEN '' ELSE type::string(created_by) END) AS created_by,\n                    (IF updated_by = NONE THEN '' ELSE type::string(updated_by) END) AS updated_by\n                 FROM ONLY type::record('space:",
    );
    q.append(space_key);
    q.append("')\n                 WHERE is_deleted = false\n                 LIMIT 1");
    q
}

} // verus!
