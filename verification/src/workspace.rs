use vstd::prelude::*;

use crate::error::AppError;
use crate::fields::{lemma_upsert_absent, lemma_upsert_replace, upsert};
use crate::models::{
    field_errors_view, CreateTeamRequest, FieldError, PersonalWorkspaceResponse, Team, TeamMemberRow,
    TeamRole, TeamWorkspaceResponse, WorkspacesResponse,
};
use crate::text::{
    all_in_set, chars_eq, chars_of, in_set, push_chars, seqs, string_of, strip_prefix,
    strip_prefix_chars, to_lowercase, trim, trim_chars, trim_set, trim_set_chars,
    unicode_lowercase, CharSet,
};

verus! {

// ---------------------------------------------------------------------------
// User ids
// ---------------------------------------------------------------------------

/// A user id without surrounding whitespace, one `user:` (or else `users:`)
/// table prefix, and the quoting characters and spaces around it.
pub open spec fn clean_user_id_spec(user_id: Seq<char>) -> Seq<char> {
    let t = trim(user_id);
    let s = match strip_prefix(t, "user:"@) {
        Some(x) => x,
        None => match strip_prefix(t, "users:"@) {
            Some(y) => y,
            None => t,
        },
    };
    trim_set(s, CharSet::RecordQuotesSpace)
}

/// The bare id of a user.
pub fn clean_user_id(user_id: &str) -> (r: String)
    ensures
        r@ == clean_user_id_spec(user_id@),
{
    let t = trim_chars(&chars_of(user_id));
    let s = match strip_prefix_chars(&t, &chars_of("user:")) {
        Some(x) => x,
        None => match strip_prefix_chars(&t, &chars_of("users:")) {
            Some(y) => y,
            None => t,
        },
    };
    string_of(&trim_set_chars(&s, CharSet::RecordQuotesSpace))
}

/// The forms under which a user's id may be stored: bare, `user:<id>` and `user:⟨<id>⟩`.
pub fn user_id_candidates(user_id: &str) -> (r: Vec<String>)
    ensures
        r@.len() == 3,
        r@[0]@ == clean_user_id_spec(user_id@),
        r@[1]@ == "user:"@ + clean_user_id_spec(user_id@),
        r@[2]@ == "user:⟨"@ + clean_user_id_spec(user_id@) + "⟩"@,
{
    let clean = clean_user_id(user_id);
    let mut plain = String::new();
    plain.append("user:");
    plain.append(clean.as_str());
    let mut bracketed = String::new();
    bracketed.append("user:⟨");
    bracketed.append(clean.as_str());
    bracketed.append("⟩");
    let mut v: Vec<String> = Vec::new();
    v.push(clean);
    v.push(plain);
    v.push(bracketed);
    v
}

// ---------------------------------------------------------------------------
// Creating teams
// ---------------------------------------------------------------------------

/// The optional field of the team creation statement: the description when given.
pub fn create_team_optional_fields(description: &Option<String>) -> (r: &'static str)
    ensures
        r@ == if description is Some {
            "description: $description,"@
        } else {
            ""@
        },
{
    if description.is_some() {
        "description: $description,"
    } else {
        ""
    }
}

/// The statement that creates a team, with the optional field in its place.
pub fn create_team_sql(optional_fields: &str) -> (r: String)
    ensures
        r@ == "CREATE team CONTENT {\n                name: $name,\n                slug: $slug,\n                "@
            + optional_fields@
            + "\n                owner_id: $owner_id,\n                is_deleted: false,\n                created_by: $owner_id,\n                updated_by: $owner_id,\n                created_at: time::now(),\n                updated_at: time::now()\n            };"@,
{
    let mut q = String::new();
    q.append("CREATE team CONTENT {\n                name: $name,\n                slug: $slug,\n                ");
    q.append(optional_fields);
    q.append(
        "\n                owner_id: $owner_id,\n                is_deleted: false,\n                created_by: $owner_id,\n                updated_by: $owner_id,\n                created_at: time::now(),\n                updated_at: time::now()\n            };",
    );
    q
}

/// The query that reads a team that is not deleted by its bare id `$team_id`.
pub fn team_projection_query() -> (r: &'static str)
    ensures
        r@ == "SELECT\n        string::replace(type::string(id), 'team:', '') AS id,\n        name,\n        slug,\n        description,\n        (IF owner_id = NONE THEN '' ELSE type::string(owner_id) END) AS owner_id,\n        is_deleted,\n        created_at,\n        updated_at\n     FROM team\n     WHERE string::replace(type::string(id), 'team:', '') = $team_id\n       AND is_deleted = false\n     LIMIT 1"@,
{
    "SELECT\n        string::replace(type::string(id), 'team:', '') AS id,\n        name,\n        slug,\n        description,\n        (IF owner_id = NONE THEN '' ELSE type::string(owner_id) END) AS owner_id,\n        is_deleted,\n        created_at,\n        updated_at\n     FROM team\n     WHERE string::replace(type::string(id), 'team:', '') = $team_id\n       AND is_deleted = false\n     LIMIT 1"
}

/// The query for the teams a user owns: teams that are not deleted whose
/// owner is one of the user's id forms (bound as `$user_ids`), newest change
/// first, with bare team ids.
pub fn owned_teams_query() -> (r: &'static str)
    ensures
        r@ == "SELECT\n                    string::replace(type::string(id), 'team:', '') AS id,\n                    name,\n                    slug,\n                    description,\n                    (IF owner_id = NONE THEN '' ELSE type::string(owner_id) END) AS owner_id,\n                    is_deleted,\n                    created_at,\n                    updated_at\n                 FROM team\n                 WHERE (IF owner_id = NONE THEN '' ELSE type::string(owner_id) END) IN $user_ids\n                   AND is_deleted = false\n                 ORDER BY updated_at DESC"@,
{
    "SELECT\n                    string::replace(type::string(id), 'team:', '') AS id,\n                    name,\n                    slug,\n                    description,\n                    (IF owner_id = NONE THEN '' ELSE type::string(owner_id) END) AS owner_id,\n                    is_deleted,\n                    created_at,\n                    updated_at\n                 FROM team\n                 WHERE (IF owner_id = NONE THEN '' ELSE type::string(owner_id) END) IN $user_ids\n                   AND is_deleted = false\n                 ORDER BY updated_at DESC"
}

/// The query for a user's team memberships: the team and role of each
/// active membership of one of the user's id forms (`$user_ids`), newest
/// first.
pub fn team_memberships_query() -> (r: &'static str)
    ensures
        r@ == "SELECT team_id, role\n                 FROM team_member\n                 WHERE user_id IN $user_ids\n                   AND status = 'active'\n                 ORDER BY joined_at DESC"@,
{
    "SELECT team_id, role\n                 FROM team_member\n                 WHERE user_id IN $user_ids\n                   AND status = 'active'\n                 ORDER BY joined_at DESC"
}

/// The query that reads a team that is not deleted by its slug `$slug`.
pub fn team_by_slug_query() -> (r: &'static str)
    ensures
        r@ == "SELECT\n                    string::replace(type::string(id), 'team:', '') AS id,\n                    name,\n                    slug,\n                    description,\n                    (IF owner_id = NONE THEN '' ELSE type::string(owner_id) END) AS owner_id,\n                    is_deleted,\n                    created_at,\n                    updated_at\n                 FROM team\n                 WHERE slug = $slug AND is_deleted = false\n                 LIMIT 1"@,
{
    "SELECT\n                    string::replace(type::string(id), 'team:', '') AS id,\n                    name,\n                    slug,\n                    description,\n                    (IF owner_id = NONE THEN '' ELSE type::string(owner_id) END) AS owner_id,\n                    is_deleted,\n                    created_at,\n                    updated_at\n                 FROM team\n                 WHERE slug = $slug AND is_deleted = false\n                 LIMIT 1"
}

/// The query that counts the teams that are not deleted with the slug `$slug`.
pub fn team_slug_count_query() -> (r: &'static str)
    ensures
        r@ == "SELECT count() AS count FROM team WHERE slug = $slug AND is_deleted = false GROUP ALL"@,
{
    "SELECT count() AS count FROM team WHERE slug = $slug AND is_deleted = false GROUP ALL"
}

/// The statement that makes `$user_id` the active owner of team `$team_id`.
pub fn owner_membership_sql() -> (r: &'static str)
    ensures
        r@ == "CREATE team_member SET\n                    team_id = $team_id,\n                    user_id = $user_id,\n                    role = 'owner',\n                    status = 'active',\n                    invited_by = $user_id,\n                    joined_at = time::now(),\n                    created_at = time::now(),\n                    updated_at = time::now()"@,
{
    "CREATE team_member SET\n                    team_id = $team_id,\n                    user_id = $user_id,\n                    role = 'owner',\n                    status = 'active',\n                    invited_by = $user_id,\n                    joined_at = time::now(),\n                    created_at = time::now(),\n                    updated_at = time::now()"
}

/// A team slug of lowercase letters, digits and `-` only (`^[a-z0-9-]+$`).
pub open spec fn team_slug_pattern(slug: Seq<char>) -> bool {
    slug.len() > 0 && forall|i: int| 0 <= i < slug.len() ==> in_set(CharSet::LowerSlugChar, #[trigger] slug[i])
}

/// The rules of a team creation request that it breaks, in order: the name
/// must have 1 to 80 characters, the slug 1 to 50 and match `^[a-z0-9-]+$`,
/// and the description at most 300.
pub open spec fn team_request_errors(r: CreateTeamRequest) -> Seq<(Seq<char>, Seq<char>)> {
    (if 1 <= r.name@.len() <= 80 {
        Seq::empty()
    } else {
        seq![("name"@, "Team name must be between 1 and 80 characters"@)]
    }) + (if 1 <= r.slug@.len() <= 50 {
        Seq::empty()
    } else {
        seq![("slug"@, "Team slug must be between 1 and 50 characters"@)]
    }) + (if team_slug_pattern(r.slug@) {
        Seq::empty()
    } else {
        seq![("slug"@, "Team slug can only contain lowercase letters, numbers, and hyphens"@)]
    }) + (if r.description is None || r.description->0@.len() <= 300 {
        Seq::empty()
    } else {
        seq![("description"@, "Team description cannot exceed 300 characters"@)]
    })
}

fn push_field_error(errors: &mut Vec<FieldError>, field: &str, message: &str)
    ensures
        field_errors_view(final(errors)@) == field_errors_view(old(errors)@).push((field@, message@)),
{
    let ghost before = field_errors_view(errors@);
    errors.push(FieldError { field: field.to_string(), message: message.to_string() });
    assert(field_errors_view(errors@) =~= before.push((field@, message@)));
}

impl CreateTeamRequest {
    /// Checks the request's fields: `Ok` when no rule is broken, else each
    /// broken rule with its field and message.
    pub fn validate(&self) -> (r: Result<(), Vec<FieldError>>)
        ensures
            match r {
                Ok(()) => team_request_errors(*self).len() == 0,
                Err(errors) => team_request_errors(*self).len() > 0 && field_errors_view(errors@)
                    == team_request_errors(*self),
            },
    {
        let mut errors: Vec<FieldError> = Vec::new();
        let name = chars_of(self.name.as_str());
        let slug = chars_of(self.slug.as_str());
        let ghost e0 = field_errors_view(errors@);
        if !(1 <= name.len() && name.len() <= 80) {
            push_field_error(&mut errors, "name", "Team name must be between 1 and 80 characters");
        }
        let ghost e1 = field_errors_view(errors@);
        if !(1 <= slug.len() && slug.len() <= 50) {
            push_field_error(&mut errors, "slug", "Team slug must be between 1 and 50 characters");
        }
        let ghost e2 = field_errors_view(errors@);
        if !(slug.len() > 0 && all_in_set(&slug, CharSet::LowerSlugChar)) {
            push_field_error(
                &mut errors,
                "slug",
                "Team slug can only contain lowercase letters, numbers, and hyphens",
            );
        }
        let ghost e3 = field_errors_view(errors@);
        match &self.description {
            Some(d) => {
                let dc = chars_of(d.as_str());
                if dc.len() > 300 {
                    push_field_error(
                        &mut errors,
                        "description",
                        "Team description cannot exceed 300 characters",
                    );
                }
            },
            None => {},
        }
        assert(field_errors_view(errors@) =~= team_request_errors(*self));
        if errors.len() == 0 {
            Ok(())
        } else {
            Err(errors)
        }
    }
}

/// Whether a team slug is taken: the first row of the grouped count says
/// more than zero teams have it.
pub fn team_slug_taken(counts: &[Option<u64>]) -> (r: bool)
    ensures
        r == (counts@.len() > 0 && counts@[0] is Some && counts@[0]->0 > 0),
{
    if counts.len() > 0 {
        match counts[0] {
            Some(c) => c > 0,
            None => false,
        }
    } else {
        false
    }
}

/// A team can be created only under a slug no other team has.
pub fn ensure_team_slug_available(taken: bool) -> (r: Result<(), AppError>)
    ensures
        !taken ==> r is Ok,
        taken ==> (r matches Err(AppError::Conflict(m)) && m@
            == "Team slug already exists. Please choose a different slug."@),
{
    if taken {
        Err(AppError::Conflict("Team slug already exists. Please choose a different slug.".to_string()))
    } else {
        Ok(())
    }
}

/// The workspace of a team just created, which its creator owns; an error when
/// the new team could not be read back.
pub fn created_team_workspace(team: Option<Team>) -> (r: Result<TeamWorkspaceResponse, AppError>)
    ensures
        match team {
            Some(t) => r matches Ok(w) && w.id@ == strip_team_prefix(t.id@) && w.name == t.name
                && w.slug == t.slug && w.description == t.description && w.role == TeamRole::Owner,
            None => r matches Err(AppError::Internal(m)) && m@ == "Failed to fetch created team"@,
        },
{
    match team {
        Some(t) => Ok(t.into_workspace(TeamRole::Owner)),
        None => Err(AppError::Internal("Failed to fetch created team".to_string())),
    }
}

// ---------------------------------------------------------------------------
// Listing workspaces
// ---------------------------------------------------------------------------

/// A team id without one leading `team:`.
pub open spec fn strip_team_prefix(id: Seq<char>) -> Seq<char> {
    match strip_prefix(id, "team:"@) {
        Some(t) => t,
        None => id,
    }
}

fn strip_team_prefix_exec(id: &str) -> (r: String)
    ensures
        r@ == strip_team_prefix(id@),
{
    let c = chars_of(id);
    match strip_prefix_chars(&c, &chars_of("team:")) {
        Some(t) => string_of(&t),
        None => string_of(&c),
    }
}

impl Team {
    /// The team as a workspace of the given role, its id without `team:`.
    pub fn into_workspace(self, role: TeamRole) -> (r: TeamWorkspaceResponse)
        ensures
            r.id@ == strip_team_prefix(self.id@),
            r.name == self.name,
            r.slug == self.slug,
            r.description == self.description,
            r.role == role,
    {
        TeamWorkspaceResponse {
            id: strip_team_prefix_exec(self.id.as_str()),
            name: self.name,
            slug: self.slug,
            description: self.description,
            role,
        }
    }
}

/// The teams to read for a user's memberships: the team id of each row
/// without `team:`, skipping ids already seen (owned teams first, then earlier
/// rows), with the row's role.
pub open spec fn teams_to_fetch(seen: Set<Seq<char>>, rows: Seq<TeamMemberRow>) -> Seq<(Seq<char>, TeamRole)>
    decreases rows.len(),
{
    if rows.len() == 0 {
        Seq::empty()
    } else {
        let id = strip_team_prefix(rows[0].team_id@);
        if seen.contains(id) {
            teams_to_fetch(seen, rows.drop_first())
        } else {
            seq![(id, rows[0].role)] + teams_to_fetch(seen.insert(id), rows.drop_first())
        }
    }
}

pub open spec fn owned_ids(owned: Seq<Team>) -> Set<Seq<char>> {
    Set::new(|k: Seq<char>| exists|i: int| 0 <= i < owned.len() && owned[i].id@ == k)
}

pub open spec fn fetch_view(v: Seq<(String, TeamRole)>) -> Seq<(Seq<char>, TeamRole)> {
    Seq::new(v.len(), |i: int| (v[i].0@, v[i].1))
}

proof fn lemma_contains_push(s: Seq<Seq<char>>, k: Seq<char>, x: Seq<char>)
    ensures
        s.push(k).contains(x) <==> (s.contains(x) || x == k),
{
    if s.contains(x) {
        let i = choose|i: int| 0 <= i < s.len() && s[i] == x;
        assert(s.push(k)[i] == x);
    }
    if x == k {
        assert(s.push(k)[s.len() as int] == x);
    }
    if s.push(k).contains(x) {
        let j = choose|j: int| 0 <= j < s.push(k).len() && s.push(k)[j] == x;
        if j < s.len() {
            assert(s[j] == x);
        }
    }
}

fn seen_contains(seen: &Vec<Vec<char>>, k: &Vec<char>) -> (r: bool)
    ensures
        r == seqs(seen@).contains(k@),
{
    let n = seen.len();
    for i in 0..n
        invariant
            n == seen.len(),
            forall|j: int| 0 <= j < i ==> seen@[j]@ != k@,
    {
        if chars_eq(&seen[i], k) {
            assert(seqs(seen@)[i as int] == k@);
            return true;
        }
    }
    assert forall|j: int| 0 <= j < seqs(seen@).len() implies seqs(seen@)[j] != k@ by {
        assert(seqs(seen@)[j] == seen@[j]@);
    }
    false
}

/// The teams a user is a member of that still have to be read: each distinct
/// team id of the membership rows (without `team:`) that is not the id of an
/// owned team, in row order, with the role of its first row.
pub fn member_teams_to_fetch(owned: &Vec<Team>, rows: &Vec<TeamMemberRow>) -> (r: Vec<(String, TeamRole)>)
    ensures
        fetch_view(r@) == teams_to_fetch(owned_ids(owned@), rows@),
{
    let mut seen: Vec<Vec<char>> = Vec::new();
    let ghost mut ks: Set<Seq<char>> = Set::empty();
    let n = owned.len();
    for i in 0..n
        invariant
            n == owned.len(),
            ks == Set::new(|k: Seq<char>| exists|j: int| 0 <= j < i && owned@[j].id@ == k),
            forall|x: Seq<char>| seqs(seen@).contains(x) <==> ks.contains(x),
    {
        let ghost before = seqs(seen@);
        let ghost ks_old = ks;
        seen.push(chars_of(owned[i].id.as_str()));
        assert(seqs(seen@) =~= before.push(owned@[i as int].id@));
        proof {
            ks = ks.insert(owned@[i as int].id@);
            assert forall|x: Seq<char>| seqs(seen@).contains(x) <==> ks.contains(x) by {
                lemma_contains_push(before, owned@[i as int].id@, x);
            }
            assert(ks =~= Set::new(|k: Seq<char>| exists|j: int| 0 <= j < i + 1 && owned@[j].id@ == k)) by {
                assert forall|k: Seq<char>| ks.contains(k) implies (exists|j: int| 0 <= j < i + 1 && owned@[j].id@ == k) by {
                    if k != owned@[i as int].id@ {
                        assert(ks_old.contains(k));
                    }
                }
                assert forall|k: Seq<char>| (exists|j: int| 0 <= j < i + 1 && owned@[j].id@ == k) implies ks.contains(k) by {
                    let j = choose|j: int| 0 <= j < i + 1 && owned@[j].id@ == k;
                    if j < i {
                        assert(ks_old.contains(k));
                    }
                }
            }
        }
    }
    assert(ks =~= owned_ids(owned@));
    let ghost all_seen = ks;
    let mut out: Vec<(String, TeamRole)> = Vec::new();
    let m = rows.len();
    assert(rows@.skip(0) =~= rows@);
    for i in 0..m
        invariant
            m == rows.len(),
            forall|x: Seq<char>| seqs(seen@).contains(x) <==> ks.contains(x),
            fetch_view(out@) + teams_to_fetch(ks, rows@.skip(i as int)) == teams_to_fetch(
                all_seen,
                rows@,
            ),
    {
        let ghost tail = rows@.skip(i as int);
        assert(tail[0] == rows@[i as int]);
        assert(tail.drop_first() =~= rows@.skip(i + 1));
        let id = strip_team_prefix_exec(rows[i].team_id.as_str());
        let idc = chars_of(id.as_str());
        if !seen_contains(&seen, &idc) {
            let ghost before = seqs(seen@);
            seen.push(idc);
            assert(seqs(seen@) =~= before.push(id@));
            assert forall|x: Seq<char>| seqs(seen@).contains(x) <==> ks.insert(id@).contains(x) by {
                lemma_contains_push(before, id@, x);
            }
            let ghost o = fetch_view(out@);
            out.push((id, rows[i].role));
            assert(fetch_view(out@) =~= o + seq![(id@, rows@[i as int].role)]);
            proof {
                ks = ks.insert(id@);
            }
        }
    }
    assert(rows@.skip(m as int) =~= Seq::<TeamMemberRow>::empty());
    out
}

// ---------------------------------------------------------------------------
// Ordering workspaces by name
// ---------------------------------------------------------------------------

/// Lexicographic order of character sequences by code point, the order of
/// `str::cmp` (UTF-8 byte order is code point order).
pub open spec fn lex_le(a: Seq<char>, b: Seq<char>) -> bool
    decreases a.len(),
{
    if a.len() == 0 {
        true
    } else if b.len() == 0 {
        false
    } else if (a[0] as u32) < (b[0] as u32) {
        true
    } else if (a[0] as u32) > (b[0] as u32) {
        false
    } else {
        lex_le(a.drop_first(), b.drop_first())
    }
}

pub proof fn lemma_lex_total(a: Seq<char>, b: Seq<char>)
    ensures
        lex_le(a, b) || lex_le(b, a),
    decreases a.len(),
{
    if a.len() > 0 && b.len() > 0 && (a[0] as u32) == (b[0] as u32) {
        lemma_lex_total(a.drop_first(), b.drop_first());
    }
}

pub proof fn lemma_lex_trans(a: Seq<char>, b: Seq<char>, c: Seq<char>)
    requires
        lex_le(a, b),
        lex_le(b, c),
    ensures
        lex_le(a, c),
    decreases a.len(),
{
    if a.len() > 0 && b.len() > 0 && c.len() > 0 && (a[0] as u32) == (b[0] as u32) && (b[0] as u32)
        == (c[0] as u32) {
        lemma_lex_trans(a.drop_first(), b.drop_first(), c.drop_first());
    }
}

/// Whether `a` comes before or together with `b` in code point order.
pub fn lex_le_chars(a: &Vec<char>, b: &Vec<char>) -> (r: bool)
    ensures
        r == lex_le(a@, b@),
{
    let mut i: usize = 0;
    assert(a@.skip(0) =~= a@);
    assert(b@.skip(0) =~= b@);
    while i < a.len() && i < b.len() && (a[i] as u32) == (b[i] as u32)
        invariant
            i <= a.len(),
            i <= b.len(),
            lex_le(a@, b@) == lex_le(a@.skip(i as int), b@.skip(i as int)),
        decreases a.len() - i,
    {
        assert(a@.skip(i as int).drop_first() =~= a@.skip(i + 1));
        assert(b@.skip(i as int).drop_first() =~= b@.skip(i + 1));
        i = i + 1;
    }
    if i == a.len() {
        true
    } else if i == b.len() {
        false
    } else {
        assert(a@.skip(i as int)[0] == a@[i as int]);
        assert(b@.skip(i as int)[0] == b@[i as int]);
        (a[i] as u32) < (b[i] as u32)
    }
}

/// Inserts `x` after every element whose key is not greater (a stable insert).
pub open spec fn insert_sorted<T>(s: Seq<(Seq<char>, T)>, x: (Seq<char>, T)) -> Seq<(Seq<char>, T)>
    decreases s.len(),
{
    if s.len() == 0 {
        seq![x]
    } else if lex_le(s.last().0, x.0) {
        s.push(x)
    } else {
        insert_sorted(s.drop_last(), x).push(s.last())
    }
}

/// The stable insertion sort of a sequence by its keys.
pub open spec fn sort_by_key<T>(s: Seq<(Seq<char>, T)>) -> Seq<(Seq<char>, T)>
    decreases s.len(),
{
    if s.len() == 0 {
        Seq::empty()
    } else {
        insert_sorted(sort_by_key(s.drop_last()), s.last())
    }
}

pub open spec fn keys_sorted<T>(s: Seq<(Seq<char>, T)>) -> bool {
    forall|i: int| 0 <= i < s.len() - 1 ==> lex_le(#[trigger] s[i].0, s[i + 1].0)
}

proof fn lemma_insert_sorted_shape<T>(s: Seq<(Seq<char>, T)>, x: (Seq<char>, T))
    ensures
        insert_sorted(s, x).len() == s.len() + 1,
        s.len() == 0 ==> insert_sorted(s, x).last() == x,
        s.len() > 0 ==> (insert_sorted(s, x).last() == x || insert_sorted(s, x).last() == s.last()),
    decreases s.len(),
{
    if s.len() > 0 && !lex_le(s.last().0, x.0) {
        lemma_insert_sorted_shape(s.drop_last(), x);
    }
}

proof fn lemma_insert_sorted_sorted<T>(s: Seq<(Seq<char>, T)>, x: (Seq<char>, T))
    requires
        keys_sorted(s),
    ensures
        keys_sorted(insert_sorted(s, x)),
    decreases s.len(),
{
    if s.len() == 0 {
    } else if lex_le(s.last().0, x.0) {
        let r = s.push(x);
        assert forall|i: int| 0 <= i < r.len() - 1 implies lex_le(#[trigger] r[i].0, r[i + 1].0) by {
            if i < s.len() - 1 {
                assert(r[i] == s[i] && r[i + 1] == s[i + 1]);
            }
        }
    } else {
        let t = s.drop_last();
        assert(keys_sorted(t)) by {
            assert forall|i: int| 0 <= i < t.len() - 1 implies lex_le(#[trigger] t[i].0, t[i + 1].0) by {
                assert(t[i] == s[i] && t[i + 1] == s[i + 1]);
            }
        }
        lemma_insert_sorted_sorted(t, x);
        lemma_insert_sorted_shape(t, x);
        lemma_lex_total(s.last().0, x.0);
        let u = insert_sorted(t, x);
        let r = u.push(s.last());
        assert(lex_le(u.last().0, s.last().0)) by {
            if t.len() > 0 && u.last() == t.last() {
                assert(t.last() == s[s.len() - 2]);
            }
        }
        assert forall|i: int| 0 <= i < r.len() - 1 implies lex_le(#[trigger] r[i].0, r[i + 1].0) by {
            if i < u.len() - 1 {
                assert(r[i] == u[i] && r[i + 1] == u[i + 1]);
            } else {
                assert(r[i] == u.last());
            }
        }
    }
}

/// The stable sort orders its result by key.
pub proof fn lemma_sort_by_key_sorted<T>(s: Seq<(Seq<char>, T)>)
    ensures
        keys_sorted(sort_by_key(s)),
        sort_by_key(s).len() == s.len(),
    decreases s.len(),
{
    if s.len() > 0 {
        lemma_sort_by_key_sorted(s.drop_last());
        lemma_insert_sorted_sorted(sort_by_key(s.drop_last()), s.last());
        lemma_insert_sorted_shape(sort_by_key(s.drop_last()), s.last());
    }
}

proof fn lemma_insert_sorted_split<T>(s: Seq<(Seq<char>, T)>, x: (Seq<char>, T), j: int)
    requires
        0 <= j <= s.len(),
        j == 0 || lex_le(s[j - 1].0, x.0),
        forall|k: int| j <= k < s.len() ==> !lex_le(#[trigger] s[k].0, x.0),
    ensures
        insert_sorted(s, x) == s.take(j).push(x) + s.skip(j),
    decreases s.len() - j,
{
    if j == s.len() {
        if s.len() == 0 {
            assert(s.take(j).push(x) + s.skip(j) =~= seq![x]);
        } else {
            assert(s.take(j) =~= s);
            assert(s.take(j).push(x) + s.skip(j) =~= s.push(x));
        }
    } else {
        let t = s.drop_last();
        assert(!lex_le(s.last().0, x.0));
        assert forall|k: int| j <= k < t.len() implies !lex_le(#[trigger] t[k].0, x.0) by {
            assert(t[k] == s[k]);
        }
        if j > 0 {
            assert(t[j - 1] == s[j - 1]);
        }
        lemma_insert_sorted_split(t, x, j);
        assert(t.take(j) =~= s.take(j));
        assert(t.skip(j).push(s.last()) =~= s.skip(j));
        assert(insert_sorted(s, x) == insert_sorted(t, x).push(s.last()));
        assert(insert_sorted(t, x).push(s.last()) =~= s.take(j).push(x) + s.skip(j));
    }
}

proof fn lemma_insert_sorted_perm<T>(s: Seq<(Seq<char>, T)>, x: (Seq<char>, T))
    ensures
        insert_sorted(s, x).to_multiset() == s.to_multiset().insert(x),
    decreases s.len(),
{
    broadcast use vstd::seq_lib::group_to_multiset_ensures;

    if s.len() == 0 {
        assert(seq![x] =~= s.push(x));
    } else if lex_le(s.last().0, x.0) {
    } else {
        let t = s.drop_last();
        lemma_insert_sorted_perm(t, x);
        assert(t.push(s.last()) =~= s);
        assert(insert_sorted(s, x).to_multiset() =~= s.to_multiset().insert(x));
    }
}

/// The stable sort keeps every element: its result is a permutation.
pub proof fn lemma_sort_by_key_perm<T>(s: Seq<(Seq<char>, T)>)
    ensures
        sort_by_key(s).to_multiset() == s.to_multiset(),
    decreases s.len(),
{
    broadcast use vstd::seq_lib::group_to_multiset_ensures;

    if s.len() > 0 {
        lemma_sort_by_key_perm(s.drop_last());
        lemma_insert_sorted_perm(sort_by_key(s.drop_last()), s.last());
        assert(s.drop_last().push(s.last()) =~= s);
    }
}

/// What a workspace shows of a team: id, name, slug, description and role.
pub open spec fn ws_view(w: TeamWorkspaceResponse) -> (Seq<char>, Seq<char>, Seq<char>, Option<Seq<char>>, TeamRole) {
    (w.id@, w.name@, w.slug@, crate::spaces::opt_view(w.description), w.role)
}

pub open spec fn team_ws_view(t: Team, role: TeamRole) -> (Seq<char>, Seq<char>, Seq<char>, Option<Seq<char>>, TeamRole) {
    (strip_team_prefix(t.id@), t.name@, t.slug@, crate::spaces::opt_view(t.description), role)
}

pub type WsView = (Seq<char>, Seq<char>, Seq<char>, Option<Seq<char>>, TeamRole);

/// The team workspaces by team id: the owned teams (as owner), then the
/// fetched member teams with their roles.
pub open spec fn workspace_entries(owned: Seq<Team>, fetched: Seq<(Seq<char>, Team, TeamRole)>) -> Seq<(Seq<char>, WsView)>
    decreases owned.len() + fetched.len(),
{
    if fetched.len() > 0 {
        let (k, t, role) = fetched.last();
        upsert(workspace_entries(owned, fetched.drop_last()), k, team_ws_view(t, role))
    } else if owned.len() > 0 {
        let t = owned.last();
        upsert(workspace_entries(owned.drop_last(), fetched), t.id@, team_ws_view(t, TeamRole::Owner))
    } else {
        Seq::empty()
    }
}

/// The workspaces with their sort keys: the lowercased names.
pub open spec fn keyed_by_lowercase_name(entries: Seq<(Seq<char>, WsView)>) -> Seq<(Seq<char>, WsView)> {
    Seq::new(entries.len(), |i: int| (unicode_lowercase(entries[i].1.1), entries[i].1))
}

proof fn lemma_workspace_entries_distinct(owned: Seq<Team>, fetched: Seq<(Seq<char>, Team, TeamRole)>)
    ensures
        crate::fields::keys_distinct(workspace_entries(owned, fetched)),
    decreases owned.len() + fetched.len(),
{
    if fetched.len() > 0 {
        let (k, t, role) = fetched.last();
        lemma_workspace_entries_distinct(owned, fetched.drop_last());
        crate::fields::lemma_upsert_distinct(workspace_entries(owned, fetched.drop_last()), k, team_ws_view(t, role));
    } else if owned.len() > 0 {
        let t = owned.last();
        lemma_workspace_entries_distinct(owned.drop_last(), fetched);
        crate::fields::lemma_upsert_distinct(
            workspace_entries(owned.drop_last(), fetched),
            t.id@,
            team_ws_view(t, TeamRole::Owner),
        );
    }
}

proof fn lemma_sorted_everywhere<T>(s: Seq<(Seq<char>, T)>, i: int, j: int)
    requires
        keys_sorted(s),
        0 <= i <= j < s.len(),
    ensures
        lex_le(s[i].0, s[j].0),
    decreases j - i,
{
    if i == j {
        lemma_lex_total(s[i].0, s[i].0);
    } else {
        lemma_sorted_everywhere(s, i + 1, j);
        assert(lex_le(s[i].0, s[i + 1].0));
        lemma_lex_trans(s[i].0, s[i + 1].0, s[j].0);
    }
}

/// The team workspaces of a user come out ordered by lowercased name (any two
/// in the order of their lowercased names); the listing holds each workspace
/// gathered by team id exactly once, the owned teams and the fetched member
/// teams, no two under one id.
pub proof fn law_workspaces_listed_once_by_name(owned: Seq<Team>, fetched: Seq<(Seq<char>, Team, TeamRole)>)
    ensures
        forall|i: int, j: int|
            0 <= i <= j < sort_by_key(keyed_by_lowercase_name(workspace_entries(owned, fetched))).len()
                ==> lex_le(
                #[trigger] sort_by_key(keyed_by_lowercase_name(workspace_entries(owned, fetched)))[i].0,
                #[trigger] sort_by_key(keyed_by_lowercase_name(workspace_entries(owned, fetched)))[j].0,
            ),
        sort_by_key(keyed_by_lowercase_name(workspace_entries(owned, fetched))).to_multiset()
            == keyed_by_lowercase_name(workspace_entries(owned, fetched)).to_multiset(),
        crate::fields::keys_distinct(workspace_entries(owned, fetched)),
{
    let k = keyed_by_lowercase_name(workspace_entries(owned, fetched));
    lemma_sort_by_key_sorted(k);
    lemma_sort_by_key_perm(k);
    lemma_workspace_entries_distinct(owned, fetched);
    let s = sort_by_key(k);
    assert forall|i: int, j: int| 0 <= i <= j < s.len() implies lex_le(#[trigger] s[i].0, #[trigger] s[j].0) by {
        lemma_sorted_everywhere(s, i, j);
    }
}

/// The team workspaces come out in the order of their names, lowercased and
/// compared by code point: for any two of them, the earlier one's lowercased
/// name comes before or together with the later one's.
pub proof fn law_team_workspaces_sorted_by_lowercased_name(
    owned: Seq<Team>,
    fetched: Seq<(Seq<char>, Team, TeamRole)>,
)
    ensures
        ({
            let t = values_of(sort_by_key(keyed_by_lowercase_name(workspace_entries(owned, fetched))));
            forall|i: int, j: int|
                0 <= i <= j < t.len() ==> lex_le(
                    unicode_lowercase(#[trigger] t[i].1),
                    unicode_lowercase(#[trigger] t[j].1),
                )
        }),
{
    broadcast use vstd::seq_lib::group_to_multiset_ensures;

    let k = keyed_by_lowercase_name(workspace_entries(owned, fetched));
    let s = sort_by_key(k);
    let t = values_of(s);
    law_workspaces_listed_once_by_name(owned, fetched);
    assert forall|i: int| 0 <= i < s.len() implies #[trigger] s[i].0 == unicode_lowercase(s[i].1.1) by {
        assert(s.to_multiset().count(s[i]) > 0);
        assert(k.to_multiset().count(s[i]) > 0);
        assert(k.contains(s[i]));
        let m = choose|m: int| 0 <= m < k.len() && k[m] == s[i];
        assert(k[m].0 == unicode_lowercase(k[m].1.1));
    }
    assert forall|i: int, j: int| 0 <= i <= j < t.len() implies lex_le(
        unicode_lowercase(#[trigger] t[i].1),
        unicode_lowercase(#[trigger] t[j].1),
    ) by {
        assert(t[i] == s[i].1 && t[j] == s[j].1);
        assert(s[i].0 == unicode_lowercase(s[i].1.1));
        assert(s[j].0 == unicode_lowercase(s[j].1.1));
        assert(lex_le(s[i].0, s[j].0));
    }
}

pub open spec fn fetched_view(v: Seq<(String, Team, TeamRole)>) -> Seq<(Seq<char>, Team, TeamRole)> {
    Seq::new(v.len(), |i: int| (v[i].0@, v[i].1, v[i].2))
}

pub open spec fn keyed_ws_view(v: Seq<(Vec<char>, TeamWorkspaceResponse)>) -> Seq<(Seq<char>, WsView)> {
    Seq::new(v.len(), |i: int| (v[i].0@, ws_view(v[i].1)))
}

fn upsert_exec(entries: &mut Vec<(Vec<char>, TeamWorkspaceResponse)>, key: Vec<char>, value: TeamWorkspaceResponse)
    ensures
        keyed_ws_view(final(entries)@) == upsert(keyed_ws_view(old(entries)@), key@, ws_view(value)),
{
    let ghost before = keyed_ws_view(entries@);
    let n = entries.len();
    let mut found: Option<usize> = None;
    for i in 0..n
        invariant
            n == entries.len(),
            before == keyed_ws_view(entries@),
            match found {
                Some(j) => j < i && entries@[j as int].0@ == key@ && forall|k: int|
                    0 <= k < j ==> entries@[k].0@ != key@,
                None => forall|j: int| 0 <= j < i ==> entries@[j].0@ != key@,
            },
    {
        if found.is_none() && chars_eq(&entries[i].0, &key) {
            found = Some(i);
        }
    }
    match found {
        Some(j) => {
            proof {
                assert forall|k: int| 0 <= k < j implies #[trigger] before[k].0 != key@ by {
                    assert(before[k].0 == entries@[k].0@);
                }
                lemma_upsert_replace(before, key@, ws_view(value), j as int);
            }
            let ghost vv = ws_view(value);
            entries.set(j, (key, value));
            assert(keyed_ws_view(entries@) =~= before.update(j as int, (key@, vv)));
        },
        None => {
            proof {
                assert(forall|i: int| 0 <= i < before.len() ==> #[trigger] before[i].0 != key@) by {
                    assert forall|i: int| 0 <= i < before.len() implies #[trigger] before[i].0 != key@ by {
                        assert(before[i].0 == entries@[i].0@);
                    }
                }
                lemma_upsert_absent(before, key@, ws_view(value));
            }
            let ghost vv = ws_view(value);
            entries.push((key, value));
            assert(keyed_ws_view(entries@) =~= before.push((key@, vv)));
        },
    }
}

pub open spec fn values_of(s: Seq<(Seq<char>, WsView)>) -> Seq<WsView> {
    Seq::new(s.len(), |i: int| s[i].1)
}

pub open spec fn teams_view(v: Seq<TeamWorkspaceResponse>) -> Seq<WsView> {
    Seq::new(v.len(), |i: int| ws_view(v[i]))
}

impl TeamWorkspaceResponse {
    /// A copy with the same field values.
    pub fn clone_ws(&self) -> (r: TeamWorkspaceResponse)
        ensures
            r == *self,
    {
        TeamWorkspaceResponse {
            id: self.id.clone(),
            name: self.name.clone(),
            slug: self.slug.clone(),
            description: self.description.clone(),
            role: self.role,
        }
    }
}

fn insert_by_name(sorted: &mut Vec<(Vec<char>, TeamWorkspaceResponse)>, key: Vec<char>, value: TeamWorkspaceResponse)
    ensures
        keyed_ws_view(final(sorted)@) == insert_sorted(keyed_ws_view(old(sorted)@), (key@, ws_view(value))),
{
    let ghost s0 = keyed_ws_view(sorted@);
    let ghost x = (key@, ws_view(value));
    let mut j = sorted.len();
    while j > 0 && !lex_le_chars(&sorted[j - 1].0, &key)
        invariant
            j <= sorted.len(),
            s0 == keyed_ws_view(sorted@),
            forall|k: int| j <= k < s0.len() ==> !lex_le(#[trigger] s0[k].0, key@),
        decreases j,
    {
        j = j - 1;
    }
    proof {
        lemma_insert_sorted_split(s0, x, j as int);
    }
    sorted.insert(j, (key, value));
    assert(keyed_ws_view(sorted@) =~= s0.take(j as int).push(x) + s0.skip(j as int));
}

/// The workspaces of a user: the personal one, and the teams by team id (the
/// owned teams as owner, then the member teams read for the memberships, a
/// later entry replacing one under the same id), ordered by lowercased name
/// with a stable sort.
pub fn assemble_workspaces(owned: Vec<Team>, fetched: Vec<(String, Team, TeamRole)>) -> (r: WorkspacesResponse)
    ensures
        r.personal.id@ == "personal"@,
        r.personal.name@ == "个人工作区"@,
        teams_view(r.teams@) == values_of(
            sort_by_key(keyed_by_lowercase_name(workspace_entries(owned@, fetched_view(fetched@)))),
        ),
        forall|i: int, j: int|
            0 <= i <= j < r.teams@.len() ==> lex_le(
                unicode_lowercase(#[trigger] r.teams@[i].name@),
                unicode_lowercase(#[trigger] r.teams@[j].name@),
            ),
{
    proof {
        law_team_workspaces_sorted_by_lowercased_name(owned@, fetched_view(fetched@));
    }
    let mut entries: Vec<(Vec<char>, TeamWorkspaceResponse)> = Vec::new();
    let n = owned.len();
    let mut owned = owned;
    let ghost owned0 = owned@;
    for i in 0..n
        invariant
            n == owned0.len(),
            owned@ == owned0,
            keyed_ws_view(entries@) == workspace_entries(
                owned0.take(i as int),
                Seq::<(Seq<char>, Team, TeamRole)>::empty(),
            ),
    {
        let t = owned[i].clone_team();
        assert(owned0.take(i + 1).drop_last() =~= owned0.take(i as int));
        let key = chars_of(t.id.as_str());
        let ws = t.into_workspace(TeamRole::Owner);
        upsert_exec(&mut entries, key, ws);
    }
    assert(owned0.take(n as int) =~= owned0);
    let m = fetched.len();
    let ghost fv = fetched_view(fetched@);
    assert(fv.take(0) =~= Seq::<(Seq<char>, Team, TeamRole)>::empty());
    for i in 0..m
        invariant
            m == fetched@.len(),
            fv == fetched_view(fetched@),
            keyed_ws_view(entries@) == workspace_entries(owned0, fv.take(i as int)),
    {
        let key = chars_of(fetched[i].0.as_str());
        let t = fetched[i].1.clone_team();
        let ws = t.into_workspace(fetched[i].2);
        assert(fv.take(i + 1).drop_last() =~= fv.take(i as int));
        assert(fv.take(i + 1).last() == fv[i as int]);
        upsert_exec(&mut entries, key, ws);
    }
    assert(fv.take(m as int) =~= fv);
    let ghost all = keyed_ws_view(entries@);
    let ghost keyed = keyed_by_lowercase_name(all);
    let mut sorted: Vec<(Vec<char>, TeamWorkspaceResponse)> = Vec::new();
    let k = entries.len();
    for i in 0..k
        invariant
            k == entries@.len(),
            all == keyed_ws_view(entries@),
            keyed == keyed_by_lowercase_name(all),
            keyed_ws_view(sorted@) == sort_by_key(keyed.take(i as int)),
    {
        let ws = entries[i].1.clone_ws();
        let lower = to_lowercase(ws.name.as_str());
        let key = chars_of(lower.as_str());
        assert(keyed.take(i + 1).drop_last() =~= keyed.take(i as int));
        assert(keyed.take(i + 1).last() == (key@, ws_view(ws)));
        insert_by_name(&mut sorted, key, ws);
    }
    assert(keyed.take(k as int) =~= keyed);
    let ghost sv = keyed_ws_view(sorted@);
    let mut teams: Vec<TeamWorkspaceResponse> = Vec::new();
    let s = sorted.len();
    for i in 0..s
        invariant
            s == sorted@.len(),
            sv == keyed_ws_view(sorted@),
            teams_view(teams@) == values_of(sv.take(i as int)),
    {
        let ghost before = teams_view(teams@);
        let c = sorted[i].1.clone_ws();
        assert(ws_view(c) == sv[i as int].1);
        teams.push(c);
        assert(teams_view(teams@) =~= before.push(ws_view(c)));
        assert(sv.take(i + 1) =~= sv.take(i as int).push(sv[i as int]));
        assert(teams_view(teams@) =~= values_of(sv.take(i + 1)));
    }
    assert(sv.take(s as int) =~= sv);
    proof {
        let tv = teams_view(teams@);
        assert forall|i: int, j: int| 0 <= i <= j < teams@.len() implies lex_le(
            unicode_lowercase(#[trigger] teams@[i].name@),
            unicode_lowercase(#[trigger] teams@[j].name@),
        ) by {
            assert(tv[i] == ws_view(teams@[i]) && tv[j] == ws_view(teams@[j]));
            assert(lex_le(unicode_lowercase(tv[i].1), unicode_lowercase(tv[j].1)));
        }
    }
    WorkspacesResponse {
        personal: PersonalWorkspaceResponse {
            id: "personal".to_string(),
            name: "个人工作区".to_string(),
        },
        teams,
    }
}

impl Team {
    /// A copy with the same field values.
    pub fn clone_team(&self) -> (r: Team)
        ensures
            r == *self,
    {
        Team {
            id: self.id.clone(),
            name: self.name.clone(),
            slug: self.slug.clone(),
            description: self.description.clone(),
            owner_id: self.owner_id.clone(),
            is_deleted: self.is_deleted,
            created_at: self.created_at.clone(),
            updated_at: self.updated_at.clone(),
        }
    }
}

} // verus!
