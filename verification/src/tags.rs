use vstd::prelude::*;

use crate::models::{field_errors_view, CreateTagRequest, FieldError, UpdateTagRequest};
use crate::text::{
    chars_of, has_prefix, is_alphanumeric, join, join_chars, nonempty_chars, nonempty_only, seqs,
    slice, split_set, split_set_chars, string_of, to_lowercase, unicode_alphanumeric,
    unicode_lowercase, CharSet,
};

verus! {

/// A tag of a space (its record ids as `table:key` text, timestamps as RFC 3339 text).
#[derive(Debug, Clone)]
pub struct Tag {
    pub id: Option<String>,
    pub name: String,
    pub slug: String,
    pub description: Option<String>,
    pub color: String,
    pub space_id: Option<String>,
    pub usage_count: i64,
    pub created_by: String,
    pub created_at: String,
    pub updated_at: String,
}

/// The tagging of a document with a tag.
#[derive(Debug, Clone)]
pub struct DocumentTag {
    pub id: Option<String>,
    pub document_id: String,
    pub tag_id: String,
    pub tagged_by: String,
    pub tagged_at: String,
}

pub open spec fn is_digit(c: char) -> bool {
    '0' <= c && c <= '9'
}

/// RFC 3339 text of a UTC time whose `T` stands at `t`: a year of digits
/// (four, or more after a `+`), `-MM-DD`, `T`, `HH:MM:SS`, a fraction of
/// three, six or nine digits or none, and the offset `+00:00`.
pub open spec fn rfc3339_utc_text_at(s: Seq<char>, t: int) -> bool {
    let f = s.len() - 6 - (t + 9);
    &&& 10 <= t
    &&& t + 15 <= s.len()
    &&& forall|i: int| 0 <= i < t - 6 ==> is_digit(#[trigger] s[i]) || (i == 0 && s[i] == '+')
    &&& s[t - 6] == '-' && is_digit(s[t - 5]) && is_digit(s[t - 4])
    &&& s[t - 3] == '-' && is_digit(s[t - 2]) && is_digit(s[t - 1])
    &&& s[t] == 'T' && is_digit(s[t + 1]) && is_digit(s[t + 2])
    &&& s[t + 3] == ':' && is_digit(s[t + 4]) && is_digit(s[t + 5])
    &&& s[t + 6] == ':' && is_digit(s[t + 7]) && is_digit(s[t + 8])
    &&& (f == 0 || f == 4 || f == 7 || f == 10)
    &&& f > 0 ==> s[t + 9] == '.' && forall|i: int| t + 10 <= i < t + 9 + f ==> is_digit(#[trigger] s[i])
    &&& s.subrange(s.len() - 6, s.len() as int) == "+00:00"@
}

/// RFC 3339 text of a UTC time, as `chrono` writes it.
pub open spec fn rfc3339_utc_text(s: Seq<char>) -> bool {
    exists|t: int| rfc3339_utc_text_at(s, t)
}

/// `chrono::Utc::now().to_rfc3339()`: the current time in RFC 3339 text with
/// the offset written `+00:00`; which time is left open.
#[verifier::external_body]
fn current_timestamp() -> (r: String)
    ensures
        rfc3339_utc_text(r@),
{
    chrono::Utc::now().to_rfc3339()
}

/// Every character that is not alphanumeric turned into `-`.
pub open spec fn dash_mapped(s: Seq<char>) -> Seq<char> {
    Seq::new(s.len(), |i: int| if unicode_alphanumeric(s[i]) { s[i] } else { '-' })
}

/// The slug of a tag name: the lowercased name with every run of characters
/// that are not alphanumeric turned into one `-`, without a `-` at either end.
pub open spec fn slug_of(name: Seq<char>) -> Seq<char> {
    join(nonempty_only(split_set(dash_mapped(unicode_lowercase(name)), CharSet::Dash)), "-"@)
}

/// The tag after one more use.
pub open spec fn used_once_more(t: Tag) -> Tag {
    Tag { usage_count: (t.usage_count + 1) as i64, ..t }
}

/// The tag after one use less: a count above zero goes down by one, any other
/// stays.
pub open spec fn used_once_less(t: Tag) -> Tag {
    Tag {
        usage_count: if t.usage_count > 0 {
            (t.usage_count - 1) as i64
        } else {
            t.usage_count
        },
        ..t
    }
}

/// Taking a use back undoes it: one more use and then one less leave a tag as
/// it was, for a count that is not negative and can still grow; and a count
/// that is not negative never becomes negative.
pub proof fn law_usage_count_round_trip(t: Tag)
    requires
        0 <= t.usage_count,
    ensures
        t.usage_count < i64::MAX ==> used_once_less(used_once_more(t)) == t,
        used_once_less(t).usage_count >= 0,
        t.usage_count < i64::MAX ==> used_once_more(t).usage_count > 0,
{
}

/// A tag slug never starts or ends with `-` and never holds two `-` in a row:
/// each `-` stands between two words.
pub proof fn law_slug_words_joined_by_single_dash(name: Seq<char>)
    ensures
        crate::text::separated_once(slug_of(name), CharSet::Dash),
{
    reveal_strlit("-");
    let pieces = split_set(dash_mapped(unicode_lowercase(name)), CharSet::Dash);
    crate::text::lemma_split_pieces_outside(dash_mapped(unicode_lowercase(name)), CharSet::Dash);
    crate::text::lemma_nonempty_only_outside(pieces, CharSet::Dash);
    assert("-"@ =~= seq!['-']);
    crate::text::lemma_join_separated_once(nonempty_only(pieces), '-', CharSet::Dash);
}

impl Tag {
    /// The slug of a tag name.
    pub fn generate_slug(name: &str) -> (r: String)
        ensures
            r@ == slug_of(name@),
    {
        let lower = to_lowercase(name);
        let c = chars_of(lower.as_str());
        let mut mapped: Vec<char> = Vec::new();
        let n = c.len();
        for i in 0..n
            invariant
                n == c.len(),
                mapped@ == dash_mapped(c@).take(i as int),
        {
            let ch = c[i];
            if is_alphanumeric(ch) {
                mapped.push(ch);
            } else {
                mapped.push('-');
            }
            assert(mapped@ =~= dash_mapped(c@).take(i + 1));
        }
        assert(dash_mapped(c@).take(n as int) =~= dash_mapped(c@));
        let pieces = split_set_chars(&mapped, CharSet::Dash);
        let kept = nonempty_chars(&pieces);
        string_of(&join_chars(&kept, &chars_of("-")))
    }

    /// A new tag with the slug of its name, no description or space, used by
    /// nothing yet, created now.
    pub fn new(name: String, color: String, created_by: String) -> (t: Tag)
        ensures
            t.id is None,
            t.name == name,
            t.slug@ == slug_of(name@),
            t.description is None,
            t.color == color,
            t.space_id is None,
            t.usage_count == 0,
            t.created_by == created_by,
            rfc3339_utc_text(t.created_at@) && t.created_at@.len() > 0,
            rfc3339_utc_text(t.updated_at@) && t.updated_at@.len() > 0,
    {
        let slug = Self::generate_slug(name.as_str());
        Tag {
            id: None,
            name,
            slug,
            description: None,
            color,
            space_id: None,
            usage_count: 0,
            created_by,
            created_at: current_timestamp(),
            updated_at: current_timestamp(),
        }
    }

    /// The tag with the given description.
    pub fn with_description(self, description: String) -> (t: Tag)
        ensures
            t == (Tag { description: Some(description), ..self }),
    {
        let mut t = self;
        t.description = Some(description);
        t
    }

    /// The tag in the given space.
    pub fn with_space(self, space_id: Option<String>) -> (t: Tag)
        ensures
            t == (Tag { space_id: space_id, ..self }),
    {
        let mut t = self;
        t.space_id = space_id;
        t
    }

    /// One more use of the tag.
    pub fn increment_usage(&mut self)
        requires
            old(self).usage_count < i64::MAX,
        ensures
            *final(self) == used_once_more(*old(self)),
    {
        self.usage_count = self.usage_count + 1;
    }

    /// One use less, never below zero.
    pub fn decrement_usage(&mut self)
        ensures
            *final(self) == used_once_less(*old(self)),
    {
        if self.usage_count > 0 {
            self.usage_count = self.usage_count - 1;
        }
    }
}

impl DocumentTag {
    /// The tagging of a document, done now by `tagged_by`.
    pub fn new(document_id: String, tag_id: String, tagged_by: String) -> (d: DocumentTag)
        ensures
            d.id is None,
            d.document_id == document_id,
            d.tag_id == tag_id,
            d.tagged_by == tagged_by,
            rfc3339_utc_text(d.tagged_at@) && d.tagged_at@.len() > 0,
    {
        DocumentTag { id: None, document_id, tag_id, tagged_by, tagged_at: current_timestamp() }
    }
}

/// The index of the first `c` in `s`, or -1.
pub open spec fn index_of(s: Seq<char>, c: char) -> int
    decreases s.len(),
{
    if s.len() == 0 {
        -1
    } else if s[0] == c {
        0
    } else {
        let r = index_of(s.drop_first(), c);
        if r < 0 {
            -1
        } else {
            r + 1
        }
    }
}

/// The table and key of a record id written `table:key`, split at the first
/// `:`; a key written `⟨key⟩` loses its brackets.
pub open spec fn record_id_parts_spec(value: Seq<char>) -> Option<(Seq<char>, Seq<char>)> {
    let i = index_of(value, ':');
    if i < 0 {
        None
    } else {
        let key = value.skip(i + 1);
        if key.len() >= 2 && key[0] == '⟨' && key.last() == '⟩' {
            Some((value.take(i), key.subrange(1, key.len() - 1)))
        } else {
            Some((value.take(i), key))
        }
    }
}

/// The table and key of a record id written `table:key` (`⟨key⟩` loses its
/// brackets), or none without a `:`.
pub fn record_id_parts(value: &str) -> (r: Option<(String, String)>)
    ensures
        match r {
            Some(p) => record_id_parts_spec(value@) == Some((p.0@, p.1@)),
            None => record_id_parts_spec(value@) is None,
        },
{
    let c = chars_of(value);
    let mut i: usize = 0;
    assert(c@.skip(0) =~= c@);
    while i < c.len() && c[i] != ':'
        invariant
            i <= c.len(),
            index_of(c@, ':') == if index_of(c@.skip(i as int), ':') < 0 {
                -1
            } else {
                index_of(c@.skip(i as int), ':') + i
            },
        decreases c.len() - i,
    {
        assert(c@.skip(i as int).drop_first() =~= c@.skip(i + 1));
        assert(c@.skip(i as int)[0] == c@[i as int]);
        i = i + 1;
    }
    if i == c.len() {
        assert(c@.skip(i as int).len() == 0);
        return None;
    }
    assert(c@.skip(i as int)[0] == ':');
    let table = slice(&c, 0, i);
    let key = slice(&c, i + 1, c.len());
    assert(key@ =~= c@.skip(i + 1));
    let k = key.len();
    if k >= 2 && key[0] == '⟨' && key[k - 1] == '⟩' {
        let inner = slice(&key, 1, k - 1);
        Some((string_of(&table), string_of(&inner)))
    } else {
        Some((string_of(&table), string_of(&key)))
    }
}

/// The rules of a tag creation request that it breaks, in order: the name
/// must have 1 to 50 characters, the description at most 200, the color 4 to 7.
pub open spec fn create_tag_errors(r: CreateTagRequest) -> Seq<(Seq<char>, Seq<char>)> {
    (if 1 <= r.name@.len() <= 50 {
        Seq::empty()
    } else {
        seq![("name"@, "length"@)]
    }) + (if r.description is None || r.description->0@.len() <= 200 {
        Seq::empty()
    } else {
        seq![("description"@, "length"@)]
    }) + (if 4 <= r.color@.len() <= 7 {
        Seq::empty()
    } else {
        seq![("color"@, "length"@)]
    })
}

/// The rules of a tag update request that it breaks, for the fields it gives.
pub open spec fn update_tag_errors(r: UpdateTagRequest) -> Seq<(Seq<char>, Seq<char>)> {
    (if r.name is None || 1 <= r.name->0@.len() <= 50 {
        Seq::empty()
    } else {
        seq![("name"@, "length"@)]
    }) + (if r.description is None || r.description->0@.len() <= 200 {
        Seq::empty()
    } else {
        seq![("description"@, "length"@)]
    }) + (if r.color is None || 4 <= r.color->0@.len() <= 7 {
        Seq::empty()
    } else {
        seq![("color"@, "length"@)]
    })
}

fn push_length_error(errors: &mut Vec<FieldError>, field: &str)
    ensures
        field_errors_view(final(errors)@) == field_errors_view(old(errors)@).push((field@, "length"@)),
{
    let ghost before = field_errors_view(errors@);
    errors.push(FieldError { field: field.to_string(), message: "length".to_string() });
    assert(field_errors_view(errors@) =~= before.push((field@, "length"@)));
}

fn char_count(s: &str) -> (n: usize)
    ensures
        n == s@.len(),
{
    chars_of(s).len()
}

impl CreateTagRequest {
    /// Checks the request's field lengths: `Ok` when no rule is broken, else
    /// each broken rule.
    pub fn validate(&self) -> (r: Result<(), Vec<FieldError>>)
        ensures
            match r {
                Ok(()) => create_tag_errors(*self).len() == 0,
                Err(errors) => create_tag_errors(*self).len() > 0 && field_errors_view(errors@)
                    == create_tag_errors(*self),
            },
    {
        let mut errors: Vec<FieldError> = Vec::new();
        let ghost e0 = field_errors_view(errors@);
        let n = char_count(self.name.as_str());
        if !(1 <= n && n <= 50) {
            push_length_error(&mut errors, "name");
        }
        let ghost e1 = field_errors_view(errors@);
        match &self.description {
            Some(d) => {
                if char_count(d.as_str()) > 200 {
                    push_length_error(&mut errors, "description");
                }
            },
            None => {},
        }
        let ghost e2 = field_errors_view(errors@);
        let c = char_count(self.color.as_str());
        if !(4 <= c && c <= 7) {
            push_length_error(&mut errors, "color");
        }
        assert(field_errors_view(errors@) =~= create_tag_errors(*self));
        if errors.len() == 0 {
            Ok(())
        } else {
            Err(errors)
        }
    }
}

impl UpdateTagRequest {
    /// Checks the lengths of the fields the request gives: `Ok` when no rule
    /// is broken, else each broken rule.
    pub fn validate(&self) -> (r: Result<(), Vec<FieldError>>)
        ensures
            match r {
                Ok(()) => update_tag_errors(*self).len() == 0,
                Err(errors) => update_tag_errors(*self).len() > 0 && field_errors_view(errors@)
                    == update_tag_errors(*self),
            },
    {
        let mut errors: Vec<FieldError> = Vec::new();
        let ghost e0 = field_errors_view(errors@);
        match &self.name {
            Some(n) => {
                let k = char_count(n.as_str());
                if !(1 <= k && k <= 50) {
                    push_length_error(&mut errors, "name");
                }
            },
            None => {},
        }
        let ghost e1 = field_errors_view(errors@);
        match &self.description {
            Some(d) => {
                if char_count(d.as_str()) > 200 {
                    push_length_error(&mut errors, "description");
                }
            },
            None => {},
        }
        let ghost e2 = field_errors_view(errors@);
        match &self.color {
            Some(c) => {
                let k = char_count(c.as_str());
                if !(4 <= k && k <= 7) {
                    push_length_error(&mut errors, "color");
                }
            },
            None => {},
        }
        assert(field_errors_view(errors@) =~= update_tag_errors(*self));
        if errors.len() == 0 {
            Ok(())
        } else {
            Err(errors)
        }
    }
}

} // verus!
