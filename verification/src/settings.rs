use vstd::prelude::*;

use crate::fields::{fields_view, upsert, upsert_field};

verus! {

/// The statement that stores one section of the global settings, with the
/// section's value bound as `$data` and the time as `$now`.
pub fn settings_update_sql(section: &str) -> (r: String)
    ensures
        r@ == "UPDATE settings:global SET "@ + section@ + " = $data, updated_at = $now RETURN AFTER"@,
{
    let mut s = String::new();
    s.append("UPDATE settings:global SET ");
    s.append(section);
    s.append(" = $data, updated_at = $now RETURN AFTER");
    s
}

/// The settings with one section set to `data`: the section of that name is
/// replaced, or added when the settings have none.
pub fn settings_with_section<V>(settings: Vec<(String, V)>, section: &str, data: V) -> (r: Vec<(String, V)>)
    ensures
        fields_view(r@) == upsert(fields_view(settings@), section@, data),
{
    let mut out = settings;
    upsert_field(&mut out, section.to_string(), data);
    out
}

/// After a settings section is set, it reads back as the data sent, and every
/// other section keeps the value it had.
pub proof fn law_settings_section_reads_back<V>(settings: Seq<(String, V)>, section: Seq<char>, data: V, other: Seq<char>)
    ensures
        crate::fields::lookup(fallback_fields(settings, section, data), section) == Some(data),
        other != section ==> crate::fields::lookup(fallback_fields(settings, section, data), other)
            == crate::fields::lookup(fields_view(settings), other),
{
    crate::fields::lemma_upsert_lookup_same(fields_view(settings), section, data);
    if other != section {
        crate::fields::lemma_upsert_lookup_other(fields_view(settings), section, data, other);
    }
}

/// What came of storing a settings section.
pub enum SettingsWrite<V> {
    /// The statement could not be run.
    Failed,
    /// It ran, but its result could not be read.
    Unreadable,
    /// The records it returned.
    Stored(Vec<V>),
}

/// The settings shown after an update: the stored record, or the defaults
/// with the new section when nothing stored can be shown.
pub enum SettingsData<V> {
    Stored(V),
    Fallback(Vec<(String, V)>),
}

/// The answer to a settings update; it always succeeds, with a warning when
/// the update may not have been kept.
pub struct SettingsReply<V> {
    pub data: SettingsData<V>,
    pub warning: Option<String>,
}

/// The data an update answers with when it has nothing stored to show.
pub open spec fn fallback_fields<V>(defaults: Seq<(String, V)>, section: Seq<char>, data: V) -> Seq<(Seq<char>, V)> {
    upsert(fields_view(defaults), section, data)
}

/// The answer to an update of one settings section. When the statement failed
/// or its result could not be read, the defaults with the new section are
/// shown with a warning that says which; otherwise the first stored record is
/// shown, or, when none came back, the defaults with the new section, with no
/// warning.
pub fn settings_reply<V>(defaults: Vec<(String, V)>, section: &str, data: V, write: SettingsWrite<V>) -> (r: SettingsReply<V>)
    ensures
        match write {
            SettingsWrite::Failed => {
                &&& r.data matches SettingsData::Fallback(f) && fields_view(f@) == fallback_fields(
                    defaults@,
                    section@,
                    data,
                )
                &&& r.warning matches Some(w) && w@ == "settings update was not persisted"@
            },
            SettingsWrite::Unreadable => {
                &&& r.data matches SettingsData::Fallback(f) && fields_view(f@) == fallback_fields(
                    defaults@,
                    section@,
                    data,
                )
                &&& r.warning matches Some(w) && w@ == "settings update result was not readable"@
            },
            SettingsWrite::Stored(rows) => {
                &&& r.warning is None
                &&& if rows@.len() > 0 {
                    r.data matches SettingsData::Stored(v) && v == rows@[0]
                } else {
                    r.data matches SettingsData::Fallback(f) && fields_view(f@) == fallback_fields(
                        defaults@,
                        section@,
                        data,
                    )
                }
            },
        },
{
    match write {
        SettingsWrite::Failed => SettingsReply {
            data: SettingsData::Fallback(settings_with_section(defaults, section, data)),
            warning: Some("settings update was not persisted".to_string()),
        },
        SettingsWrite::Unreadable => SettingsReply {
            data: SettingsData::Fallback(settings_with_section(defaults, section, data)),
            warning: Some("settings update result was not readable".to_string()),
        },
        SettingsWrite::Stored(rows) => {
            let mut rows = rows;
            if rows.len() > 0 {
                let first = rows.remove(0);
                SettingsReply { data: SettingsData::Stored(first), warning: None }
            } else {
                SettingsReply {
                    data: SettingsData::Fallback(settings_with_section(defaults, section, data)),
                    warning: None,
                }
            }
        },
    }
}

} // verus!
