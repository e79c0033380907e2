use vstd::prelude::*;

verus! {

/// Number of fixed-point steps in one unit of a measured value:
/// a stored value `v` stands for `v / SCALE` units.
pub const SCALE: i64 = 1_000_000;

/// The signed-in user as reported by the server.
#[derive(Debug, Clone)]
pub struct AuthUser {
    pub authenticated: bool,
    pub user_id: Option<String>,
    pub display_name: Option<String>,
    pub email: Option<String>,
    pub is_admin: Option<bool>,
    pub gender: Option<String>,
}

/// One measured analyte inside a dated entry.
#[derive(Debug, Clone)]
pub struct BloodValue {
    pub name: String,
    /// Fixed-point value, in millionths of `unit`.
    pub value: i64,
    pub unit: String,
    pub category: String,
    pub short_name: Option<String>,
    pub long_name: Option<String>,
}

/// One dated lab report holding several measurements.
#[derive(Debug, Clone)]
pub struct BloodEntry {
    pub id: String,
    pub date: String,
    pub lab_name: Option<String>,
    pub notes: Option<String>,
    pub values: Vec<BloodValue>,
}

/// All entries of one user, oldest first.
#[derive(Debug, Clone)]
pub struct UserData {
    pub user_id: String,
    pub display_name: String,
    pub email: String,
    pub gender: Option<String>,
    pub entries: Vec<BloodEntry>,
}

/// Reference data of one analyte. Every bound is a fixed-point value in
/// millionths of `unit`; an absent bound means "unbounded on that side".
#[derive(Debug, Clone)]
pub struct ReferenceValue {
    pub id: String,
    pub name: String,
    pub short_name: Option<String>,
    pub long_name: Option<String>,
    pub aliases: Vec<String>,
    pub category: String,
    pub unit: String,
    pub ref_min: Option<i64>,
    pub ref_max: Option<i64>,
    pub ref_min_female: Option<i64>,
    pub ref_max_female: Option<i64>,
    pub ref_min_male: Option<i64>,
    pub ref_max_male: Option<i64>,
    pub optimal_min: Option<i64>,
    pub optimal_max: Option<i64>,
    pub critical_low: Option<i64>,
    pub critical_high: Option<i64>,
    pub description: String,
    pub high_info: String,
    pub low_info: String,
    pub recommendations: String,
}

/// The reference database: a version tag, its date and one entry per analyte.
#[derive(Debug, Clone)]
pub struct ReferenceDatabase {
    pub version: String,
    pub updated: String,
    pub values: Vec<ReferenceValue>,
}

/// One point of an analyte's history.
#[derive(Debug, Clone)]
pub struct ValueHistoryPoint {
    pub date: String,
    /// Fixed-point value, in millionths of `unit`.
    pub value: i64,
    pub unit: String,
    pub entry_id: String,
}

/// The history of one analyte, oldest first.
#[derive(Debug, Clone)]
pub struct ValueHistory {
    pub name: String,
    pub history: Vec<ValueHistoryPoint>,
}

/// One message of the assistant conversation.
#[derive(Debug, Clone)]
pub struct ChatMessage {
    pub id: String,
    pub role: String,
    pub content: String,
    pub timestamp: String,
}

/// The stored assistant conversation of a user.
#[derive(Debug, Clone)]
pub struct ChatHistory {
    pub user_id: String,
    pub messages: Vec<ChatMessage>,
}

/// The server's answer to a chat message: the stored question and the reply.
#[derive(Debug, Clone)]
pub struct ChatResponse {
    pub message: ChatMessage,
    pub user_message: ChatMessage,
}

/// The values of a history, in order.
pub open spec fn history_values(h: Seq<ValueHistoryPoint>) -> Seq<i64> {
    h.map_values(|p: ValueHistoryPoint| p.value)
}

/// A copy of an optional string.
pub fn copy_opt_string(s: &Option<String>) -> (r: Option<String>)
    ensures
        r == *s,
{
    match s {
        Some(t) => Some(t.clone()),
        None => None,
    }
}

impl BloodValue {
    /// A field-by-field copy.
    pub fn duplicate(&self) -> (r: BloodValue)
        ensures
            r == *self,
    {
        BloodValue {
            name: self.name.clone(),
            value: self.value,
            unit: self.unit.clone(),
            category: self.category.clone(),
            short_name: copy_opt_string(&self.short_name),
            long_name: copy_opt_string(&self.long_name),
        }
    }
}

impl ValueHistoryPoint {
    /// A field-by-field copy.
    pub fn duplicate(&self) -> (r: ValueHistoryPoint)
        ensures
            r == *self,
    {
        ValueHistoryPoint {
            date: self.date.clone(),
            value: self.value,
            unit: self.unit.clone(),
            entry_id: self.entry_id.clone(),
        }
    }
}

} // verus!
