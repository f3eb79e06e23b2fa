use vstd::prelude::*;

verus! {

/// A stored chat conversation.
#[derive(Clone, Debug)]
pub struct Conversation {
    pub id: String,
    pub title: String,
    pub created_at: String,
    pub updated_at: String,
}

/// One message of a conversation.
#[derive(Clone, Debug)]
pub struct Message {
    pub id: String,
    pub conversation_id: String,
    pub role: String,
    pub content: String,
    pub model: Option<String>,
    pub tokens_used: Option<i64>,
    pub created_at: String,
}

/// A recorded meeting.
#[derive(Clone, Debug)]
pub struct Meeting {
    pub id: String,
    pub title: String,
    pub app_source: Option<String>,
    pub started_at: String,
    pub ended_at: Option<String>,
    pub duration_ms: Option<i64>,
    pub status: String,
    pub audio_path: Option<String>,
    pub summary: Option<String>,
    pub action_items: Option<String>,
    pub created_at: String,
    pub updated_at: String,
}

/// One transcribed segment of a meeting.
#[derive(Clone, Debug)]
pub struct MeetingSegment {
    pub id: String,
    pub meeting_id: String,
    pub speaker_id: Option<String>,
    pub speaker_name: Option<String>,
    pub text: String,
    pub start_ms: i64,
    pub end_ms: i64,
    pub created_at: String,
}

/// What finishing a meeting recording reports back.
#[derive(Clone, Debug)]
pub struct MeetingAudioResult {
    pub file_path: String,
    pub duration_ms: i64,
}

/// Largest page size a meeting listing will serve in one call.
pub const MAX_MEETING_LIMIT: u32 = 200;

/// Caps a caller-requested page size to the listing maximum.
pub fn capped_meeting_limit(limit: u32) -> (r: u32)
    ensures
        r == if limit <= MAX_MEETING_LIMIT { limit } else { MAX_MEETING_LIMIT },
{
    if limit <= MAX_MEETING_LIMIT {
        limit
    } else {
        MAX_MEETING_LIMIT
    }
}

} // verus!
