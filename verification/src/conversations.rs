//! Conversation transcript records. Persistence is plain blob storage
//! owned by the shell; only the data shapes live here.

use vstd::prelude::*;

verus! {

/// A single message in a conversation.
#[derive(Debug, Clone)]
pub struct Message {
    pub id: String,
    /// "user" or "assistant".
    pub role: String,
    pub content: String,
    pub timestamp: i64,
    /// Raw JSON text of any additional metadata.
    pub metadata: String,
}

/// Summary of one stored conversation.
#[derive(Debug, Clone)]
pub struct ConversationMetadata {
    pub space_id: String,
    pub space_name: String,
    pub updated_at: String,
    pub message_count: i64,
}

} // verus!
