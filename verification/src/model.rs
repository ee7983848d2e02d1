//! The document model: one exported conversation (a tree of message
//! nodes) and one feedback record, together with the abstractions that
//! the contracts speak about.
//!
//! Numbers that the archive stores as double-precision floats (creation
//! times, weights) are carried as a `NumKey`: an order-preserving integer
//! encoding of the IEEE-754 bit pattern, so that comparing two keys with
//! `<` compares the underlying timestamps.  The calling program converts
//! floats to keys and back at the boundary.

use vstd::prelude::*;
use crate::hist::Hist;
use crate::json::Json;
use crate::json::JsonView;

verus! {

/// Order-preserving integer encoding of an IEEE-754 double.
pub type NumKey = u64;

/// The key of the bit pattern `b`: flips the sign bit of non-negative
/// values and all bits of negative ones, so unsigned comparison of keys
/// orders the encoded doubles.
pub open spec fn spec_num_key(b: u64) -> u64 {
    if b >> 63 == 1 {
        !b
    } else {
        b | 0x8000_0000_0000_0000
    }
}

/// Computes `spec_num_key`.
pub fn num_key(b: u64) -> (r: u64)
    ensures
        r == spec_num_key(b),
{
    if b >> 63 == 1 {
        !b
    } else {
        b | 0x8000_0000_0000_0000
    }
}

/// The abstraction of an optional viewable value.
pub open spec fn o_view<T: View>(o: Option<T>) -> Option<T::V> {
    match o {
        Some(x) => Some(x@),
        None => None,
    }
}

/// The abstraction of each element of a sequence.
pub open spec fn seq_view<T: View>(s: Seq<T>) -> Seq<T::V> {
    s.map_values(|x: T| x@)
}

/// The abstraction of each pair of a sequence of pairs.
pub open spec fn pairs_view<A: View, B: View>(s: Seq<(A, B)>) -> Seq<(A::V, B::V)> {
    s.map_values(|p: (A, B)| (p.0@, p.1@))
}

/// A conversation field that the archive stores either as an integer or
/// as a string.
#[derive(Debug)]
pub enum AsyncStatus {
    Int(i32),
    Str(String),
}

pub enum AsyncStatusView {
    Int(i32),
    Str(Seq<char>),
}

impl View for AsyncStatus {
    type V = AsyncStatusView;

    open spec fn view(&self) -> AsyncStatusView {
        match self {
            AsyncStatus::Int(i) => AsyncStatusView::Int(*i),
            AsyncStatus::Str(s) => AsyncStatusView::Str(s@),
        }
    }
}

/// The shape-dependent body of a message's content.  Decoding tries the
/// variants in declaration order and keeps the first that matches, so
/// `Empty` absorbs every object without a usable `parts` or `text`
/// field, and `UserEditable` is kept only for values built in memory.
#[derive(Debug)]
pub enum ContentInner {
    TextObject { parts: Vec<String> },
    TextField { text: String },
    Empty {},
    UserEditable { user_profile: String, user_instructions: String },
}

pub enum InnerView {
    TextObject { parts: Seq<Seq<char>> },
    TextField { text: Seq<char> },
    Empty {},
    UserEditable { user_profile: Seq<char>, user_instructions: Seq<char> },
}

impl View for ContentInner {
    type V = InnerView;

    open spec fn view(&self) -> InnerView {
        match self {
            ContentInner::TextObject { parts } => InnerView::TextObject {
                parts: seq_view(parts@),
            },
            ContentInner::TextField { text } => InnerView::TextField { text: text@ },
            ContentInner::Empty {  } => InnerView::Empty {  },
            ContentInner::UserEditable { user_profile, user_instructions } => {
                InnerView::UserEditable {
                    user_profile: user_profile@,
                    user_instructions: user_instructions@,
                }
            },
        }
    }
}

/// A message's content: the verbatim content-type tag, a few optional
/// descriptive fields, and the shape-dependent body.
#[derive(Debug)]
pub struct MessageContent {
    pub content_type: String,
    pub language: Option<String>,
    pub response_format_name: Option<String>,
    pub thoughts: Option<Vec<Vec<(String, String)>>>,
    pub source_analysis_msg_id: Option<String>,
    pub inner: ContentInner,
}

pub struct ContentView {
    pub content_type: Seq<char>,
    pub language: Option<Seq<char>>,
    pub response_format_name: Option<Seq<char>>,
    pub thoughts: Option<Seq<Seq<(Seq<char>, Seq<char>)>>>,
    pub source_analysis_msg_id: Option<Seq<char>>,
    pub inner: InnerView,
}

/// The abstraction of one thought record: a small string-to-string map.
pub open spec fn thought_view(t: Vec<(String, String)>) -> Seq<(Seq<char>, Seq<char>)> {
    pairs_view(t@)
}

impl View for MessageContent {
    type V = ContentView;

    open spec fn view(&self) -> ContentView {
        ContentView {
            content_type: self.content_type@,
            language: o_view(self.language),
            response_format_name: o_view(self.response_format_name),
            thoughts: match self.thoughts {
                Some(ts) => Some(ts@.map_values(|t: Vec<(String, String)>| thought_view(t))),
                None => None,
            },
            source_analysis_msg_id: o_view(self.source_analysis_msg_id),
            inner: self.inner@,
        }
    }
}

/// Extra citation details attached to one citation item.
#[derive(Debug)]
pub struct MetadataCitationExtra {
    pub cited_message_idx: i32,
    pub search_result_idx: Option<i32>,
    pub evidence_text: String,
    pub cloud_doc_url: Option<String>,
}

pub struct ExtraView {
    pub cited_message_idx: i32,
    pub search_result_idx: Option<i32>,
    pub evidence_text: Seq<char>,
    pub cloud_doc_url: Option<Seq<char>>,
}

impl View for MetadataCitationExtra {
    type V = ExtraView;

    open spec fn view(&self) -> ExtraView {
        ExtraView {
            cited_message_idx: self.cited_message_idx,
            search_result_idx: self.search_result_idx,
            evidence_text: self.evidence_text@,
            cloud_doc_url: o_view(self.cloud_doc_url),
        }
    }
}

/// One entry of a message's citation list.  The archive spells the type
/// tag either `metadata_type` or, in older records, `type`.
#[derive(Debug)]
pub struct MetadataListItem {
    pub metadata_type: String,
    pub title: Option<String>,
    pub name: Option<String>,
    pub id: Option<String>,
    pub source: Option<String>,
    pub url: Option<String>,
    pub text: String,
    pub pub_date: Option<String>,
    pub extra: Option<MetadataCitationExtra>,
}

pub struct ItemView {
    pub metadata_type: Seq<char>,
    pub title: Option<Seq<char>>,
    pub name: Option<Seq<char>>,
    pub id: Option<Seq<char>>,
    pub source: Option<Seq<char>>,
    pub url: Option<Seq<char>>,
    pub text: Seq<char>,
    pub pub_date: Option<Seq<char>>,
    pub extra: Option<ExtraView>,
}

impl View for MetadataListItem {
    type V = ItemView;

    open spec fn view(&self) -> ItemView {
        ItemView {
            metadata_type: self.metadata_type@,
            title: o_view(self.title),
            name: o_view(self.name),
            id: o_view(self.id),
            source: o_view(self.source),
            url: o_view(self.url),
            text: self.text@,
            pub_date: o_view(self.pub_date),
            extra: o_view(self.extra),
        }
    }
}

/// Citation metadata: a citation-format map and the ordered citation list.
#[derive(Debug)]
pub struct CitationMetadata {
    pub citation_format: Vec<(String, String)>,
    pub metadata_list: Vec<MetadataListItem>,
}

pub struct CiteView {
    pub citation_format: Seq<(Seq<char>, Seq<char>)>,
    pub metadata_list: Seq<ItemView>,
}

impl View for CitationMetadata {
    type V = CiteView;

    open spec fn view(&self) -> CiteView {
        CiteView {
            citation_format: pairs_view(self.citation_format@),
            metadata_list: seq_view(self.metadata_list@),
        }
    }
}

/// Free text a user recorded about themselves and about the model.
#[derive(Debug)]
pub struct UserContextData {
    pub about_user_message: String,
    pub about_model_message: Option<String>,
}

pub struct UserCtxView {
    pub about_user_message: Seq<char>,
    pub about_model_message: Option<Seq<char>>,
}

impl View for UserContextData {
    type V = UserCtxView;

    open spec fn view(&self) -> UserCtxView {
        UserCtxView {
            about_user_message: self.about_user_message@,
            about_model_message: o_view(self.about_model_message),
        }
    }
}

/// A message's metadata: a few recognized optional sub-structures, and
/// every remaining field preserved untouched in `other`.
#[derive(Debug)]
pub struct MessageMetadata {
    pub is_visually_hidden_from_conversation: Option<bool>,
    pub user_context_message_data: Option<UserContextData>,
    pub cite_metadata: Option<CitationMetadata>,
    pub other: Vec<(String, Json)>,
}

pub struct MetaView {
    pub is_visually_hidden_from_conversation: Option<bool>,
    pub user_context_message_data: Option<UserCtxView>,
    pub cite_metadata: Option<CiteView>,
    pub other: Seq<(Seq<char>, JsonView)>,
}

impl View for MessageMetadata {
    type V = MetaView;

    open spec fn view(&self) -> MetaView {
        MetaView {
            is_visually_hidden_from_conversation: self.is_visually_hidden_from_conversation,
            user_context_message_data: o_view(self.user_context_message_data),
            cite_metadata: o_view(self.cite_metadata),
            other: pairs_view(self.other@),
        }
    }
}

/// Who authored a turn: a free-form role, an optional display name, and
/// a free-form metadata map.
#[derive(Debug)]
pub struct Author {
    pub role: String,
    pub name: Option<String>,
    pub metadata: Vec<(String, Json)>,
}

pub struct AuthorView {
    pub role: Seq<char>,
    pub name: Option<Seq<char>>,
    pub metadata: Seq<(Seq<char>, JsonView)>,
}

impl View for Author {
    type V = AuthorView;

    open spec fn view(&self) -> AuthorView {
        AuthorView {
            role: self.role@,
            name: o_view(self.name),
            metadata: pairs_view(self.metadata@),
        }
    }
}

/// One authored turn.
#[derive(Debug)]
pub struct Message {
    pub id: String,
    pub author: Author,
    pub create_time: Option<NumKey>,
    pub update_time: Option<NumKey>,
    pub content: MessageContent,
    pub status: String,
    pub end_turn: Option<bool>,
    pub weight: NumKey,
    pub metadata: MessageMetadata,
    pub recipient: String,
    pub channel: Option<String>,
}

pub struct MsgView {
    pub id: Seq<char>,
    pub author: AuthorView,
    pub create_time: Option<NumKey>,
    pub update_time: Option<NumKey>,
    pub content: ContentView,
    pub status: Seq<char>,
    pub end_turn: Option<bool>,
    pub weight: NumKey,
    pub metadata: MetaView,
    pub recipient: Seq<char>,
    pub channel: Option<Seq<char>>,
}

impl View for Message {
    type V = MsgView;

    open spec fn view(&self) -> MsgView {
        MsgView {
            id: self.id@,
            author: self.author@,
            create_time: self.create_time,
            update_time: self.update_time,
            content: self.content@,
            status: self.status@,
            end_turn: self.end_turn,
            weight: self.weight,
            metadata: self.metadata@,
            recipient: self.recipient@,
            channel: o_view(self.channel),
        }
    }
}

/// One node of a conversation's tree: a message, or a structural
/// placeholder without one.
#[derive(Debug)]
pub struct MessageNode {
    pub id: String,
    pub message: Option<Message>,
    pub parent: Option<String>,
    pub children: Vec<String>,
}

pub struct NodeView {
    pub id: Seq<char>,
    pub message: Option<MsgView>,
    pub parent: Option<Seq<char>>,
    pub children: Seq<Seq<char>>,
}

impl View for MessageNode {
    type V = NodeView;

    open spec fn view(&self) -> NodeView {
        NodeView {
            id: self.id@,
            message: o_view(self.message),
            parent: o_view(self.parent),
            children: seq_view(self.children@),
        }
    }
}

/// One exported conversation.
#[derive(Debug)]
pub struct ConversationRoot {
    pub title: String,
    pub create_time: NumKey,
    pub update_time: NumKey,
    pub mapping: Vec<(String, MessageNode)>,
    pub moderation_results: Vec<Json>,
    pub current_node: String,
    pub plugin_ids: Option<Json>,
    pub conversation_id: String,
    pub conversation_template_id: Option<String>,
    pub gizmo_id: Option<String>,
    pub gizmo_type: Option<String>,
    pub is_archived: bool,
    pub is_starred: Option<bool>,
    pub safe_urls: Vec<String>,
    pub blocked_urls: Vec<String>,
    pub default_model_slug: Option<String>,
    pub conversation_origin: Option<String>,
    pub voice: Option<String>,
    pub async_status: Option<AsyncStatus>,
    pub disabled_tool_ids: Vec<String>,
    pub is_do_not_remember: Option<bool>,
    pub memory_scope: String,
    pub sugar_item_id: Option<String>,
    pub id: String,
}

pub struct ConvView {
    pub title: Seq<char>,
    pub create_time: NumKey,
    pub update_time: NumKey,
    pub mapping: Seq<(Seq<char>, NodeView)>,
    pub moderation_results: Seq<JsonView>,
    pub current_node: Seq<char>,
    pub plugin_ids: Option<JsonView>,
    pub conversation_id: Seq<char>,
    pub conversation_template_id: Option<Seq<char>>,
    pub gizmo_id: Option<Seq<char>>,
    pub gizmo_type: Option<Seq<char>>,
    pub is_archived: bool,
    pub is_starred: Option<bool>,
    pub safe_urls: Seq<Seq<char>>,
    pub blocked_urls: Seq<Seq<char>>,
    pub default_model_slug: Option<Seq<char>>,
    pub conversation_origin: Option<Seq<char>>,
    pub voice: Option<Seq<char>>,
    pub async_status: Option<AsyncStatusView>,
    pub disabled_tool_ids: Seq<Seq<char>>,
    pub is_do_not_remember: Option<bool>,
    pub memory_scope: Seq<char>,
    pub sugar_item_id: Option<Seq<char>>,
    pub id: Seq<char>,
}

impl View for ConversationRoot {
    type V = ConvView;

    open spec fn view(&self) -> ConvView {
        ConvView {
            title: self.title@,
            create_time: self.create_time,
            update_time: self.update_time,
            mapping: pairs_view(self.mapping@),
            moderation_results: seq_view(self.moderation_results@),
            current_node: self.current_node@,
            plugin_ids: o_view(self.plugin_ids),
            conversation_id: self.conversation_id@,
            conversation_template_id: o_view(self.conversation_template_id),
            gizmo_id: o_view(self.gizmo_id),
            gizmo_type: o_view(self.gizmo_type),
            is_archived: self.is_archived,
            is_starred: self.is_starred,
            safe_urls: seq_view(self.safe_urls@),
            blocked_urls: seq_view(self.blocked_urls@),
            default_model_slug: o_view(self.default_model_slug),
            conversation_origin: o_view(self.conversation_origin),
            voice: o_view(self.voice),
            async_status: o_view(self.async_status),
            disabled_tool_ids: seq_view(self.disabled_tool_ids@),
            is_do_not_remember: self.is_do_not_remember,
            memory_scope: self.memory_scope@,
            sugar_item_id: o_view(self.sugar_item_id),
            id: self.id@,
        }
    }
}

/// The aggregate produced by analyzing a conversation list.  Counters
/// saturate at `u64::MAX` instead of overflowing; `oldest_message_time`
/// starts at a caller-supplied sentinel (the wall-clock time as a
/// `NumKey`) and `oldest_message_id` stays empty until a message beats
/// the sentinel.
pub struct Analysis {
    pub chat_amount: u64,
    pub messages_from_chatgpt: u64,
    pub messages_from_user: u64,
    pub unfinished_messages: u64,
    pub models_used: Hist,
    pub messages_sent: Vec<NumKey>,
    pub content_types: Hist,
    pub oldest_message_time: NumKey,
    pub oldest_message_id: String,
    pub authors: Hist,
    pub voices_used: Vec<String>,
    pub searched_websites: Hist,
    pub website_paths: Hist,
    pub words: Hist,
}

/// The tally of a feedback list.
pub struct Feedback {
    pub positive_amount: u64,
    pub negative_amount: u64,
}

/// Object entries abstract the same way through `deep_entry_seq` and
/// `pairs_view`.
pub proof fn lemma_entries_pairs(s: Seq<(String, Json)>)
    ensures
        crate::json::deep_entry_seq(s) == pairs_view(s),
{
    crate::json::lemma_deep_entry_seq(s);
    assert(crate::json::deep_entry_seq(s) =~= pairs_view(s));
}

/// Value lists abstract the same way through `deep_seq` and `seq_view`.
pub proof fn lemma_jsons_seq_view(s: Seq<Json>)
    ensures
        crate::json::deep_seq(s) == seq_view(s),
{
    crate::json::lemma_deep_seq(s);
    assert(crate::json::deep_seq(s) =~= seq_view(s));
}

/// A rating, after both accepted spellings of each value have been
/// collapsed.
#[derive(Debug, Clone, Copy, PartialEq, Eq, Structural)]
pub enum Rating {
    ThumbsUp,
    ThumbsDown,
}

/// One feedback record.
#[derive(Debug)]
pub struct FeedbackEntry {
    pub id: String,
    pub conversation_id: String,
    pub user_id: String,
    pub rating: Rating,
    pub create_time: String,
    pub workspace_id: Option<String>,
    pub content: String,
    pub evaluation_name: Option<String>,
    pub evaluation_treatment: Option<String>,
    pub update_time: String,
}

pub struct FeedbackEntryView {
    pub id: Seq<char>,
    pub conversation_id: Seq<char>,
    pub user_id: Seq<char>,
    pub rating: Rating,
    pub create_time: Seq<char>,
    pub workspace_id: Option<Seq<char>>,
    pub content: Seq<char>,
    pub evaluation_name: Option<Seq<char>>,
    pub evaluation_treatment: Option<Seq<char>>,
    pub update_time: Seq<char>,
}

impl View for FeedbackEntry {
    type V = FeedbackEntryView;

    open spec fn view(&self) -> FeedbackEntryView {
        FeedbackEntryView {
            id: self.id@,
            conversation_id: self.conversation_id@,
            user_id: self.user_id@,
            rating: self.rating,
            create_time: self.create_time@,
            workspace_id: o_view(self.workspace_id),
            content: self.content@,
            evaluation_name: o_view(self.evaluation_name),
            evaluation_treatment: o_view(self.evaluation_treatment),
            update_time: self.update_time@,
        }
    }
}

} // verus!
