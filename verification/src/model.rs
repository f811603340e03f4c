//! The archived post record and its content blocks.

use vstd::prelude::*;

verus! {

/// One span of the rendered syntax tree that the archive keeps beside a post.
#[derive(Debug, Clone, PartialEq)]
pub struct AstSpan {
    pub start_index: u64,
    pub end_index: u64,
    pub ast: String,
}

/// The rendered syntax tree of a post, as the archive keeps it.
#[derive(Debug, Clone, PartialEq)]
pub struct AstMap {
    pub spans: Vec<AstSpan>,
    pub read_more_index: Option<u64>,
}

/// Whether a project takes asks, and from whom.
#[derive(Debug, Clone, PartialEq)]
pub struct AskSettings {
    pub enabled: bool,
    pub allow_anon: bool,
    pub require_logged_in_anon: bool,
}

/// Who may see a project or an entry of its contact card.
#[derive(Debug, Clone, PartialEq)]
pub enum Privacy {
    Public,
    LoggedIn,
}

/// One way to reach a project.
#[derive(Debug, Clone, PartialEq)]
pub struct ContactCardEntry {
    pub value: String,
    pub service: String,
    pub visibility: Privacy,
}

/// The project that wrote a post. Rendering reads `handle` and
/// `display_name`; the rest is carried along.
#[derive(Debug, Clone, PartialEq)]
pub struct PostingProject {
    pub handle: String,
    pub display_name: String,
    pub dek: String,
    pub description: String,
    pub avatar_url: String,
    pub avatar_preview_url: String,
    pub header_url: Option<String>,
    pub header_preview_url: Option<String>,
    pub project_id: u64,
    pub privacy: Privacy,
    pub pronouns: String,
    pub url: String,
    pub flags: Vec<String>,
    pub avatar_shape: String,
    pub logged_out_post_visibility: String,
    pub ask_settings: AskSettings,
    pub frequently_used_tags: Vec<String>,
    pub contact_card: Vec<ContactCardEntry>,
}

/// A run of Markdown text.
#[derive(Debug, Clone, PartialEq)]
pub struct Markdown {
    pub content: String,
}

/// A picture, by the address of its file, with the text that stands for
/// it where it has one.
#[derive(Debug, Clone, PartialEq)]
pub struct ImageAttachment {
    pub file_url: String,
    pub preview_url: String,
    pub attachment_id: String,
    pub alt_text: Option<String>,
    pub width: i64,
    pub height: i64,
}

/// A recording, by the address of its file, with its title and artist.
#[derive(Debug, Clone, PartialEq)]
pub struct AudioAttachment {
    pub file_url: String,
    pub preview_url: String,
    pub attachment_id: String,
    pub artist: String,
    pub title: String,
}

/// A file that a post shows.
#[derive(Debug, Clone, PartialEq)]
pub enum Attachment {
    Image(ImageAttachment),
    Audio(AudioAttachment),
}

/// The project that sent an ask.
#[derive(Debug, Clone, PartialEq)]
pub struct AskingProject {
    pub project_id: i64,
    pub avatar_preview_url: String,
    pub avatar_shape: String,
    pub avatar_url: String,
    pub flags: Vec<String>,
    pub handle: String,
    pub privacy: Privacy,
    pub display_name: String,
}

/// A question sent to the author of a post. The sender is anonymous when
/// `anon` is set, and `asking_project` otherwise.
#[derive(Debug, Clone, PartialEq)]
pub struct Ask {
    pub ask_id: String,
    pub anon: bool,
    pub logged_in: bool,
    pub asking_project: Option<AskingProject>,
    pub content: String,
    pub sent_at: String,
}

/// One piece of a post's body. The members of a row are attachments; a
/// row within a row shows nothing.
#[derive(Debug, PartialEq)]
pub enum Block {
    Markdown { markdown: Markdown },
    AttachmentRow { attachments: Vec<Block> },
    Attachment { attachment: Attachment },
    Ask { ask: Ask },
}

/// One post. `share_tree` holds the posts that this one shares, oldest
/// first, each as a full copy. `published_at`, like `sent_at` of an ask, is
/// a timestamp as the archive wrote it; it is read when the post is
/// rendered.
#[derive(Debug, PartialEq)]
pub struct Chost {
    pub post_id: u64,
    pub headline: String,
    pub published_at: String,
    pub filename: String,
    pub transparent_share_of_post_id: Option<u64>,
    pub share_of_post_id: Option<u64>,
    pub state: u64,
    pub num_comments: u64,
    pub num_shared_comments: u64,
    pub cws: Vec<String>,
    pub tags: Vec<String>,
    pub blocks: Vec<Block>,
    pub plain_text_body: String,
    pub posting_project: PostingProject,
    pub share_tree: Vec<Chost>,
    pub related_projects: Vec<PostingProject>,
    pub single_post_page_url: String,
    pub effective_adult_content: bool,
    pub is_editor: bool,
    pub contributor_block_incoming_or_outgoing: bool,
    pub has_any_contributor_muted: bool,
    pub post_edit_url: String,
    pub is_liked: bool,
    pub can_share: bool,
    pub can_publish: bool,
    pub has_cohost_plus: bool,
    pub pinned: bool,
    pub comments_locked: bool,
    pub shares_locked: bool,
    pub limited_visibility_reason: String,
    pub ast_map: AstMap,
    pub response_to_ask_id: Option<u64>,
}

} // verus!
