//! Post creation and conversion to outgoing room messages.
//!
//! A post is content of one of four kinds plus its targets and intended
//! privacy tiers. Converting a post to an outgoing message builds the plain
//! body and, for links, the HTML rendering with every user-supplied string
//! escaped; handing the result to the transport happens outside the
//! library.

use vstd::prelude::*;

use crate::feed_room::FeedPrivacy;
use crate::records::LinkPreview;

verus! {

/// Post content types.
#[derive(Clone, Debug)]
pub enum PostContent {
    /// Text-only post, optionally with HTML formatting and mentions.
    Text {
        /// Plain text body of the post.
        body: String,
        /// Optional HTML-formatted body.
        formatted_body: Option<String>,
        /// User identities mentioned in the post.
        mentions: Vec<String>,
    },
    /// Photo/image post with optional caption.
    Image {
        /// URI of the uploaded image.
        mxc_uri: String,
        /// Optional caption for the image.
        caption: Option<String>,
        /// Optional thumbnail URI.
        thumbnail_uri: Option<String>,
        /// Image width in pixels.
        width: u32,
        /// Image height in pixels.
        height: u32,
    },
    /// Video post with optional caption.
    Video {
        /// URI of the uploaded video.
        mxc_uri: String,
        /// Optional caption for the video.
        caption: Option<String>,
        /// Optional thumbnail URI.
        thumbnail_uri: Option<String>,
        /// Duration in milliseconds.
        duration_ms: Option<u64>,
    },
    /// Link share with optional preview.
    Link {
        /// The URL being shared.
        url: String,
        /// Optional comment about the link.
        comment: Option<String>,
        /// Optional rich link preview data.
        preview: Option<LinkPreview>,
    },
}

/// An outgoing room message, ready for the transport to wrap and send.
#[derive(Clone, Debug)]
pub enum RoomMessageContent {
    /// A text message, optionally formatted, with its mentions.
    Text {
        /// Plain text body.
        body: String,
        /// Optional HTML-formatted body.
        formatted_body: Option<String>,
        /// User identities to mention.
        mentions: Vec<String>,
    },
    /// An image message.
    Image {
        /// Plain text body standing for the image.
        body: String,
        /// URI of the image.
        mxc_uri: String,
    },
    /// A video message.
    Video {
        /// Plain text body standing for the video.
        body: String,
        /// URI of the video.
        mxc_uri: String,
    },
}

/// HTML-escaping of one character as it appears in a text node.
pub open spec fn spec_escape_char(c: char) -> Seq<char> {
    if c == '&' {
        "&amp;"@
    } else if c == '<' {
        "&lt;"@
    } else if c == '>' {
        "&gt;"@
    } else {
        seq![c]
    }
}

/// HTML-escaping of a string used in a text node: `&`, `<` and `>` become
/// entities, every other character stays.
pub open spec fn spec_escape_text(s: Seq<char>) -> Seq<char>
    decreases s.len(),
{
    if s.len() == 0 {
        Seq::empty()
    } else {
        spec_escape_char(s[0]) + spec_escape_text(s.drop_first())
    }
}

/// Relies on htmlize's `escape_text`: it replaces exactly the bytes of `&`,
/// `<` and `>` by `&amp;`, `&lt;` and `&gt;` and keeps every other byte,
/// which on UTF-8 text is the same substitution character by character.
#[verifier::external_body]
fn escape_text(s: &str) -> (r: String)
    ensures
        r@ == spec_escape_text(s@),
{
    htmlize::escape_text(s).into_owned()
}

/// The HTML anchor for a URL, labelled by the URL itself.
pub open spec fn spec_url_anchor(url: Seq<char>) -> Seq<char> {
    "<a href=\""@ + url + "\">"@ + url + "</a>"@
}

/// The HTML rendering of a link post: the optional comment as an escaped
/// paragraph, then either the preview as a block quote (title or bare
/// anchor, description, site name) or a paragraph with the bare anchor, or
/// the bare anchor alone.
pub open spec fn spec_link_html(
    url: Seq<char>,
    comment: Option<String>,
    preview: Option<LinkPreview>,
) -> Seq<char> {
    match preview {
        Some(p) => {
            let head = match comment {
                Some(c) => "<p>"@ + spec_escape_text(c@) + "</p>"@,
                None => Seq::empty(),
            };
            let title = match p.title {
                Some(t) => "<strong><a href=\""@ + url + "\">"@ + spec_escape_text(t@)
                    + "</a></strong>"@,
                None => spec_url_anchor(url),
            };
            let description = match p.description {
                Some(d) => "<br/><em>"@ + spec_escape_text(d@) + "</em>"@,
                None => Seq::empty(),
            };
            let site = match p.site_name {
                Some(s) => "<br/><small>"@ + spec_escape_text(s@) + "</small>"@,
                None => Seq::empty(),
            };
            head + "<blockquote>"@ + title + description + site + "</blockquote>"@
        },
        None => match comment {
            Some(c) => "<p>"@ + spec_escape_text(c@) + "</p><p>"@ + spec_url_anchor(url)
                + "</p>"@,
            None => spec_url_anchor(url),
        },
    }
}

/// The plain text body of a link post: the comment, a blank line and the
/// URL, or the URL alone.
pub open spec fn spec_link_body(url: Seq<char>, comment: Option<String>) -> Seq<char> {
    match comment {
        Some(c) => c@ + "\n\n"@ + url,
        None => url,
    }
}

/// What converting post content to an outgoing message yields, variant by
/// variant.
pub open spec fn spec_room_message(content: PostContent, r: RoomMessageContent) -> bool {
    match content {
        PostContent::Text { body, formatted_body, mentions } => {
            &&& r matches RoomMessageContent::Text { body: rb, formatted_body: rf, mentions: rm }
            &&& rb@ == body@
            &&& (match (formatted_body, rf) {
                (Some(f), Some(g)) => f@ == g@,
                (None, None) => true,
                _ => false,
            })
            &&& rm.deep_view() == mentions.deep_view()
        },
        PostContent::Image { mxc_uri, caption, .. } => {
            &&& r matches RoomMessageContent::Image { body: rb, mxc_uri: ru }
            &&& ru@ == mxc_uri@
            &&& (match caption {
                Some(c) => rb@ == c@,
                None => rb@ == "Image"@,
            })
        },
        PostContent::Video { mxc_uri, caption, .. } => {
            &&& r matches RoomMessageContent::Video { body: rb, mxc_uri: ru }
            &&& ru@ == mxc_uri@
            &&& (match caption {
                Some(c) => rb@ == c@,
                None => rb@ == "Video"@,
            })
        },
        PostContent::Link { url, comment, preview } => {
            &&& r matches RoomMessageContent::Text { body: rb, formatted_body: rf, mentions: rm }
            &&& rb@ == spec_link_body(url@, comment)
            &&& rf matches Some(h) && h@ == spec_link_html(url@, comment, preview)
            &&& rm.deep_view() == Seq::<Seq<char>>::empty()
        },
    }
}

impl PostContent {
    /// Convert this post content to an outgoing room message: text passes
    /// through with its formatting and mentions, media get their caption or
    /// a placeholder as body, and links are rendered as text with an HTML
    /// body in which every user-supplied string is escaped.
    #[verifier::rlimit(30)]
    pub fn into_room_message(&self) -> (r: RoomMessageContent)
        ensures
            spec_room_message(*self, r),
    {
        match self {
            PostContent::Text { body, formatted_body, mentions } => {
                let mut ms: Vec<String> = Vec::new();
                let mut i: usize = 0;
                while i < mentions.len()
                    invariant
                        i <= mentions.len(),
                        ms.deep_view() =~= mentions.deep_view().take(i as int),
                    decreases mentions.len() - i,
                {
                    let ghost before = ms.deep_view();
                    ms.push(mentions[i].clone());
                    proof {
                        assert(ms.deep_view() =~= before.push(mentions.deep_view()[i as int]));
                        assert(ms.deep_view() =~= mentions.deep_view().take(i as int + 1));
                    }
                    i = i + 1;
                }
                proof {
                    assert(mentions.deep_view().take(i as int) =~= mentions.deep_view());
                }
                let formatted = match formatted_body {
                    Some(f) => Some(f.clone()),
                    None => None,
                };
                RoomMessageContent::Text {
                    body: body.clone(),
                    formatted_body: formatted,
                    mentions: ms,
                }
            },
            PostContent::Image { mxc_uri, caption, .. } => {
                let body = match caption {
                    Some(c) => c.clone(),
                    None => String::from_str("Image"),
                };
                RoomMessageContent::Image { body, mxc_uri: mxc_uri.clone() }
            },
            PostContent::Video { mxc_uri, caption, .. } => {
                let body = match caption {
                    Some(c) => c.clone(),
                    None => String::from_str("Video"),
                };
                RoomMessageContent::Video { body, mxc_uri: mxc_uri.clone() }
            },
            PostContent::Link { url, comment, preview } => {
                let body = match comment {
                    Some(c) => {
                        let mut b = c.clone();
                        b.append("\n\n");
                        b.append(url.as_str());
                        b
                    },
                    None => url.clone(),
                };
                let html = match preview {
                    Some(p) => {
                        let ghost head = match comment {
                            Some(c) => "<p>"@ + spec_escape_text(c@) + "</p>"@,
                            None => Seq::<char>::empty(),
                        };
                        let ghost title = match &p.title {
                            Some(t) => "<strong><a href=\""@ + url@ + "\">"@ + spec_escape_text(
                                t@,
                            ) + "</a></strong>"@,
                            None => spec_url_anchor(url@),
                        };
                        let ghost description = match &p.description {
                            Some(d) => "<br/><em>"@ + spec_escape_text(d@) + "</em>"@,
                            None => Seq::<char>::empty(),
                        };
                        let ghost site = match &p.site_name {
                            Some(s) => "<br/><small>"@ + spec_escape_text(s@) + "</small>"@,
                            None => Seq::<char>::empty(),
                        };
                        let mut h = String::new();
                        if let Some(c) = comment {
                            h.append("<p>");
                            let e = escape_text(c.as_str());
                            h.append(e.as_str());
                            h.append("</p>");
                        }
                        proof {
                            assert(h@ =~= head);
                        }
                        h.append("<blockquote>");
                        match &p.title {
                            Some(t) => {
                                h.append("<strong><a href=\"");
                                h.append(url.as_str());
                                h.append("\">");
                                let e = escape_text(t.as_str());
                                h.append(e.as_str());
                                h.append("</a></strong>");
                            },
                            None => {
                                h.append("<a href=\"");
                                h.append(url.as_str());
                                h.append("\">");
                                h.append(url.as_str());
                                h.append("</a>");
                            },
                        }
                        proof {
                            assert(h@ =~= head + "<blockquote>"@ + title);
                        }
                        if let Some(d) = &p.description {
                            h.append("<br/><em>");
                            let e = escape_text(d.as_str());
                            h.append(e.as_str());
                            h.append("</em>");
                        }
                        proof {
                            assert(h@ =~= head + "<blockquote>"@ + title + description);
                        }
                        if let Some(s) = &p.site_name {
                            h.append("<br/><small>");
                            let e = escape_text(s.as_str());
                            h.append(e.as_str());
                            h.append("</small>");
                        }
                        proof {
                            assert(h@ =~= head + "<blockquote>"@ + title + description + site);
                        }
                        h.append("</blockquote>");
                        proof {
                            assert(h@ =~= spec_link_html(url@, *comment, *preview));
                        }
                        h
                    },
                    None => match comment {
                        Some(c) => {
                            let mut h = String::from_str("<p>");
                            let e = escape_text(c.as_str());
                            h.append(e.as_str());
                            h.append("</p><p><a href=\"");
                            h.append(url.as_str());
                            h.append("\">");
                            h.append(url.as_str());
                            h.append("</a></p>");
                            proof {
                                reveal_strlit("</p><p><a href=\"");
                                reveal_strlit("</p><p>");
                                reveal_strlit("<a href=\"");
                                reveal_strlit("</a></p>");
                                reveal_strlit("</a>");
                                reveal_strlit("</p>");
                                assert(h@ =~= spec_link_html(url@, *comment, *preview));
                            }
                            h
                        },
                        None => {
                            let mut h = String::from_str("<a href=\"");
                            h.append(url.as_str());
                            h.append("\">");
                            h.append(url.as_str());
                            h.append("</a>");
                            proof {
                                assert(h@ =~= spec_link_html(url@, *comment, *preview));
                            }
                            h
                        },
                    },
                };
                let ms: Vec<String> = Vec::new();
                proof {
                    assert(body@ =~= spec_link_body(url@, *comment));
                    assert(ms.deep_view() =~= Seq::<Seq<char>>::empty());
                }
                RoomMessageContent::Text { body, formatted_body: Some(html), mentions: ms }
            },
        }
    }
}

/// A social media post ready to be sent to feed rooms.
#[derive(Clone, Debug)]
pub struct Post {
    /// The message content of the post.
    pub content: PostContent,
    /// Target feed rooms to post to.
    pub targets: Vec<String>,
    /// Privacy levels this post is intended for.
    pub privacy_levels: Vec<FeedPrivacy>,
}

impl Post {
    /// Create a new text post, aimed at the public tier until told
    /// otherwise.
    pub fn text(body: &str) -> (r: Post)
        ensures
            r.content matches PostContent::Text { body: b, formatted_body, mentions } && b@
                == body@ && formatted_body is None && mentions@.len() == 0,
            r.targets@.len() == 0,
            r.privacy_levels@ == seq![FeedPrivacy::Public],
    {
        let privacy_levels = vec![FeedPrivacy::Public];
        proof {
            assert(privacy_levels@ =~= seq![FeedPrivacy::Public]);
        }
        Post {
            content: PostContent::Text {
                body: body.to_owned(),
                formatted_body: None,
                mentions: Vec::new(),
            },
            targets: Vec::new(),
            privacy_levels,
        }
    }

    /// Create a new post with an image.
    pub fn image(mxc_uri: &str, width: u32, height: u32) -> (r: Post)
        ensures
            r.content matches PostContent::Image {
                mxc_uri: u,
                caption,
                thumbnail_uri,
                width: w,
                height: h,
            } && u@ == mxc_uri@ && caption is None && thumbnail_uri is None && w == width && h
                == height,
            r.targets@.len() == 0,
            r.privacy_levels@ == seq![FeedPrivacy::Public],
    {
        let privacy_levels = vec![FeedPrivacy::Public];
        proof {
            assert(privacy_levels@ =~= seq![FeedPrivacy::Public]);
        }
        Post {
            content: PostContent::Image {
                mxc_uri: mxc_uri.to_owned(),
                caption: None,
                thumbnail_uri: None,
                width,
                height,
            },
            targets: Vec::new(),
            privacy_levels,
        }
    }

    /// Create a new post with a video.
    pub fn video(mxc_uri: &str) -> (r: Post)
        ensures
            r.content matches PostContent::Video { mxc_uri: u, caption, thumbnail_uri, duration_ms }
                && u@ == mxc_uri@ && caption is None && thumbnail_uri is None && duration_ms
                is None,
            r.targets@.len() == 0,
            r.privacy_levels@ == seq![FeedPrivacy::Public],
    {
        let privacy_levels = vec![FeedPrivacy::Public];
        proof {
            assert(privacy_levels@ =~= seq![FeedPrivacy::Public]);
        }
        Post {
            content: PostContent::Video {
                mxc_uri: mxc_uri.to_owned(),
                caption: None,
                thumbnail_uri: None,
                duration_ms: None,
            },
            targets: Vec::new(),
            privacy_levels,
        }
    }

    /// Create a new link post.
    pub fn link(url: &str) -> (r: Post)
        ensures
            r.content matches PostContent::Link { url: u, comment, preview } && u@ == url@
                && comment is None && preview is None,
            r.targets@.len() == 0,
            r.privacy_levels@ == seq![FeedPrivacy::Public],
    {
        let privacy_levels = vec![FeedPrivacy::Public];
        proof {
            assert(privacy_levels@ =~= seq![FeedPrivacy::Public]);
        }
        Post {
            content: PostContent::Link { url: url.to_owned(), comment: None, preview: None },
            targets: Vec::new(),
            privacy_levels,
        }
    }

    /// Set the target room identifiers for this post.
    pub fn with_targets(self, targets: Vec<String>) -> (r: Post)
        ensures
            r.content == self.content,
            r.targets == targets,
            r.privacy_levels == self.privacy_levels,
    {
        Post { targets, ..self }
    }

    /// Set the privacy levels for this post.
    pub fn with_privacy(self, privacy_levels: Vec<FeedPrivacy>) -> (r: Post)
        ensures
            r.content == self.content,
            r.targets == self.targets,
            r.privacy_levels == privacy_levels,
    {
        Post { privacy_levels, ..self }
    }

    /// Add a caption to image or video content, or a comment to a link;
    /// text posts carry no caption and stay as they are.
    pub fn with_caption(self, caption: &str) -> (r: Post)
        ensures
            r.targets == self.targets,
            r.privacy_levels == self.privacy_levels,
            self.content matches PostContent::Text { .. } ==> r.content == self.content,
            self.content matches PostContent::Image {
                mxc_uri,
                thumbnail_uri,
                width,
                height,
                ..
            } ==> (r.content matches PostContent::Image {
                mxc_uri: u,
                caption: c,
                thumbnail_uri: t,
                width: w,
                height: h,
            } && u == mxc_uri && (c matches Some(cs) && cs@ == caption@) && t == thumbnail_uri && w
                == width && h == height),
            self.content matches PostContent::Video { mxc_uri, thumbnail_uri, duration_ms, .. }
                ==> (r.content matches PostContent::Video {
                mxc_uri: u,
                caption: c,
                thumbnail_uri: t,
                duration_ms: d,
            } && u == mxc_uri && (c matches Some(cs) && cs@ == caption@) && t == thumbnail_uri && d
                == duration_ms),
            self.content matches PostContent::Link { url, preview, .. } ==> (r.content
                matches PostContent::Link { url: u, comment: c, preview: p } && u == url && (
            c matches Some(cs) && cs@ == caption@) && p == preview),
    {
        let Post { content, targets, privacy_levels } = self;
        let content = match content {
            PostContent::Image { mxc_uri, caption: _, thumbnail_uri, width, height } => {
                PostContent::Image {
                    mxc_uri,
                    caption: Some(caption.to_owned()),
                    thumbnail_uri,
                    width,
                    height,
                }
            },
            PostContent::Video { mxc_uri, caption: _, thumbnail_uri, duration_ms } => {
                PostContent::Video {
                    mxc_uri,
                    caption: Some(caption.to_owned()),
                    thumbnail_uri,
                    duration_ms,
                }
            },
            PostContent::Link { url, comment: _, preview } => {
                PostContent::Link { url, comment: Some(caption.to_owned()), preview }
            },
            text => text,
        };
        Post { content, targets, privacy_levels }
    }

    /// Convert the post content to an outgoing room message.
    pub fn into_room_message(&self) -> (r: RoomMessageContent)
        ensures
            spec_room_message(self.content, r),
    {
        self.content.into_room_message()
    }
}

/// Metadata about a post: timestamps and edit history.
#[derive(Clone, Debug)]
pub struct PostMetadata {
    /// Identifier of the post record.
    pub event_id: String,
    /// Room identifier where the post was sent.
    pub room_id: String,
    /// Identity of the post author.
    pub sender: String,
    /// Original post timestamp from the server (epoch milliseconds).
    pub origin_server_ts: u64,
    /// Edit history timestamps, most recent first.
    pub edit_timestamps: Vec<u64>,
    /// Whether the post has been edited.
    pub is_edited: bool,
}

impl PostMetadata {
    /// Create new metadata for a post, with no edits yet.
    pub fn new(event_id: String, room_id: String, sender: String, origin_server_ts: u64) -> (r:
        PostMetadata)
        ensures
            r.event_id@ == event_id@,
            r.room_id@ == room_id@,
            r.sender@ == sender@,
            r.origin_server_ts == origin_server_ts,
            r.edit_timestamps@.len() == 0,
            !r.is_edited,
    {
        PostMetadata {
            event_id,
            room_id,
            sender,
            origin_server_ts,
            edit_timestamps: Vec::new(),
            is_edited: false,
        }
    }

    /// Mark the post as edited with the given timestamp, which becomes the
    /// most recent one.
    pub fn add_edit(&mut self, timestamp: u64)
        ensures
            final(self).edit_timestamps@ == seq![timestamp] + old(self).edit_timestamps@,
            final(self).is_edited,
            final(self).event_id == old(self).event_id,
            final(self).room_id == old(self).room_id,
            final(self).sender == old(self).sender,
            final(self).origin_server_ts == old(self).origin_server_ts,
    {
        self.edit_timestamps.insert(0, timestamp);
        self.is_edited = true;
        proof {
            assert(self.edit_timestamps@ =~= seq![timestamp] + old(self).edit_timestamps@);
        }
    }

    /// Get the most recent timestamp: the latest edit time, or the original
    /// time if the post was never edited.
    pub fn last_modified(&self) -> (r: u64)
        ensures
            self.edit_timestamps@.len() > 0 ==> r == self.edit_timestamps@[0],
            self.edit_timestamps@.len() == 0 ==> r == self.origin_server_ts,
    {
        if self.edit_timestamps.len() > 0 {
            self.edit_timestamps[0]
        } else {
            self.origin_server_ts
        }
    }
}

/// A complete post as it exists in a feed room: content plus metadata.
#[derive(Clone, Debug)]
pub struct FeedPost {
    /// The post content.
    pub content: PostContent,
    /// Post metadata (timestamps, author, and so on).
    pub metadata: PostMetadata,
}

impl FeedPost {
    /// Create a new feed post from content and metadata.
    pub fn new(content: PostContent, metadata: PostMetadata) -> (r: FeedPost)
        ensures
            r.content == content,
            r.metadata == metadata,
    {
        FeedPost { content, metadata }
    }

    /// Get the identifier of this post's record.
    pub fn event_id(&self) -> (r: &String)
        ensures
            r == self.metadata.event_id,
    {
        &self.metadata.event_id
    }

    /// Get the author's identity.
    pub fn sender(&self) -> (r: &String)
        ensures
            r == self.metadata.sender,
    {
        &self.metadata.sender
    }

    /// Get the room identifier where this post lives.
    pub fn room_id(&self) -> (r: &String)
        ensures
            r == self.metadata.room_id,
    {
        &self.metadata.room_id
    }

    /// Get the original timestamp.
    pub fn timestamp(&self) -> (r: u64)
        ensures
            r == self.metadata.origin_server_ts,
    {
        self.metadata.origin_server_ts
    }

    /// Check if this post has been edited.
    pub fn is_edited(&self) -> (r: bool)
        ensures
            r == self.metadata.is_edited,
    {
        self.metadata.is_edited
    }
}

/// Errors that can occur when working with posts.
#[derive(Clone, Debug)]
pub enum PostError {
    /// The specified room was not found.
    RoomNotFound(String),
    /// User is not logged in.
    NotLoggedIn,
    /// User does not have permission to post.
    PermissionDenied,
    /// Failed to upload media.
    MediaUploadFailed(String),
    /// An error reported by the protocol layer, passed through unchanged.
    MatrixError(String),
}

impl PostError {
    /// A human-readable description of the error.
    pub fn message(&self) -> (r: String)
        ensures
            self matches PostError::RoomNotFound(id) ==> r@ == "Room not found: "@ + id@,
            self is NotLoggedIn ==> r@ == "Not logged in"@,
            self is PermissionDenied ==> r@ == "Permission denied to post in room"@,
            self matches PostError::MediaUploadFailed(s) ==> r@ == "Failed to upload media: "@
                + s@,
            self matches PostError::MatrixError(s) ==> r@ == "Matrix error: "@ + s@,
    {
        match self {
            PostError::RoomNotFound(id) => {
                let mut m = String::from_str("Room not found: ");
                m.append(id.as_str());
                m
            },
            PostError::NotLoggedIn => String::from_str("Not logged in"),
            PostError::PermissionDenied => String::from_str("Permission denied to post in room"),
            PostError::MediaUploadFailed(s) => {
                let mut m = String::from_str("Failed to upload media: ");
                m.append(s.as_str());
                m
            },
            PostError::MatrixError(s) => {
                let mut m = String::from_str("Matrix error: ");
                m.append(s.as_str());
                m
            },
        }
    }
}

} // verus!
