//! Content of messages: plain text, an image, or a list of blocks.
use crate::text::{concat3, join, join_strings, owned, views};
use vstd::prelude::*;

verus! {

/// What a content block carries, as far as the library reads it.
///
/// A block's payload is a JSON value.  The library only ever reads it as
/// a JSON string, or reads the string-valued fields of a JSON object
/// (such as `url`, `data` and `mime_type`); anything else it treats as
/// complex content.
#[derive(Debug)]
pub enum BlockContent {
    /// A JSON string.
    Text(String),
    /// A JSON object, by its string-valued fields in order.
    Fields(Vec<(String, String)>),
    /// Any other JSON value.
    Other,
}

/// Type of a content block.
#[derive(Debug, Clone, Copy, PartialEq, Eq, Structural)]
pub enum ContentBlockType {
    /// Text block.
    Text,
    /// Image URL block.
    ImageUrl,
}

/// A block of content in a mixed message.
#[derive(Debug)]
pub struct ContentBlock {
    /// Type of the block.
    pub block_type: ContentBlockType,
    /// The block's payload.
    pub content: BlockContent,
}

/// Content of a message.
#[derive(Debug)]
pub enum Content {
    /// Plain text.
    Text(String),
    /// An image, by URL or base64 data.
    Image {
        /// MIME type, such as `image/png`.
        mime_type: String,
        /// URL or base64 data.
        data: String,
    },
    /// A list of blocks.
    Mixed(Vec<ContentBlock>),
}

/// The abstract value of a block payload.
pub enum BlockContentModel {
    /// A JSON string.
    Text(Seq<char>),
    /// A JSON object's string-valued fields, in order.
    Fields(Seq<(Seq<char>, Seq<char>)>),
    /// Any other JSON value.
    Other,
}

/// The abstract value of a content block.
pub struct ContentBlockModel {
    /// Type of the block.
    pub block_type: ContentBlockType,
    /// The block's payload.
    pub content: BlockContentModel,
}

/// The abstract value of message content.
pub enum ContentModel {
    /// Plain text.
    Text(Seq<char>),
    /// An image.
    Image { mime_type: Seq<char>, data: Seq<char> },
    /// A list of blocks.
    Mixed(Seq<ContentBlockModel>),
}

/// The views of a list of string pairs.
pub open spec fn pair_views(v: Seq<(String, String)>) -> Seq<(Seq<char>, Seq<char>)> {
    v.map_values(|p: (String, String)| (p.0@, p.1@))
}

impl View for BlockContent {
    type V = BlockContentModel;

    open spec fn view(&self) -> BlockContentModel {
        match self {
            BlockContent::Text(s) => BlockContentModel::Text(s@),
            BlockContent::Fields(f) => BlockContentModel::Fields(pair_views(f@)),
            BlockContent::Other => BlockContentModel::Other,
        }
    }
}

impl View for ContentBlock {
    type V = ContentBlockModel;

    open spec fn view(&self) -> ContentBlockModel {
        ContentBlockModel { block_type: self.block_type, content: self.content@ }
    }
}

/// The views of a list of blocks.
pub open spec fn block_views(v: Seq<ContentBlock>) -> Seq<ContentBlockModel> {
    v.map_values(|b: ContentBlock| b@)
}

impl View for Content {
    type V = ContentModel;

    open spec fn view(&self) -> ContentModel {
        match self {
            Content::Text(s) => ContentModel::Text(s@),
            Content::Image { mime_type, data } => ContentModel::Image {
                mime_type: mime_type@,
                data: data@,
            },
            Content::Mixed(blocks) => ContentModel::Mixed(block_views(blocks@)),
        }
    }
}

/// The value of the first field named `key`, if any.
pub open spec fn field_value(fields: Seq<(Seq<char>, Seq<char>)>, key: Seq<char>) -> Option<
    Seq<char>,
>
    decreases fields.len(),
{
    if fields.len() == 0 {
        None
    } else if fields[0].0 == key {
        Some(fields[0].1)
    } else {
        field_value(fields.drop_first(), key)
    }
}

/// The string that the payload is, if it is a JSON string.
pub open spec fn block_str(c: BlockContentModel) -> Option<Seq<char>> {
    match c {
        BlockContentModel::Text(s) => Some(s),
        _ => None,
    }
}

/// The string value of field `key` of the payload, if it is an object
/// with such a field.
pub open spec fn block_field(c: BlockContentModel, key: Seq<char>) -> Option<Seq<char>> {
    match c {
        BlockContentModel::Fields(f) => field_value(f, key),
        _ => None,
    }
}

/// How a block is rendered in text: its string, or a placeholder.
pub open spec fn block_text(b: ContentBlockModel) -> Seq<char> {
    match b.content {
        BlockContentModel::Text(s) => s,
        _ => "[Complex Content]"@,
    }
}

/// The text rendering of content.
pub open spec fn content_text(c: ContentModel) -> Seq<char> {
    match c {
        ContentModel::Text(s) => s,
        ContentModel::Image { mime_type, .. } => "[Image: "@ + mime_type + "]"@,
        ContentModel::Mixed(blocks) => join(
            blocks.map_values(|b: ContentBlockModel| block_text(b)),
            " "@,
        ),
    }
}

/// Whether content is empty: empty text or no blocks; images never are.
pub open spec fn content_is_empty(c: ContentModel) -> bool {
    match c {
        ContentModel::Text(s) => s.len() == 0,
        ContentModel::Image { .. } => false,
        ContentModel::Mixed(blocks) => blocks.len() == 0,
    }
}

/// A copy of a list of string pairs.
pub fn clone_pairs(f: &Vec<(String, String)>) -> (g: Vec<(String, String)>)
    ensures
        g@ == f@,
{
    let mut g: Vec<(String, String)> = Vec::new();
    let mut i: usize = 0;
    while i < f.len()
        invariant
            i <= f@.len(),
            g@ == f@.take(i as int),
        decreases f.len() - i,
    {
        let k = f[i].0.clone();
        let v = f[i].1.clone();
        g.push((k, v));
        assert(f@.take(i + 1) == f@.take(i as int).push(f@[i as int]));
        i += 1;
    }
    assert(f@.take(f@.len() as int) == f@);
    g
}

impl Clone for BlockContent {
    fn clone(&self) -> (r: Self)
        ensures
            r@ == self@,
    {
        match self {
            BlockContent::Text(s) => BlockContent::Text(String::clone(s)),
            BlockContent::Fields(f) => BlockContent::Fields(clone_pairs(f)),
            BlockContent::Other => BlockContent::Other,
        }
    }
}

impl Clone for ContentBlock {
    fn clone(&self) -> (r: Self)
        ensures
            r@ == self@,
    {
        ContentBlock { block_type: self.block_type, content: self.content.clone() }
    }
}

/// A copy of a list of blocks.
pub fn clone_blocks(v: &Vec<ContentBlock>) -> (r: Vec<ContentBlock>)
    ensures
        block_views(r@) == block_views(v@),
{
    let mut r: Vec<ContentBlock> = Vec::new();
    let mut i: usize = 0;
    while i < v.len()
        invariant
            i <= v@.len(),
            r@.len() == i,
            block_views(r@) == block_views(v@.take(i as int)),
        decreases v.len() - i,
    {
        let c = v[i].clone();
        assert(c@ == v@[i as int]@);
        let ghost old_r = r@;
        r.push(c);
        assert forall|k: int| 0 <= k < i + 1 implies block_views(r@)[k] == block_views(
            v@.take(i + 1),
        )[k] by {
            if k < i {
                assert(block_views(old_r)[k] == block_views(v@.take(i as int))[k]);
            }
        }
        assert(block_views(r@) =~= block_views(v@.take(i + 1)));
        i += 1;
    }
    assert(v@.take(v@.len() as int) == v@);
    r
}

impl Clone for Content {
    fn clone(&self) -> (r: Self)
        ensures
            r@ == self@,
    {
        match self {
            Content::Text(s) => Content::Text(String::clone(s)),
            Content::Image { mime_type, data } => Content::Image {
                mime_type: mime_type.clone(),
                data: data.clone(),
            },
            Content::Mixed(blocks) => Content::Mixed(clone_blocks(blocks)),
        }
    }
}

/// The string value of field `key`, searching the fields in order.
pub fn lookup_field(fields: &Vec<(String, String)>, key: &str) -> (r: Option<String>)
    ensures
        r matches Some(v) ==> field_value(pair_views(fields@), key@) == Some(v@),
        r is None ==> field_value(pair_views(fields@), key@) is None,
{
    let k = owned(key);
    let mut i: usize = 0;
    assert(pair_views(fields@).skip(0) == pair_views(fields@));
    while i < fields.len()
        invariant
            i <= fields@.len(),
            k@ == key@,
            field_value(pair_views(fields@), key@) == field_value(
                pair_views(fields@).skip(i as int),
                key@,
            ),
        decreases fields.len() - i,
    {
        assert(pair_views(fields@).skip(i as int).drop_first() == pair_views(fields@).skip(i + 1));
        if fields[i].0 == k {
            return Some(fields[i].1.clone());
        }
        i += 1;
    }
    None
}

impl BlockContent {
    /// The payload as a string, if it is a JSON string.
    pub fn as_str(&self) -> (r: Option<&str>)
        ensures
            r matches Some(s) ==> block_str(self@) == Some(s@),
            r is None ==> block_str(self@) is None,
    {
        match self {
            BlockContent::Text(s) => Some(s.as_str()),
            _ => None,
        }
    }

    /// The string value of field `key`, if the payload is an object with
    /// such a field.
    pub fn get_str(&self, key: &str) -> (r: Option<String>)
        ensures
            r matches Some(s) ==> block_field(self@, key@) == Some(s@),
            r is None ==> block_field(self@, key@) is None,
    {
        match self {
            BlockContent::Fields(f) => lookup_field(f, key),
            _ => None,
        }
    }
}

impl Content {
    /// Text content.
    pub fn text(text: &str) -> (c: Self)
        ensures
            c@ == ContentModel::Text(text@),
    {
        Content::Text(owned(text))
    }

    /// Image content from a URL, with MIME type `image/jpeg`.
    pub fn image_url(url: &str) -> (c: Self)
        ensures
            c@ == (ContentModel::Image { mime_type: "image/jpeg"@, data: url@ }),
    {
        Content::Image { mime_type: owned("image/jpeg"), data: owned(url) }
    }

    /// Image content from base64 data.
    pub fn image_base64(mime_type: &str, data: &str) -> (c: Self)
        ensures
            c@ == (ContentModel::Image { mime_type: mime_type@, data: data@ }),
    {
        Content::Image { mime_type: owned(mime_type), data: owned(data) }
    }

    /// Whether the content is empty.
    pub fn is_empty(&self) -> (r: bool)
        ensures
            r == content_is_empty(self@),
    {
        match self {
            Content::Text(s) => s.as_str().is_empty(),
            Content::Image { .. } => false,
            Content::Mixed(blocks) => blocks.len() == 0,
        }
    }

    /// The text, if this is text content.
    pub fn as_text(&self) -> (r: Option<&str>)
        ensures
            r matches Some(t) ==> self@ == ContentModel::Text(t@),
            r is None ==> !(self@ is Text),
    {
        match self {
            Content::Text(s) => Some(s.as_str()),
            _ => None,
        }
    }

    /// The content rendered as text: the text itself, `[Image: <type>]`
    /// for an image, and the blocks' strings joined by spaces (a block
    /// that is not a JSON string shows as `[Complex Content]`).
    pub fn to_string(&self) -> (s: String)
        ensures
            s@ == content_text(self@),
    {
        match self {
            Content::Text(s) => s.clone(),
            Content::Image { mime_type, .. } => concat3("[Image: ", mime_type.as_str(), "]"),
            Content::Mixed(blocks) => {
                let mut parts: Vec<String> = Vec::new();
                let mut i: usize = 0;
                while i < blocks.len()
                    invariant
                        i <= blocks@.len(),
                        parts@.len() == i,
                        views(parts@) == block_views(blocks@.take(i as int)).map_values(
                            |b: ContentBlockModel| block_text(b),
                        ),
                    decreases blocks.len() - i,
                {
                    let t = match &blocks[i].content {
                        BlockContent::Text(s) => String::clone(s),
                        _ => owned("[Complex Content]"),
                    };
                    assert(t@ == block_text(blocks@[i as int]@));
                    let ghost old_parts = parts@;
                    parts.push(t);
                    assert forall|k: int| 0 <= k < i + 1 implies views(parts@)[k] == block_views(
                        blocks@.take(i + 1),
                    ).map_values(|b: ContentBlockModel| block_text(b))[k] by {
                        if k < i {
                            assert(views(old_parts)[k] == block_views(
                                blocks@.take(i as int),
                            ).map_values(|b: ContentBlockModel| block_text(b))[k]);
                        }
                    }
                    assert(views(parts@) =~= block_views(blocks@.take(i + 1)).map_values(
                        |b: ContentBlockModel| block_text(b),
                    ));
                    i += 1;
                }
                assert(blocks@.take(blocks@.len() as int) == blocks@);
                assert(views(parts@) == block_views(blocks@).map_values(
                    |b: ContentBlockModel| block_text(b),
                ));
                join_strings(&parts, " ")
            },
        }
    }
}

impl From<String> for Content {
    fn from(s: String) -> (r: Self) {
        Content::Text(s)
    }
}

impl vstd::std_specs::convert::FromSpecImpl<String> for Content {
    open spec fn obeys_from_spec() -> bool {
        true
    }

    open spec fn from_spec(s: String) -> Self {
        Content::Text(s)
    }
}

impl From<&str> for Content {
    fn from(s: &str) -> (r: Self)
        ensures
            r@ == ContentModel::Text(s@),
    {
        Content::Text(owned(s))
    }
}

impl vstd::std_specs::convert::FromSpecImpl<&str> for Content {
    open spec fn obeys_from_spec() -> bool {
        false
    }

    open spec fn from_spec(s: &str) -> Self {
        vstd::pervasive::arbitrary()
    }
}

/// A text block holding the string `t`.
pub open spec fn text_block(t: Seq<char>) -> ContentBlockModel {
    ContentBlockModel { block_type: ContentBlockType::Text, content: BlockContentModel::Text(t) }
}

impl Content {
    /// Mixed content made of one text block per string, in order.
    pub fn from_texts(texts: Vec<String>) -> (c: Self)
        ensures
            c@ == ContentModel::Mixed(views(texts@).map_values(|t: Seq<char>| text_block(t))),
    {
        let mut blocks: Vec<ContentBlock> = Vec::new();
        let mut i: usize = 0;
        while i < texts.len()
            invariant
                i <= texts@.len(),
                blocks@.len() == i,
                block_views(blocks@) == views(texts@.take(i as int)).map_values(
                    |t: Seq<char>| text_block(t),
                ),
            decreases texts.len() - i,
        {
            let ghost old_blocks = blocks@;
            let b = ContentBlock {
                block_type: ContentBlockType::Text,
                content: BlockContent::Text(texts[i].clone()),
            };
            assert(b@ == text_block(texts@[i as int]@));
            blocks.push(b);
            assert forall|k: int| 0 <= k < i + 1 implies block_views(blocks@)[k] == views(
                texts@.take(i + 1),
            ).map_values(|t: Seq<char>| text_block(t))[k] by {
                if k < i {
                    assert(block_views(old_blocks)[k] == views(texts@.take(i as int)).map_values(
                        |t: Seq<char>| text_block(t),
                    )[k]);
                }
            }
            assert(block_views(blocks@) =~= views(texts@.take(i + 1)).map_values(
                |t: Seq<char>| text_block(t),
            ));
            i += 1;
        }
        assert(texts@.take(texts@.len() as int) == texts@);
        Content::Mixed(blocks)
    }
}

} // verus!
