//! The parsed document model: typed blocks, and the trusted boundary to
//! the external document parser and UTF-8 decoder.

use vstd::prelude::*;

verus! {

/// One semantic unit of parsed document content.
#[derive(Debug, Clone, PartialEq, Eq)]
pub enum DocumentBlock {
    /// A plain line of text.
    Text(String),
    /// A link: the target, and an optional label.
    Link(String, Option<String>),
    /// A level-1 heading.
    Heading(String),
    /// A level-2 heading.
    SubHeading(String),
    /// A level-3 heading.
    SubSubHeading(String),
    /// A list item.
    ListItem(String),
    /// A block quote.
    Blockquote(String),
    /// Preformatted text, with an optional alt tag.
    Preformatted(String, Option<String>),
    /// A single empty line.
    EmptyLine,
}

/// Mathematical model of a [`DocumentBlock`].
pub ghost enum BlockView {
    Text(Seq<char>),
    Link(Seq<char>, Option<Seq<char>>),
    Heading(Seq<char>),
    SubHeading(Seq<char>),
    SubSubHeading(Seq<char>),
    ListItem(Seq<char>),
    Blockquote(Seq<char>),
    Preformatted(Seq<char>, Option<Seq<char>>),
    EmptyLine,
}

pub open spec fn label_view(o: Option<String>) -> Option<Seq<char>> {
    match o {
        Some(s) => Some(s@),
        None => None,
    }
}

impl View for DocumentBlock {
    type V = BlockView;

    open spec fn view(&self) -> BlockView {
        match self {
            DocumentBlock::Text(s) => BlockView::Text(s@),
            DocumentBlock::Link(t, l) => BlockView::Link(t@, label_view(*l)),
            DocumentBlock::Heading(s) => BlockView::Heading(s@),
            DocumentBlock::SubHeading(s) => BlockView::SubHeading(s@),
            DocumentBlock::SubSubHeading(s) => BlockView::SubSubHeading(s@),
            DocumentBlock::ListItem(s) => BlockView::ListItem(s@),
            DocumentBlock::Blockquote(s) => BlockView::Blockquote(s@),
            DocumentBlock::Preformatted(s, a) => BlockView::Preformatted(s@, label_view(*a)),
            DocumentBlock::EmptyLine => BlockView::EmptyLine,
        }
    }
}

pub open spec fn blocks_view(s: Seq<DocumentBlock>) -> Seq<BlockView> {
    s.map(|i: int, b: DocumentBlock| b@)
}

#[verifier::external_type_specification]
pub struct ExGemtextNode(gmi::gemtext::GemtextNode);

/// The block a parsed node of the external parser stands for.
pub open spec fn node_view(n: gmi::gemtext::GemtextNode) -> BlockView {
    match n {
        gmi::gemtext::GemtextNode::Text(s) => BlockView::Text(s@),
        gmi::gemtext::GemtextNode::Link(t, l) => BlockView::Link(t@, label_view(l)),
        gmi::gemtext::GemtextNode::Heading(s) => BlockView::Heading(s@),
        gmi::gemtext::GemtextNode::SubHeading(s) => BlockView::SubHeading(s@),
        gmi::gemtext::GemtextNode::SubSubHeading(s) => BlockView::SubSubHeading(s@),
        gmi::gemtext::GemtextNode::ListItem(s) => BlockView::ListItem(s@),
        gmi::gemtext::GemtextNode::Blockquote(s) => BlockView::Blockquote(s@),
        gmi::gemtext::GemtextNode::Preformatted(s, a) => BlockView::Preformatted(s@, label_view(a)),
        gmi::gemtext::GemtextNode::EmptyLine => BlockView::EmptyLine,
    }
}

pub open spec fn nodes_view(s: Seq<gmi::gemtext::GemtextNode>) -> Seq<BlockView> {
    s.map(|i: int, n: gmi::gemtext::GemtextNode| node_view(n))
}

/// What the external parser turns document text into. The parse is a
/// function of the text alone.
pub uninterp spec fn gemtext_blocks(text: Seq<char>) -> Seq<BlockView>;

/// Position `i` starts a line consisting of exactly one of the marker
/// characters '=', '*' or '>'.
pub open spec fn lone_marker_at(text: Seq<char>, i: int) -> bool {
    &&& 0 <= i < text.len()
    &&& (text[i] == '=' || text[i] == '*' || text[i] == '>')
    &&& (i == 0 || text[i - 1] == '\n')
    &&& (i + 1 == text.len() || text[i + 1] == '\n' || (text[i + 1] == '\r' && i + 2 < text.len()
        && text[i + 2] == '\n'))
}

/// The text has a line consisting of exactly one marker character. The
/// external parser aborts on such a line, so these texts are kept away
/// from it and reported as failures instead. (The exclusion is slightly
/// wider than the parser's failing set: inside a preformatted block the
/// parser would cope with such a line, but the check does not track
/// preformatted state.)
pub open spec fn has_lone_marker(text: Seq<char>) -> bool {
    exists|i: int| lone_marker_at(text, i)
}

/// Scans for a line consisting of exactly one marker character.
pub fn contains_lone_marker(text: &str) -> (r: bool)
    ensures
        r == has_lone_marker(text@),
{
    let len = text.unicode_len();
    let mut i: usize = 0;
    while i < len
        invariant
            len == text@.len(),
            0 <= i <= len,
            forall|j: int| 0 <= j < i ==> !lone_marker_at(text@, j),
        decreases len - i,
    {
        let c = text.get_char(i);
        if (c == '=' || c == '*' || c == '>') && (i == 0 || text.get_char(i - 1) == '\n') {
            let line_ends = if i + 1 == len {
                true
            } else {
                let n = text.get_char(i + 1);
                n == '\n' || (n == '\r' && i + 2 < len && text.get_char(i + 2) == '\n')
            };
            if line_ends {
                proof {
                    assert(lone_marker_at(text@, i as int));
                }
                return true;
            }
        }
        proof {
            assert(!lone_marker_at(text@, i as int));
        }
        i += 1;
    }
    false
}

/// What the external UTF-8 decoder returns for a byte sequence: the
/// decoded text, or the error detail. It depends on the bytes alone.
pub uninterp spec fn utf8_result(data: Seq<u8>) -> Result<Seq<char>, Seq<char>>;

/// Relies on str::from_utf8: whether the bytes decode, and to what text,
/// is a function of the bytes alone; the error carries its own detail.
#[verifier::external_body]
pub(crate) fn decode_utf8(data: &Vec<u8>) -> (r: Result<String, String>)
    ensures
        match r {
            Ok(s) => utf8_result(data@) == Ok::<Seq<char>, Seq<char>>(s@),
            Err(e) => utf8_result(data@) == Err::<Seq<char>, Seq<char>>(e@),
        },
{
    match core::str::from_utf8(data.as_slice()) {
        Ok(s) => Ok(s.to_string()),
        Err(e) => Err(format!("{e}")),
    }
}

/// Relies on gmi::gemtext::parse_gemtext: the parse is a function of the
/// text alone. The parser aborts on a line consisting of exactly "=",
/// "*" or ">", so such texts are excluded here.
#[verifier::external_body]
fn parse_nodes(text: &str) -> (r: Vec<gmi::gemtext::GemtextNode>)
    requires
        !has_lone_marker(text@),
    ensures
        nodes_view(r@) == gemtext_blocks(text@),
{
    gmi::gemtext::parse_gemtext(text)
}

fn block_of_node(n: &gmi::gemtext::GemtextNode) -> (r: DocumentBlock)
    ensures
        r@ == node_view(*n),
{
    match n {
        gmi::gemtext::GemtextNode::Text(s) => DocumentBlock::Text(s.clone()),
        gmi::gemtext::GemtextNode::Link(t, l) => DocumentBlock::Link(
            t.clone(),
            match l {
                Some(d) => Some(d.clone()),
                None => None,
            },
        ),
        gmi::gemtext::GemtextNode::Heading(s) => DocumentBlock::Heading(s.clone()),
        gmi::gemtext::GemtextNode::SubHeading(s) => DocumentBlock::SubHeading(s.clone()),
        gmi::gemtext::GemtextNode::SubSubHeading(s) => DocumentBlock::SubSubHeading(s.clone()),
        gmi::gemtext::GemtextNode::ListItem(s) => DocumentBlock::ListItem(s.clone()),
        gmi::gemtext::GemtextNode::Blockquote(s) => DocumentBlock::Blockquote(s.clone()),
        gmi::gemtext::GemtextNode::Preformatted(s, a) => DocumentBlock::Preformatted(
            s.clone(),
            match a {
                Some(d) => Some(d.clone()),
                None => None,
            },
        ),
        gmi::gemtext::GemtextNode::EmptyLine => DocumentBlock::EmptyLine,
    }
}

/// Parses document text through the external parser into the library's
/// block model.
pub(crate) fn parse_document(text: &str) -> (r: Vec<DocumentBlock>)
    requires
        !has_lone_marker(text@),
    ensures
        blocks_view(r@) == gemtext_blocks(text@),
{
    let nodes = parse_nodes(text);
    let mut blocks: Vec<DocumentBlock> = Vec::new();
    let n = nodes.len();
    let mut i: usize = 0;
    while i < n
        invariant
            n == nodes@.len(),
            0 <= i <= n,
            nodes_view(nodes@) == gemtext_blocks(text@),
            blocks@.len() == i,
            forall|j: int| 0 <= j < i ==> (#[trigger] blocks@[j])@ == gemtext_blocks(text@)[j],
        decreases n - i,
    {
        let b = block_of_node(&nodes[i]);
        blocks.push(b);
        proof {
            assert(nodes_view(nodes@)[i as int] == node_view(nodes@[i as int]));
        }
        i += 1;
    }
    proof {
        assert(gemtext_blocks(text@).len() == nodes_view(nodes@).len());
        assert(blocks_view(blocks@) =~= gemtext_blocks(text@)) by {
            assert(forall|j: int|
                0 <= j < blocks@.len() ==> blocks_view(blocks@)[j] == (#[trigger] blocks@[j])@);
        }
    }
    blocks
}

} // verus!
