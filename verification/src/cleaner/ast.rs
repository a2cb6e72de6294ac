//! The parsed form of wikitext and the extraction of readable text from it.
//!
//! Parsing is done by `parse_wiki_text_2`; its tree is carried over into
//! [`WikiNode`], which holds as plain values what the extraction reads.
use vstd::prelude::*;

use parse_wiki_text_2::{Configuration, ConfigurationSource, Node};

use crate::text::{
    chars_of, occurs_at, find, find_from, lemma_find, matches_at, push_char, push_range, same_chars, starts_with,
    trim, trim_bounds,
};

verus! {

#[verifier::external_type_specification]
#[verifier::external_body]
pub struct ExNode<'a>(Node<'a>);

/// One element of parsed wikitext, one variant for each kind of element
/// that `parse_wiki_text_2` produces. The variants hold the parts that text
/// extraction reads; the others stand for their element alone.
pub enum WikiNode {
    /// A toggle of bold text (`'''`).
    Bold,
    /// A toggle of bold italic text (`'''''`).
    BoldItalic,
    /// A category link.
    Category,
    /// A character written as an entity such as `&amp;`.
    CharacterEntity(char),
    /// An HTML comment.
    Comment,
    /// A definition list: the content of each item.
    DefinitionList(Vec<Vec<WikiNode>>),
    /// An end tag without a matching start tag.
    EndTag,
    /// An external link and its content.
    ExternalLink(Vec<WikiNode>),
    /// A heading and its content.
    Heading(Vec<WikiNode>),
    /// A horizontal divider (`----`).
    HorizontalDivider,
    /// An image or other file link.
    Image,
    /// A toggle of italic text (`''`).
    Italic,
    /// An internal link: its target and its display text (empty when the
    /// link has no `|`).
    Link(String, Vec<WikiNode>),
    /// A magic word such as `__NOTOC__`.
    MagicWord,
    /// An ordered list: the content of each item.
    OrderedList(Vec<Vec<WikiNode>>),
    /// A paragraph break (an empty line).
    ParagraphBreak,
    /// A template parameter (`{{{name}}}`).
    Parameter,
    /// A block of preformatted text.
    Preformatted(Vec<WikiNode>),
    /// A redirect.
    Redirect,
    /// A start tag without a matching end tag.
    StartTag,
    /// A table.
    Table,
    /// A tag with its name and content.
    Tag(String, Vec<WikiNode>),
    /// A template (`{{...}}`).
    Template,
    /// Plain text.
    Text(String),
    /// An unordered list: the content of each item.
    UnorderedList(Vec<Vec<WikiNode>>),
}

/// The site configuration handed to the parser: namespace aliases, tag
/// names, magic words and link protocols.
pub struct WikiSyntax {
    pub category_namespaces: &'static [&'static str],
    pub extension_tags: &'static [&'static str],
    pub file_namespaces: &'static [&'static str],
    pub link_trail: &'static str,
    pub magic_words: &'static [&'static str],
    pub protocols: &'static [&'static str],
    pub redirect_magic_words: &'static [&'static str],
}

/// The tree that `parse_wiki_text_2` builds for `text` under `syntax`, when
/// parsing completes.
pub uninterp spec fn wiki_tree(syntax: WikiSyntax, text: Seq<char>) -> Vec<WikiNode>;

/// Converts parsed elements, and everything under them, into
/// [`WikiNode`]s, one for one and in order.
#[verifier::external_body]
fn convert_nodes(nodes: &[Node]) -> Vec<WikiNode> {
    nodes.iter().map(convert_node).collect()
}

/// Converts one parsed element into the variant of the same name. Every
/// kind of element is named here, so that a kind this match does not know
/// is a compile error; each group is converted by the function it goes to.
#[verifier::external_body]
fn convert_node(node: &Node) -> WikiNode {
    match node {
        Node::Text { .. } | Node::CharacterEntity { .. } | Node::Link { .. } | Node::Tag { .. } | Node::Heading { .. } => convert_inline(node),
        Node::ExternalLink { .. } | Node::Preformatted { .. } | Node::UnorderedList { .. } | Node::OrderedList { .. }
        | Node::DefinitionList { .. } | Node::ParagraphBreak { .. } | Node::HorizontalDivider { .. } => convert_block(node),
        Node::Bold { .. } | Node::BoldItalic { .. } | Node::Italic { .. } | Node::Category { .. } | Node::Comment { .. }
        | Node::EndTag { .. } | Node::Image { .. } => convert_markup(node),
        Node::MagicWord { .. } | Node::Parameter { .. } | Node::Redirect { .. } | Node::StartTag { .. } | Node::Table { .. }
        | Node::Template { .. } => convert_markup_rest(node),
    }
}

/// Converts text, entities, links, tags and headings (the group that
/// [`convert_node`] sends here).
#[verifier::external_body]
fn convert_inline(node: &Node) -> WikiNode {
    match node {
        Node::Text { value, .. } => WikiNode::Text(value.to_string()),
        Node::CharacterEntity { character, .. } => WikiNode::CharacterEntity(*character),
        Node::Link { target, text, .. } => WikiNode::Link(target.to_string(), convert_nodes(text)),
        Node::Tag { name, nodes, .. } => WikiNode::Tag(name.to_string(), convert_nodes(nodes)),
        Node::Heading { nodes, .. } => WikiNode::Heading(convert_nodes(nodes)),
        _ => convert_node(node),
    }
}

/// Converts external links, preformatted blocks, lists (each item's
/// content), paragraph breaks and dividers (the group that
/// [`convert_node`] sends here).
#[verifier::external_body]
fn convert_block(node: &Node) -> WikiNode {
    match node {
        Node::ExternalLink { nodes, .. } => WikiNode::ExternalLink(convert_nodes(nodes)),
        Node::Preformatted { nodes, .. } => WikiNode::Preformatted(convert_nodes(nodes)),
        Node::UnorderedList { items, .. } => WikiNode::UnorderedList(items.iter().map(|i| convert_nodes(&i.nodes)).collect()),
        Node::OrderedList { items, .. } => WikiNode::OrderedList(items.iter().map(|i| convert_nodes(&i.nodes)).collect()),
        Node::DefinitionList { items, .. } => WikiNode::DefinitionList(items.iter().map(|i| convert_nodes(&i.nodes)).collect()),
        Node::ParagraphBreak { .. } => WikiNode::ParagraphBreak,
        Node::HorizontalDivider { .. } => WikiNode::HorizontalDivider,
        _ => convert_node(node),
    }
}

/// Converts text toggles, categories, comments, end tags and images (the
/// group that [`convert_node`] sends here).
#[verifier::external_body]
fn convert_markup(node: &Node) -> WikiNode {
    match node {
        Node::Bold { .. } => WikiNode::Bold,
        Node::BoldItalic { .. } => WikiNode::BoldItalic,
        Node::Italic { .. } => WikiNode::Italic,
        Node::Category { .. } => WikiNode::Category,
        Node::Comment { .. } => WikiNode::Comment,
        Node::EndTag { .. } => WikiNode::EndTag,
        Node::Image { .. } => WikiNode::Image,
        _ => convert_node(node),
    }
}

/// Converts magic words, parameters, redirects, start tags, tables and
/// templates (the group that [`convert_node`] sends here).
#[verifier::external_body]
fn convert_markup_rest(node: &Node) -> WikiNode {
    match node {
        Node::MagicWord { .. } => WikiNode::MagicWord,
        Node::Parameter { .. } => WikiNode::Parameter,
        Node::Redirect { .. } => WikiNode::Redirect,
        Node::StartTag { .. } => WikiNode::StartTag,
        Node::Table { .. } => WikiNode::Table,
        Node::Template { .. } => WikiNode::Template,
        _ => convert_node(node),
    }
}

/// Parses `text` with `Configuration::new(syntax).parse`.
///
/// Claims that a completed parse gives the tree named [`wiki_tree`], a
/// function of `syntax` and `text`. The parser gives up after five seconds
/// of work, so whether it completes is not stated.
#[verifier::external_body]
pub fn parse_wikitext(syntax: &WikiSyntax, text: &str) -> (r: Option<Vec<WikiNode>>)
    ensures
        r matches Some(tree) ==> tree == wiki_tree(*syntax, text@),
{
    let source = ConfigurationSource {
        category_namespaces: syntax.category_namespaces,
        extension_tags: syntax.extension_tags,
        file_namespaces: syntax.file_namespaces,
        link_trail: syntax.link_trail,
        magic_words: syntax.magic_words,
        protocols: syntax.protocols,
        redirect_magic_words: syntax.redirect_magic_words,
    };
    match Configuration::new(&source).parse(text) {
        Ok(output) => Some(convert_nodes(&output.nodes)),
        Err(_) => None,
    }
}

/// Whether a tag of this name has its content left out: `ref`,
/// `references`, `gallery`, `source`, `syntaxhighlight`, `nowiki`, `code` and
/// `math`.
pub open spec fn is_skipped_tag(name: Seq<char>) -> bool {
    ||| name == "ref"@
    ||| name == "references"@
    ||| name == "gallery"@
    ||| name == "source"@
    ||| name == "syntaxhighlight"@
    ||| name == "nowiki"@
    ||| name == "code"@
    ||| name == "math"@
}

/// The label of an external link's text piece: a piece that begins with
/// `http://` or `https://` holds a URL, and only what follows its first
/// space (trimmed) is kept; other pieces are kept whole.
pub open spec fn link_piece_text(value: Seq<char>) -> Seq<char> {
    if starts_with(value, "http://"@) || starts_with(value, "https://"@) {
        match find(value, seq![' ']) {
            Some(p) => trim(value.skip(p + 1)),
            None => Seq::empty(),
        }
    } else {
        value
    }
}

/// The readable text of one element.
pub open spec fn node_text(node: WikiNode) -> Seq<char>
    decreases node,
{
    match node {
        WikiNode::Text(value) => value@,
        WikiNode::CharacterEntity(c) => seq![c],
        WikiNode::Heading(nodes) => seq!['\n'] + nodes_text(nodes@) + seq!['\n'],
        WikiNode::Link(target, text) => if text@.len() == 0 {
            target@
        } else {
            nodes_text(text@)
        },
        WikiNode::ExternalLink(nodes) => external_text(nodes@),
        WikiNode::Tag(name, nodes) => if is_skipped_tag(name@) {
            Seq::empty()
        } else {
            nodes_text(nodes@)
        },
        WikiNode::ParagraphBreak => seq!['\n', '\n'],
        WikiNode::HorizontalDivider => seq!['\n'],
        WikiNode::UnorderedList(items) => items_text(items@),
        WikiNode::OrderedList(items) => items_text(items@),
        WikiNode::DefinitionList(items) => items_text(items@),
        WikiNode::Preformatted(nodes) => nodes_text(nodes@),
        WikiNode::Bold | WikiNode::BoldItalic | WikiNode::Italic => Seq::empty(),
        WikiNode::Template | WikiNode::Category | WikiNode::Image | WikiNode::Table
        | WikiNode::Comment | WikiNode::MagicWord | WikiNode::Parameter | WikiNode::Redirect
        | WikiNode::StartTag | WikiNode::EndTag => Seq::empty(),
    }
}

/// The readable text of a sequence of elements, one after another.
pub open spec fn nodes_text(nodes: Seq<WikiNode>) -> Seq<char>
    decreases nodes,
{
    if nodes.len() == 0 {
        Seq::empty()
    } else {
        nodes_text(nodes.drop_last()) + node_text(nodes.last())
    }
}

/// The readable text of list items: each item's text followed by `\n`.
pub open spec fn items_text(items: Seq<Vec<WikiNode>>) -> Seq<char>
    decreases items,
{
    if items.len() == 0 {
        Seq::empty()
    } else {
        items_text(items.drop_last()) + nodes_text(items.last()@) + seq!['\n']
    }
}

/// The readable text of an external link's content: its label.
pub open spec fn external_text(nodes: Seq<WikiNode>) -> Seq<char>
    decreases nodes,
{
    if nodes.len() == 0 {
        Seq::empty()
    } else {
        external_text(nodes.drop_last()) + match nodes.last() {
            WikiNode::Text(value) => link_piece_text(value@),
            other => node_text(other),
        }
    }
}

/// Whether a tag named `name` has its content left out.
fn skips_tag(name: &str) -> (b: bool)
    ensures
        b == is_skipped_tag(name@),
{
    same_chars(name, "ref") || same_chars(name, "references") || same_chars(name, "gallery")
        || same_chars(name, "source") || same_chars(name, "syntaxhighlight") || same_chars(
        name,
        "nowiki",
    ) || same_chars(name, "code") || same_chars(name, "math")
}

/// Appends the label part of an external link's text piece.
fn push_link_piece(value: &str, output: &mut String)
    ensures
        final(output)@ == old(output)@ + link_piece_text(value@),
{
    let v = chars_of(value);
    let http = chars_of("http://");
    let https = chars_of("https://");
    if matches_at(v.as_slice(), 0, http.as_slice()) || matches_at(v.as_slice(), 0, https.as_slice()) {
        assert(starts_with(v@, http@) || starts_with(v@, https@)) by {
            assert(v@.take(http@.len() as int) =~= v@.subrange(0, http@.len() as int));
            assert(v@.take(https@.len() as int) =~= v@.subrange(0, https@.len() as int));
        }
        let space: [char; 1] = [' '];
        assert(space@ =~= seq![' ']);
        assert(v@.skip(0) =~= v@);
        match find_from(v.as_slice(), 0, space.as_slice()) {
            Some(p) => {
                proof {
                    lemma_find(v@, seq![' ']);
                }
                let (a, b) = trim_bounds(v.as_slice(), p + 1, v.len());
                assert(v@.subrange(p + 1, v@.len() as int) =~= v@.skip(p + 1));
                push_range(output, v.as_slice(), a, b);
            },
            None => {
                assert(output@ =~= old(output)@ + Seq::<char>::empty());
            },
        }
    } else {
        assert(!starts_with(v@, http@) && !starts_with(v@, https@)) by {
            assert(v@.take(http@.len() as int) =~= v@.subrange(0, http@.len() as int));
            assert(v@.take(https@.len() as int) =~= v@.subrange(0, https@.len() as int));
        }
        output.append(value);
    }
}

/// Appends the readable text of `node` to `output`.
pub fn extract_text_from_node(node: &WikiNode, output: &mut String)
    ensures
        final(output)@ == old(output)@ + node_text(*node),
    decreases node,
{
    match node {
        WikiNode::Text(value) => {
            output.append(value.as_str());
        },
        WikiNode::CharacterEntity(c) => {
            push_char(output, *c);
        },
        WikiNode::Heading(nodes) => {
            push_char(output, '\n');
            extract_text_from_nodes(nodes.as_slice(), output);
            push_char(output, '\n');
        },
        WikiNode::Link(target, text) => {
            if text.len() == 0 {
                output.append(target.as_str());
            } else {
                extract_text_from_nodes(text.as_slice(), output);
            }
        },
        WikiNode::ExternalLink(nodes) => {
            extract_external_link(nodes.as_slice(), output);
        },
        WikiNode::Tag(name, nodes) => {
            if !skips_tag(name.as_str()) {
                extract_text_from_nodes(nodes.as_slice(), output);
            } else {
                assert(output@ =~= old(output)@ + Seq::<char>::empty());
            }
        },
        WikiNode::ParagraphBreak => {
            push_char(output, '\n');
            push_char(output, '\n');
        },
        WikiNode::HorizontalDivider => {
            push_char(output, '\n');
        },
        WikiNode::UnorderedList(items) => {
            extract_list_items(items.as_slice(), output);
        },
        WikiNode::OrderedList(items) => {
            extract_list_items(items.as_slice(), output);
        },
        WikiNode::DefinitionList(items) => {
            extract_list_items(items.as_slice(), output);
        },
        WikiNode::Preformatted(nodes) => {
            extract_text_from_nodes(nodes.as_slice(), output);
        },
        _ => {
            assert(output@ =~= old(output)@ + Seq::<char>::empty());
        },
    }
}

/// Appends the readable text of `nodes`, one after another, to `output`.
pub fn extract_text_from_nodes(nodes: &[WikiNode], output: &mut String)
    ensures
        final(output)@ == old(output)@ + nodes_text(nodes@),
    decreases nodes@,
{
    let mut i: usize = 0;
    while i < nodes.len()
        invariant
            i <= nodes@.len(),
            output@ == old(output)@ + nodes_text(nodes@.take(i as int)),
        decreases nodes@.len() - i,
    {
        extract_text_from_node(&nodes[i], output);
        assert(nodes@.take(i + 1).drop_last() =~= nodes@.take(i as int));
        i = i + 1;
    }
    assert(nodes@.take(nodes@.len() as int) =~= nodes@);
}

/// Appends the text of list items, each followed by `\n`, to `output`.
fn extract_list_items(items: &[Vec<WikiNode>], output: &mut String)
    ensures
        final(output)@ == old(output)@ + items_text(items@),
    decreases items@,
{
    let mut i: usize = 0;
    while i < items.len()
        invariant
            i <= items@.len(),
            output@ == old(output)@ + items_text(items@.take(i as int)),
        decreases items@.len() - i,
    {
        extract_text_from_nodes(items[i].as_slice(), output);
        push_char(output, '\n');
        assert(items@.take(i + 1).drop_last() =~= items@.take(i as int));
        i = i + 1;
    }
    assert(items@.take(items@.len() as int) =~= items@);
}

/// Appends the label text of an external link's content to `output`.
fn extract_external_link(nodes: &[WikiNode], output: &mut String)
    ensures
        final(output)@ == old(output)@ + external_text(nodes@),
    decreases nodes@,
{
    let mut i: usize = 0;
    while i < nodes.len()
        invariant
            i <= nodes@.len(),
            output@ == old(output)@ + external_text(nodes@.take(i as int)),
        decreases nodes@.len() - i,
    {
        match &nodes[i] {
            WikiNode::Text(value) => push_link_piece(value.as_str(), output),
            other => extract_text_from_node(other, output),
        }
        assert(nodes@.take(i + 1).drop_last() =~= nodes@.take(i as int));
        i = i + 1;
    }
    assert(nodes@.take(nodes@.len() as int) =~= nodes@);
}

/// The text of elements one after another is the text of each part, one
/// after another: extracting from `a` and then from `b` gives what
/// extracting from `a + b` gives.
pub proof fn law_nodes_text_concat(a: Seq<WikiNode>, b: Seq<WikiNode>)
    ensures
        nodes_text(a + b) == nodes_text(a) + nodes_text(b),
    decreases b.len(),
{
    if b.len() == 0 {
        assert(a + b =~= a);
    } else {
        law_nodes_text_concat(a, b.drop_last());
        assert((a + b).drop_last() =~= a + b.drop_last());
        assert((a + b).last() == b.last());
    }
}

/// Every kind of list gives the text of its items in order, each followed
/// by a line break: a list without items gives nothing, and one more item
/// adds that item's text and a line break. No kind of list drops its items.
pub proof fn law_lists_keep_their_items(a: Vec<Vec<WikiNode>>, b: Vec<Vec<WikiNode>>, item: Vec<WikiNode>)
    requires
        b@ == a@.push(item),
    ensures
        node_text(WikiNode::UnorderedList(b)) == node_text(WikiNode::UnorderedList(a)) + nodes_text(item@)
            + seq!['\n'],
        node_text(WikiNode::OrderedList(b)) == node_text(WikiNode::OrderedList(a)) + nodes_text(item@)
            + seq!['\n'],
        node_text(WikiNode::DefinitionList(b)) == node_text(WikiNode::DefinitionList(a)) + nodes_text(item@)
            + seq!['\n'],
        a@.len() == 0 ==> node_text(WikiNode::UnorderedList(a)) == Seq::<char>::empty()
            && node_text(WikiNode::OrderedList(a)) == Seq::<char>::empty()
            && node_text(WikiNode::DefinitionList(a)) == Seq::<char>::empty(),
{
    assert(b@.drop_last() =~= a@);
    assert(b@.last() == item);
}

/// Of an external link's text piece that is a URL (beginning with `http://`
/// or `https://`, with no space) followed by a space and a label, only the
/// label is kept, trimmed; the URL alone gives nothing. An external link
/// whose content is such a piece gives just the trimmed label.
pub proof fn law_external_link_keeps_only_the_label(
    u: Seq<char>,
    l: Seq<char>,
    nodes: Vec<WikiNode>,
    piece: String,
)
    requires
        starts_with(u, "http://"@) || starts_with(u, "https://"@),
        forall|i: int| 0 <= i < u.len() ==> u[i] != ' ',
    ensures
        link_piece_text(u + seq![' '] + l) == trim(l),
        link_piece_text(u) == Seq::<char>::empty(),
        nodes@ == seq![WikiNode::Text(piece)] && piece@ == u + seq![' '] + l ==> node_text(
            WikiNode::ExternalLink(nodes),
        ) == trim(l),
{
    let v = u + seq![' '] + l;
    let p = "http://"@;
    let q = "https://"@;
    assert(p.len() <= u.len() ==> v.take(p.len() as int) =~= u.take(p.len() as int));
    assert(q.len() <= u.len() ==> v.take(q.len() as int) =~= u.take(q.len() as int));
    assert(starts_with(v, p) || starts_with(v, q));
    lemma_find(v, seq![' ']);
    assert(occurs_at(v, seq![' '], u.len() as int)) by {
        assert(v.subrange(u.len() as int, u.len() + 1int) =~= seq![' ']);
    }
    match find(v, seq![' ']) {
        Some(i) => {
            if i < u.len() {
                assert(v.subrange(i, i + 1)[0] == v[i]);
                assert(v[i] == u[i]);
            }
            assert(i == u.len());
            assert(v.skip(i + 1) =~= l);
        },
        None => {},
    }
    lemma_find(u, seq![' ']);
    match find(u, seq![' ']) {
        Some(i) => {
            assert(u.subrange(i, i + 1)[0] == u[i]);
        },
        None => {},
    }
    if nodes@ == seq![WikiNode::Text(piece)] && piece@ == v {
        assert(nodes@.drop_last() =~= Seq::<WikiNode>::empty());
        assert(nodes@.last() == WikiNode::Text(piece));
        assert(external_text(nodes@.drop_last()) == Seq::<char>::empty());
        assert(link_piece_text(piece@) == trim(l));
        assert(external_text(nodes@) == external_text(nodes@.drop_last()) + link_piece_text(piece@));
        assert(Seq::<char>::empty() + trim(l) =~= trim(l));
    }
}

} // verus!
