//! The wikitext cleaner: converts MediaWiki markup into plain text.
//!
//! The wikitext is parsed into a tree by `parse_wiki_text_2`, the readable
//! text is taken from the tree, and the result is post-processed. When the
//! parser does not complete, pattern-based cleaning takes its place.
use vstd::prelude::*;

pub mod ast;
pub mod fallback;
pub mod postprocess;

use ast::{extract_text_from_nodes, nodes_text, parse_wikitext, wiki_tree, WikiNode, WikiSyntax};
pub use fallback::fallback_clean;
use fallback::fallback_spec;
pub use postprocess::clean_text;
use postprocess::clean_text_spec;

verus! {

/// The parser configuration: English and Japanese Wikipedia namespaces
/// (Category/カテゴリ, File/Image/ファイル, REDIRECT/転送), the extension
/// tags, magic words and link protocols of Wikipedia.
pub open spec fn wiki_syntax_spec() -> WikiSyntax {
    WikiSyntax {
        category_namespaces: &["category", "カテゴリ"],
        extension_tags: &[
            "categorytree",
            "ce",
            "charinsert",
            "chem",
            "gallery",
            "graph",
            "hiero",
            "imagemap",
            "indicator",
            "inputbox",
            "mapframe",
            "maplink",
            "math",
            "nowiki",
            "poem",
            "pre",
            "ref",
            "references",
            "score",
            "section",
            "source",
            "syntaxhighlight",
            "templatedata",
            "timeline",
        ],
        file_namespaces: &["file", "image", "ファイル"],
        link_trail: "ABCDEFGHIJKLMNOPQRSTUVWXYZabcdefghijklmnopqrstuvwxyz",
        magic_words: &[
            "DISAMBIG",
            "FORCETOC",
            "HIDDENCAT",
            "INDEX",
            "NEWSECTIONLINK",
            "NOCC",
            "NOCOLLABORATIONHUBTOC",
            "NOCONTENTCONVERT",
            "NOEDITSECTION",
            "NOGALLERY",
            "NOGLOBAL",
            "NOINDEX",
            "NONEWSECTIONLINK",
            "NOTC",
            "NOTITLECONVERT",
            "NOTOC",
            "STATICREDIRECT",
            "TOC",
        ],
        protocols: &[
            "//",
            "bitcoin:",
            "ftp://",
            "ftps://",
            "geo:",
            "git://",
            "gopher://",
            "http://",
            "https://",
            "irc://",
            "ircs://",
            "magnet:",
            "mailto:",
            "mms://",
            "news:",
            "nntp://",
            "redis://",
            "sftp://",
            "sip:",
            "sips:",
            "sms:",
            "ssh://",
            "svn://",
            "tel:",
            "telnet://",
            "urn:",
            "worldwind://",
            "xmpp:",
        ],
        redirect_magic_words: &["REDIRECT", "転送"],
    }
}

/// The parser configuration (see [`wiki_syntax_spec`]).
pub fn wiki_syntax() -> (s: WikiSyntax)
    ensures
        s == wiki_syntax_spec(),
{
    WikiSyntax {
        category_namespaces: &["category", "カテゴリ"],
        extension_tags: &[
            "categorytree",
            "ce",
            "charinsert",
            "chem",
            "gallery",
            "graph",
            "hiero",
            "imagemap",
            "indicator",
            "inputbox",
            "mapframe",
            "maplink",
            "math",
            "nowiki",
            "poem",
            "pre",
            "ref",
            "references",
            "score",
            "section",
            "source",
            "syntaxhighlight",
            "templatedata",
            "timeline",
        ],
        file_namespaces: &["file", "image", "ファイル"],
        link_trail: "ABCDEFGHIJKLMNOPQRSTUVWXYZabcdefghijklmnopqrstuvwxyz",
        magic_words: &[
            "DISAMBIG",
            "FORCETOC",
            "HIDDENCAT",
            "INDEX",
            "NEWSECTIONLINK",
            "NOCC",
            "NOCOLLABORATIONHUBTOC",
            "NOCONTENTCONVERT",
            "NOEDITSECTION",
            "NOGALLERY",
            "NOGLOBAL",
            "NOINDEX",
            "NONEWSECTIONLINK",
            "NOTC",
            "NOTITLECONVERT",
            "NOTOC",
            "STATICREDIRECT",
            "TOC",
        ],
        protocols: &[
            "//",
            "bitcoin:",
            "ftp://",
            "ftps://",
            "geo:",
            "git://",
            "gopher://",
            "http://",
            "https://",
            "irc://",
            "ircs://",
            "magnet:",
            "mailto:",
            "mms://",
            "news:",
            "nntp://",
            "redis://",
            "sftp://",
            "sip:",
            "sips:",
            "sms:",
            "ssh://",
            "svn://",
            "tel:",
            "telnet://",
            "urn:",
            "worldwind://",
            "xmpp:",
        ],
        redirect_magic_words: &["REDIRECT", "転送"],
    }
}

/// The plain text of `wikitext` given what parsing it gave: the readable
/// text of the tree when parsing completed, else the fallback cleaning of
/// the wikitext; post-processed in both cases.
pub open spec fn cleaned(wikitext: Seq<char>, parsed: Option<Vec<WikiNode>>) -> Seq<char> {
    match parsed {
        Some(tree) => clean_text_spec(nodes_text(tree@)),
        None => clean_text_spec(fallback_spec(wikitext)),
    }
}

/// The plain text of `wikitext` given `parsed`, the outcome of parsing it
/// (see [`cleaned`]).
pub fn clean_parse_result(wikitext: &str, parsed: Option<Vec<WikiNode>>) -> (r: String)
    ensures
        r@ == cleaned(wikitext@, parsed),
{
    match parsed {
        Some(tree) => {
            let mut text = String::new();
            extract_text_from_nodes(tree.as_slice(), &mut text);
            clean_text(text.as_str())
        },
        None => {
            let fallback = fallback_clean(wikitext);
            clean_text(fallback.as_str())
        },
    }
}

/// Converts wikitext markup into plain text, and says whether the parser
/// gave up so that the fallback cleaning was used.
///
/// The text is the post-processed readable text of the tree that
/// `parse_wiki_text_2` builds under [`wiki_syntax_spec`], or, when the
/// parser gives up (the flag is then set), the post-processed fallback
/// cleaning of `wikitext`.
pub fn clean_wikitext_noting_fallback(wikitext: &str) -> (r: (String, bool))
    ensures
        r.1 ==> r.0@ == cleaned(wikitext@, None),
        !r.1 ==> r.0@ == cleaned(wikitext@, Some(wiki_tree(wiki_syntax_spec(), wikitext@))),
{
    let syntax = wiki_syntax();
    let parsed = parse_wikitext(&syntax, wikitext);
    let fell_back = parsed.is_none();
    (clean_parse_result(wikitext, parsed), fell_back)
}

/// Converts wikitext markup into plain text (see
/// [`clean_wikitext_noting_fallback`]).
pub fn clean_wikitext(wikitext: &str) -> (r: String)
    ensures
        r@ == cleaned(wikitext@, Some(wiki_tree(wiki_syntax_spec(), wikitext@)))
            || r@ == cleaned(wikitext@, None),
{
    clean_wikitext_noting_fallback(wikitext).0
}

} // verus!
