//! Pattern-based cleaning, used when the wikitext parser does not complete.
use vstd::prelude::*;

verus! {

/// `<ref ...>...</ref>` and `<ref .../>` tags.
pub const RE_REF: &'static str = r"<ref[^>]*(?:>[\s\S]*?</ref>|/>)";

/// `{|...|}` wiki tables.
pub const RE_TABLE: &'static str = r"(?s)\{\|.*?\|\}";

/// Innermost `{{...}}` templates.
pub const RE_TEMPLATE: &'static str = r"\{\{[^{}]*\}\}";

/// `[[Category:...]]` and `[[カテゴリ:...]]` links.
pub const RE_CATEGORY: &'static str = r"\[\[(?:Category|カテゴリ):[^\]]*\]\]";

/// `[[File:...]]`, `[[Image:...]]` and `[[ファイル:...]]` links.
pub const RE_FILE: &'static str = r"\[\[(?:File|Image|ファイル):[^\]]*\]\]";

/// `[[target|text]]` piped links; the display text is captured.
pub const RE_PIPED_LINK: &'static str = r"\[\[[^\]|]+\|([^\]]+)\]\]";

/// `[[target]]` simple links; the target is captured.
pub const RE_SIMPLE_LINK: &'static str = r"\[\[([^\]|]+)\]\]";

/// `[url text]` external links; the text is captured.
pub const RE_EXTERNAL_LINK: &'static str = r"\[https?://[^\s\]]+ ([^\]]+)\]";

/// `'''text'''` bold markup.
pub const RE_BOLD: &'static str = r"'''([^']+)'''";

/// `''text''` italic markup.
pub const RE_ITALIC: &'static str = r"''([^']+)''";

/// `== heading ==` markup of any level.
pub const RE_HEADING: &'static str = r"=={1,6}\s*(.+?)\s*=={1,6}";

/// HTML tags, opening and closing.
pub const RE_HTML_TAG: &'static str = r"<[^>]+>";

/// The replacement that keeps the first captured group.
pub const FIRST_GROUP: &'static str = "$1";

/// The number of passes made to remove nested templates.
pub const TEMPLATE_PASSES: usize = 10;

/// Whether `regex::Regex::new` accepts `pattern`.
pub uninterp spec fn regex_compiles(pattern: Seq<char>) -> bool;

/// What `Regex::replace_all` gives for `text` with the regex compiled from
/// `pattern` and the replacement string `replacement` (where `$1` stands for
/// the first captured group).
pub uninterp spec fn regex_replaced(pattern: Seq<char>, text: Seq<char>, replacement: Seq<char>) -> Seq<char>;

/// Replaces every match of the regular expression `pattern` in `text` with
/// `replacement`, using `regex::Regex::new` and `Regex::replace_all`.
///
/// Claims that the result is `None` exactly when the pattern does not
/// compile, and otherwise the text named by [`regex_replaced`]; both are
/// functions of the arguments alone.
#[verifier::external_body]
fn replace_all(pattern: &str, text: &str, replacement: &str) -> (r: Option<String>)
    ensures
        r is Some <==> regex_compiles(pattern@),
        r matches Some(s) ==> s@ == regex_replaced(pattern@, text@, replacement@),
{
    match regex::Regex::new(pattern) {
        Ok(re) => Some(re.replace_all(text, replacement).into_owned()),
        Err(_) => None,
    }
}

/// One substitution pass: `text` with the matches of `pattern` replaced,
/// or `text` unchanged if the pattern does not compile.
pub open spec fn substitute(pattern: Seq<char>, replacement: Seq<char>, text: Seq<char>) -> Seq<char> {
    if regex_compiles(pattern) {
        regex_replaced(pattern, text, replacement)
    } else {
        text
    }
}

/// Template removal repeated until nothing changes, at most `passes` times.
pub open spec fn strip_templates(text: Seq<char>, passes: nat) -> Seq<char>
    decreases passes,
{
    if passes == 0 {
        text
    } else {
        let next = substitute(RE_TEMPLATE@, Seq::empty(), text);
        if next == text {
            text
        } else {
            strip_templates(next, (passes - 1) as nat)
        }
    }
}

/// The fallback cleaning of `wikitext`: references, tables, templates,
/// categories and file links removed; links, external links, bold, italic
/// and headings replaced by their text; HTML tags removed; in this order.
pub open spec fn fallback_spec(wikitext: Seq<char>) -> Seq<char> {
    let t = substitute(RE_REF@, Seq::empty(), wikitext);
    let t = substitute(RE_TABLE@, Seq::empty(), t);
    let t = strip_templates(t, TEMPLATE_PASSES as nat);
    let t = substitute(RE_CATEGORY@, Seq::empty(), t);
    let t = substitute(RE_FILE@, Seq::empty(), t);
    let t = substitute(RE_PIPED_LINK@, FIRST_GROUP@, t);
    let t = substitute(RE_SIMPLE_LINK@, FIRST_GROUP@, t);
    let t = substitute(RE_EXTERNAL_LINK@, FIRST_GROUP@, t);
    let t = substitute(RE_BOLD@, FIRST_GROUP@, t);
    let t = substitute(RE_ITALIC@, FIRST_GROUP@, t);
    let t = substitute(RE_HEADING@, FIRST_GROUP@, t);
    substitute(RE_HTML_TAG@, Seq::empty(), t)
}

/// Applies one substitution pass to `text` (see [`substitute`]).
fn substitute_in(pattern: &str, replacement: &str, text: String) -> (r: String)
    ensures
        r@ == substitute(pattern@, replacement@, text@),
{
    match replace_all(pattern, text.as_str(), replacement) {
        Some(s) => s,
        None => text,
    }
}

/// Cleans wikitext with regular expressions (see [`fallback_spec`]).
pub fn fallback_clean(wikitext: &str) -> (r: String)
    ensures
        r@ == fallback_spec(wikitext@),
{
    let empty = "";
    assert(empty@ =~= Seq::<char>::empty()) by {
        reveal_strlit("");
    }
    let mut text = wikitext.to_owned();
    text = substitute_in(RE_REF, empty, text);
    text = substitute_in(RE_TABLE, empty, text);
    let ghost before = text@;
    let mut pass: usize = 0;
    while pass < TEMPLATE_PASSES
        invariant
            pass <= TEMPLATE_PASSES,
            empty@ == Seq::<char>::empty(),
            strip_templates(text@, (TEMPLATE_PASSES - pass) as nat) == strip_templates(
                before,
                TEMPLATE_PASSES as nat,
            ),
        ensures
            empty@ == Seq::<char>::empty(),
            text@ == strip_templates(before, TEMPLATE_PASSES as nat),
        decreases TEMPLATE_PASSES - pass,
    {
        let next = substitute_in(RE_TEMPLATE, empty, text.clone());
        if next == text {
            break;
        }
        text = next;
        pass = pass + 1;
    }
    text = substitute_in(RE_CATEGORY, empty, text);
    text = substitute_in(RE_FILE, empty, text);
    text = substitute_in(RE_PIPED_LINK, FIRST_GROUP, text);
    text = substitute_in(RE_SIMPLE_LINK, FIRST_GROUP, text);
    text = substitute_in(RE_EXTERNAL_LINK, FIRST_GROUP, text);
    text = substitute_in(RE_BOLD, FIRST_GROUP, text);
    text = substitute_in(RE_ITALIC, FIRST_GROUP, text);
    text = substitute_in(RE_HEADING, FIRST_GROUP, text);
    substitute_in(RE_HTML_TAG, empty, text)
}

} // verus!
