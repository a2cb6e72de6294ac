//! Formatting of extracted pages, page URLs and file-size settings.
use vstd::prelude::*;

use crate::error::{Error, ErrorView};
use crate::numbers::{
    all_digits, decimal, is_digit, numeral_value, parse_u64, parse_u64_spec, push_decimal,
};
use crate::text::{chars_of, push_char, string_of, trim, trim_end, trim_start, trimmed};

verus! {

/// Output format for extracted Wikipedia pages.
#[derive(Clone, Copy, Debug, PartialEq, Eq, Structural)]
pub enum OutputFormat {
    /// Doc format: `<doc id="..." url="..." title="...">text</doc>`
    Doc,
    /// JSON format: one JSON object per line with id, url, title, and text fields.
    Json,
}

/// The HTML escape of one character: `&`, `<`, `>` and `"` become entities.
pub open spec fn escape_char(c: char) -> Seq<char> {
    if c == '&' {
        "&amp;"@
    } else if c == '<' {
        "&lt;"@
    } else if c == '>' {
        "&gt;"@
    } else if c == '"' {
        "&quot;"@
    } else {
        seq![c]
    }
}

/// `s` with HTML special characters escaped.
pub open spec fn escape_html_spec(s: Seq<char>) -> Seq<char>
    decreases s.len(),
{
    if s.len() == 0 {
        Seq::empty()
    } else {
        escape_html_spec(s.drop_last()) + escape_char(s.last())
    }
}

/// Escapes HTML special characters (see [`escape_html_spec`]).
pub fn escape_html(s: &str) -> (r: String)
    ensures
        r@ == escape_html_spec(s@),
{
    let v = chars_of(s);
    let mut out = String::new();
    let mut i: usize = 0;
    while i < v.len()
        invariant
            i <= v@.len(),
            v@ == s@,
            out@ == escape_html_spec(v@.take(i as int)),
        decreases v@.len() - i,
    {
        let c = v[i];
        if c == '&' {
            out.append("&amp;");
        } else if c == '<' {
            out.append("&lt;");
        } else if c == '>' {
            out.append("&gt;");
        } else if c == '"' {
            out.append("&quot;");
        } else {
            push_char(&mut out, c);
        }
        assert(v@.take(i + 1).drop_last() =~= v@.take(i as int));
        i = i + 1;
    }
    assert(v@.take(v@.len() as int) =~= v@);
    out
}

/// `title` with spaces replaced by underscores.
pub open spec fn url_title(title: Seq<char>) -> Seq<char> {
    title.map_values(|c: char| if c == ' ' { '_' } else { c })
}

/// The URL of the page `title` under `url_base`: the base, `/`, and the
/// title with spaces replaced by underscores.
pub open spec fn page_url(url_base: Seq<char>, title: Seq<char>) -> Seq<char> {
    url_base + seq!['/'] + url_title(title)
}

/// Generates a Wikipedia URL from a base URL and a page title (see
/// [`page_url`]).
pub fn make_url(url_base: &str, title: &str) -> (r: String)
    ensures
        r@ == page_url(url_base@, title@),
{
    let v = chars_of(title);
    let mut out = String::from_str(url_base);
    push_char(&mut out, '/');
    let ghost start = out@;
    let mut i: usize = 0;
    while i < v.len()
        invariant
            i <= v@.len(),
            v@ == title@,
            out@ == start + url_title(v@.take(i as int)),
        decreases v@.len() - i,
    {
        let c = v[i];
        if c == ' ' {
            push_char(&mut out, '_');
        } else {
            push_char(&mut out, c);
        }
        assert(url_title(v@.take(i + 1)) =~= url_title(v@.take(i as int)).push(
            if c == ' ' { '_' } else { c },
        ));
        i = i + 1;
    }
    assert(v@.take(v@.len() as int) =~= v@);
    out
}

/// A lower-case hexadecimal digit (`n` below 16).
pub open spec fn hex_digit(n: nat) -> char {
    if n < 10 {
        (n + ('0' as nat)) as char
    } else {
        (n - 10 + ('a' as nat)) as char
    }
}

/// How a character is written inside a JSON string: `"` and `\` behind a
/// backslash; backspace, form feed, line feed, carriage return and tab as
/// `\b`, `\f`, `\n`, `\r`, `\t`; the other characters below U+0020 as
/// `\u00` and two lower-case hex digits; every other character as itself.
pub open spec fn json_escape(c: char) -> Seq<char> {
    if c == '"' {
        seq!['\\', '"']
    } else if c == '\\' {
        seq!['\\', '\\']
    } else if c == '\u{8}' {
        seq!['\\', 'b']
    } else if c == '\u{c}' {
        seq!['\\', 'f']
    } else if c == '\n' {
        seq!['\\', 'n']
    } else if c == '\r' {
        seq!['\\', 'r']
    } else if c == '\t' {
        seq!['\\', 't']
    } else if (c as nat) < 32 {
        seq!['\\', 'u', '0', '0', hex_digit((c as nat) / 16), hex_digit((c as nat) % 16)]
    } else {
        seq![c]
    }
}

/// The characters of `s` as written inside a JSON string.
pub open spec fn json_escaped(s: Seq<char>) -> Seq<char>
    decreases s.len(),
{
    if s.len() == 0 {
        Seq::empty()
    } else {
        json_escaped(s.drop_last()) + json_escape(s.last())
    }
}

/// A JSON string holding `s`.
pub open spec fn json_string(s: Seq<char>) -> Seq<char> {
    seq!['"'] + json_escaped(s) + seq!['"']
}

/// One member of a JSON object: the key, a colon and the value.
pub open spec fn json_member(entry: (Seq<char>, Seq<char>)) -> Seq<char> {
    json_string(entry.0) + seq![':'] + json_string(entry.1)
}

/// The members of a JSON object, in order, separated by commas.
pub open spec fn json_members(entries: Seq<(Seq<char>, Seq<char>)>) -> Seq<char>
    decreases entries.len(),
{
    if entries.len() == 0 {
        Seq::empty()
    } else if entries.len() == 1 {
        json_member(entries[0])
    } else {
        json_members(entries.drop_last()) + seq![','] + json_member(entries.last())
    }
}

/// A JSON object, on one line and without spaces, whose members are the
/// string pairs `entries` (key, then value), in order.
pub open spec fn json_object_text(entries: Seq<(Seq<char>, Seq<char>)>) -> Seq<char> {
    seq!['{'] + json_members(entries) + seq!['}']
}

/// The keys and values of `entries` as plain values.
pub open spec fn entries_view(entries: Seq<(&str, &str)>) -> Seq<(Seq<char>, Seq<char>)> {
    entries.map_values(|e: (&str, &str)| (e.0@, e.1@))
}

/// Serialises a JSON object of string members with
/// `serde_json::to_string`, its map built from `entries` in order.
///
/// Claims that the text is [`json_object_text`] of the members: with the
/// `preserve_order` feature the map keeps the members in the order they
/// were inserted (the keys are distinct), and `to_string` writes them as
/// `"key":"value"` pairs joined by commas, with its string escapes.
#[verifier::external_body]
fn json_object(entries: &[(&str, &str)]) -> (r: String)
    requires
        forall|i: int, j: int| 0 <= i < j < entries@.len() ==> entries@[i].0@ != entries@[j].0@,
    ensures
        r@ == json_object_text(entries_view(entries@)),
{
    let object: serde_json::Map<String, serde_json::Value> = entries
        .iter()
        .map(|(k, v)| (k.to_string(), serde_json::Value::String(v.to_string())))
        .collect();
    serde_json::to_string(&serde_json::Value::Object(object)).unwrap_or_default()
}

/// The JSON members of a page: its id as a string, URL, title and text.
pub open spec fn page_members(id: u64, url: Seq<char>, title: Seq<char>, text: Seq<char>) -> Seq<(Seq<char>, Seq<char>)> {
    seq![
        ("id"@, decimal(id as nat)),
        ("url"@, url),
        ("title"@, title),
        ("text"@, text),
    ]
}

/// A page in the given output format.
///
/// Doc: `<doc id="ID" url="URL" title="TITLE">`, a line break, the text,
/// `\n</doc>` and a blank line, with the URL and title HTML-escaped. JSON:
/// one object with the members id (as a string), url, title and text, in
/// that order, and a line break.
pub open spec fn format_page_spec(id: u64, title: Seq<char>, url_base: Seq<char>, text: Seq<char>, format: OutputFormat) -> Seq<char> {
    let url = page_url(url_base, title);
    match format {
        OutputFormat::Doc => "<doc id=\""@ + decimal(id as nat) + "\" url=\""@ + escape_html_spec(url)
            + "\" title=\""@ + escape_html_spec(title) + "\">\n"@ + text + "\n</doc>\n\n"@,
        OutputFormat::Json => json_object_text(page_members(id, url, title, text)) + seq!['\n'],
    }
}

/// Formats a Wikipedia page into the specified output format (see
/// [`format_page_spec`]).
pub fn format_page(id: u64, title: &str, url_base: &str, text: &str, format: OutputFormat) -> (r: String)
    ensures
        r@ == format_page_spec(id, title@, url_base@, text@, format),
{
    let url = make_url(url_base, title);
    match format {
        OutputFormat::Doc => {
            let mut out = String::from_str("<doc id=\"");
            push_decimal(&mut out, id);
            out.append("\" url=\"");
            let escaped_url = escape_html(url.as_str());
            out.append(escaped_url.as_str());
            out.append("\" title=\"");
            let escaped_title = escape_html(title);
            out.append(escaped_title.as_str());
            out.append("\">\n");
            out.append(text);
            out.append("\n</doc>\n\n");
            out
        },
        OutputFormat::Json => {
            let mut id_text = String::new();
            push_decimal(&mut id_text, id);
            let entries: [(&str, &str); 4] = [
                ("id", id_text.as_str()),
                ("url", url.as_str()),
                ("title", title),
                ("text", text),
            ];
            assert(entries_view(entries@) =~= page_members(id, url@, title@, text@));
            proof {
                reveal_strlit("id");
                reveal_strlit("url");
                reveal_strlit("title");
                reveal_strlit("text");
                assert(forall|i: int, j: int|
                    0 <= i < j < entries@.len() ==> entries@[i].0@.len() != entries@[j].0@.len());
            }
            let mut out = json_object(entries.as_slice());
            push_char(&mut out, '\n');
            out
        },
    }
}

/// The factor of a size suffix: `K`, `M` and `G` for 1024, 1024² and 1024³.
pub open spec fn size_factor(c: char) -> Option<nat> {
    if c == 'K' {
        Some(1024)
    } else if c == 'M' {
        Some(1024 * 1024)
    } else if c == 'G' {
        Some(1024 * 1024 * 1024)
    } else {
        None
    }
}

/// The byte count that a size specification denotes, if it is valid: the
/// trimmed text is a number (as `str::parse::<u64>` reads it), optionally
/// followed by one of the suffixes `K`, `M`, `G`.
pub open spec fn file_size_value(spec: Seq<char>) -> Option<nat> {
    let t = trim(spec);
    if t.len() == 0 {
        None
    } else {
        match size_factor(t.last()) {
            Some(f) => match parse_u64_spec(t.drop_last()) {
                Some(n) => Some(n as nat * f),
                None => None,
            },
            None => match parse_u64_spec(t) {
                Some(n) => Some(n as nat),
                None => None,
            },
        }
    }
}

/// Whether `spec` is a valid size specification whose byte count does not
/// fit in a `u64` (the number times its suffix's factor overflows).
pub fn file_size_overflows(spec: &str) -> (b: bool)
    ensures
        b == (file_size_value(spec@) matches Some(n) && n > u64::MAX),
{
    let raw = chars_of(spec);
    let t = trimmed(raw.as_slice());
    let len = t.len();
    if len == 0 {
        return false;
    }
    let last = t[len - 1];
    let factor: u64 = if last == 'K' {
        1024
    } else if last == 'M' {
        1024 * 1024
    } else if last == 'G' {
        1024 * 1024 * 1024
    } else {
        return false;
    };
    let mut digits = t.clone();
    digits.pop();
    assert(digits@ =~= t@.drop_last());
    match parse_u64(digits.as_slice()) {
        Some(n) => n.checked_mul(factor).is_none(),
        None => false,
    }
}

/// Parses a file size specification (such as `"1M"`, `"500K"`, `"0"`) into a
/// byte count; an invalid one gives `InvalidFileSize` with the trimmed
/// specification (see [`file_size_value`]).
pub fn parse_file_size(spec: &str) -> (r: Result<u64, Error>)
    requires
        file_size_value(spec@) matches Some(n) ==> n <= u64::MAX,
    ensures
        match r {
            Ok(n) => file_size_value(spec@) == Some(n as nat),
            Err(e) => file_size_value(spec@) is None && e@ == ErrorView::InvalidFileSize(trim(spec@)),
        },
{
    let raw = chars_of(spec);
    let t = trimmed(raw.as_slice());
    let len = t.len();
    if len == 0 {
        return Err(Error::InvalidFileSize(string_of(t.as_slice())));
    }
    let last = t[len - 1];
    let factor: Option<u64> = if last == 'K' {
        Some(1024)
    } else if last == 'M' {
        Some(1024 * 1024)
    } else if last == 'G' {
        Some(1024 * 1024 * 1024)
    } else {
        None
    };
    match factor {
        Some(f) => {
            let mut digits = t.clone();
            digits.pop();
            assert(digits@ =~= t@.drop_last());
            match parse_u64(digits.as_slice()) {
                Some(n) => {
                    assert(n as nat * f as nat <= u64::MAX);
                    Ok(n * f)
                },
                None => Err(Error::InvalidFileSize(string_of(t.as_slice()))),
            }
        },
        None => match parse_u64(t.as_slice()) {
            Some(n) => Ok(n),
            None => Err(Error::InvalidFileSize(string_of(t.as_slice()))),
        },
    }
}

/// Escaped text holds no `<`, `>` or `"`.
pub proof fn law_escaped_has_no_markup(s: Seq<char>)
    ensures
        forall|i: int|
            0 <= i < escape_html_spec(s).len() ==> {
                let c = #[trigger] escape_html_spec(s)[i];
                c != '<' && c != '>' && c != '"'
            },
    decreases s.len(),
{
    reveal_strlit("&amp;");
    reveal_strlit("&lt;");
    reveal_strlit("&gt;");
    reveal_strlit("&quot;");
    if s.len() > 0 {
        law_escaped_has_no_markup(s.drop_last());
        let p = escape_html_spec(s.drop_last());
        let e = escape_char(s.last());
        assert forall|i: int| 0 <= i < (p + e).len() implies {
            let c = #[trigger] (p + e)[i];
            c != '<' && c != '>' && c != '"'
        } by {
            if i < p.len() {
                assert((p + e)[i] == p[i]);
            } else {
                assert((p + e)[i] == e[i - p.len()]);
            }
        }
    }
}

/// A number of bytes may carry the suffix `K`, `M` or `G`, which multiplies
/// it by 1024, 1024² or 1024³.
pub proof fn law_size_suffixes(digits: Seq<char>)
    requires
        digits.len() > 0,
        all_digits(digits),
        numeral_value(digits) <= u64::MAX,
    ensures
        file_size_value(digits) == Some(numeral_value(digits)),
        file_size_value(digits.push('K')) == Some(numeral_value(digits) * 1024),
        file_size_value(digits.push('M')) == Some(numeral_value(digits) * 1048576),
        file_size_value(digits.push('G')) == Some(numeral_value(digits) * 1073741824),
{
    assert(is_digit(digits[0]) && is_digit(digits.last()));
    assert(trim_start(digits) == digits);
    assert(trim_end(digits) == digits);
    let k = digits.push('K');
    let m = digits.push('M');
    let g = digits.push('G');
    assert(k[0] == digits[0] && m[0] == digits[0] && g[0] == digits[0]);
    assert(trim_start(k) == k && trim_end(k) == k);
    assert(trim_start(m) == m && trim_end(m) == m);
    assert(trim_start(g) == g && trim_end(g) == g);
    assert(k.drop_last() =~= digits && m.drop_last() =~= digits && g.drop_last() =~= digits);
}

/// In the doc format the page text is written as it is: the output for any
/// text is the output for an empty text with the text put in just before
/// the closing `\n</doc>\n\n`. So the record ends with the text and the
/// closing, and nothing of the text is escaped or dropped.
pub proof fn law_doc_text_written_unchanged(id: u64, title: Seq<char>, url_base: Seq<char>, text: Seq<char>)
    ensures
        ({
            let empty = format_page_spec(id, title, url_base, Seq::empty(), OutputFormat::Doc);
            let closing = "\n</doc>\n\n"@;
            &&& empty.len() >= closing.len()
            &&& empty.skip(empty.len() - closing.len()) == closing
            &&& format_page_spec(id, title, url_base, text, OutputFormat::Doc) == empty.take(
                empty.len() - closing.len(),
            ) + text + closing
        }),
{
    let url = page_url(url_base, title);
    let head = "<doc id=\""@ + decimal(id as nat) + "\" url=\""@ + escape_html_spec(url) + "\" title=\""@
        + escape_html_spec(title) + "\">\n"@;
    let closing = "\n</doc>\n\n"@;
    let empty = format_page_spec(id, title, url_base, Seq::empty(), OutputFormat::Doc);
    assert(empty =~= head + Seq::<char>::empty() + closing);
    assert(head + Seq::<char>::empty() =~= head);
    assert(empty.take(empty.len() - closing.len()) =~= head);
    assert(empty.skip(empty.len() - closing.len()) =~= closing);
}

} // verus!
