use wikiext::cleaner::{clean_text, clean_wikitext, fallback_clean};
#[test]
fn test_plain_text_passthrough() {
    let input = "This is plain text.";
    let result = clean_wikitext(input);
    assert_eq!(result, "This is plain text.");
}

#[test]
fn test_bold_italic_removal() {
    let input = "This is '''bold''' and ''italic'' text.";
    let result = clean_wikitext(input);
    assert_eq!(result, "This is bold and italic text.");
}

#[test]
fn test_internal_link_without_pipe() {
    let input = "Visit [[Main Page]] for more.";
    let result = clean_wikitext(input);
    assert_eq!(result, "Visit Main Page for more.");
}

#[test]
fn test_internal_link_with_pipe() {
    let input = "See [[United States|the US]] for details.";
    let result = clean_wikitext(input);
    assert_eq!(result, "See the US for details.");
}

#[test]
fn test_external_link() {
    let input = "Visit [http://example.com Example Site] for more.";
    let result = clean_wikitext(input);
    assert!(
        result.contains("Example Site"),
        "Expected label text, got: {result}"
    );
}

#[test]
fn test_template_removal() {
    let input = "Before {{cite web|url=http://example.com|title=Test}} after.";
    let result = clean_wikitext(input);
    assert!(
        !result.contains("cite web"),
        "Template should be removed, got: {result}"
    );
    assert!(
        result.contains("Before"),
        "Text before template should remain, got: {result}"
    );
    assert!(
        result.contains("after."),
        "Text after template should remain, got: {result}"
    );
}

#[test]
fn test_table_removal() {
    let input =
        "Before table.\n{| class=\"wikitable\"\n|-\n! Header\n|-\n| Cell\n|}\nAfter table.";
    let result = clean_wikitext(input);
    assert!(
        !result.contains("Header"),
        "Table content should be removed, got: {result}"
    );
    assert!(
        result.contains("Before table."),
        "Text before table should remain, got: {result}"
    );
}

#[test]
fn test_comment_removal() {
    let input = "Visible <!-- hidden comment --> text.";
    let result = clean_wikitext(input);
    assert!(
        !result.contains("hidden comment"),
        "Comment should be removed, got: {result}"
    );
    assert!(
        result.contains("Visible"),
        "Visible text should remain, got: {result}"
    );
}

#[test]
fn test_heading_extraction() {
    let input = "== Section Title ==\nContent here.";
    let result = clean_wikitext(input);
    assert!(
        result.contains("Section Title"),
        "Heading text should be extracted, got: {result}"
    );
    assert!(
        !result.contains("=="),
        "Heading markers should be removed, got: {result}"
    );
}

#[test]
fn test_category_removal() {
    let input = "Text content.\n[[Category:Example]]";
    let result = clean_wikitext(input);
    assert!(
        !result.contains("Category"),
        "Category should be removed, got: {result}"
    );
    assert!(
        result.contains("Text content."),
        "Regular text should remain, got: {result}"
    );
}

#[test]
fn test_image_removal() {
    let input = "Text content.\n[[File:Example.jpg|thumb|Caption]]";
    let result = clean_wikitext(input);
    assert!(
        !result.contains("Example.jpg"),
        "Image link should be removed, got: {result}"
    );
}

#[test]
fn test_ref_tag_removal() {
    let input = "Fact<ref>Source: Book, 2024</ref> is stated.";
    let result = clean_wikitext(input);
    assert!(
        !result.contains("Source"),
        "Ref content should be removed, got: {result}"
    );
    assert!(
        result.contains("Fact"),
        "Text before ref should remain, got: {result}"
    );
}

#[test]
fn test_unordered_list() {
    let input = "* Item one\n* Item two\n* Item three";
    let result = clean_wikitext(input);
    assert!(
        result.contains("Item one"),
        "List items should be extracted, got: {result}"
    );
    assert!(
        result.contains("Item two"),
        "List items should be extracted, got: {result}"
    );
}

#[test]
fn test_paragraph_break() {
    let input = "First paragraph.\n\nSecond paragraph.";
    let result = clean_wikitext(input);
    assert!(
        result.contains("First paragraph."),
        "First paragraph should be present, got: {result}"
    );
    assert!(
        result.contains("Second paragraph."),
        "Second paragraph should be present, got: {result}"
    );
}

#[test]
fn test_complex_wikitext() {
    let input = "'''Albert Einstein''' was a [[Germany|German]]-born [[theoretical physics|theoretical physicist]]{{cite web|url=http://example.com}} who developed the [[theory of relativity]].<!-- draft note --><ref>Physics Today, 2024</ref>";
    let result = clean_wikitext(input);
    assert!(
        result.contains("Albert Einstein"),
        "Name should be present, got: {result}"
    );
    assert!(
        result.contains("German"),
        "Link display text should be present, got: {result}"
    );
    assert!(
        result.contains("theoretical physicist"),
        "Link display text should be present, got: {result}"
    );
    assert!(
        result.contains("theory of relativity"),
        "Simple link text should be present, got: {result}"
    );
    assert!(
        !result.contains("cite web"),
        "Template should be removed, got: {result}"
    );
    assert!(
        !result.contains("draft note"),
        "Comment should be removed, got: {result}"
    );
    assert!(
        !result.contains("Physics Today"),
        "Ref should be removed, got: {result}"
    );
}

#[test]
fn test_fallback_cleaning() {
    let input = "'''Bold''' and ''italic'' with [[Link|display]] and [[Simple]] link.";
    let result = fallback_clean(input);
    assert!(
        result.contains("Bold"),
        "Bold text should remain, got: {result}"
    );
    assert!(
        result.contains("italic"),
        "Italic text should remain, got: {result}"
    );
    assert!(
        result.contains("display"),
        "Piped link display should remain, got: {result}"
    );
    assert!(
        result.contains("Simple"),
        "Simple link target should remain, got: {result}"
    );
    assert!(
        !result.contains("'''"),
        "Bold markers should be removed, got: {result}"
    );
    assert!(
        !result.contains("''"),
        "Italic markers should be removed, got: {result}"
    );
}

#[test]
fn test_fallback_template_removal() {
    let input = "Before {{outer|{{inner}}}} after.";
    let result = fallback_clean(input);
    assert!(
        !result.contains("{{"),
        "Nested templates should be removed, got: {result}"
    );
}

#[test]
fn test_fallback_ref_removal() {
    let input = "Text<ref name=\"a\">Citation</ref> and <ref/> end.";
    let result = fallback_clean(input);
    assert!(
        !result.contains("Citation"),
        "Ref content should be removed, got: {result}"
    );
}

#[test]
fn test_clean_text_whitespace() {
    let input = "  Line one  \n\n\n\n  Line two  \n  Line three  ";
    let result = clean_text(input);
    assert_eq!(result, "Line one\n\nLine two\nLine three");
}

#[test]
fn test_orphaned_template_close_removal() {
    let input = "amp;}}";
    let result = clean_text(input);
    assert_eq!(
        result, "",
        "Orphaned template close should be removed, got: {result}"
    );
}

#[test]
fn test_template_param_line_removal() {
    let input = "本文テキスト。\n|image5 = Example.jpg|caption5 = 説明文}}\n続きのテキスト。";
    let result = clean_text(input);
    assert!(
        !result.contains("image5"),
        "Template parameter line should be removed, got: {result}"
    );
    assert!(
        result.contains("本文テキスト。"),
        "Body text should remain, got: {result}"
    );
    assert!(
        result.contains("続きのテキスト。"),
        "Following text should remain, got: {result}"
    );
}

#[test]
fn test_comment_remnant_removal() {
    let input = "!--tlh:Hol--";
    let result = clean_text(input);
    assert_eq!(
        result, "",
        "Comment remnant should be removed, got: {result}"
    );
}

#[test]
fn test_comment_remnant_inline() {
    let input = "Visible text !--hidden comment-- more text.";
    let result = clean_text(input);
    assert!(
        !result.contains("hidden comment"),
        "Inline comment remnant should be removed, got: {result}"
    );
    assert!(
        result.contains("Visible text"),
        "Text before comment should remain, got: {result}"
    );
    assert!(
        result.contains("more text."),
        "Text after comment should remain, got: {result}"
    );
}

#[test]
fn test_japanese_category_removal() {
    let input = "本文テキスト。\n[[カテゴリ:日本の都市]]";
    let result = clean_wikitext(input);
    assert!(
        !result.contains("カテゴリ"),
        "Japanese category should be removed, got: {result}"
    );
    assert!(
        result.contains("本文テキスト。"),
        "Body text should remain, got: {result}"
    );
}

#[test]
fn test_japanese_file_removal() {
    let input = "本文テキスト。\n[[ファイル:Example.jpg|thumb|説明文]]";
    let result = clean_wikitext(input);
    assert!(
        !result.contains("Example.jpg"),
        "Japanese file link should be removed, got: {result}"
    );
    assert!(
        !result.contains("ファイル"),
        "Japanese file namespace should be removed, got: {result}"
    );
}

#[test]
fn test_japanese_internal_link() {
    let input = "[[東京都|東京]]は日本の首都である。";
    let result = clean_wikitext(input);
    assert!(
        result.contains("東京"),
        "Japanese link display text should be present, got: {result}"
    );
    assert!(
        !result.contains("東京都"),
        "Japanese link target should be removed when pipe is used, got: {result}"
    );
}

#[test]
fn test_japanese_simple_link() {
    let input = "[[大阪府]]は日本にある。";
    let result = clean_wikitext(input);
    assert!(
        result.contains("大阪府"),
        "Japanese simple link text should be present, got: {result}"
    );
    assert!(
        !result.contains("[["),
        "Link brackets should be removed, got: {result}"
    );
}

#[test]
fn test_japanese_complex_wikitext() {
    let input = "'''日本語'''（にほんご、にっぽんご）は、[[日本]]国内や、かつての[[大日本帝国|日本統治地域]]で使われている[[言語]]である。{{lang|ja|日本語}}<!-- hidden --><ref>出典情報</ref>\n[[カテゴリ:日本の言語]]\n[[ファイル:Japanese.png|thumb|日本語]]";
    let result = clean_wikitext(input);
    assert!(
        result.contains("日本語"),
        "Title text should be present, got: {result}"
    );
    assert!(
        result.contains("にほんご"),
        "Furigana text should be present, got: {result}"
    );
    assert!(
        result.contains("日本統治地域"),
        "Piped link display text should be present, got: {result}"
    );
    assert!(
        result.contains("言語"),
        "Simple link text should be present, got: {result}"
    );
    assert!(
        !result.contains("hidden"),
        "Comment should be removed, got: {result}"
    );
    assert!(
        !result.contains("出典情報"),
        "Ref should be removed, got: {result}"
    );
    assert!(
        !result.contains("カテゴリ"),
        "Japanese category should be removed, got: {result}"
    );
    assert!(
        !result.contains("ファイル"),
        "Japanese file link should be removed, got: {result}"
    );
}

#[test]
fn test_fallback_japanese_category_removal() {
    let input = "テキスト。\n[[カテゴリ:テスト]]";
    let result = fallback_clean(input);
    assert!(
        !result.contains("カテゴリ"),
        "Japanese category should be removed in fallback, got: {result}"
    );
}

#[test]
fn test_fallback_japanese_file_removal() {
    let input = "テキスト。\n[[ファイル:Test.png|thumb|説明]]";
    let result = fallback_clean(input);
    assert!(
        !result.contains("ファイル"),
        "Japanese file should be removed in fallback, got: {result}"
    );
}
