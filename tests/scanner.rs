use pptx_read::scanner::extract_text_from_xml;

#[test]
fn runs_are_joined_with_spaces_and_paragraphs_end_lines() {
    let xml = "<a:t>Hello</a:t><a:t>World</a:t></a:p>";
    assert_eq!(extract_text_from_xml(xml), "Hello World \n");
}

#[test]
fn entities_are_decoded_in_one_pass() {
    let xml = "<a:t>&amp;lt;b&amp;gt;</a:t>";
    assert_eq!(extract_text_from_xml(xml), "&lt;b&gt; ");
}

#[test]
fn all_six_entities_decode() {
    let xml = "<a:t>&amp;&lt;&gt;&quot;&apos;&#39;&bogus;</a:t>";
    assert_eq!(extract_text_from_xml(xml), "&<>\"''&bogus; ");
}

#[test]
fn run_with_attributes_opens_a_run() {
    let xml = "<a:t xml:space=\"preserve\"> padded </a:t>";
    assert_eq!(extract_text_from_xml(xml), " padded  ");
}

#[test]
fn other_tags_that_share_a_prefix_are_ignored() {
    let xml = "<a:tab>x</a:tab><a:t>y</a:t>";
    assert_eq!(extract_text_from_xml(xml), "y ");
}

#[test]
fn breaks_never_double_newlines() {
    let xml = "<a:t>one</a:t><a:br/><a:br></a:p><a:t>two</a:t></a:p>";
    assert_eq!(extract_text_from_xml(xml), "one \ntwo \n");
}

#[test]
fn break_before_any_text_starts_a_line() {
    assert_eq!(extract_text_from_xml("</a:p>"), "\n");
    assert_eq!(extract_text_from_xml("</a:p><a:br/><a:t>x</a:t>"), "\nx ");
}

#[test]
fn text_outside_runs_is_dropped() {
    assert_eq!(extract_text_from_xml("stray<p>more</p><a:t>in</a:t>tail"), "in ");
}

#[test]
fn unterminated_run_contributes_nothing() {
    assert_eq!(extract_text_from_xml("<a:t>kept</a:t><a:t>lost"), "kept ");
}

#[test]
fn partial_tag_at_end_is_discarded() {
    assert_eq!(extract_text_from_xml("<a:t>lost</a:t"), "");
    assert_eq!(extract_text_from_xml("<a:t>a</a:t></a:p"), "a ");
}

#[test]
fn reopened_run_discards_pending_text() {
    assert_eq!(extract_text_from_xml("<a:t>first<a:t>second</a:t>"), "second ");
}

#[test]
fn empty_run_adds_nothing() {
    assert_eq!(extract_text_from_xml("<a:t></a:t><a:t>x</a:t>"), "x ");
}

#[test]
fn multibyte_text_is_kept() {
    assert_eq!(extract_text_from_xml("<a:t>héllo ✓</a:t>"), "héllo ✓ ");
}

#[test]
fn empty_input_gives_empty_text() {
    assert_eq!(extract_text_from_xml(""), "");
}

#[test]
fn scanning_twice_gives_the_same_text() {
    let xml = "<a:t>a &amp; b</a:t></a:p><a:t>c</a:t>";
    assert_eq!(extract_text_from_xml(xml), extract_text_from_xml(xml));
}
