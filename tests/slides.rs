use pptx_read::slides::{collect_slide_text, extract_slide_number, is_slide_entry, order_slides};

fn names(v: &[&str]) -> Vec<String> {
    v.iter().map(|s| s.to_string()).collect()
}

#[test]
fn slide_number_from_file_name() {
    assert_eq!(extract_slide_number("ppt/slides/slide12.xml"), Some(12));
    assert_eq!(extract_slide_number("slide7.xml"), Some(7));
    assert_eq!(extract_slide_number("a/b/slide+3.xml"), Some(3));
    assert_eq!(extract_slide_number("ppt/slides/slide4294967295.xml"), Some(4294967295));
}

#[test]
fn slide_number_missing() {
    assert_eq!(extract_slide_number("ppt/slides/slideX.xml"), None);
    assert_eq!(extract_slide_number("ppt/slides/slide.xml"), None);
    assert_eq!(extract_slide_number("ppt/slides/slide+.xml"), None);
    assert_eq!(extract_slide_number("ppt/slides/slide-1.xml"), None);
    assert_eq!(extract_slide_number("ppt/slides/slide4294967296.xml"), None);
    assert_eq!(extract_slide_number("ppt/slides/slide1.xml.rels"), None);
    assert_eq!(extract_slide_number("ppt/slides/page1.xml"), None);
}

#[test]
fn slide_entries_are_direct_slide_parts() {
    assert!(is_slide_entry("ppt/slides/slide1.xml"));
    assert!(is_slide_entry("ppt/slides/slideX.xml"));
    assert!(!is_slide_entry("ppt/slides/_rels/slide1.xml.rels"));
    assert!(!is_slide_entry("ppt/slides/sub/slide1.xml"));
    assert!(!is_slide_entry("ppt/notesSlides/notesSlide1.xml"));
    assert!(!is_slide_entry("ppt/slideLayouts/slideLayout1.xml"));
    assert!(!is_slide_entry("PPT/slides/slide1.xml"));
    assert!(!is_slide_entry("ppt/slides/slide1.XML"));
}

#[test]
fn slides_are_ordered_numerically() {
    let got = order_slides(&names(&[
        "ppt/slides/slide2.xml",
        "ppt/slides/slide10.xml",
        "ppt/slides/slide1.xml",
    ]));
    assert_eq!(
        got,
        names(&["ppt/slides/slide1.xml", "ppt/slides/slide2.xml", "ppt/slides/slide10.xml"])
    );
}

#[test]
fn unnumbered_slides_sort_first_and_ties_keep_order() {
    let got = order_slides(&names(&[
        "ppt/slides/slide3.xml",
        "[Content_Types].xml",
        "ppt/slides/slideB.xml",
        "ppt/slides/slide+3.xml",
        "ppt/slides/slideA.xml",
        "ppt/notesSlides/notesSlide1.xml",
    ]));
    assert_eq!(
        got,
        names(&[
            "ppt/slides/slideB.xml",
            "ppt/slides/slideA.xml",
            "ppt/slides/slide3.xml",
            "ppt/slides/slide+3.xml",
        ])
    );
}

#[test]
fn no_slides_orders_to_nothing() {
    assert!(order_slides(&names(&["docProps/app.xml"])).is_empty());
    assert!(order_slides(&Vec::new()).is_empty());
}

#[test]
fn blank_slides_are_skipped_and_numbering_has_no_gaps() {
    let xmls = names(&["<a:t>One</a:t>", "<p>nothing</p>", "<a:t> </a:t>", "<a:t>Two</a:t></a:p>"]);
    assert_eq!(
        collect_slide_text(&xmls),
        "--- Slide 1 ---\nOne \n\n--- Slide 2 ---\nTwo \n\n"
    );
}

#[test]
fn no_slide_text_collects_to_empty() {
    assert_eq!(collect_slide_text(&names(&["<p/>", ""])), "");
    assert_eq!(collect_slide_text(&Vec::new()), "");
}

#[test]
fn slide_numbers_past_nine_have_two_digits() {
    let xmls: Vec<String> = (0..12).map(|i| format!("<a:t>s{i}</a:t>")).collect();
    let text = collect_slide_text(&xmls);
    assert!(text.contains("--- Slide 10 ---\ns9 \n\n"));
    assert!(text.ends_with("--- Slide 12 ---\ns11 \n\n"));
}
