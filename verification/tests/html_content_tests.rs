use htmlr::{HtmlContent, HtmlParsed};

#[test]
fn test_html_content_from_str() {
	let content: HtmlContent = "some html".into();
	match content {
		HtmlContent::Source(s) => assert_eq!(s, "some html"),
		_ => panic!("Expected Source variant"),
	}
}

#[test]
fn test_html_content_from_parsed() {
	let doc = HtmlParsed::parse_document("<p>test</p>");
	let content: HtmlContent = (&doc).into();
	match content {
		HtmlContent::Parsed(d) => {
			// check that the inner_html produces something
			let text = d.root_element().inner_html();
			assert!(text.contains("<p>"));
		}
		_ => panic!("Expected Parsed variant"),
	}
}
