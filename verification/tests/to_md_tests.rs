use htmlr::{to_md, ToMdOptions};

type Result<T> = core::result::Result<T, Box<dyn std::error::Error>>;

#[test]
fn to_md_impl_test_to_md_basic_html() -> Result<()> {
	let html = "<h1>Title</h1><p>Paragraph</p><a href=\"/x\">link</a><ul><li>item</li></ul>";
	let md = to_md(html, None).map_err(|e| e.to_string())?;
	assert!(md.contains("# Title"));
	assert!(md.contains("Paragraph"));
	assert!(md.contains("[link](/x)"));
	assert!(md.contains("- item"));
	Ok(())
}

#[test]
fn to_md_impl_test_to_md_empty_string() -> Result<()> {
	let md = to_md("", None).map_err(|e| e.to_string())?;
	assert_eq!(md, "");
	Ok(())
}

#[test]
fn to_md_impl_test_to_md_invalid_html() {
	// htmd converter is lenient, but we verify that to_md does not panic
	// and returns a Result (error propagation mapping is covered by Error::custom_from_err).
	let result = to_md("<p>unclosed<b>", None);
	assert!(result.is_ok() || result.is_err());
}

#[test]
fn test_to_md_script_tags() -> Result<()> {
	// -- Setup & Fixtures
	let html = r#"
		<div>
			<h1>Title</h1>
			<script>
				const x = 10;
				console.log("secret script content", x);
			</script>
			<p>Hello <script type="text/javascript">alert('inline');</script>World</p>
			<script src="app.js">fallback script text</script>
		</div>
	"#;

	// -- Exec
	let md = to_md(html, None).map_err(|e| e.to_string())?;

	// -- Check
	assert!(md.contains("# Title"));
	assert!(md.contains("Hello"));
	assert!(md.contains("World"));
	assert!(!md.contains("console.log"));
	assert!(!md.contains("secret script content"));
	assert!(!md.contains("alert"));
	assert!(!md.contains("inline"));
	assert!(!md.contains("fallback script text"));
	assert!(!md.contains("script"));

	Ok(())
}

#[test]
fn test_to_md_title_and_heading_shift_default() -> Result<()> {
	// -- Setup & Fixtures
	let html = r#"
		<!DOCTYPE html>
		<html>
		<head><title>My Document Title</title></head>
		<body>
			<h1>Main Header</h1>
			<p>Some introductory text.</p>
			<h2>Sub Header</h2>
			<p>Section text.</p>
			<h3>Sub Sub Header</h3>
			<h4>Level 4</h4>
			<h5>Level 5</h5>
			<h6>Level 6</h6>
		</body>
		</html>
	"#;

	// -- Exec
	let md = to_md(html, None).map_err(|e| e.to_string())?;

	// -- Check
	assert!(md.starts_with("# My Document Title\n\n"));
	assert!(md.contains("## Main Header"));
	assert!(md.contains("### Sub Header"));
	assert!(md.contains("#### Sub Sub Header"));
	assert!(md.contains("##### Level 4"));
	assert!(md.contains("###### Level 5"));
	assert!(md.contains("####### Level 6"));

	Ok(())
}

#[test]
fn test_to_md_title_with_entities() -> Result<()> {
	// -- Setup & Fixtures
	let html = "<title>Tom &amp; Jerry &quot;Show&quot;</title><h1>Episode 1</h1>";

	// -- Exec
	let md = to_md(html, None).map_err(|e| e.to_string())?;

	// -- Check
	assert!(md.starts_with("# Tom & Jerry \"Show\"\n\n"));
	assert!(md.contains("## Episode 1"));

	Ok(())
}

#[test]
fn test_to_md_empty_or_whitespace_title() -> Result<()> {
	// -- Setup & Fixtures
	let html_empty = "<title></title><h1>Header 1</h1><p>Body</p>";
	let html_spaces = "<title>   \n\t </title><h1>Header 1</h1><p>Body</p>";

	// -- Exec
	let md_empty = to_md(html_empty, None).map_err(|e| e.to_string())?;
	let md_spaces = to_md(html_spaces, None).map_err(|e| e.to_string())?;

	// -- Check
	assert!(md_empty.contains("# Header 1"));
	assert!(!md_empty.contains("## Header 1"));

	assert!(md_spaces.contains("# Header 1"));
	assert!(!md_spaces.contains("## Header 1"));

	Ok(())
}

#[test]
fn test_to_md_no_title_tag() -> Result<()> {
	// -- Setup & Fixtures
	let html = "<div><h1>Direct H1</h1><h2>Direct H2</h2></div>";

	// -- Exec
	let md = to_md(html, None).map_err(|e| e.to_string())?;

	// -- Check
	assert!(md.contains("# Direct H1"));
	assert!(md.contains("## Direct H2"));
	assert!(!md.contains("### Direct H2"));

	Ok(())
}

#[test]
fn test_to_md_disabled_title_as_h1() -> Result<()> {
	// -- Setup & Fixtures
	let html = "<title>Doc Title</title><h1>Header 1</h1>";
	let opts = ToMdOptions::default().with_title_as_h1(false);

	// -- Exec
	let md = to_md(html, opts).map_err(|e| e.to_string())?;

	// -- Check
	assert!(!md.contains("# Doc Title"));
	assert!(md.contains("# Header 1"));

	Ok(())
}

#[test]
fn test_to_md_disabled_shift_headings() -> Result<()> {
	// -- Setup & Fixtures
	let html = "<title>Doc Title</title><h1>Header 1</h1><h2>Header 2</h2>";
	let opts = ToMdOptions::default().with_shift_headings(false);

	// -- Exec
	let md = to_md(html, opts).map_err(|e| e.to_string())?;

	// -- Check
	assert!(md.starts_with("# Doc Title\n\n"));
	assert!(md.contains("# Header 1"));
	assert!(md.contains("## Header 2"));
	assert!(!md.contains("### Header 2"));

	Ok(())
}

#[test]
fn md_test_to_md_basic_html() {
	let html = "<h1>Title</h1><p>Paragraph</p><a href=\"/x\">link</a><ul><li>item</li></ul>";
	let md = to_md(html, None).unwrap();
	assert!(md.contains("# Title"));
	assert!(md.contains("Paragraph"));
	assert!(md.contains("[link](/x)"));
	assert!(md.contains("- item"));
}

#[test]
fn md_test_to_md_empty_string() {
	let md = to_md("", None).unwrap();
	assert_eq!(md, "");
}

#[test]
fn md_test_to_md_invalid_html() {
	// htmd converter is lenient, but we verify that to_md does not panic
	// and returns a Result (error propagation mapping is covered by Error::custom_from_err).
	let result = to_md("<p>unclosed<b>", None);
	assert!(result.is_ok() || result.is_err());
}
