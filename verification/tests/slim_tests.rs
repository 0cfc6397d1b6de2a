use htmlr::{slim, SlimOptions};

type TestResult<T> = core::result::Result<T, Box<dyn std::error::Error>>;

#[test]
    fn test_slimmer2_slim_basic() -> TestResult<()> {
        // -- Setup & Fixtures
        let fx_html = r#"
<!DOCTYPE html>
<html lang="en">
<head>
    <meta charset="UTF-8">
    <meta name="viewport" content="width=device-width, initial-scale=1.0">
    <meta property="og:title" content="Test Title">
    <meta property="og:url" content="http://example.com">
    <meta property="og:image" content="http://example.com/img.png">
    <meta property="og:description" content="Test Description">
    <meta name="keywords" content="test, html"> <!-- Should be removed -->
    <title>Simple HTML Page</title>
    <style> body{ color: red } </style>
    <link rel="stylesheet" href="style.css">
    <script> console.log("hi"); </script>
    <base href="/"> <!-- Should be removed -->
</head>
<body class="main-body" aria-label="Page body">
    <svg><path d="M0 0 L 10 10"></path></svg> <!-- Should be removed -->
    <div>
        <span></span> <!-- Should be removed (effectively empty after processing) -->
        <p> <!-- Effectively empty after processing --> </p>
        <b>  </b> <!-- Effectively empty after processing -->
        <i><!-- comment --></i> <!-- Effectively empty after processing -->
    </div> <!-- Should be removed (effectively empty after children removed) -->
    <section>Content Inside</section> <!-- Should be kept -->
    <article>  </article> <!-- Should be removed (empty after processing) -->
    <h1 funky-attribute="removeme">Hello, World!</h1> <!-- funky-attribute removed -->
    <p>This is a simple HTML page.</p>
    <a href="https://example.org" class="link-style" extra="gone">Link</a> <!-- href and class kept -->
    <!-- Some Comment -->
</body>
</html>
        "#;

        // Expected output should now match slimmer.rs more closely regarding empty element removal.
        // let expected_head_content = r#"<head><meta content="Test Title" property="og:title"><meta content="http://example.com" property="og:url"><meta content="http://example.com/img.png" property="og:image"><meta content="Test Description" property="og:description"><title>Simple HTML Page</title></head>"#;
        let expected_body_content = r#"<body aria-label="Page body" class="main-body"><section>Content Inside</section><h1>Hello, World!</h1><p>This is a simple HTML page.</p><a class="link-style" href="https://example.org">Link</a></body>"#;
        // Note attribute order might differ slightly between scraper/html5ever & string building, but content should match.

        // -- Exec
        let html = slim(fx_html, SlimOptions::default()).map_err(|e| e.to_string())?;
        // println!(
        //     "\n---\nSlimmed HTML (Scraper - Basic + Post-Empty Removal):\n{}\n---\n",
        //     html
        // );

        // -- Check Head Content (More precise check possible now)
        // Need flexible attribute order check for head
        assert!(html.contains("<head>"));
        assert!(html.contains("</head>"));
        assert!(html.contains(r#"<meta content="Test Title" property="og:title">"#));
        assert!(html.contains(r#"<meta content="http://example.com" property="og:url">"#));
        assert!(html.contains(r#"<meta content="http://example.com/img.png" property="og:image">"#));
        assert!(html.contains(r#"<meta content="Test Description" property="og:description">"#));
        assert!(html.contains(r#"<title>Simple HTML Page</title>"#));

        assert!(
            !html.contains("<meta charset") && !html.contains("<meta name"),
            "Should remove disallowed meta tags"
        );
        assert!(
            !html.contains("<style") && !html.contains("<link") && !html.contains("<script") && !html.contains("<base"),
            "Should remove style, link, script, base"
        );

        // -- Check Body Content (More precise check)
        // Allow for attribute order variations in body tag
        assert!(
            html.contains("<body")
                && html.contains(r#"class="main-body""#)
                && html.contains(r#"aria-label="Page body""#)
                && html.contains(">")
        );
        assert!(html.contains(r#"</body>"#));
        assert!(html.contains(expected_body_content)); // Check the exact sequence for the rest

        // Check removals (should now match slimmer.rs)
        assert!(!html.contains("<svg>"), "Should remove svg");
        assert!(!html.contains("<span>"), "Should remove empty span");
        assert!(!html.contains("<p> </p>"), "Should remove empty p tag");
        assert!(!html.contains("<b>"), "Should remove empty b");
        assert!(!html.contains("<i>"), "Should remove empty i");
        assert!(!html.contains("<div>"), "Should remove outer empty div");
        assert!(!html.contains("<article>"), "Should remove empty article");
        assert!(!html.contains("funky-attribute"), "Should remove funky-attribute");
        assert!(!html.contains("extra=\"gone\""), "Should remove extra anchor attribute");
        assert!(!html.contains("<!--"), "Should remove comments");

        Ok(())
    }

    #[test]
    fn test_slimmer2_slim_empty_head_removed() -> TestResult<()> {
        // -- Setup & Fixtures
        let fx_html = r#"
        <!DOCTYPE html>
        <html>
        <head>
            <meta charset="utf-8">
            <link rel="icon" href="favicon.ico">
        </head>
        <body>
            <p>Content</p>
        </body>
        </html>
        "#;

        // -- Exec
        let html = slim(fx_html, SlimOptions::default()).map_err(|e| e.to_string())?;
        // println!("\n---\nSlimmed HTML (Scraper - Empty Head Removed):\n{}\n---\n", html);

        // -- Check
        // The <head> tag itself should now be removed as it becomes empty after processing children.
        assert!(
            !html.contains("<head>"),
            "Empty <head> tag should be removed after processing. Got: {}",
            html
        );
        assert!(html.contains("<body><p>Content</p></body>"), "Body should remain");

        Ok(())
    }

    #[test]
    fn test_slimmer2_slim_keeps_head_if_title_present() -> TestResult<()> {
        // -- Setup & Fixtures
        let fx_html = r#"
        <!DOCTYPE html>
        <html>
        <head>
            <title>Only Title</title>
            <script></script>
        </head>
        <body>
            <p>Content</p>
        </body>
        </html>
        "#;

        // -- Exec
        let html = slim(fx_html, SlimOptions::default()).map_err(|e| e.to_string())?;
        // println!("\n---\nSlimmed HTML (Scraper - Head with Title Kept):\n{}\n---\n", html);

        // -- Check
        // Head should remain as title is kept.
        assert!(
            html.contains("<head><title>Only Title</title></head>"),
            "<head> with only title should remain"
        );
        assert!(!html.contains("<script>"), "Script should be removed");
        assert!(html.contains("<body><p>Content</p></body>"), "Body should remain");

        Ok(())
    }

    #[test]
    fn test_slimmer2_slim_nested_empty_removal() -> TestResult<()> {
        // -- Setup & Fixtures
        let fx_html = r#"
        <!DOCTYPE html>
        <html>
        <body>
            <div> <!-- Will become empty after children removed -->
                <p>  </p> <!-- empty p -->
                <div> <!-- Inner div, will become empty -->
                    <span><!-- comment --></span> <!-- empty span -->
                </div>
            </div>
            <section>
                <h1>Title</h1> <!-- Keep H1 -->
                <div> </div> <!-- Remove empty div -->
            </section>
        </body>
        </html>
        "#;
        // Expected: Outer div removed, inner div removed, p removed, span removed. Section and H1 remain.
        // This behaviour should now match html5ever version.
        let expected_body = r#"<body><section><h1>Title</h1></section></body>"#;

        // -- Exec
        let html = slim(fx_html, SlimOptions::default()).map_err(|e| e.to_string())?;
        // println!("\n---\nSlimmed HTML (Scraper - Nested Empty Removed):\n{}\n---\n", html);

        // -- Check
        assert!(
            html.contains(expected_body),
            "Should remove nested empty elements correctly after processing. Expected: '{}', Got: '{}'",
            expected_body,
            html
        );
        assert!(!html.contains("<p>"), "Empty <p> should be removed");
        assert!(!html.contains("<span>"), "Empty <span> should be removed");
        assert!(
            !html.contains("<div>"),
            "All empty <div> tags should be removed (inner and outer)"
        );
        assert!(html.contains("<section>"), "Section should remain");
        assert!(html.contains("<h1>"), "H1 should remain");

        Ok(())
    }

    #[test]
    fn test_slimmer2_slim_keep_empty_but_not_removable() -> TestResult<()> {
        // -- Setup & Fixtures
        let fx_html = r#"
        <!DOCTYPE html>
        <html>
        <body>
            <main></main> <!-- Should keep 'main' even if empty -->
            <table><tr><td></td></tr></table> <!-- Should keep table structure even if cells empty -->
        </body>
        </html>
        "#;
        let expected_body_fragment1 = "<main></main>";

        // -- Exec
        let html = slim(fx_html, SlimOptions::default()).map_err(|e| e.to_string())?;

        // -- Check
        assert!(html.contains(expected_body_fragment1), "Should keep empty <main>");
        // Be flexible with tbody insertion
        assert!(
            html.contains("<table>") && html.contains("<tr>") && html.contains("<td>") && html.contains("</table>"),
            "Should keep empty table structure. Got: {}",
            html
        );

        Ok(())
    }
