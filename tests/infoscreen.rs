use static_infoscreen::config::Config;
use static_infoscreen::mode::{classify, mode_for_media_type, RenderMode};
use static_infoscreen::page::{html_file_name, variables, RenderRequest};

fn parse(text: &str) -> Config {
    Config::parse_from(text).0
}

fn render(t: &tera::Tera, r: &RenderRequest) -> Result<String, tera::Error> {
    let mut context = tera::Context::new();
    for (key, value) in &r.variables {
        context.insert(key.as_str(), value);
    }
    t.render(&r.template, &context)
}

fn templates() -> tera::Tera {
    let mut t = tera::Tera::default();
    t.add_raw_template(
        "website.html",
        "W {{ current_content }}|{{ display_time }}|{{ next_url }}|{{ next_file }}",
    )
    .unwrap();
    t.add_raw_template("video.html", "V {{ current_content }}|{{ next_url }}").unwrap();
    t.add_raw_template("image.html", "I {{ current_content }}&{{ next_file }}").unwrap();
    t.autoescape_on(vec![]);
    t
}

#[test]
fn entry_line_with_uri() {
    let (config, rejected) = Config::parse_from("5.5 https://example.com");
    assert!(rejected.is_empty());
    assert_eq!(config.len(), 1);
    assert_eq!(config.content(0).display_time(), "5.5");
    assert_eq!(config.content(0).link(), "https://example.com");
    assert_eq!(classify("https://example.com"), RenderMode::Website);
}

#[test]
fn first_of_three_pages() {
    let config = parse("5.5 https://example.com\n3 b.png\n4 c.mp4\n");
    assert_eq!(config.len(), 3);
    let pages = config.pages();
    assert_eq!(pages.len(), 3);
    let p = &pages[0];
    assert_eq!(p.file_name, "0.html");
    assert_eq!(p.mode, RenderMode::Website);
    assert_eq!(p.display_time, "5500.0");
    assert_eq!(p.next_url, "1.html");
    assert_eq!(p.next_file, "b.png");
    assert_eq!(p.current_content, "https://example.com");
    assert!(!p.local_file);
}

#[test]
fn missing_local_video_still_gets_a_page() {
    let config = parse("10 clip.mp4");
    let pages = config.pages();
    assert_eq!(pages.len(), 1);
    assert_eq!(pages[0].file_name, "0.html");
    assert_eq!(pages[0].mode, RenderMode::Video);
    assert!(pages[0].local_file);
    assert_eq!(pages[0].current_content, "clip.mp4");
    assert_eq!(pages[0].display_time, "10000.0");
    let out = config.create_html();
    assert_eq!(out.len(), 1);
    assert_eq!(out[0].page.file_name, "0.html");
    assert_eq!(out[0].page.mode, RenderMode::Video);
    assert_eq!(out[0].template, "video.html");
    assert_eq!(render(&templates(), &out[0]).unwrap(), "V clip.mp4|0.html");
}

#[test]
fn malformed_line_is_skipped_and_reported() {
    let (config, rejected) = Config::parse_from("notanumber text\n2 a.png\n");
    assert_eq!(config.len(), 1);
    assert_eq!(config.content(0).link(), "a.png");
    assert_eq!(rejected, vec![1]);
}

#[test]
fn malformed_lines_by_number() {
    let text = "# head\n5\n1.2.3 x\n5. x\n.5 ok.png\n\nx 3\n7 end";
    let (config, rejected) = Config::parse_from(text);
    assert_eq!(rejected, vec![2, 3, 4, 7]);
    assert_eq!(config.len(), 2);
    assert_eq!(config.content(0).display_time(), ".5");
    assert_eq!(config.content(1).link(), "end");
}

#[test]
fn comments_and_blank_lines_only() {
    let (config, rejected) = Config::parse_from("# a comment\n\n   \n\t# another\n");
    assert_eq!(config.len(), 0);
    assert!(rejected.is_empty());
    assert!(config.pages().is_empty());
    assert!(config.create_html().is_empty());
}

#[test]
fn empty_text() {
    let (config, rejected) = Config::parse_from("");
    assert_eq!(config.len(), 0);
    assert!(rejected.is_empty());
}

#[test]
fn lines_are_trimmed() {
    let config = parse("  5 x.html  \r\n\t2 y z \n");
    assert_eq!(config.len(), 2);
    assert_eq!(config.content(0).link(), "x.html");
    assert_eq!(config.content(1).display_time(), "2");
    assert_eq!(config.content(1).link(), "y z");
}

#[test]
fn link_keeps_everything_after_the_first_space() {
    let config = parse("5  x");
    assert_eq!(config.len(), 1);
    assert_eq!(config.content(0).link(), " x");
}

#[test]
fn chaining_wraps_around() {
    let config = parse("1 a\n2 b\n3 c");
    let pages = config.pages();
    let next: Vec<&str> = pages.iter().map(|p| p.next_url.as_str()).collect();
    assert_eq!(next, vec!["1.html", "2.html", "0.html"]);
    let files: Vec<&str> = pages.iter().map(|p| p.next_file.as_str()).collect();
    assert_eq!(files, vec!["b", "c", "a"]);
}

#[test]
fn single_entry_links_to_itself() {
    let pages = parse("1 a.png").pages();
    assert_eq!(pages.len(), 1);
    assert_eq!(pages[0].next_url, "0.html");
    assert_eq!(pages[0].file_name, "0.html");
    assert_eq!(pages[0].next_file, "a.png");
}

#[test]
fn twelfth_page_name() {
    let text: String = (0..13).map(|i| format!("1 f{}.png\n", i)).collect();
    let pages = parse(&text).pages();
    assert_eq!(pages[12].file_name, "12.html");
    assert_eq!(pages[12].next_url, "0.html");
    assert_eq!(pages[11].next_url, "12.html");
}

#[test]
fn classification_by_extension() {
    assert_eq!(classify("a.png"), RenderMode::Image);
    assert_eq!(classify("dir/b.JPG"), RenderMode::Image);
    assert_eq!(classify("c.mp4"), RenderMode::Video);
    assert_eq!(classify("https://host/v.webm"), RenderMode::Video);
    assert_eq!(classify("d.html"), RenderMode::Website);
    assert_eq!(classify("e.txt"), RenderMode::Website);
    assert_eq!(classify("noextension"), RenderMode::Website);
    assert_eq!(classify("f.unknownext"), RenderMode::Website);
}

#[test]
fn classification_is_positional_independent() {
    let pages = parse("1 x.png\n2 y.mp4\n3 x.png").pages();
    assert_eq!(pages[0].mode, pages[2].mode);
    assert_eq!(pages[0].mode, RenderMode::Image);
    assert_eq!(classify("x.png"), classify("x.png"));
}

#[test]
fn template_names() {
    assert_eq!(RenderMode::Website.template(), "website.html");
    assert_eq!(RenderMode::Video.template(), "video.html");
    assert_eq!(RenderMode::Image.template(), "image.html");
}

#[test]
fn milliseconds() {
    let cases = [
        ("5.5", "5500.0"),
        (".5", "500.0"),
        ("0.0001", "0.1"),
        ("0.00010", "0.1"),
        ("05", "5000.0"),
        ("1.23456", "1234.56"),
        ("10", "10000.0"),
        ("0.25", "250.0"),
    ];
    for (input, expected) in cases {
        let config = parse(&format!("{} x", input));
        assert_eq!(config.content(0).display_time_ms(), expected, "{}", input);
    }
}

#[test]
fn rendering_fills_the_variables() {
    let config = parse("5.5 https://example.com\n2 b.png\n");
    let out = config.create_html();
    assert_eq!(out.len(), 2);
    let t = templates();
    assert_eq!(out[0].page.file_name, "0.html");
    assert_eq!(out[0].page.next_url, "1.html");
    assert_eq!(out[0].template, "website.html");
    assert_eq!(render(&t, &out[0]).unwrap(), "W https://example.com|5500.0|1.html|b.png");
    assert_eq!(out[1].page.file_name, "1.html");
    assert_eq!(out[1].page.next_url, "0.html");
    assert_eq!(out[1].template, "image.html");
    assert_eq!(render(&t, &out[1]).unwrap(), "I b.png&https://example.com");
}

#[test]
fn render_failure_affects_one_entry() {
    let mut t = tera::Tera::default();
    t.add_raw_template("image.html", "I {{ current_content }}").unwrap();
    let config = parse("1 a.png\n2 b.mp4\n3 c.png");
    let out = config.create_html();
    assert_eq!(out.len(), 3);
    assert_eq!(render(&t, &out[0]).unwrap(), "I a.png");
    assert!(render(&t, &out[1]).is_err());
    assert_eq!(render(&t, &out[2]).unwrap(), "I c.png");
    assert_eq!(out[2].page.file_name, "2.html");
}

#[test]
fn generation_repeats_identically() {
    let text = "1 a.png\n2 https://x.org/y.mp4\n";
    let a = parse(text).create_html();
    let b = parse(text).create_html();
    assert_eq!(a.len(), b.len());
    let t = templates();
    for (x, y) in a.iter().zip(b.iter()) {
        assert_eq!(x.page.file_name, y.page.file_name);
        assert_eq!(x.template, y.template);
        assert_eq!(x.variables, y.variables);
        assert_eq!(render(&t, x).unwrap(), render(&t, y).unwrap());
    }
}

#[test]
fn mode_for_each_media_type() {
    let pair = |t: &str, s: &str| Some((t.to_string(), s.to_string()));
    assert_eq!(mode_for_media_type(&None), RenderMode::Website);
    assert_eq!(mode_for_media_type(&pair("text", "html")), RenderMode::Website);
    assert_eq!(mode_for_media_type(&pair("text", "plain")), RenderMode::Website);
    assert_eq!(mode_for_media_type(&pair("video", "mp4")), RenderMode::Video);
    assert_eq!(mode_for_media_type(&pair("image", "png")), RenderMode::Image);
    assert_eq!(mode_for_media_type(&pair("application", "pdf")), RenderMode::Website);
    assert_eq!(mode_for_media_type(&pair("videos", "x")), RenderMode::Website);
}

#[test]
fn zero_display_time_is_malformed() {
    let (config, rejected) = Config::parse_from("0 x\n0.0 y\n.0 z\n00.010 w.png\n");
    assert_eq!(rejected, vec![1, 2, 3]);
    assert_eq!(config.len(), 1);
    assert_eq!(config.content(0).display_time(), "00.010");
    assert_eq!(config.content(0).display_time_ms(), "10.0");
}

#[test]
fn template_variables_of_a_page() {
    let config = parse("5.5 https://example.com\n10 clip.mp4\n3 photo.png\n");
    let pages = config.pages();
    let vars = variables(&pages[0]);
    let expected = vec![
        ("current_content", "https://example.com"),
        ("display_time", "5500.0"),
        ("next_url", "1.html"),
        ("next_file", "clip.mp4"),
    ];
    let got: Vec<(&str, &str)> = vars.iter().map(|(k, v)| (k.as_str(), v.as_str())).collect();
    assert_eq!(got, expected);
    assert_eq!(pages[0].mode.template(), "website.html");
    assert_eq!(pages[2].next_url, "0.html");
    assert_eq!(pages[2].next_file, "https://example.com");
}

#[test]
fn file_names_in_decimal() {
    assert_eq!(html_file_name(0), "0.html");
    assert_eq!(html_file_name(7), "7.html");
    assert_eq!(html_file_name(10), "10.html");
    assert_eq!(html_file_name(305), "305.html");
    assert_eq!(html_file_name(usize::MAX), format!("{}.html", usize::MAX));
}

#[test]
fn classification_by_extension_alone() {
    assert_eq!(classify("https://cdn.example.com/v.mp4"), RenderMode::Video);
    assert_eq!(classify("/media/v.mp4"), RenderMode::Video);
    assert_eq!(classify("./pics/a.png/."), RenderMode::Image);
    assert_eq!(classify("pics/a.png/"), RenderMode::Image);
    assert_eq!(classify(".png"), RenderMode::Website);
    assert_eq!(classify("a.png/.."), RenderMode::Website);
    assert_eq!(classify("movie.mp4.txt"), RenderMode::Website);
    assert_eq!(classify("a."), RenderMode::Website);
}
