use matrix_service::content::{format_content, html_content, markdown_content};
use matrix_service::digest::hex_digest;
use matrix_service::idempotency::{idempotency_key, request_hash, stable_transaction_id};
use matrix_service::layout::{find_layable_form, strip_markup};
use matrix_service::message::{Field, FieldValue, MessageFormat, SendMessageResponse};
use matrix_service::text::is_blank;

fn to_value(fields: Vec<Field>) -> serde_json::Value {
    let mut object = serde_json::Map::new();
    for field in fields {
        let value = match field.value {
            FieldValue::Text(text) => serde_json::Value::from(text),
            FieldValue::Flag(flag) => serde_json::Value::from(flag),
            FieldValue::Count(count) => serde_json::Value::from(count),
        };
        object.insert(field.name.to_string(), value);
    }
    serde_json::Value::Object(object)
}

#[test]
fn request_hash_changes_when_encryption_mode_changes() {
    let encrypted = request_hash(
        "hello",
        "!room:example.org",
        MessageFormat::Markdown,
        true,
        None,
        None,
    );
    let plaintext = request_hash(
        "hello",
        "!room:example.org",
        MessageFormat::Markdown,
        false,
        None,
        None,
    );
    assert_ne!(encrypted, plaintext);
}

#[test]
fn request_hash_changes_when_image_changes() {
    let first = request_hash(
        "hello",
        "!room:example.org",
        MessageFormat::Markdown,
        true,
        Some("https://cdn.shopify.com/one.jpg"),
        Some("First image"),
    );
    let second = request_hash(
        "hello",
        "!room:example.org",
        MessageFormat::Markdown,
        true,
        Some("https://cdn.shopify.com/two.jpg"),
        Some("First image"),
    );
    assert_ne!(first, second);
}

#[test]
fn idempotency_key_is_scoped_to_the_room() {
    assert_ne!(
        idempotency_key("request-1", "!one:example.org"),
        idempotency_key("request-1", "!two:example.org"),
    );
}

#[test]
fn markdown_content_has_html_representation() {
    let content = format_content("**bold**", MessageFormat::Markdown);
    assert_eq!(content.body(), "**bold**");
}

#[test]
fn response_includes_monitor_status_only_for_encrypted_delivery() {
    let encrypted = to_value(
        SendMessageResponse {
            event_id: "$event:example.org".into(),
            image_event_id: None,
            room_id: "!room:example.org".into(),
            encrypted: true,
            monitor_verified: Some(false),
            idempotent_replay: false,
            excluded_device_count: 0,
        }
        .fields(),
    );
    assert_eq!(encrypted["monitor_verified"], false);

    let plaintext = to_value(
        SendMessageResponse {
            event_id: "$event:example.org".into(),
            image_event_id: None,
            room_id: "!room:example.org".into(),
            encrypted: false,
            monitor_verified: None,
            idempotent_replay: false,
            excluded_device_count: 0,
        }
        .fields(),
    );
    assert!(plaintext.get("monitor_verified").is_none());
}

#[test]
fn response_members_keep_their_order_and_values() {
    let fields = SendMessageResponse {
        event_id: "$event".into(),
        image_event_id: Some("$image".into()),
        room_id: "!room:example.org".into(),
        encrypted: true,
        monitor_verified: Some(true),
        idempotent_replay: true,
        excluded_device_count: 7,
    }
    .fields();
    let names: Vec<&str> = fields.iter().map(|field| field.name).collect();
    assert_eq!(
        names,
        vec![
            "event_id",
            "image_event_id",
            "room_id",
            "encrypted",
            "monitor_verified",
            "idempotent_replay",
            "excluded_device_count",
        ]
    );
    let value = to_value(fields);
    assert_eq!(value["event_id"], "$event");
    assert_eq!(value["image_event_id"], "$image");
    assert_eq!(value["room_id"], "!room:example.org");
    assert_eq!(value["encrypted"], true);
    assert_eq!(value["monitor_verified"], true);
    assert_eq!(value["idempotent_replay"], true);
    assert_eq!(value["excluded_device_count"], 7);
}

#[test]
fn digest_of_a_known_text() {
    assert_eq!(
        hex_digest(b"abc"),
        "ba7816bf8f01cfea414140de5dae2223b00361a396177a9cb410ff61f20015ad"
    );
}

#[test]
fn request_hash_of_known_requests() {
    assert_eq!(
        request_hash("hello", "!room:example.org", MessageFormat::Markdown, true, None, None),
        "ef641452aa046db41f62f509d8882d2e575e5e33ec5427db3bc8b1e03b15aa4d"
    );
    assert_eq!(
        request_hash("hello", "!room:example.org", MessageFormat::Markdown, false, None, None),
        "f9281c85a9bcffb8a470410be9a2d0533e315cac54b45f7c990f0d7500c45dfd"
    );
    assert_eq!(
        request_hash(
            "hello",
            "!room:example.org",
            MessageFormat::Markdown,
            true,
            Some("https://cdn.shopify.com/one.jpg"),
            Some("First image"),
        ),
        "9b49c6c61b6ac0221c5cabf560a6ea35ebf9b4a1ee8f623969a278ac5377a030"
    );
}

#[test]
fn request_hash_covers_every_part_of_a_request() {
    let base = || request_hash("m", "!r", MessageFormat::Text, true, Some("u"), Some("a"));
    assert_eq!(base(), base());
    assert_ne!(base(), request_hash("n", "!r", MessageFormat::Text, true, Some("u"), Some("a")));
    assert_ne!(base(), request_hash("m", "!s", MessageFormat::Text, true, Some("u"), Some("a")));
    assert_ne!(base(), request_hash("m", "!r", MessageFormat::Html, true, Some("u"), Some("a")));
    assert_ne!(base(), request_hash("m", "!r", MessageFormat::Text, true, Some("v"), Some("a")));
    assert_ne!(base(), request_hash("m", "!r", MessageFormat::Text, true, Some("u"), Some("b")));
    assert_ne!(base(), request_hash("m", "!r", MessageFormat::Text, true, None, None));
}

#[test]
fn request_hash_does_not_tell_an_absent_text_from_an_empty_one() {
    assert_eq!(
        request_hash("m", "!r", MessageFormat::Text, true, Some(""), Some("")),
        request_hash("m", "!r", MessageFormat::Text, true, None, None),
    );
}

#[test]
fn request_hash_sees_the_encoding_only() {
    assert_eq!(
        request_hash("m", "!r", MessageFormat::Text, true, Some("a\0b"), Some("c")),
        request_hash("m", "!r", MessageFormat::Text, true, Some("a"), Some("b\0c")),
    );
}

#[test]
fn idempotency_key_of_a_known_request() {
    assert_eq!(
        idempotency_key("request-1", "!one:example.org"),
        "3f7b12672d1b628c92660480c7dbf5074c50057546f2c8ec5fb62d976c2d347a"
    );
}

#[test]
fn transaction_ids_are_the_same_at_every_retry() {
    let key = idempotency_key("request-1", "!one:example.org");
    let id = stable_transaction_id(Some(&key), "message");
    assert_eq!(id, "n8n-message-3f7b12672d1b628c92660480c7db");
    assert_eq!(id, stable_transaction_id(Some(&key), "message"));
    assert_eq!(
        stable_transaction_id(Some(&key), "image"),
        "n8n-image-3f7b12672d1b628c92660480c7db"
    );
}

#[test]
fn transaction_ids_without_a_key_are_fresh() {
    let first = stable_transaction_id(None, "message");
    let second = stable_transaction_id(None, "message");
    assert_ne!(first, second);
    let nonce = first.strip_prefix("n8n-message-").unwrap();
    assert_eq!(nonce.len(), 32);
    assert!(nonce.chars().all(|c| matches!(c, '0'..='9' | 'a'..='f')));
}

#[test]
fn formats_have_their_names() {
    assert_eq!(MessageFormat::Text.as_str(), "text");
    assert_eq!(MessageFormat::Markdown.as_str(), "markdown");
    assert_eq!(MessageFormat::Html.as_str(), "html");
}

#[test]
fn text_stays_as_it_is() {
    let content = format_content(" **bold** <b>x</b> ", MessageFormat::Text);
    assert_eq!(content.body(), " **bold** <b>x</b> ");
    assert_eq!(content.formatted_body, None);
}

#[test]
fn markdown_becomes_sanitized_html() {
    let content = format_content("**bold**", MessageFormat::Markdown);
    assert_eq!(
        content.formatted_body.as_deref(),
        Some("<p><strong>bold</strong></p>\n")
    );
    let content = format_content("hi <script>alert(1)</script>", MessageFormat::Markdown);
    assert_eq!(content.body(), "hi <script>alert(1)</script>");
    assert_eq!(content.formatted_body.as_deref(), Some("<p>hi </p>\n"));
}

#[test]
fn html_is_sanitized_and_has_a_plain_text() {
    let content = format_content(
        "<p onclick=\"x()\">Hello <script>alert(1)</script>world</p>",
        MessageFormat::Html,
    );
    assert_eq!(content.formatted_body.as_deref(), Some("<p>Hello world</p>"));
    assert_eq!(content.body(), "Hello world");
}

#[test]
fn plain_text_of_html_is_not_wrapped() {
    let words = "word ".repeat(200);
    let content = format_content(&words, MessageFormat::Html);
    assert_eq!(content.body(), words.trim());
}

#[test]
fn html_tables_and_lists_have_a_plain_text() {
    let content = format_content(
        "<table><tr><td colspan=\"2\">ab</td></tr><tr><td>c</td><td>d</td></tr></table>",
        MessageFormat::Html,
    );
    assert_eq!(content.body(), "───\nab \n─┬─\nc│d\n─┴─");
    let content = format_content(
        "<ol start=\"3\"><li>start 9223372036854775807</li><li>y</li></ol>",
        MessageFormat::Html,
    );
    assert_eq!(content.body(), "3. start 9223372036854775807\n4. y");
}

fn plain_text(html: &str) -> String {
    format_content(html, MessageFormat::Html).body().to_string()
}

/// The form of sanitized HTML that is laid out is the HTML itself.
fn stays(html: &str) -> bool {
    find_layable_form(html).as_deref() == Some(html)
}

const HEART: &str = "\u{2764}\u{fe0f}";

#[test]
fn html_that_cannot_be_laid_out_has_its_text_for_a_body() {
    for (html, body) in [
        (
            "<ol start=\"9223372036854775807\"><li>x</li><li>y</li></ol>",
            "x\n\ny",
        ),
        ("<ol start=\"-9223372036854775808\"><li>a &lt; b</li></ol>", "a < b"),
        (
            "<table><tbody><tr><td colspan=\"18446744073709551615\">x</td><td>y</td></tr></tbody></table>",
            "x\n\ny",
        ),
    ] {
        assert_eq!(find_layable_form(html), None);
        assert_eq!(plain_text(html), body);
        let content = format_content(html, MessageFormat::Html);
        assert_eq!(content.formatted_body.as_deref(), Some(html));
    }
    let narrow = "<table><tbody><tr><td><ul><li><table><tbody><tr><td>a</td><td>b</td></tr></tbody>\
        </table></li></ul></td></tr></tbody></table>";
    assert!(stays(narrow));
    assert_eq!(plain_text(narrow).split_whitespace().collect::<Vec<_>>(), ["a", "b"]);
}

#[test]
fn markup_is_stripped_with_its_line_ends() {
    for (html, text) in [
        ("a<b>b</b><br>c", "ab\nc"),
        ("<p>a &amp; b</p><p>&quot;c&quot;&nbsp;&lt;d&gt;</p>", "\na & b\n\n\"c\"\u{a0}<d>\n"),
        ("<a href=\"https://x.org\">l<i>i</i>nk</a>", "link"),
        ("a & b", "a & b"),
        ("a<b", "a<b"),
        ("", ""),
    ] {
        assert_eq!(strip_markup(html), text);
    }
}

#[test]
fn list_numbers_are_read_with_their_sign() {
    assert_eq!(plain_text("<ol start=\"9223372036854775808\"><li>x</li></ol>"), "1. x");
    assert_eq!(plain_text("<ol start=\"-9223372036854775809\"><li>x</li></ol>"), "1. x");
    assert_eq!(plain_text("<ol start=\"-3\"><li>x</li></ol>"), "-3. x");
    assert_eq!(plain_text("<ol start=\"+3\"><li>x</li></ol>"), "3. x");
    assert_eq!(
        plain_text("<ol start=\"-9223372036854775807\"><li>x</li></ol>"),
        "-9223372036854775807. x"
    );
}

#[test]
fn text_that_looks_like_an_attribute_is_text() {
    for text in [
        "start=9223372036854775807",
        "colspan=18446744073709551615 and &amp;# and &amp;plus;",
        "<p>start=\"9223372036854775807\"</p>",
        "<p title=\"colspan=18446744073709551615\">x &lt;table&gt;</p>",
    ] {
        assert!(stays(text));
    }
    assert_eq!(plain_text("start=9223372036854775807"), "start=9223372036854775807");
}

#[test]
fn cells_span_many_columns() {
    for span in ["2", "+2", "0", "1000000000", "18446744073709551616", "-1", "x"] {
        let html = format!(
            "<table><tr><td colspan=\"{}\">a</td><td>b</td></tr><tr><td>c</td></tr></table>",
            span
        );
        assert!(stays(&html));
        assert!(plain_text(&html).contains('\u{2502}'));
    }
    let all = "<table><tr><td colspan=\"18446744073709551615\">a</td></tr></table>";
    assert!(stays(all));
    assert!(plain_text(all).contains('a'));
    let rest = "<table><tr><td colspan=\"18446744073709551614\">a</td><td colspan=\"0\">b</td></tr></table>";
    assert_eq!(find_layable_form(rest), None);
}

#[test]
fn tables_are_padded_as_far_as_possible() {
    let wide = "\u{4e2d}".repeat(22000);
    let rows = format!("<table><tr><td>{}</td></tr><tr><td>y</td></tr></table>", wide);
    assert!(stays(&rows));
    assert!(plain_text(&rows).contains('\u{2500}'));
    let many = format!("<table>{}</table>", "<tr><td>a</td><td>b</td></tr>".repeat(5000));
    assert!(stays(&many));
    assert_eq!(plain_text(&many).matches('a').count(), 5000);
    let long = "x".repeat(70000);
    let table = format!("<table><tr><td>{}</td></tr><tr><td>y</td></tr></table>", long);
    assert_eq!(find_layable_form(&table), None);
    assert!(plain_text(&table).starts_with(&long));
    let hidden = format!("<table><tr><td>a{}</td></tr></table>", " \u{1}".repeat(66000));
    assert_eq!(find_layable_form(&hidden), None);
    assert!(plain_text(&hidden).starts_with("a \u{1} \u{1}"));
    let after = format!("<table><tr><td>a</td></tr><tr><td>b</td></tr></table><p>{}</p>", long);
    assert!(plain_text(&after).ends_with(&long));
}

#[test]
fn definition_lists_stand_in_one_another_up_to_a_depth() {
    let nested = |depth: usize| {
        format!("{}x{}", "<dl><dd>".repeat(depth), "</dd></dl>".repeat(depth))
    };
    assert!(stays(&nested(64)));
    assert!(plain_text(&nested(64)).ends_with('x'));
    assert_eq!(find_layable_form(&nested(65)), None);
    assert_eq!(plain_text(&nested(65)), "x");
}

#[test]
fn elements_stand_in_one_another_up_to_a_depth_beside_counted_ones() {
    let nested = |depth: usize| {
        format!("{}x{}", "<div>".repeat(depth), "</div>".repeat(depth))
    };
    assert_eq!(plain_text(&nested(1500)), "x");
    let list = "<ol><li>y</li></ol>";
    assert!(stays(&format!("{}{}", list, nested(1024))));
    let deep = format!("{}{}", list, nested(1025));
    assert_eq!(find_layable_form(&deep), None);
    let body = plain_text(&deep);
    assert_eq!(body.split_whitespace().collect::<Vec<_>>(), ["y", "x"]);
}

#[test]
fn emoji_in_tables_are_laid_out() {
    let cell = |contents: &str| format!("<table><tr><td>{}</td><td>b</td></tr></table>", contents);
    for contents in [
        format!("{HEART} ok"),
        format!("<b>{HEART}</b>"),
        format!("<p>{HEART}</p><ul><li>{HEART}x</li></ul>"),
        format!("<img src=\"https://x.org/y.png\" alt=\"{HEART}\">"),
    ] {
        let table = cell(&contents);
        assert!(stays(&table));
        assert!(plain_text(&table).contains(HEART));
        assert!(plain_text(&table).contains('\u{2502}'));
    }
    for contents in [
        format!("<em>{HEART}</em>"),
        format!("{HEART} <a href=\"https://x.org\">ok</a>"),
        cell(HEART),
        format!("<p><strong><strong> <p>{HEART}{HEART}{HEART} </p></strong></strong></p>"),
    ] {
        let table = cell(&contents);
        let form = find_layable_form(&table).unwrap();
        assert_eq!(form, table.replace('\u{fe0f}', ""));
        let body = plain_text(&table);
        assert!(body.contains('\u{2764}') && body.contains('\u{2502}'));
    }
    assert!(stays(&format!("<p><em>{HEART}</em></p>")));
    assert_eq!(plain_text(&format!("<p><em>{HEART}</em></p>")), format!("*{HEART}*"));
}

#[test]
fn words_of_emoji_in_reopened_marks_are_laid_out() {
    let html = format!(
        "<table><tr><td><p><strong><strong> <button><p>{HEART}{HEART}{HEART} </p></button>\
         </strong></strong></p></td></tr></table>"
    );
    assert!(plain_text(&html).contains('\u{2764}'));
}

#[test]
fn tabs_in_preformatted_text_are_laid_out() {
    let quoted = "<blockquote><pre>a\tb</pre></blockquote>";
    assert!(plain_text(quoted).contains("a       b"));
    let item = |text: &str| {
        format!("<table><tr><td><ul><li><pre>{text}</pre></li></ul></td></tr></table>")
    };
    for text in ["a\tb", "\tx", "\u{a0}\t", "n\t", "b;\t", " \t"] {
        assert!(stays(&item(text)));
        assert!(!plain_text(&item(text)).is_empty());
    }
    let hidden = item("\u{200b}\t");
    assert_eq!(find_layable_form(&hidden), Some(item("\u{200b} ")));
    let _ = plain_text(&hidden);
    assert!(stays(&item("&nbsp;\t")));
}

#[test]
fn every_element_that_is_kept_is_laid_out() {
    let html = "<h1>a</h1><h5>b</h5><p>c<br>d<wbr><img src=\"https://x.org/y.png\" alt=\"e\"></p>\
        <ruby>f<rt>g</rt></ruby><details><summary>h</summary>i</details><q>j</q><sub>k</sub>\
        <sup>l</sup><pre>m</pre><hr><center>n</center><table><caption>o</caption><colgroup><col>\
        </colgroup><thead><tr><th>p</th></tr></thead><tbody><tr><td>q</td></tr></tbody></table>\
        <dl><dt>r</dt><dd>s</dd></dl><ul><li>t &amp; u &lt; v&nbsp;w</li></ul>\
        <a href=\"https://z.org/?a=1&amp;b=2\">z</a>";
    assert!(stays(html));
    let plain = plain_text(html);
    for part in ["a", "b", "c", "p", "q", "r", "s", "t & u < v", "z"] {
        assert!(plain.contains(part));
    }
}

#[test]
fn markup_of_other_forms_is_not_laid_out() {
    for html in [
        "<script>x</script>",
        "<p class=x>y</p>",
        "<p>y",
        "<p>y</div>",
        "a & b",
        "<p id=\"x\">y</p>",
        "<!-- x -->",
    ] {
        assert_eq!(find_layable_form(html), None, "{html}");
    }
}

#[test]
fn content_of_known_renderings() {
    let content = markdown_content("*x*", "<p><em>x</em></p>".to_string());
    assert_eq!(content.body(), "*x*");
    assert_eq!(content.formatted_body.as_deref(), Some("<p><em>x</em></p>"));
    let content = html_content("<p>x</p>".to_string(), Some("\n x \n".to_string()));
    assert_eq!(content.body(), "x");
    assert_eq!(content.formatted_body.as_deref(), Some("<p>x</p>"));
    let content = html_content("<p>a<b>b</b></p><p>c</p>".to_string(), None);
    assert_eq!(content.body(), "ab\n\nc");
}

#[test]
fn blank_text_is_told_from_other_text() {
    assert!(is_blank(""));
    assert!(is_blank(" \t\r\n\u{a0}\u{3000}"));
    assert!(!is_blank(" x "));
    assert!(!is_blank("\u{200b}"));
}
