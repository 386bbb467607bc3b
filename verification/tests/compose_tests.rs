use dispatch::config::DispatchConfig;
use dispatch::config::Recipients;
use dispatch::error::DispatchError;
use dispatch::mailbox::mailbox_from_address;
use dispatch::mailbox::mailboxes_from_recipients;
use dispatch::message::create_message;
use dispatch::message::find_asset;
use dispatch::message::Body;
use dispatch::message::HtmlBody;
use dispatch::message::RelatedContent;
use dispatch::substitution::Substitutions;

fn row(pairs: &[(&str, &str)]) -> Substitutions {
    let mut row = Substitutions::new();
    for (k, v) in pairs {
        row.insert(k.to_string(), v.to_string());
    }
    row
}

fn ann_row() -> Substitutions {
    row(&[("name", "Ann"), ("email", "ann@example.com")])
}

fn base_config() -> DispatchConfig {
    DispatchConfig {
        username: "sender@example.com".to_string(),
        from: None,
        reply_to: None,
        to: Some(Recipients::Individual("{email}".to_string())),
        cc: None,
        bcc: None,
        subject: "Hello {name}".to_string(),
        data_path: "data.csv".to_string(),
        body_html_path: None,
        body_text_path: None,
        related_content: None,
        server: DispatchConfig::default_server(),
    }
}

#[test]
fn resolve_individual_yields_one_mailbox() {
    let boxes =
        mailboxes_from_recipients(&Some(Recipients::Individual("{name} <{email}>".to_string())), &ann_row())
            .unwrap();
    assert_eq!(boxes.len(), 1);
    assert_eq!(boxes[0].rendered().as_str(), "Ann <ann@example.com>");
}

#[test]
fn resolve_individual_rejects_malformed_address() {
    let r = row(&[("name", "Ann"), ("email", "not-an-address")]);
    let e = mailboxes_from_recipients(&Some(Recipients::Individual("{name} <{email}>".to_string())), &r)
        .unwrap_err();
    match e {
        DispatchError::Address { template, .. } => {
            assert_eq!(template, "{name} <{email}>");
        }
        _ => panic!("expected an address error"),
    }
}

#[test]
fn resolve_absent_class_is_empty() {
    let boxes = mailboxes_from_recipients(&None, &ann_row()).unwrap();
    assert!(boxes.is_empty());
}

#[test]
fn resolve_multiple_preserves_order() {
    let list = Recipients::Multiple(vec![
        "a@example.com".to_string(),
        "{name} <{email}>".to_string(),
        "b@example.com".to_string(),
    ]);
    let boxes = mailboxes_from_recipients(&Some(list), &ann_row()).unwrap();
    let rendered: Vec<&str> = boxes.iter().map(|m| m.rendered().as_str()).collect();
    assert_eq!(rendered, vec!["a@example.com", "Ann <ann@example.com>", "b@example.com"]);
}

#[test]
fn resolve_multiple_fails_on_first_bad_entry() {
    let list = Recipients::Multiple(vec![
        "a@example.com".to_string(),
        "broken".to_string(),
        "also broken".to_string(),
    ]);
    let e = mailboxes_from_recipients(&Some(list), &ann_row()).unwrap_err();
    match e {
        DispatchError::Address { template, .. } => assert_eq!(template, "broken"),
        _ => panic!("expected an address error"),
    }
}

#[test]
fn mailbox_parsing_canonicalizes() {
    let mb = mailbox_from_address("<{email}>", &ann_row()).unwrap();
    assert_eq!(mb.rendered().as_str(), "ann@example.com");
}

#[test]
fn compose_html_only_is_single_html_part() {
    let cfg = base_config();
    let msg = create_message(
        &cfg,
        &Some("<p>Hi {name}</p>".to_string()),
        &None,
        Vec::new(),
        &ann_row(),
    )
    .unwrap();
    assert_eq!(msg.subject, "Hello Ann");
    assert_eq!(msg.from.rendered().as_str(), "sender@example.com");
    assert_eq!(msg.to.len(), 1);
    assert_eq!(msg.to[0].rendered().as_str(), "ann@example.com");
    match msg.body {
        Body::Html { html: HtmlBody::Plain { html } } => {
            assert_eq!(html, "<p>Hi Ann</p>");
        }
        _ => panic!("expected a single HTML part"),
    }
}

#[test]
fn compose_both_bodies_is_alternative_text_then_html() {
    let cfg = base_config();
    let msg = create_message(
        &cfg,
        &Some("<p>Hi {name}</p>".to_string()),
        &Some("Hi {name}".to_string()),
        Vec::new(),
        &ann_row(),
    )
    .unwrap();
    match msg.body {
        Body::Alternative { text, html: HtmlBody::Plain { html } } => {
            assert_eq!(text, "Hi Ann");
            assert_eq!(html, "<p>Hi Ann</p>");
        }
        _ => panic!("expected an alternative of text and html"),
    }
}

#[test]
fn compose_html_with_related_content_nests_assets_under_html() {
    let cfg = base_config();
    let assets = vec![
        RelatedContent::new("logo".to_string(), "image/png".to_string(), vec![1, 2, 3]),
        RelatedContent::new("banner".to_string(), "image/jpeg".to_string(), vec![4, 5]),
    ];
    let msg = create_message(
        &cfg,
        &Some("<img src=\"cid:logo\">".to_string()),
        &None,
        assets,
        &ann_row(),
    )
    .unwrap();
    match &msg.body {
        Body::Html { html: HtmlBody::Related { html, assets } } => {
            assert_eq!(html, "<img src=\"cid:logo\">");
            assert_eq!(assets.len(), 2);
            let logo = find_asset(assets, "logo").unwrap();
            assert_eq!(logo.mime_type, "image/png");
            assert_eq!(logo.body, vec![1, 2, 3]);
            let banner = find_asset(assets, "banner").unwrap();
            assert_eq!(banner.mime_type, "image/jpeg");
            assert_eq!(banner.body, vec![4, 5]);
            assert!(find_asset(assets, "absent").is_none());
        }
        _ => panic!("expected a related part under the html branch"),
    }
}

#[test]
fn compose_both_bodies_with_related_nests_under_the_html_branch() {
    let cfg = base_config();
    let assets = vec![RelatedContent::new("logo".to_string(), "image/png".to_string(), vec![7])];
    let msg = create_message(
        &cfg,
        &Some("<p>Hi {name}</p>".to_string()),
        &Some("Hi {name}".to_string()),
        assets,
        &ann_row(),
    )
    .unwrap();
    match msg.body {
        Body::Alternative { text, html: HtmlBody::Related { html, assets } } => {
            assert_eq!(text, "Hi Ann");
            assert_eq!(html, "<p>Hi Ann</p>");
            assert_eq!(assets.len(), 1);
            assert_eq!(assets[0].content_id, "logo");
        }
        _ => panic!("expected an alternative whose html branch is a related part"),
    }
}

#[test]
fn compose_text_only_drops_related_content() {
    let cfg = base_config();
    let assets = vec![RelatedContent::new("logo".to_string(), "image/png".to_string(), vec![1])];
    let msg = create_message(&cfg, &None, &Some("Hi {name}".to_string()), assets, &ann_row())
        .unwrap();
    match msg.body {
        Body::Text { text } => assert_eq!(text, "Hi Ann"),
        _ => panic!("expected a single plain-text part"),
    }
}

#[test]
fn compose_without_any_body_fails_with_template_error() {
    let cfg = base_config();
    let e = create_message(&cfg, &None, &None, Vec::new(), &ann_row()).unwrap_err();
    assert!(matches!(e, DispatchError::Template));
    assert_eq!(e.describe(), "Email must have either an HTML or text body");
}

#[test]
fn compose_uses_from_and_reply_to_templates() {
    let mut cfg = base_config();
    cfg.from = Some("{name} <{email}>".to_string());
    cfg.reply_to = Some("replies@example.com".to_string());
    let msg = create_message(&cfg, &Some("x".to_string()), &None, Vec::new(), &ann_row()).unwrap();
    assert_eq!(msg.from.rendered().as_str(), "Ann <ann@example.com>");
    assert_eq!(msg.reply_to.unwrap().rendered().as_str(), "replies@example.com");
}

#[test]
fn compose_reports_bad_from_address() {
    let mut cfg = base_config();
    cfg.from = Some("broken".to_string());
    let e = create_message(&cfg, &Some("x".to_string()), &None, Vec::new(), &ann_row())
        .unwrap_err();
    match e {
        DispatchError::Address { template, .. } => assert_eq!(template, "broken"),
        _ => panic!("expected an address error"),
    }
}

#[test]
fn recipient_summary_joins_all_classes() {
    let mut cfg = base_config();
    cfg.cc = Some(Recipients::Multiple(vec![
        "b@example.com".to_string(),
        "c@example.com".to_string(),
    ]));
    cfg.bcc = Some(Recipients::Individual("d@example.com".to_string()));
    let msg = create_message(&cfg, &Some("x".to_string()), &None, Vec::new(), &ann_row()).unwrap();
    assert_eq!(
        msg.recipient_summary(),
        "ann@example.com, b@example.com, c@example.com, d@example.com"
    );
}

#[test]
fn classify_body_routes_by_content_type() {
    let r = DispatchConfig::classify_body("body.html".to_string(), "html").unwrap();
    assert_eq!(r, (Some("body.html".to_string()), None));
    let r = DispatchConfig::classify_body("body.txt".to_string(), "text").unwrap();
    assert_eq!(r, (None, Some("body.txt".to_string())));
    let e = DispatchConfig::classify_body("body.bin".to_string(), "markdown").unwrap_err();
    assert_eq!(e.describe(), "Configuration error: Invalid content_type: markdown");
}

#[test]
fn check_username_rejects_empty_identity() {
    let mut cfg = base_config();
    cfg.username = String::new();
    let e = cfg.check_username().unwrap_err();
    assert_eq!(e.describe(), "Configuration error: Username missing from config");
    assert!(base_config().check_username().is_ok());
}

#[test]
fn file_errors_name_what_could_not_be_read() {
    let e = DispatchError::File {
        content_id: Some("logo".to_string()),
        path: "img/logo.png".to_string(),
    };
    assert_eq!(
        e.describe(),
        "Could not read related content file img/logo.png (content id logo)"
    );
    let e = DispatchError::File { content_id: None, path: "body.html".to_string() };
    assert_eq!(e.describe(), "Could not read body file body.html");
}

#[test]
fn default_server_is_the_gmail_relay() {
    assert_eq!(DispatchConfig::default_server(), "smtp.gmail.com");
}
