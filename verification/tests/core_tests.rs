use frt::backend::{ArgValue, BackendArguments};
use frt::config::{merge, ConfigValue};
use frt::context::ContextData;
use frt::error::ErrorKind;
use frt::game::{Description, Game};
use frt::i18n::LangId;
use frt::link::{LinkRuleManager, StockLinkRule};
use frt::media::{Image, ImageSource};
use frt::profile::Profile;
use frt::raw::RawLinkItem;
use frt::strutil::{escape_str, is_remote};
use frt::tengine::simple_template_render;
use frt::uri::encode_rfc3986;

fn scalar(s: &str) -> ConfigValue {
    ConfigValue::Scalar(String::from(s))
}

fn table(entries: Vec<(&str, ConfigValue)>) -> ConfigValue {
    ConfigValue::Table(entries.into_iter().map(|(k, v)| (String::from(k), v)).collect())
}

fn list(entries: Vec<ConfigValue>) -> ConfigValue {
    ConfigValue::List(entries)
}

#[test]
fn test_encode_rfc3986() {
    assert_eq!(encode_rfc3986("example.com"), "example.com");
    assert_eq!(encode_rfc3986("example.com/a"), "example.com%2Fa");
    assert_eq!(
        encode_rfc3986("http://exAmple.com:8000/a"),
        "http%3A%2F%2FexAmple.com%3A8000%2Fa"
    );
    assert_eq!(
        encode_rfc3986("http://auth@example.com/path/to/res?query_string=abc&def=123"),
        "http%3A%2F%2Fauth%40example.com%2Fpath%2Fto%2Fres%3Fquery_string%3Dabc%26def%3D123"
    );
    assert_eq!(
        encode_rfc3986("http://[::1]:8000/a%b%c!'()*"),
        "http%3A%2F%2F%5B%3A%3A1%5D%3A8000%2Fa%25b%25c%21%27%28%29%2A"
    );
    assert_eq!(
        encode_rfc3986("example.com/汉字/漢字"),
        "example.com%2F%E6%B1%89%E5%AD%97%2F%E6%BC%A2%E5%AD%97"
    );
}

#[test]
fn test_merge() {
    let mut a = table(vec![
        ("a", scalar("a")),
        ("b", scalar("b")),
        ("c", scalar("c")),
        (
            "d",
            table(vec![
                ("q", scalar("q")),
                ("w", list(vec![scalar("1"), scalar("2"), scalar("3")])),
                ("e", table(vec![("e", scalar("e"))])),
            ]),
        ),
    ]);
    let b = table(vec![
        ("a", scalar("aa")),
        ("c", table(vec![("c", scalar("cc"))])),
        (
            "d",
            table(vec![
                ("t", scalar("tt")),
                ("w", list(vec![scalar("ww"), scalar("www")])),
                ("e", table(vec![("e", scalar("ee"))])),
                ("r", table(vec![("r", scalar("rr"))])),
            ]),
        ),
    ]);
    let expect = table(vec![
        ("a", scalar("aa")),
        ("b", scalar("b")),
        ("c", table(vec![("c", scalar("cc"))])),
        (
            "d",
            table(vec![
                ("q", scalar("q")),
                ("w", list(vec![scalar("ww"), scalar("www")])),
                ("e", table(vec![("e", scalar("ee"))])),
                ("t", scalar("tt")),
                ("r", table(vec![("r", scalar("rr"))])),
            ]),
        ),
    ]);

    merge(&mut a, b);

    assert_eq!(a, expect)
}

#[test]
fn test_simple_template_render() {
    let context: Vec<(String, String)> = vec![
        (String::from("_1"), String::from("aaa")),
        (String::from("_2"), String::from("bbb")),
        (String::from("_3"), String::from("ccc")),
        (String::from("vv"), String::from("ddd")),
        (String::from("bb"), String::from("eee")),
    ];

    assert_eq!(
        simple_template_render("http://example.com/xxx", &context),
        "http://example.com/xxx"
    );
    assert_eq!(
        simple_template_render("http://example.com/{{ vv }}", &context),
        "http://example.com/ddd"
    );
    assert_eq!(
        simple_template_render("http://example.com/{{ _1 }}/{{_2}}", &context),
        "http://example.com/aaa/bbb"
    );
    assert_eq!(
        simple_template_render("http://example.com/{{ vv }}/{{bb}}", &context),
        "http://example.com/ddd/eee"
    );
    assert_eq!(
        simple_template_render("http://example.com/{{ _3 }}/{{ bb }}", &context),
        "http://example.com/ccc/eee"
    );
}

#[test]
fn test_template_unresolved_names_stay() {
    let context: Vec<(String, String)> = vec![(String::from("a"), String::from("x"))];
    assert_eq!(simple_template_render("{{ a }}/{{ b }}", &context), "x/{{ b }}");
    assert_eq!(simple_template_render("{{", &context), "{{");
}

fn rule(
    name: &str,
    pattern: Option<&str>,
    www_href: &str,
    label: Vec<(LangId, &str)>,
    inference: bool,
    passthrough: bool,
) -> StockLinkRule {
    StockLinkRule {
        name: String::from(name),
        icon: String::new(),
        label: label.into_iter().map(|(l, s)| (l, String::from(s))).collect(),
        pattern: pattern.map(String::from),
        www_href: String::from(www_href),
        inference,
        passthrough,
    }
}

#[test]
fn test_inference_rule_without_pattern_is_refused() {
    let mut mgr = LinkRuleManager::default();
    let r = mgr.add_rule(rule("bad", None, "https://x/", vec![], true, false));
    assert!(r.is_err());
    assert_eq!(r.err().unwrap().kind, ErrorKind::InvalidArgument);

    // no partial rule table persists: the refused rule is not referable
    // and catches nothing by inference
    let by_name = mgr.build_link(RawLinkItem::Custom {
        name: String::from(".bad"),
        uri: String::from("https://x/a"),
    });
    assert_eq!(by_name.err().unwrap().kind, ErrorKind::NotExist);
    let by_auto = mgr.build_link(RawLinkItem::Auto(String::from("https://x/a")));
    assert_eq!(by_auto.err().unwrap().kind, ErrorKind::NotExist);

    // a passthrough inference rule needs no pattern
    let mut mgr2 = LinkRuleManager::default();
    assert!(mgr2.add_rule(rule("ok", None, "", vec![], true, true)).is_ok());
}

#[test]
fn test_passthrough_inference_rule_matches_anything() {
    let mut mgr = LinkRuleManager::default();
    mgr.add_rule(rule(
        "item",
        Some(r"^https://example\.com/(?P<slug>[a-z]+)$"),
        "https://cdn.example.com/{{ slug }}",
        vec![(LangId::EnUs, "Item: {{ slug }}")],
        true,
        false,
    ))
    .unwrap();
    mgr.add_rule(rule(
        "anywhere",
        None,
        "",
        vec![(LangId::EnUs, "Elsewhere")],
        true,
        true,
    ))
    .unwrap();

    // the first inference rule that accepts the URI wins
    let matched = mgr
        .build_link(RawLinkItem::Auto(String::from("https://example.com/widget")))
        .unwrap();
    assert_eq!(matched.uri, "https://cdn.example.com/widget");

    // the pattern-less passthrough rule catches everything else, echoing
    // the URI with its static label
    let caught = mgr
        .build_link(RawLinkItem::Auto(String::from("https://other.example/x")))
        .unwrap();
    assert_eq!(caught.uri, "https://other.example/x");
    assert_eq!(caught.label[0].1, "Elsewhere");
    assert_eq!(caught.rule.as_deref(), Some("anywhere"));
}

#[test]
fn test_rule_substitution_and_mismatch() {
    let mut mgr = LinkRuleManager::default();
    mgr.add_rule(rule(
        "item",
        Some(r"^https://example\.com/(?P<slug>[a-z]+)$"),
        "https://cdn.example.com/{{ slug }}",
        vec![(LangId::EnUs, "Item: {{ slug }}")],
        true,
        false,
    ))
    .unwrap();

    // explicit rule reference
    let link = mgr
        .build_link(RawLinkItem::Custom {
            name: String::from(".item"),
            uri: String::from("https://example.com/widget"),
        })
        .unwrap();
    assert_eq!(link.uri, "https://cdn.example.com/widget");
    assert_eq!(link.label.len(), 1);
    assert_eq!(link.label[0].0, LangId::EnUs);
    assert_eq!(link.label[0].1, "Item: widget");
    assert_eq!(link.rule.as_deref(), Some("item"));

    // inference path picks the same rule
    let auto = mgr
        .build_link(RawLinkItem::Auto(String::from("https://example.com/widget")))
        .unwrap();
    assert_eq!(auto.uri, "https://cdn.example.com/widget");

    // matching is case-sensitive: the explicit path refuses the argument
    let e1 = mgr
        .build_link(RawLinkItem::Custom {
            name: String::from(".item"),
            uri: String::from("https://example.com/WIDGET"),
        })
        .err()
        .unwrap();
    assert_eq!(e1.kind, ErrorKind::InvalidArgument);

    // and the inference path finds no rule
    let e2 = mgr
        .build_link(RawLinkItem::Auto(String::from("https://example.com/WIDGET")))
        .err()
        .unwrap();
    assert_eq!(e2.kind, ErrorKind::NotExist);

    // an unknown rule name does not exist
    let e3 = mgr
        .build_link(RawLinkItem::Custom {
            name: String::from(".nosuch"),
            uri: String::from("https://example.com/widget"),
        })
        .err()
        .unwrap();
    assert_eq!(e3.kind, ErrorKind::NotExist);

    // a name without the marker labels the URI verbatim
    let lit = mgr
        .build_link(RawLinkItem::Custom {
            name: String::from("Home"),
            uri: String::from("https://example.com/WIDGET"),
        })
        .unwrap();
    assert_eq!(lit.uri, "https://example.com/WIDGET");
    assert_eq!(lit.label[0].0, LangId::EnUs);
    assert_eq!(lit.label[0].1, "Home");
    assert!(lit.rule.is_none());
}

#[test]
fn test_passthrough_rule_echoes_uri() {
    let mut mgr = LinkRuleManager::default();
    mgr.add_rule(rule(
        "mirror",
        None,
        "",
        vec![(LangId::EnUs, "Mirror")],
        false,
        true,
    ))
    .unwrap();
    let link = mgr
        .build_link(RawLinkItem::Custom {
            name: String::from(".mirror"),
            uri: String::from("https://elsewhere.example/x"),
        })
        .unwrap();
    assert_eq!(link.uri, "https://elsewhere.example/x");
    assert_eq!(link.label[0].1, "Mirror");
    assert!(link.variables.is_empty());
}

#[test]
fn test_invalid_pattern_is_refused() {
    let mut mgr = LinkRuleManager::default();
    let r = mgr.add_rule(rule("broken", Some("foo(bar"), "", vec![], false, false));
    assert_eq!(r.err().unwrap().kind, ErrorKind::InvalidArgument);
}

#[test]
fn test_langid_forms() {
    assert_eq!(LangId::from("zh-cn"), LangId::ZhCn);
    assert_eq!(LangId::from("zh"), LangId::ZhCn);
    assert_eq!(LangId::from("zh-tw"), LangId::ZhTw);
    assert_eq!(LangId::from("ja"), LangId::JaJp);
    assert_eq!(LangId::from("anything-else"), LangId::EnUs);
    assert_eq!(LangId::default(), LangId::EnUs);

    assert_eq!(LangId::EnUs.as_str(), "en");
    assert_eq!(LangId::ZhCn.as_str(), "zh-cn");
    assert_eq!(LangId::ZhTw.as_str(), "zh-tw");
    assert_eq!(LangId::from(LangId::ZhTw.as_str().as_str()), LangId::ZhTw);
    assert_eq!(LangId::ZhCn.as_unix(), "zh_CN");
    assert_eq!(LangId::ZhCn.as_bcp47(), "zh-CN");
    assert_eq!(LangId::JaJp.as_bcp47_short(), "ja");
    assert_eq!(LangId::ZhTw.as_bcp47_short(), "zh-TW");
    assert_eq!(LangId::ZhCn.as_str_noregion(), "zh");
    assert_eq!(LangId::EnUs.tag(), ("en", "us", true));
}

#[test]
fn test_escape_and_remote() {
    assert_eq!(escape_str("a<b>&\"'c"), "a&lt;b&gt;&amp;&quot;&apos;c");
    assert!(is_remote("http://example.com"));
    assert!(is_remote("https://example.com"));
    assert!(!is_remote("ftp://example.com"));
    assert!(!is_remote("img/a.png"));
}

#[test]
fn test_backend_arguments() {
    let mut args = BackendArguments::default();
    args.set_bool(String::from("fs_output"), true);
    args.set_string(String::from("output"), String::from("out"));
    assert_eq!(args.get_bool("fs_output"), true);
    assert_eq!(args.get_bool("missing"), false);
    assert_eq!(args.get_string("output").unwrap(), "out");
    assert_eq!(args.get_string("fs_output").unwrap(), "true");
    assert!(args.get_string("missing").is_none());
    args.set_string(String::from("output"), String::from("other"));
    assert_eq!(args.get_string("output").unwrap(), "other");
}

#[test]
fn test_image_from_str() {
    let img = Image::from_str("https://cdn.example.com/shot.png", None, None).unwrap();
    match img.source {
        ImageSource::Remote(ref s) => assert_eq!(s, "https://cdn.example.com/shot.png"),
        _ => panic!("expected a remote source"),
    }
    assert!(img.size.is_none());

    let e = Image::from_str("local.png", None, None).err().unwrap();
    assert_eq!(e.kind, ErrorKind::InvalidArgument);

    let missing = String::from("/nonexistent-bundle-dir");
    let e2 = Image::from_str("local.png", None, Some(&missing)).err().unwrap();
    assert_eq!(e2.kind, ErrorKind::NotExist);
}

#[test]
fn test_game_build_rejects_unknown_format() {
    let data = ContextData::default();
    let raw = frt::raw::RawGame {
        name: String::from("g"),
        description: String::from("d"),
        description_format: Some(String::from("sgml")),
        brief_description: None,
        thumbnail: String::from("https://cdn.example.com/t.png"),
        authors: vec![],
        links: vec![],
        screenshots: vec![],
    };
    let e = Game::build(&data, String::from("g1"), raw, String::from("/b")).err().unwrap();
    assert_eq!(e.kind, ErrorKind::InvalidArgument);
}

#[test]
fn test_game_build_resolves_links_and_media() {
    let mut data = ContextData::default();
    data.link_rules
        .add_rule(rule(
            "item",
            Some(r"^https://example\.com/(?P<slug>[a-z]+)$"),
            "https://cdn.example.com/{{ slug }}",
            vec![(LangId::EnUs, "Item: {{ slug }}")],
            true,
            false,
        ))
        .unwrap();
    let raw = frt::raw::RawGame {
        name: String::from("g"),
        description: String::from("a description"),
        description_format: Some(String::from("plain")),
        brief_description: Some(String::from("brief")),
        thumbnail: String::from("https://cdn.example.com/t.png"),
        authors: vec![],
        links: vec![RawLinkItem::Auto(String::from("https://example.com/widget"))],
        screenshots: vec![frt::raw::RawScreenshotItem::Youtube {
            youtube: String::from("dQw4w9WgXcQ"),
        }],
    };
    let game = Game::build(&data, String::from("g1"), raw, String::from("/b")).unwrap();
    assert_eq!(game.links.len(), 1);
    assert_eq!(game.links[0].uri, "https://cdn.example.com/widget");
    assert_eq!(game.medias.len(), 1);
    assert!(!game.medias[0].sensitive);
    match game.description {
        Description::Plain(ref s) => assert_eq!(s, "a description"),
        _ => panic!("expected a plain description"),
    }
}

#[test]
fn test_profile_from_configs() {
    let p = Profile::from_configs(vec![]).unwrap();
    assert_eq!(p.ui_config, vec![String::from("ui.toml")]);
    assert_eq!(p.stock_config, vec![String::from("stock.toml")]);
    assert_eq!(p.path_games, vec![String::from("games")]);
    assert_eq!(p.path_authors, vec![String::from("authors")]);
    assert_eq!(p.authority_prefix, "");

    let over = table(vec![
        ("authority_prefix", scalar("https://site")),
        ("path_games", list(vec![scalar("g1"), scalar("g2")])),
    ]);
    let p2 = Profile::from_configs(vec![over]).unwrap();
    assert_eq!(p2.authority_prefix, "https://site");
    assert_eq!(p2.path_games, vec![String::from("g1"), String::from("g2")]);
    assert_eq!(p2.ui_config, vec![String::from("ui.toml")]);

    let bad = table(vec![("path_games", scalar("not-a-list"))]);
    let e = Profile::from_configs(vec![bad]).err().unwrap();
    assert_eq!(e.kind, ErrorKind::InvalidArgument);
}

#[test]
fn test_error_describe() {
    let e = frt::error::Error::new(ErrorKind::NotExist, "rule");
    assert_eq!(e.describe(), "No such resouce: rule");
    let e2 = frt::error::Error::new(ErrorKind::InvalidBundle, "missing");
    assert_eq!(e2.describe(), "Bundle is invalid: missing");
}

#[test]
fn test_int_argument_reads_back_in_decimal() {
    let args = BackendArguments {
        entries: vec![
            (String::from("pos"), ArgValue::Int(7)),
            (String::from("neg"), ArgValue::Int(-42)),
            (String::from("zero"), ArgValue::Int(0)),
        ],
    };
    assert_eq!(args.get_string("pos").unwrap(), "7");
    assert_eq!(args.get_string("neg").unwrap(), "-42");
    assert_eq!(args.get_string("zero").unwrap(), "0");
}
