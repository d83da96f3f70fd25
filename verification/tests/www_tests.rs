use frt::backend::BackendArguments;
use frt::config::ConfigValue;
use frt::context::ContextData;
use frt::error::ErrorKind;
use frt::game::{Description, Game, GameL10n};
use frt::i18n::LangId;
use frt::media::{Image, ImageSource};
use frt::www::backend::BackendWWW;
use frt::www::common::{HtmlImage, HtmlImageMIME, HtmlText};
use frt::www::game::GameWWW;
use frt::www::pages::{File, PageContents};

fn remote_image(uri: &str) -> Image {
    Image {
        source: ImageSource::Remote(String::from(uri)),
        captain: None,
        size: None,
        mtime: None,
    }
}

fn plain_game(id: &str, name: &str, description: &str) -> Game {
    Game {
        id: String::from(id),
        name: String::from(name),
        description: Description::Plain(String::from(description)),
        brief_description: None,
        links: vec![],
        medias: vec![],
        thumbnail: remote_image("https://cdn.example.com/t.png"),
        l10n: vec![],
        bundle_path: String::from("/bundles"),
    }
}

#[test]
fn test_html_text_escapes_and_breaks() {
    let t = HtmlText::from(String::from("a<b>&\"'\nc"));
    assert_eq!(t.plain, "a<b>&\"'\nc");
    assert_eq!(t.html, "a&lt;b&gt;&amp;&quot;&apos;<br />c");
}

#[test]
fn test_mime_inference() {
    assert_eq!(HtmlImageMIME::from_suffix("png"), Some(HtmlImageMIME::ImagePng));
    assert_eq!(HtmlImageMIME::from_suffix("jpeg"), Some(HtmlImageMIME::ImageJpeg));
    assert_eq!(HtmlImageMIME::from_suffix("bmp"), None);
    assert_eq!(HtmlImageMIME::from_src("a/b.c.webp"), Some(HtmlImageMIME::ImageWebp));
    assert_eq!(HtmlImageMIME::from_src("noext"), None);
    assert_eq!(HtmlImageMIME::ImageAvif.priority(), 40);
    assert_eq!(HtmlImageMIME::ImageWebp.priority(), 30);
    assert_eq!(HtmlImageMIME::ImagePng.priority(), 20);
    assert_eq!(HtmlImageMIME::ImageGif.priority(), 10);
}

#[test]
fn test_picture_emits_by_descending_priority_with_lowest_fallback() {
    let img = remote_image("https://x/a.png");
    let mut hi = HtmlImage::init_base_from_image(&img);
    hi.add_source_simple(String::from("https://x/a.png"), true, None).unwrap();
    hi.add_source_simple(String::from("https://x/a.webp"), true, None).unwrap();
    hi.add_source_simple(String::from("https://x/a.avif"), true, None).unwrap();
    let html = hi.html("..", "shot", None).unwrap();
    let mut expected = String::from("<picture>");
    expected.push_str("<source srcset=\"https://x/a.avif\" type=\"image/avif\">");
    expected.push_str("<source srcset=\"https://x/a.webp\" type=\"image/webp\">");
    expected.push_str("<source srcset=\"https://x/a.png\" type=\"image/png\">");
    expected.push_str("<img class=\"shot\" src=\"https://x/a.png\" loading=\"lazy\"></picture>");
    assert_eq!(html, expected);
}

#[test]
fn test_picture_without_candidates_is_refused() {
    let img = remote_image("https://x/a.png");
    let hi = HtmlImage::init_base_from_image(&img);
    let e = hi.html("..", "shot", None).err().unwrap();
    assert_eq!(e.kind, ErrorKind::InvalidArgument);
}

#[test]
fn test_picture_unknown_suffix_is_refused() {
    let img = remote_image("https://x/a.bmp");
    let mut hi = HtmlImage::init_base_from_image(&img);
    let e = hi.add_source_simple(String::from("https://x/a.bmp"), true, None).err().unwrap();
    assert_eq!(e.kind, ErrorKind::InvalidArgument);
}

#[test]
fn test_local_source_resolves_under_relative_root() {
    let img = Image {
        source: ImageSource::Bundled(String::from("shot.png")),
        captain: Some(String::from("A <shot>")),
        size: Some((640, 480)),
        mtime: None,
    };
    let mut hi = HtmlImage::init_base_from_image(&img);
    hi.add_source_simple(String::from("assets/game/g1/shot.png"), false, None).unwrap();
    let html = hi.html("..", "shot", None).unwrap();
    let mut expected = String::from("<picture>");
    expected.push_str("<source srcset=\"../assets/game/g1/shot.png\" type=\"image/png\">");
    expected.push_str("<img class=\"shot\" width=\"640\" height=\"480\" alt=\"A &lt;shot&gt;\" ");
    expected.push_str("src=\"../assets/game/g1/shot.png\" loading=\"lazy\"></picture>");
    assert_eq!(html, expected);
}

#[test]
fn test_brief_description_boundary() {
    let langs = vec![LangId::EnUs];

    let desc480: String = "汉".repeat(480);
    let g480 = plain_game("g480", "n", &desc480);
    let cooked = GameWWW::cook_game(&g480, &langs).unwrap();
    assert_eq!(cooked.cooked.len(), 1);
    assert_eq!(cooked.cooked[0].1.brief_description.plain, desc480);

    let desc481: String = "汉".repeat(481);
    let g481 = plain_game("g481", "n", &desc481);
    let cooked = GameWWW::cook_game(&g481, &langs).unwrap();
    let expected: String = format!("{}...", "汉".repeat(480));
    assert_eq!(cooked.cooked[0].1.brief_description.plain, expected);

    // an explicit brief description is never derived
    let mut gb = plain_game("gb", "n", &desc481);
    gb.brief_description = Some(String::from("short"));
    let cooked = GameWWW::cook_game(&gb, &langs).unwrap();
    assert_eq!(cooked.cooked[0].1.brief_description.plain, "short");
}

fn ui_doc() -> ConfigValue {
    // the reserved "_" layer plus one zh-cn overlay
    ConfigValue::Table(vec![
        (
            String::from("_"),
            ConfigValue::Table(vec![(
                String::from("title"),
                ConfigValue::Scalar(String::from("Catalog")),
            )]),
        ),
        (
            String::from("zh-cn"),
            ConfigValue::Table(vec![(
                String::from("title"),
                ConfigValue::Scalar(String::from("目录")),
            )]),
        ),
    ])
}

#[test]
fn test_resync_cascade_end_to_end() {
    let mut data = ContextData::default();
    data.ui = Vec::new();
    data.load_ui_value(ui_doc());
    data.post_load_ui().unwrap();

    let mut with_override = plain_game("alpha", "Alpha", "Base description");
    with_override.l10n = vec![(
        LangId::ZhCn,
        GameL10n { name: Some(String::from("阿尔法")), description: None, brief_description: None },
    )];
    let plain = plain_game("beta", "Beta", "Other description");
    data.games = vec![
        (String::from("alpha"), with_override),
        (String::from("beta"), plain),
    ];

    let mut backend = BackendWWW::new(None).unwrap();
    let args = BackendArguments::default();
    let copies = backend.resync(&data, &args).unwrap();
    assert!(copies.is_empty());

    // active locales: the overlay's locale, then the default added last
    assert_eq!(backend.langs().clone(), vec![LangId::ZhCn, LangId::EnUs]);

    let games = backend.games();
    let alpha = &games.iter().find(|(id, _)| id.as_str() == "alpha").unwrap().1;
    let beta = &games.iter().find(|(id, _)| id.as_str() == "beta").unwrap().1;

    let alpha_zh = &alpha.cooked.iter().find(|(l, _)| *l == LangId::ZhCn).unwrap().1;
    assert_eq!(alpha_zh.name.plain, "阿尔法");
    assert_eq!(alpha_zh.description.plain, "Base description");

    let alpha_en = &alpha.cooked.iter().find(|(l, _)| *l == LangId::EnUs).unwrap().1;
    assert_eq!(alpha_en.name.plain, "Alpha");
    assert_eq!(alpha_en.description.plain, "Base description");

    let beta_zh = &beta.cooked.iter().find(|(l, _)| *l == LangId::ZhCn).unwrap().1;
    assert_eq!(beta_zh.name.plain, "Beta");
    assert_eq!(beta_zh.description.plain, "Other description");
}

fn contents_for_all(backend: &BackendWWW) -> Vec<(LangId, PageContents)> {
    backend
        .langs()
        .iter()
        .map(|l| {
            (
                *l,
                PageContents {
                    index_html: format!("index for {:?}", l),
                    languages_html: String::from("languages"),
                    notfound_html: String::from("not found"),
                    list_html: format!("list for {:?}", l),
                },
            )
        })
        .collect()
}

#[test]
fn test_render_fans_out_per_locale() {
    let mut backend = BackendWWW::new(None).unwrap();
    let data = ContextData::default();
    let args = BackendArguments::default();
    backend.resync(&data, &args).unwrap();
    assert_eq!(backend.langs().clone(), vec![LangId::EnUs]);

    let contents = contents_for_all(&backend);
    let out = backend.render(&contents).unwrap();
    let paths: Vec<&str> = out.pages.iter().map(|(p, _)| p.as_str()).collect();
    assert_eq!(
        paths,
        vec!["en/index.html", "languages.html", "404.html", "en/list.html"]
    );
    match &out.pages[0].1 {
        File::Regular(c) => assert_eq!(c, "index for EnUs"),
        _ => panic!("expected a regular file"),
    }
}

#[test]
fn test_render_unknown_target_is_refused() {
    let mut backend = BackendWWW::new(None).unwrap();
    let data = ContextData::default();
    let mut args = BackendArguments::default();
    args.set_string(String::from("target"), String::from("bogus"));
    backend.resync(&data, &args).unwrap();
    let contents = contents_for_all(&backend);
    let e = backend.render(&contents).err().unwrap();
    assert_eq!(e.kind, ErrorKind::InvalidArgument);
}

#[test]
fn test_render_single_target_and_missing_contents() {
    let mut backend = BackendWWW::new(None).unwrap();
    let data = ContextData::default();
    let mut args = BackendArguments::default();
    args.set_string(String::from("target"), String::from("list"));
    backend.resync(&data, &args).unwrap();

    let contents = contents_for_all(&backend);
    let out = backend.render(&contents).unwrap();
    let paths: Vec<&str> = out.pages.iter().map(|(p, _)| p.as_str()).collect();
    assert_eq!(paths, vec!["en/list.html"]);

    let empty: Vec<(LangId, PageContents)> = Vec::new();
    let e = backend.render(&empty).err().unwrap();
    assert_eq!(e.kind, ErrorKind::NotExist);
}

#[test]
fn test_resync_requires_output_for_filesystem_mode() {
    let mut backend = BackendWWW::new(None).unwrap();
    let data = ContextData::default();
    let mut args = BackendArguments::default();
    args.set_bool(String::from("fs_output"), true);
    let e = backend.resync(&data, &args).err().unwrap();
    assert_eq!(e.kind, ErrorKind::InvalidArgument);

    args.set_string(String::from("output"), String::from("outdir"));
    backend.resync(&data, &args).unwrap();
    assert_eq!(backend.output_path().unwrap(), "outdir");
}
