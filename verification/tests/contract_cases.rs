use takumi_html::api::{TemplateContentKind, TemplateInput, TemplateRequest};
use takumi_html::assets::{AssetStore, Step};
use takumi_html::convert::convert_element;
use takumi_html::error::HtmlError;
use takumi_html::node::{ParsedElement, ParsedNode};
use takumi_html::options::FromHtmlOptions;
use takumi_html::renderer_error::RendererError;
use takumi_html::template::{
    checked_search_path, parse_context_json, TemplateEngine, TemplateEvent,
};

fn element(tag: &str, attributes: &[(&str, &str)], children: Vec<ParsedNode>) -> ParsedElement {
    ParsedElement {
        tag_name: tag.to_string(),
        attributes: attributes.iter().map(|(n, v)| (n.to_string(), v.to_string())).collect(),
        children,
        serialized_html: None,
    }
}

#[test]
fn a_failing_element_leaves_the_stylesheet_list_as_it_was() {
    let options = FromHtmlOptions::new().load_linked_stylesheets(true);
    let store = AssetStore::new();
    let mut sheets = vec!["a {}".to_string()];

    let link = element("link", &[("rel", "stylesheet")], vec![]);
    match convert_element(&link, false, &options, &store, &mut sheets) {
        Step::Failed(error) => {
            assert_eq!(error, HtmlError::MissingLinkedStylesheetHref { tag_name: "link".to_string() })
        }
        _ => panic!("a stylesheet link without href fails"),
    }
    assert_eq!(sheets, vec!["a {}".to_string()]);

    let img = element("img", &[], vec![]);
    match convert_element(&img, false, &options, &store, &mut sheets) {
        Step::Failed(error) => {
            assert_eq!(error, HtmlError::MissingImageSource { tag_name: "img".to_string() })
        }
        _ => panic!("an image without src fails"),
    }
    assert_eq!(sheets, vec!["a {}".to_string()]);
}

#[test]
fn stylesheets_before_a_failure_stay_in_the_list() {
    let options = FromHtmlOptions::new();
    let store = AssetStore::new();
    let mut sheets = vec!["a {}".to_string()];
    let head = element(
        "head",
        &[],
        vec![
            ParsedNode::Element(element("style", &[], vec![ParsedNode::Text("b {}".to_string())])),
            ParsedNode::Element(element("img", &[], vec![])),
        ],
    );
    match convert_element(&head, false, &options, &store, &mut sheets) {
        Step::Failed(error) => {
            assert_eq!(error, HtmlError::MissingImageSource { tag_name: "img".to_string() })
        }
        _ => panic!("the image without src stops the conversion"),
    }
    assert_eq!(sheets, vec!["a {}".to_string(), "b {}".to_string()]);
}

#[test]
fn search_paths_are_refused_when_blank_or_not_directories() {
    assert_eq!(
        checked_search_path("  \t", "/work".to_string(), true),
        Err(RendererError::InvalidRequest("search path cannot be empty".to_string()))
    );
    assert_eq!(
        checked_search_path(" notes.txt ", "/work/notes.txt".to_string(), false),
        Err(RendererError::InvalidRequest(
            "search path `/work/notes.txt` is not a directory".to_string()
        ))
    );
    assert_eq!(
        checked_search_path(" templates ", "/work/templates".to_string(), true),
        Ok("/work/templates".to_string())
    );

    let mut engine = TemplateEngine::new();
    engine.add_checked_search_path("a", "/a".to_string(), true).expect("add directory");
    assert!(engine.add_checked_search_path("b", "/b".to_string(), false).is_err());
    assert!(engine.add_checked_search_path(" ", "/c".to_string(), true).is_err());
    engine.add_checked_search_path("./a", "/a".to_string(), true).expect("add it again");
    assert_eq!(engine.template_repository().search_paths, vec!["/a".to_string()]);
}

#[test]
fn cleared_templates_are_not_found_by_name() {
    let mut engine = TemplateEngine::new();
    engine.add_template(" card ".to_string(), "<b>{{ x }}</b>".to_string()).expect("register");
    let request = TemplateRequest {
        input: TemplateInput::Registered("card ".to_string()),
        context_json: None,
        content_kind: TemplateContentKind::JinjaHtml,
        syntax_theme: None,
    };
    assert!(engine.render(&request, TemplateEvent::Start).is_ok());
    engine.clear_templates();
    match engine.render(&request, TemplateEvent::Start) {
        Err(error) => assert_eq!(error, RendererError::TemplateNotFound("card".to_string())),
        Ok(_) => panic!("a cleared template is not found"),
    }
}

#[test]
fn context_json_is_the_value_serde_json_parses() {
    let text = r#" {"user": {"name": "Takumi"}, "tags": [1, 2]} "#;
    let parsed = parse_context_json(&Some(text.to_string())).expect("parse context");
    let expected: serde_json::Value = serde_json::from_str(text.trim()).expect("parse directly");
    assert_eq!(parsed, expected);
    let empty: serde_json::Value = serde_json::from_str("{}").expect("parse {}");
    assert_eq!(parse_context_json(&None).expect("missing context"), empty);
}
