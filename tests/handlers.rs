use spa_server::attr::{AttrPath, Lit, Meta};
use spa_server::config::parse_config;
use spa_server::handler::{
    adapt_entry, error_to_json, quick_err, to_json_reply, EntryError, FnParam, HttpMethod,
    JsonReply, ENVELOPE_STATUS,
};
use spa_server::plan::{plan_layers, Layer};

fn path(s: &str) -> AttrPath {
    AttrPath { segments: vec![s.to_string()], leading_colon: false }
}

#[test]
fn quick_err_envelope() {
    let e = quick_err("some error".to_string());
    assert_eq!(e.errors.len(), 1);
    assert_eq!(e.errors[0].detail, "some error");
}

#[test]
fn json_reply_error_becomes_envelope() {
    let r: JsonReply<u32> = to_json_reply(Err("Custom(\"bad\")".to_string()));
    match r {
        JsonReply::Error { status, body } => {
            assert_eq!(status, 200);
            assert_eq!(body.errors.len(), 1);
            assert_eq!(body.errors[0].detail, "Custom(\"bad\")");
        }
        JsonReply::Value(_) => panic!("expected the envelope"),
    }
}

#[test]
fn json_reply_value_forwarded() {
    let r: JsonReply<u32> = to_json_reply(Ok(7));
    assert!(matches!(r, JsonReply::Value(7)));
}

#[test]
fn error_to_json_names_and_args() {
    let params = vec![
        FnParam::Receiver,
        FnParam::Ident("req".to_string()),
        FnParam::Pattern,
        FnParam::Ident("body".to_string()),
    ];
    let plan = error_to_json("test", &params);
    assert_eq!(ENVELOPE_STATUS, 200);
    assert_eq!(plan.impl_name, "_test_impl");
    assert_eq!(plan.args, vec!["req".to_string(), "body".to_string()]);
}

#[test]
fn method_names() {
    assert_eq!(HttpMethod::Get.name(), "GET");
    assert_eq!(HttpMethod::Patch.name(), "PATCH");
    assert_eq!(HttpMethod::Connect.name(), "CONNECT");
}

#[test]
fn entry_must_be_async() {
    assert_eq!(adapt_entry(true), Ok(()));
    assert_eq!(adapt_entry(false), Err(EntryError::NotAsync));
    assert_eq!(EntryError::NotAsync.message(), "only async fn is supported");
}

#[test]
fn two_api_groups_routing() {
    let attrs = vec![Meta::List(
        path("spa_server"),
        vec![
            Meta::NameValue(path("static_files"), Lit::Str("dist".to_string())),
            Meta::Path(path("cors")),
            Meta::List(
                path("identity"),
                vec![
                    Meta::NameValue(path("name"), Lit::Str("id".to_string())),
                    Meta::NameValue(path("age"), Lit::Int("60".to_string())),
                ],
            ),
            Meta::List(
                path("apis"),
                vec![
                    Meta::List(
                        path("api"),
                        vec![
                            Meta::NameValue(path("prefix"), Lit::Str("/api/v1".to_string())),
                            Meta::Path(path("foo")),
                        ],
                    ),
                    Meta::List(path("api"), vec![Meta::Path(path("test"))]),
                ],
            ),
        ],
    )];
    let layers = plan_layers(parse_config(&attrs).unwrap());
    assert_eq!(layers.len(), 6);
    assert!(matches!(&layers[0], Layer::Identity { name, age: 60 } if name == "id"));
    assert!(matches!(&layers[1], Layer::Cors));
    match &layers[2] {
        Layer::Scope { prefix, handlers } => {
            assert_eq!(prefix, "/api/v1");
            assert_eq!(handlers.len(), 1);
            assert_eq!(handlers[0].segments, vec!["foo".to_string()]);
        }
        _ => panic!("expected a scope"),
    }
    match &layers[3] {
        Layer::Direct { handlers } => {
            assert_eq!(handlers.len(), 1);
            assert_eq!(handlers[0].segments, vec!["test".to_string()]);
        }
        _ => panic!("expected direct registration"),
    }
    assert!(matches!(&layers[4], Layer::IndexFallback));
    assert!(matches!(&layers[5], Layer::StaticFiles { index_file } if index_file == "index.html"));
}

#[test]
fn minimal_plan() {
    let attrs = vec![Meta::List(
        path("spa_server"),
        vec![Meta::NameValue(path("static_files"), Lit::Str("dist".to_string()))],
    )];
    let layers = plan_layers(parse_config(&attrs).unwrap());
    assert_eq!(layers.len(), 2);
}
