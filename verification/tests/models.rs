use aseman_node::json::Json;
use aseman_node::models::{
    apply_extender_fields, build_error_json, Command, ExtendedField, FieldFacts,
    ResponseSimpleMessage, Update,
};
use aseman_node::startup::{listens, restored_machines, store_extender, user_extender};

fn text(value: &str) -> Json {
    Json::Text(value.to_string())
}

fn object(fields: Vec<(&str, Json)>) -> Json {
    Json::Object(fields.into_iter().map(|(k, v)| (k.to_string(), v)).collect())
}

fn render(json: &Json) -> String {
    match json {
        Json::Null => "null".to_string(),
        Json::Bool(b) => b.to_string(),
        Json::Whole(n) => n.to_string(),
        Json::Real { text, .. } => text.clone(),
        Json::Text(t) => serde_json::to_string(t).unwrap(),
        Json::Array(items) => {
            format!("[{}]", items.iter().map(render).collect::<Vec<_>>().join(","))
        }
        Json::Object(fields) => format!(
            "{{{}}}",
            fields
                .iter()
                .map(|(k, v)| format!("{}:{}", serde_json::to_string(k).unwrap(), render(v)))
                .collect::<Vec<_>>()
                .join(",")
        ),
    }
}

#[test]
fn extended_field_default_is_empty_and_inactive() {
    let f = ExtendedField::default();
    assert!(f.name.is_empty());
    assert!(f.path.is_empty());
    assert!(f.typ.is_empty());
    assert!(matches!(f.default, Json::Null));
    assert!(!f.required);
    assert!(!f.searchable);
    assert!(!f.primary_prop);
    assert!(f.get_value.is_none());
}

#[test]
fn extended_field_clones_preserve_flags_and_callbacks() {
    let f = ExtendedField {
        name: "n".to_string(),
        path: "p".to_string(),
        typ: "string".to_string(),
        default: text("d"),
        required: true,
        searchable: true,
        primary_prop: true,
        get_value: Some("seven".to_string()),
    };
    let c = f.copy();
    assert_eq!(c.name, "n");
    assert_eq!(c.path, "p");
    assert_eq!(c.typ, "string");
    assert!(c.required && c.searchable && c.primary_prop);
    assert!(c.get_value.is_some());
}

#[test]
fn command_serializes_with_pascal_case_keys() {
    let c = Command { value: "v".to_string(), data: "d".to_string() };
    assert_eq!(render(&c.to_json()), r#"{"Value":"v","Data":"d"}"#);
}

#[test]
fn command_round_trips() {
    let c = Command { value: "ping".to_string(), data: "x".to_string() };
    let parsed = Command::from_json(&c.to_json()).unwrap();
    assert_eq!(parsed.value, c.value);
    assert_eq!(parsed.data, c.data);
}

#[test]
fn response_simple_message_round_trips() {
    let r = ResponseSimpleMessage { message: "ok".to_string() };
    let json = r.to_json();
    assert_eq!(render(&json), r#"{"message":"ok"}"#);
    assert_eq!(ResponseSimpleMessage::from_json(&json).unwrap().message, "ok");
}

#[test]
fn update_serializes_with_short_field_names_and_base64_val() {
    let u = Update { typ: "put".to_string(), key: "k1".to_string(), val: vec![0u8, 1, 2, 3, 255] };
    assert_eq!(render(&u.to_json()), r#"{"type":"put","key":"k1","val":"AAECA/8="}"#);
}

#[test]
fn update_round_trips_through_json() {
    let u = Update { typ: "del".to_string(), key: "k".to_string(), val: vec![] };
    let parsed = Update::from_json(&u.to_json()).unwrap();
    assert_eq!(parsed.typ, u.typ);
    assert_eq!(parsed.key, u.key);
    assert_eq!(parsed.val, u.val);
}

#[test]
fn update_val_defaults_to_empty_when_absent() {
    let parsed =
        Update::from_json(&object(vec![("type", text("del")), ("key", text("k"))])).unwrap();
    assert!(parsed.val.is_empty());
}

#[test]
fn faulty_updates_are_not_read() {
    let faulty =
        object(vec![("type", text("put")), ("key", text("k")), ("val", text("not base64!"))]);
    assert!(Update::from_json(&faulty).is_none());
    assert!(Update::from_json(&object(vec![("type", text("put"))])).is_none());
    let number =
        object(vec![("type", text("put")), ("key", text("k")), ("val", Json::Whole(1))]);
    assert!(Update::from_json(&number).is_none());
}

#[test]
fn updates_keep_their_bytes() {
    let u = Update { typ: "put".to_string(), key: "k".to_string(), val: vec![7, 0, 250] };
    assert_eq!(Update::from_json(&u.to_json()).unwrap().val, vec![7, 0, 250]);
}

#[test]
fn errors_carry_their_message() {
    let e = build_error_json("no");
    assert_eq!(e.message, "no");
    assert_eq!(render(&e.to_json()), r#"{"message":"no"}"#);
}

#[test]
fn extended_fields_take_computed_stored_or_default_values() {
    let fields = vec![
        FieldFacts {
            key: "name".to_string(),
            default: text("Anonymous User"),
            computed: None,
            at_path: Some(object(vec![("name", text("Ada"))])),
        },
        FieldFacts {
            key: "bio".to_string(),
            default: text("none"),
            computed: None,
            at_path: Some(object(vec![])),
        },
        FieldFacts {
            key: "rank".to_string(),
            default: Json::Whole(0),
            computed: Some(Json::Whole(7)),
            at_path: None,
        },
    ];
    let out = apply_extender_fields(object(vec![("id", text("2@global"))]), &fields);
    assert_eq!(
        render(&out),
        r#"{"id":"2@global","name":"Ada","bio":"none","rank":7}"#
    );
}

#[test]
fn profiles_have_their_documented_fields() {
    let user: Vec<(String, String, bool, bool)> = user_extender()
        .into_iter()
        .map(|f| (f.name, render(&f.default), f.searchable, f.primary_prop))
        .collect();
    assert_eq!(
        user,
        vec![
            ("name".to_string(), "\"Anonymous User\"".to_string(), true, true),
            ("avatar".to_string(), "\"avatar\"".to_string(), false, true),
            ("bio".to_string(), "\"I'm a DecillionAI User\"".to_string(), false, false),
            ("location".to_string(), "\"DecillionAI Land\"".to_string(), false, false),
        ]
    );
    let store: Vec<String> = store_extender().into_iter().map(|f| f.name).collect();
    assert_eq!(store, vec!["title", "avatar"]);
}

#[test]
fn one_listener_is_restored_for_each_machine() {
    let keys = vec![
        "link::vmEntityType::1@global::main".to_string(),
        "link::vmEntityType::1@global::worker".to_string(),
        "other::2@global".to_string(),
        "link::vmEntityType::3@global::main".to_string(),
    ];
    assert_eq!(restored_machines(&keys), vec!["1@global", "3@global"]);
    assert!(!listens(0));
    assert!(!listens(-1));
    assert!(listens(8074));
}

#[test]
fn servers_show_the_public_half_of_their_key() {
    let pair = vec![b"secret".to_vec(), b"public".to_vec()];
    assert_eq!(aseman_node::actions::auth::get_server_public_key(&pair), "public");
    let odd = vec![vec![], vec![0x61, 0xff]];
    assert_eq!(aseman_node::actions::auth::get_server_public_key(&odd), "a\u{fffd}");
    assert_eq!(aseman_node::actions::auth::get_server_public_key(&vec![]), "");
}
