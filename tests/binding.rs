use snafu::display::{fill_literal, render_message, FieldValue};
use snafu::error::{fail, from_context, ErrorValue};
use snafu::generate::plan_variant;
use snafu::schema::{Field, FieldExpr, Role, Template, Variant};
use snafu::{Context, ErrorCompat, ResultExt};

fn field(name: &str, ty: &str, role: Role) -> Field {
    Field { name: name.to_string(), declared_type: ty.to_string(), role }
}

fn value(name: &str, text: &str) -> FieldValue {
    FieldValue { name: name.to_string(), text: text.to_string() }
}

fn open_config() -> Variant {
    Variant {
        name: "OpenConfig".to_string(),
        fields: vec![field("filename", "PathBuf", Role::Plain), field("cause", "io::Error", Role::Cause)],
        template: Template {
            literal: "Could not open config from {}: {}".to_string(),
            args: vec![
                FieldExpr { field: "filename".to_string(), call: None },
                FieldExpr { field: "cause".to_string(), call: None },
            ],
        },
    }
}

fn user_id_invalid() -> Variant {
    Variant {
        name: "UserIdInvalid".to_string(),
        fields: vec![field("user_id", "i32", Role::Plain), field("trace", "Backtrace", Role::Trace)],
        template: Template {
            literal: "The user id {} is invalid".to_string(),
            args: vec![FieldExpr { field: "user_id".to_string(), call: None }],
        },
    }
}

#[test]
fn fill_replaces_placeholders_in_order() {
    let vals = vec!["a".to_string(), "b".to_string()];
    assert_eq!(fill_literal("{} then {}", &vals), "a then b");
    assert_eq!(fill_literal("{{{}}}", &vals), "{a}");
    assert_eq!(fill_literal("{} {} {}", &vals), "a b ");
    assert_eq!(fill_literal("", &vals), "");
}

#[test]
fn render_message_binds_by_name() {
    let v = open_config();
    let vals = vec![value("cause", "not found"), value("filename", "config.toml")];
    assert_eq!(
        render_message(&v.template, &vals),
        Some("Could not open config from config.toml: not found".to_string())
    );
    assert_eq!(render_message(&v.template, &vec![value("filename", "x")]), None);
}

#[test]
fn open_config_through_plan() {
    let v = open_config();
    let plan = plan_variant(&v);
    let failed: Result<u8, &str> = Err("not found");
    let pair = failed.context(vec!["config.toml".to_string()]).err().unwrap();
    let e: ErrorValue<&str> = from_context(&plan, pair);
    assert_eq!(e.cause(), Some(&"not found"));
    assert!(ErrorCompat::backtrace(&e).is_none());
    assert_eq!(
        e.message(&plan, &v.template, &"not found".to_string()),
        Some("Could not open config from config.toml: not found".to_string())
    );
}

#[test]
fn user_id_invalid_through_plan() {
    let v = user_id_invalid();
    let plan = plan_variant(&v);
    let r: Result<bool, ErrorValue<String>> = fail(&plan, vec!["-1".to_string()]);
    let e = r.err().unwrap();
    assert!(e.cause().is_none());
    let msg = e.message(&plan, &v.template, &String::new()).unwrap();
    assert_eq!(msg, "The user id -1 is invalid");
    let bt = ErrorCompat::backtrace(&e).expect("a backtrace");
    assert!(!bt.frames().is_empty());
}

#[test]
fn conversion_with_trace_captures_backtrace() {
    let v = Variant {
        name: "Traced".to_string(),
        fields: vec![field("cause", "E", Role::Cause), field("trace", "Backtrace", Role::Trace)],
        template: Template { literal: "traced".to_string(), args: vec![] },
    };
    let plan = plan_variant(&v);
    let e: ErrorValue<i32> = from_context(&plan, Context { error: 5, context: vec![] });
    assert_eq!(e.cause(), Some(&5));
    assert!(ErrorCompat::backtrace(&e).is_some());
}

#[test]
fn fail_without_trace_has_no_backtrace() {
    let v = Variant {
        name: "Plain".to_string(),
        fields: vec![],
        template: Template { literal: "plain".to_string(), args: vec![] },
    };
    let plan = plan_variant(&v);
    let r: Result<(), ErrorValue<()>> = fail(&plan, vec![]);
    let e = r.err().unwrap();
    assert!(ErrorCompat::backtrace(&e).is_none());
    assert_eq!(e.variant, "Plain");
    assert_eq!(e.message(&plan, &v.template, &String::new()), Some("plain".to_string()));
}
