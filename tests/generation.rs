use snafu::generate::{generate, plan_variant, Construction, SelectorField};
use snafu::schema::{
    check_variant, validate, ErrorTaxonomy, Field, FieldExpr, Role, SchemaError, SchemaFault, Template, Variant,
};
use snafu::template::{count_placeholders, parse_template, TemplateError, TemplateFault, TemplateSyntax};

fn field(name: &str, ty: &str, role: Role) -> Field {
    Field { name: name.to_string(), declared_type: ty.to_string(), role }
}

fn arg(name: &str, call: Option<&str>) -> FieldExpr {
    FieldExpr { field: name.to_string(), call: call.map(String::from) }
}

fn template(literal: &str, args: Vec<FieldExpr>) -> Template {
    Template { literal: literal.to_string(), args }
}

fn open_config() -> Variant {
    Variant {
        name: "OpenConfig".to_string(),
        fields: vec![field("filename", "PathBuf", Role::Plain), field("source", "io::Error", Role::Cause)],
        template: template(
            "Could not open config from {}: {}",
            vec![arg("filename", Some("display")), arg("source", None)],
        ),
    }
}

fn user_id_invalid() -> Variant {
    Variant {
        name: "UserIdInvalid".to_string(),
        fields: vec![field("user_id", "i32", Role::Plain), field("backtrace", "Backtrace", Role::Trace)],
        template: template("The user id {} is invalid", vec![arg("user_id", None)]),
    }
}

fn empty_variant() -> Variant {
    Variant { name: "Empty".to_string(), fields: vec![], template: template("empty", vec![]) }
}

#[test]
fn valid_taxonomy_generates_one_plan_per_variant() {
    let t = ErrorTaxonomy { variants: vec![open_config(), user_id_invalid(), empty_variant()] };
    assert_eq!(validate(&t), Ok(()));
    let plans = generate(&t).unwrap();
    assert_eq!(plans.len(), 3);
    assert_eq!(plans[0].name, "OpenConfig");
    assert_eq!(
        plans[0].fields,
        vec![SelectorField { name: "filename".to_string(), declared_type: "PathBuf".to_string() }]
    );
    assert_eq!(plans[0].construction, Construction::Conversion);
    assert_eq!(plans[0].cause, Some("source".to_string()));
    assert_eq!(plans[0].trace, None);
    assert_eq!(plans[1].construction, Construction::Fail);
    assert_eq!(plans[1].trace, Some("backtrace".to_string()));
    assert_eq!(plans[1].cause, None);
    assert_eq!(plans[2].fields, vec![]);
    assert_eq!(plans[2].construction, Construction::Fail);
}

#[test]
fn plan_keeps_plain_field_order() {
    let v = Variant {
        name: "Authenticating".to_string(),
        fields: vec![
            field("user_name", "String", Role::Plain),
            field("source", "ApiError", Role::Cause),
            field("user_id", "i32", Role::Plain),
        ],
        template: template("{} {}", vec![arg("user_name", None), arg("user_id", None)]),
    };
    let p = plan_variant(&v);
    let names: Vec<&str> = p.fields.iter().map(|f| f.name.as_str()).collect();
    assert_eq!(names, vec!["user_name", "user_id"]);
}

#[test]
fn duplicate_field_is_rejected() {
    let mut v = user_id_invalid();
    v.fields.push(field("user_id", "u8", Role::Plain));
    let t = ErrorTaxonomy { variants: vec![open_config(), v] };
    assert_eq!(validate(&t), Err(SchemaError { variant: 1, fault: SchemaFault::DuplicateField }));
    assert_eq!(generate(&t).err(), Some(SchemaError { variant: 1, fault: SchemaFault::DuplicateField }));
}

#[test]
fn duplicate_cause_is_rejected() {
    let mut v = open_config();
    v.fields.push(field("other", "io::Error", Role::Cause));
    assert_eq!(check_variant(&v), Some(SchemaFault::DuplicateCause));
}

#[test]
fn duplicate_trace_is_rejected() {
    let mut v = user_id_invalid();
    v.fields.push(field("again", "Backtrace", Role::Trace));
    assert_eq!(check_variant(&v), Some(SchemaFault::DuplicateTrace));
}

#[test]
fn unknown_template_field_is_rejected() {
    let mut v = open_config();
    v.template.args.push(arg("missing", None));
    let t = ErrorTaxonomy { variants: vec![v] };
    assert_eq!(validate(&t), Err(SchemaError { variant: 0, fault: SchemaFault::UnknownField }));
}

#[test]
fn trace_in_template_is_rejected() {
    let mut v = user_id_invalid();
    v.template.args.push(arg("backtrace", None));
    assert_eq!(check_variant(&v), Some(SchemaFault::TraceInTemplate));
}

#[test]
fn empty_taxonomy_is_valid() {
    let t = ErrorTaxonomy { variants: vec![] };
    assert_eq!(generate(&t).unwrap().len(), 0);
}

#[test]
fn three_syntaxes_agree() {
    let inline = parse_template(TemplateSyntax::Inline, "\"Could not open config from {}: {}\", filename.display(), source");
    let quoted = parse_template(
        TemplateSyntax::Quoted,
        "\"Could not open config from {}: {}\", \"filename.display()\", \"source\"",
    );
    let packed = parse_template(TemplateSyntax::Packed, "(\"Could not open config from {}: {}\", filename.display(), source)");
    let expected = template(
        "Could not open config from {}: {}",
        vec![arg("filename", Some("display")), arg("source", None)],
    );
    assert_eq!(inline, Ok(expected.clone()));
    assert_eq!(quoted, Ok(expected.clone()));
    assert_eq!(packed, Ok(expected));
}

#[test]
fn template_without_arguments() {
    let t = parse_template(TemplateSyntax::Inline, "\"plain text {{}}\"").unwrap();
    assert_eq!(t.literal, "plain text {{}}");
    assert!(t.args.is_empty());
}

#[test]
fn template_count_mismatch() {
    let r = parse_template(TemplateSyntax::Inline, "\"{} and {}\", one");
    assert_eq!(r, Err(TemplateError { syntax: TemplateSyntax::Inline, fault: TemplateFault::PlaceholderMismatch }));
    let r = parse_template(TemplateSyntax::Quoted, "\"stray { brace\"");
    assert_eq!(r, Err(TemplateError { syntax: TemplateSyntax::Quoted, fault: TemplateFault::PlaceholderMismatch }));
}

#[test]
fn template_malformed() {
    let cases = [
        (TemplateSyntax::Inline, "no quotes"),
        (TemplateSyntax::Inline, "\"unterminated"),
        (TemplateSyntax::Inline, "\"{}\",x"),
        (TemplateSyntax::Inline, "\"{}\", x.y"),
        (TemplateSyntax::Quoted, "\"{}\", x"),
        (TemplateSyntax::Packed, "\"{}\", x"),
        (TemplateSyntax::Inline, "\"{}\", "),
    ];
    for (syntax, text) in cases {
        assert_eq!(
            parse_template(syntax, text),
            Err(TemplateError { syntax, fault: TemplateFault::Malformed }),
            "{}",
            text
        );
    }
}

#[test]
fn placeholder_counts() {
    assert_eq!(count_placeholders(""), Some(0));
    assert_eq!(count_placeholders("a {} b {} c"), Some(2));
    assert_eq!(count_placeholders("{{}} {}"), Some(1));
    assert_eq!(count_placeholders("{x}"), None);
    assert_eq!(count_placeholders("}"), None);
}
