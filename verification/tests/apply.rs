use optional_struct::blank::blank;
use optional_struct::classify::{classify_fields, FieldIdent, FieldPolicy};
use optional_struct::convert::{can_convert, downgrade, lift};
use optional_struct::form::{admits_mirror, admits_record};
use optional_struct::mirror::{MirrorBase, MirrorType};
use optional_struct::plan::Plan;
use optional_struct::schema::{
    Directive, FieldDescriptor, Form, ParsedMacroParameters, Schema, SchemaAttr, TypeExpr,
    TypeKind, TypeShape, Visibility,
};
use optional_struct::value::Value;
use optional_struct::{opt_struct, Applicable, Mirror};

#[derive(Debug, PartialEq)]
enum Leaf {
    U8(u8),
    U16(u16),
    U32(u32),
    I8(i8),
    I16(i16),
    Usize(usize),
    F32(f32),
    Bool(bool),
    Char(char),
    Text(String),
    Unit,
}

type V = Value<Leaf>;

fn leaf(l: Leaf) -> V {
    Value::Leaf(l)
}

fn text(s: &str) -> V {
    leaf(Leaf::Text(s.to_owned()))
}

fn some(v: V) -> V {
    Value::Present(Box::new(v))
}

fn none() -> V {
    Value::Absent
}

fn fields_of(v: V) -> Vec<V> {
    match v {
        Value::Record(items) => items,
        other => panic!("not a record: {:?}", other),
    }
}

fn path_type(tokens: &str, last: &str) -> TypeExpr {
    TypeExpr { shape: TypeShape::Path(vec![last.to_string()]), tokens: tokens.to_string() }
}

fn plain(name: &str) -> TypeExpr {
    path_type(name, name)
}

fn option_of(inner: &str) -> TypeExpr {
    path_type(&format!("Option<{}>", inner), "Option")
}

fn unit_type() -> TypeExpr {
    TypeExpr { shape: TypeShape::Other(TypeKind::Tuple), tokens: "()".to_string() }
}

fn field(name: &str, ty: TypeExpr, attrs: Vec<Directive>) -> FieldDescriptor {
    FieldDescriptor { attrs, vis: Visibility::Inherited, ident: Some(name.to_string()), ty }
}

fn positional(ty: TypeExpr) -> FieldDescriptor {
    FieldDescriptor { attrs: vec![], vis: Visibility::Inherited, ident: None, ty }
}

fn record(name: &str, fields: Vec<FieldDescriptor>) -> Schema {
    Schema {
        attrs: vec![],
        vis: Visibility::Inherited,
        ident: name.to_string(),
        generics: String::new(),
        form: Form::Named,
        fields,
    }
}

fn rename(target: &str) -> Directive {
    Directive::Redirect(vec![target.to_string()])
}

fn policies_of(schema: &Schema, default_wrap: bool) -> Vec<FieldPolicy> {
    classify_fields(&schema.fields, default_wrap).unwrap()
}

fn plan_of(schema: &Schema, default_wrap: bool, nested: Vec<Option<Plan>>) -> Plan {
    Plan::link(&policies_of(schema, default_wrap), nested).unwrap()
}

fn config_schema() -> Schema {
    record(
        "Config",
        vec![
            field("delay", option_of("u32"), vec![]),
            field("path", plain("String"), vec![]),
            field("percentage", plain("f32"), vec![]),
        ],
    )
}

fn config_plan() -> Plan {
    plan_of(&config_schema(), true, vec![None, None, None])
}

fn log_config_schema() -> Schema {
    record(
        "LogConfig",
        vec![field("log_file", plain("String"), vec![]), field("log_level", plain("usize"), vec![])],
    )
}

fn log_config_plan() -> Plan {
    plan_of(&log_config_schema(), true, vec![None, None])
}

fn generic_stuff_with_optional_struct<A: Applicable>(opt: A, base: A::Base) -> A::Base {
    opt.build(base)
}

#[test]
fn applicable_generic_test_apply_options() {
    let config = Value::Record(vec![
        some(leaf(Leaf::U32(2))),
        text("/var/log/foo.log"),
        leaf(Leaf::F32(3.12)),
    ]);

    let opt_config = Mirror {
        plan: config_plan(),
        value: Value::Record(vec![none(), some(text("/tmp/bar.log")), some(leaf(Leaf::F32(42.24)))]),
    };

    let config = fields_of(generic_stuff_with_optional_struct(opt_config, config));

    assert_eq!(config[0], some(leaf(Leaf::U32(2))));
    assert_eq!(config[1], text("/tmp/bar.log"));
    assert_eq!(config[2], leaf(Leaf::F32(42.24)));
}

fn miaou_schema() -> Schema {
    record("Miaou", vec![field("a", plain("i8"), vec![]), field("b", plain("i16"), vec![])])
}

fn foo_schema() -> Schema {
    record(
        "Foo",
        vec![
            field("paf", plain("u16"), vec![]),
            field("bar", option_of("u8"), vec![]),
            field("baz", option_of("char"), vec![Directive::Wrap]),
            field("miaou", plain("Miaou"), vec![rename("OptionalMiaou"), Directive::Wrap]),
        ],
    )
}

fn foo_plan() -> Plan {
    let miaou = plan_of(&miaou_schema(), true, vec![None, None]);
    plan_of(&foo_schema(), true, vec![None, None, None, Some(miaou)])
}

#[test]
fn test_builder() {
    let default = Value::Record(vec![
        leaf(Leaf::U16(12)),
        none(),
        some(leaf(Leaf::Char('a'))),
        Value::Record(vec![leaf(Leaf::I8(1)), leaf(Leaf::I16(-1))]),
    ]);

    let first = Mirror {
        plan: foo_plan(),
        value: Value::Record(vec![
            some(leaf(Leaf::U16(42))),
            some(leaf(Leaf::U8(7))),
            some(none()),
            none(),
        ]),
    };

    let second = Mirror {
        plan: foo_plan(),
        value: Value::Record(vec![
            some(leaf(Leaf::U16(24))),
            none(),
            some(some(leaf(Leaf::Char('c')))),
            some(Value::Record(vec![some(leaf(Leaf::I8(2))), none()])),
        ]),
    };

    let collapsed = first.apply(second).build(default);
    assert_eq!(
        collapsed,
        Value::Record(vec![
            leaf(Leaf::U16(24)),
            some(leaf(Leaf::U8(7))),
            some(leaf(Leaf::Char('c'))),
            Value::Record(vec![leaf(Leaf::I8(2)), leaf(Leaf::I16(-1))]),
        ])
    );
}

#[test]
fn empty_test_apply_options() {
    let opt_config = fields_of(blank::<Leaf>(&config_plan()).unwrap());

    assert_eq!(opt_config[0], none());
    assert_eq!(opt_config[1], none());
    assert_eq!(opt_config[2], none());
}

#[test]
fn generics_test_apply_options() {
    let mut schema = record(
        "GenericConfig",
        vec![field("value_t", plain("T"), vec![]), field("value_v", plain("V"), vec![])],
    );
    schema.generics = "<T: std::fmt::Debug, V>".to_string();
    let plan = plan_of(&schema, true, vec![None, None]);

    let mut config = Value::Record(vec![leaf(Leaf::F32(3.0)), text("foo")]);

    let opt_config = Mirror { plan, value: Value::Record(vec![none(), some(text("bar"))]) };

    opt_config.apply_to(&mut config);

    let config = fields_of(config);
    assert_eq!(config[0], leaf(Leaf::F32(3.0)));
    assert_eq!(config[1], text("bar"));

    let out = opt_struct(ParsedMacroParameters::default(), schema).unwrap();
    assert_eq!(out.generated.mirror.ident, "OptionalGenericConfig");
    assert_eq!(out.generated.mirror.generics, "<T: std::fmt::Debug, V>");
}

#[test]
fn test_apply_options_reverse_wrapping() {
    let schema = record(
        "Config",
        vec![
            field("timeout", option_of("u32"), vec![]),
            field("log_config", plain("LogConfig"), vec![rename("OptionalLogConfig")]),
            field("baz", unit_type(), vec![Directive::Wrap]),
        ],
    );
    let plan = plan_of(&schema, false, vec![None, Some(log_config_plan()), None]);

    let mut config = Value::Record(vec![
        some(leaf(Leaf::U32(2))),
        Value::Record(vec![text("/var/log/foobar.log"), leaf(Leaf::Usize(3))]),
        leaf(Leaf::Unit),
    ]);

    let opt_config = Mirror {
        plan,
        value: Value::Record(vec![
            none(),
            Value::Record(vec![some(text("/tmp/bar.log")), none()]),
            some(leaf(Leaf::Unit)),
        ]),
    };

    opt_config.apply_to(&mut config);

    let config = fields_of(config);
    assert_eq!(config[0], some(leaf(Leaf::U32(2))));
    assert_eq!(config[1], Value::Record(vec![text("/tmp/bar.log"), leaf(Leaf::Usize(3))]));
    assert_eq!(config[2], leaf(Leaf::Unit));

    let parameters = ParsedMacroParameters {
        new_struct_name: Some("OptionalConfig".to_string()),
        default_wrapping: false,
    };
    let out = opt_struct(parameters, schema).unwrap();
    assert_eq!(out.generated.mirror.ident, "OptionalConfig");
    let wrapped: Vec<bool> = out.generated.mirror.fields.iter().map(|f| f.ty.wrapped).collect();
    assert_eq!(wrapped, vec![false, false, true]);
}

#[test]
fn test_skip_wrapping() {
    let schema = record(
        "Config",
        vec![
            field("timeout", option_of("u32"), vec![]),
            field("not_optional_at_all", plain("bool"), vec![Directive::SkipWrap]),
        ],
    );
    let plan = plan_of(&schema, true, vec![None, None]);

    let mut config = Value::Record(vec![some(leaf(Leaf::U32(2))), leaf(Leaf::Bool(true))]);

    let opt_config = Mirror { plan, value: Value::Record(vec![none(), leaf(Leaf::Bool(false))]) };

    opt_config.apply_to(&mut config);

    let config = fields_of(config);
    assert_eq!(config[0], some(leaf(Leaf::U32(2))));
    assert!(config[1] != leaf(Leaf::Bool(true)));
    assert_eq!(config[1], leaf(Leaf::Bool(false)));
}

#[test]
fn test_apply_options_tuple_struct() {
    let schema = Schema {
        attrs: vec![],
        vis: Visibility::Inherited,
        ident: "Config".to_string(),
        generics: String::new(),
        form: Form::Unnamed,
        fields: vec![
            positional(option_of("u32")),
            positional(plain("String")),
            positional(plain("f32")),
        ],
    };
    let found = policies_of(&schema, true);
    let names: Vec<&FieldIdent> = found.iter().map(|p| &p.field_ident).collect();
    assert_eq!(names, vec![&FieldIdent::Index(0), &FieldIdent::Index(1), &FieldIdent::Index(2)]);

    let plan = Plan::link(&found, vec![None, None, None]).unwrap();
    let opt_config = fields_of(blank::<Leaf>(&plan).unwrap());
    assert_eq!(opt_config[0], none());
    assert_eq!(opt_config[1], none());
    assert_eq!(opt_config[2], none());
}

#[test]
fn test_match_cfg_attributes() {
    let schema = record(
        "Foo",
        vec![
            field("bar", plain("u8"), vec![Directive::Guard("all()".to_string())]),
            field("baz", plain("u8"), vec![Directive::Guard("any()".to_string())]),
        ],
    );
    let found = policies_of(&schema, true);
    assert_eq!(found[0].guard, Some("all()".to_string()));
    assert_eq!(found[1].guard, Some("any()".to_string()));
    let compiled: Vec<FieldPolicy> =
        found.into_iter().filter(|p| p.guard != Some("any()".to_string())).collect();
    let plan = Plan::link(&compiled, vec![None]).unwrap();

    let mut foo = Value::Record(vec![leaf(Leaf::U8(1))]);

    let opt_foo = Mirror { plan, value: Value::Record(vec![some(leaf(Leaf::U8(1)))]) };
    opt_foo.apply_to(&mut foo);

    assert_eq!(foo, Value::Record(vec![leaf(Leaf::U8(1))]));
}

#[test]
fn with_extra_derive_test_apply_options() {
    let mut schema = record(
        "Config",
        vec![field("delay", option_of("u32"), vec![]), field("path", plain("String"), vec![])],
    );
    schema.attrs = vec![SchemaAttr::Derive(
        ["Debug", "std :: hash :: Hash", "Clone", "PartialEq", "Default"]
            .iter()
            .map(|s| s.to_string())
            .collect(),
    )];
    let plan = plan_of(&schema, true, vec![None, None]);

    let mut config = Value::Record(vec![some(leaf(Leaf::U32(2))), text("/var/log/foo.log")]);

    let opt_config = Mirror { plan, value: Value::Record(vec![none(), some(text("/tmp/bar.log"))]) };

    opt_config.apply_to(&mut config);

    let config = fields_of(config);
    assert_eq!(config[0], some(leaf(Leaf::U32(2))));
    assert_eq!(config[1], text("/tmp/bar.log"));

    let out = opt_struct(ParsedMacroParameters::default(), schema).unwrap();
    assert_eq!(out.generated.derives, Vec::<String>::new());
}

#[test]
fn test_force_wrap_option() {
    let schema = record(
        "Foo",
        vec![
            field("bar", option_of("u8"), vec![]),
            field("baz", option_of("u8"), vec![Directive::Wrap]),
        ],
    );
    let plan = plan_of(&schema, true, vec![None, None]);
    let _opt_foo = Mirror {
        plan,
        value: Value::Record(vec![some(leaf(Leaf::U8(1))), some(some(leaf(Leaf::U8(2))))]),
    };
    assert!(admits_mirror(&_opt_foo.plan, &_opt_foo.value));
    assert!(_opt_foo.can_convert());
    assert_eq!(
        _opt_foo.downgrade(),
        Ok(Value::Record(vec![some(leaf(Leaf::U8(1))), some(leaf(Leaf::U8(2)))]))
    );

    let out = opt_struct(ParsedMacroParameters::default(), schema).unwrap();
    assert_eq!(
        out.generated.mirror.fields[0].ty,
        MirrorType { base: MirrorBase::Declared(option_of("u8")), wrapped: false }
    );
    assert_eq!(
        out.generated.mirror.fields[1].ty,
        MirrorType { base: MirrorBase::Declared(option_of("u8")), wrapped: true }
    );
}

#[test]
fn test_apply_double_wrap() {
    let schema = record(
        "Config",
        vec![
            field("delay", option_of("u32"), vec![Directive::Wrap]),
            field("path", plain("String"), vec![]),
            field("percentage", plain("f32"), vec![]),
        ],
    );
    let plan = plan_of(&schema, true, vec![None, None, None]);

    let mut config = Value::Record(vec![
        some(leaf(Leaf::U32(2))),
        text("/var/log/foo.log"),
        leaf(Leaf::F32(3.12)),
    ]);

    let opt_config = Mirror {
        plan,
        value: Value::Record(vec![
            some(none()),
            some(text("/tmp/bar.log")),
            some(leaf(Leaf::F32(42.24))),
        ]),
    };

    opt_config.apply_to(&mut config);

    let config = fields_of(config);
    assert_eq!(config[0], none());
    assert_eq!(config[1], text("/tmp/bar.log"));
    assert_eq!(config[2], leaf(Leaf::F32(42.24)));
}

fn inner_schema() -> Schema {
    Schema {
        attrs: vec![],
        vis: Visibility::Inherited,
        ident: "Inner".to_string(),
        generics: String::new(),
        form: Form::Unnamed,
        fields: vec![positional(plain("i8"))],
    }
}

fn inner_plan() -> Plan {
    plan_of(&inner_schema(), true, vec![None])
}

fn nullable_nested_plan() -> Plan {
    let schema = record(
        "Foo",
        vec![field("inner", option_of("Inner"), vec![Directive::SkipWrap, rename("OptionalInner")])],
    );
    plan_of(&schema, true, vec![Some(inner_plan())])
}

#[test]
fn an_empty_nested_mirror_leaves_an_unset_field_unset() {
    let empty = blank::<Leaf>(&inner_plan()).unwrap();
    assert_eq!(empty, Value::Record(vec![none()]));
    let mut foo = Value::Record(vec![none()]);
    let opt_foo = Mirror { plan: nullable_nested_plan(), value: Value::Record(vec![some(empty)]) };
    opt_foo.apply_to(&mut foo);
    assert_eq!(foo, Value::Record(vec![none()]));

    let mut foo = Value::Record(vec![none()]);
    let opt_foo = Mirror { plan: nullable_nested_plan(), value: Value::Record(vec![none()]) };
    opt_foo.apply_to(&mut foo);
    assert_eq!(foo, Value::Record(vec![none()]));
}

#[test]
fn a_nullable_nested_field_adopts_merges_or_stays() {
    let set = |n: i8| some(Value::Record(vec![some(leaf(Leaf::I8(n)))]));

    let mut foo = Value::Record(vec![none()]);
    Mirror { plan: nullable_nested_plan(), value: Value::Record(vec![set(1)]) }.apply_to(&mut foo);
    assert_eq!(foo, Value::Record(vec![some(Value::Record(vec![leaf(Leaf::I8(1))]))]));

    Mirror { plan: nullable_nested_plan(), value: Value::Record(vec![set(2)]) }.apply_to(&mut foo);
    assert_eq!(foo, Value::Record(vec![some(Value::Record(vec![leaf(Leaf::I8(2))]))]));

    let empty = some(Value::Record(vec![none()]));
    Mirror { plan: nullable_nested_plan(), value: Value::Record(vec![empty]) }.apply_to(&mut foo);
    assert_eq!(foo, Value::Record(vec![some(Value::Record(vec![leaf(Leaf::I8(2))]))]));

    Mirror { plan: nullable_nested_plan(), value: Value::Record(vec![none()]) }.apply_to(&mut foo);
    assert_eq!(foo, Value::Record(vec![some(Value::Record(vec![leaf(Leaf::I8(2))]))]));
}

#[test]
fn a_nullable_nested_field_merges_between_mirrors() {
    let set = |n: i8| some(Value::Record(vec![some(leaf(Leaf::I8(n)))]));
    let empty = || some(Value::Record(vec![none()]));
    let merge = |incoming: V, other: V| {
        let mut other = Mirror { plan: nullable_nested_plan(), value: Value::Record(vec![other]) };
        Mirror { plan: nullable_nested_plan(), value: Value::Record(vec![incoming]) }
            .apply_to_opt(&mut other);
        other.value
    };
    assert_eq!(merge(set(1), none()), Value::Record(vec![set(1)]));
    assert_eq!(merge(none(), set(2)), Value::Record(vec![set(2)]));
    assert_eq!(merge(set(1), set(2)), Value::Record(vec![set(1)]));
    assert_eq!(merge(empty(), set(2)), Value::Record(vec![set(2)]));
    assert_eq!(merge(set(1), empty()), Value::Record(vec![set(1)]));
}

#[test]
fn presence_and_downgrade_agree() {
    let values = vec![
        Value::Record(vec![some(leaf(Leaf::U16(1))), none(), some(none()), some(Value::Record(vec![some(leaf(Leaf::I8(1))), some(leaf(Leaf::I16(2)))]))]),
        Value::Record(vec![none(), none(), some(none()), some(Value::Record(vec![some(leaf(Leaf::I8(1))), some(leaf(Leaf::I16(2)))]))]),
        Value::Record(vec![some(leaf(Leaf::U16(1))), none(), none(), some(Value::Record(vec![some(leaf(Leaf::I8(1))), some(leaf(Leaf::I16(2)))]))]),
        Value::Record(vec![some(leaf(Leaf::U16(1))), none(), some(none()), none()]),
        Value::Record(vec![some(leaf(Leaf::U16(1))), none(), some(none()), some(Value::Record(vec![some(leaf(Leaf::I8(1))), none()]))]),
        Value::Record(vec![some(leaf(Leaf::U16(1))), none(), some(none())]),
        leaf(Leaf::Unit),
    ];
    let expected = vec![true, false, false, false, false, false, false];
    for (value, expected) in values.into_iter().zip(expected) {
        let plan = foo_plan();
        assert_eq!(can_convert(&plan, &value), expected);
        let mirror = Mirror { plan: foo_plan(), value };
        assert_eq!(mirror.can_convert(), expected);
        assert_eq!(mirror.downgrade().is_ok(), expected);
    }
}

#[test]
fn a_failed_downgrade_gives_the_mirror_back() {
    let value = || Value::Record(vec![some(leaf(Leaf::U16(1))), some(leaf(Leaf::U8(3))), none(), none()]);
    let mirror = Mirror { plan: foo_plan(), value: value() };
    assert_eq!(mirror.downgrade(), Err(Mirror { plan: foo_plan(), value: value() }));
    assert_eq!(downgrade(&foo_plan(), value()), Err(value()));
}

#[test]
fn a_downgrade_unwraps_what_is_set() {
    let mirror = Value::Record(vec![
        some(leaf(Leaf::U16(9))),
        some(leaf(Leaf::U8(3))),
        some(some(leaf(Leaf::Char('x')))),
        some(Value::Record(vec![some(leaf(Leaf::I8(-3))), some(leaf(Leaf::I16(4)))])),
    ]);
    assert_eq!(
        downgrade(&foo_plan(), mirror),
        Ok(Value::Record(vec![
            leaf(Leaf::U16(9)),
            some(leaf(Leaf::U8(3))),
            some(leaf(Leaf::Char('x'))),
            Value::Record(vec![leaf(Leaf::I8(-3)), leaf(Leaf::I16(4))]),
        ]))
    );
}

#[test]
fn the_full_mirror_of_a_record_downgrades_to_it() {
    let base = || {
        Value::Record(vec![
            leaf(Leaf::U16(12)),
            none(),
            some(leaf(Leaf::Char('a'))),
            Value::Record(vec![leaf(Leaf::I8(1)), leaf(Leaf::I16(-1))]),
        ])
    };
    let mirror = lift(&foo_plan(), base());
    assert_eq!(
        mirror,
        Value::Record(vec![
            some(leaf(Leaf::U16(12))),
            none(),
            some(some(leaf(Leaf::Char('a')))),
            some(Value::Record(vec![some(leaf(Leaf::I8(1))), some(leaf(Leaf::I16(-1)))])),
        ])
    );
    assert_eq!(downgrade(&foo_plan(), mirror), Ok(base()));

    let nested = || Value::Record(vec![some(Value::Record(vec![leaf(Leaf::I8(5))]))]);
    let mirror = lift(&nullable_nested_plan(), nested());
    assert_eq!(mirror, Value::Record(vec![some(Value::Record(vec![some(leaf(Leaf::I8(5)))]))]));
    assert_eq!(downgrade(&nullable_nested_plan(), mirror), Ok(nested()));
    let unset = lift(&nullable_nested_plan(), Value::Record(vec![none()]));
    assert_eq!(downgrade(&nullable_nested_plan(), unset), Ok(Value::Record(vec![none()])));
}

#[test]
fn what_is_set_in_the_incoming_mirror_wins() {
    let a = Mirror {
        plan: foo_plan(),
        value: Value::Record(vec![
            some(leaf(Leaf::U16(1))),
            none(),
            none(),
            some(Value::Record(vec![none(), some(leaf(Leaf::I16(7)))])),
        ]),
    };
    let mut b = Mirror {
        plan: foo_plan(),
        value: Value::Record(vec![
            some(leaf(Leaf::U16(2))),
            some(leaf(Leaf::U8(5))),
            some(none()),
            some(Value::Record(vec![some(leaf(Leaf::I8(3))), some(leaf(Leaf::I16(4)))])),
        ]),
    };
    a.apply_to_opt(&mut b);
    assert_eq!(
        b.value,
        Value::Record(vec![
            some(leaf(Leaf::U16(1))),
            some(leaf(Leaf::U8(5))),
            some(none()),
            some(Value::Record(vec![some(leaf(Leaf::I8(3))), some(leaf(Leaf::I16(7)))])),
        ])
    );
}

#[test]
fn unset_nullable_fields_never_block_a_downgrade() {
    let schema = record(
        "Config",
        vec![
            field("timeout", option_of("u32"), vec![]),
            field("inner", option_of("Inner"), vec![rename("OptionalInner")]),
            field("name", plain("String"), vec![]),
        ],
    );
    let plan = plan_of(&schema, true, vec![None, Some(inner_plan()), None]);
    let mirror = Value::Record(vec![none(), none(), some(text("x"))]);
    assert!(can_convert(&plan, &mirror));
    assert_eq!(downgrade(&plan, mirror), Ok(Value::Record(vec![none(), none(), text("x")])));

    let forced = record("Config", vec![field("timeout", option_of("u32"), vec![Directive::Wrap])]);
    let plan = plan_of(&forced, true, vec![None]);
    assert!(!can_convert(&plan, &Value::Record(vec![none()])));
}

#[test]
fn values_of_another_form_change_nothing() {
    let plan = config_plan();
    let mut base = leaf(Leaf::Unit);
    Mirror { plan, value: Value::Record(vec![none(), none(), none()]) }.apply_to(&mut base);
    assert_eq!(base, leaf(Leaf::Unit));

    let mut base = Value::Record(vec![none(), text("a"), leaf(Leaf::F32(1.0))]);
    Mirror { plan: config_plan(), value: Value::Record(vec![none()]) }.apply_to(&mut base);
    assert_eq!(base, Value::Record(vec![none(), text("a"), leaf(Leaf::F32(1.0))]));

    let mut base = Value::Record(vec![none(), text("a"), leaf(Leaf::F32(1.0))]);
    let odd = Value::Record(vec![leaf(Leaf::U32(1)), text("b"), none()]);
    Mirror { plan: config_plan(), value: odd }.apply_to(&mut base);
    assert_eq!(base, Value::Record(vec![none(), text("a"), leaf(Leaf::F32(1.0))]));
}

#[test]
fn a_plan_needs_a_nested_plan_for_each_redirect_and_no_other() {
    let found = policies_of(&foo_schema(), true);
    assert!(Plan::link(&found, vec![None, None, None, None]).is_none());
    assert!(Plan::link(&found, vec![None, None, None]).is_none());
    let miaou = || plan_of(&miaou_schema(), true, vec![None, None]);
    assert!(Plan::link(&found, vec![Some(miaou()), None, None, Some(miaou())]).is_none());
    assert!(Plan::link(&found, vec![None, None, None, Some(miaou())]).is_some());
}

#[test]
fn a_mirror_with_a_plain_field_cannot_be_blank() {
    let schema = record(
        "Config",
        vec![
            field("timeout", option_of("u32"), vec![]),
            field("flag", plain("bool"), vec![Directive::SkipWrap]),
        ],
    );
    assert_eq!(blank::<Leaf>(&plan_of(&schema, true, vec![None, None])), None);

    let outer = record(
        "Outer",
        vec![field("log_config", plain("LogConfig"), vec![rename("OptionalLogConfig")])],
    );
    let plan = plan_of(&outer, true, vec![Some(log_config_plan())]);
    assert_eq!(
        blank::<Leaf>(&plan),
        Some(Value::Record(vec![Value::Record(vec![none(), none()])]))
    );
}

#[test]
fn a_plan_tells_its_mirrors_and_its_records() {
    let plan = foo_plan();
    let record = Value::Record(vec![
        leaf(Leaf::U16(12)),
        none(),
        some(leaf(Leaf::Char('a'))),
        Value::Record(vec![leaf(Leaf::I8(1)), leaf(Leaf::I16(-1))]),
    ]);
    let mirror = Value::Record(vec![
        none(),
        some(leaf(Leaf::U8(7))),
        some(none()),
        some(Value::Record(vec![none(), some(leaf(Leaf::I16(2)))])),
    ]);
    assert!(admits_record(&plan, &record));
    assert!(!admits_mirror(&plan, &record));
    assert!(admits_mirror(&plan, &mirror));
    assert!(!admits_record(&plan, &mirror));
    assert!(!admits_mirror(&plan, &Value::Record(vec![none(), none(), none()])));
    assert!(!admits_record(&plan, &leaf(Leaf::Unit)));
    let bare = Value::Record(vec![none(), none(), none(), Value::Record(vec![none(), none()])]);
    assert!(!admits_mirror(&plan, &bare));

    let nested = nullable_nested_plan();
    assert!(admits_record(&nested, &Value::Record(vec![none()])));
    assert!(admits_record(&nested, &Value::Record(vec![some(Value::Record(vec![leaf(Leaf::I8(1))]))])));
    assert!(!admits_record(&nested, &Value::Record(vec![Value::Record(vec![leaf(Leaf::I8(1))])])));
    assert!(admits_mirror(&nested, &Value::Record(vec![some(Value::Record(vec![none()]))])));
}

#[test]
fn merging_two_mirrors_first_is_merging_one_after_the_other() {
    let a = || {
        Value::Record(vec![
            none(),
            some(leaf(Leaf::U8(7))),
            none(),
            some(Value::Record(vec![none(), some(leaf(Leaf::I16(2)))])),
        ])
    };
    let b = || {
        Value::Record(vec![
            some(leaf(Leaf::U16(24))),
            none(),
            some(some(leaf(Leaf::Char('c')))),
            some(Value::Record(vec![some(leaf(Leaf::I8(2))), some(leaf(Leaf::I16(9)))])),
        ])
    };
    let base = || {
        Value::Record(vec![
            leaf(Leaf::U16(12)),
            none(),
            some(leaf(Leaf::Char('a'))),
            Value::Record(vec![leaf(Leaf::I8(1)), leaf(Leaf::I16(-1))]),
        ])
    };
    let mirror = |value: V| Mirror { plan: foo_plan(), value };
    let at_once = mirror(b()).apply(mirror(a())).build(base());
    let in_turn = mirror(a()).build(mirror(b()).build(base()));
    assert_eq!(at_once, in_turn);
    assert_eq!(
        at_once,
        Value::Record(vec![
            leaf(Leaf::U16(24)),
            some(leaf(Leaf::U8(7))),
            some(leaf(Leaf::Char('c'))),
            Value::Record(vec![leaf(Leaf::I8(2)), leaf(Leaf::I16(2))]),
        ])
    );
}
