use variants_struct::directives::{read_directives, same_text, AttrArg, AttrDesc};
use variants_struct::error::GenError;
use variants_struct::layout::{
    layout_with_names, variants_struct, EnumDescription, NamedField, SlotKind, VariantDescription,
    VariantFields,
};
use variants_struct::naming::field_ident_for;
use variants_struct::tokens::{parse_path_list, Tok};

fn ident(s: &str) -> Tok {
    Tok::Ident(s.to_string())
}

fn attr(name: &str, arg: AttrArg) -> AttrDesc {
    AttrDesc { name: name.to_string(), arg }
}

fn list(name: &str, toks: Vec<Tok>) -> AttrDesc {
    attr(name, AttrArg::List(toks, String::new()))
}

fn unit(name: &str) -> VariantDescription {
    VariantDescription { name: name.to_string(), attrs: vec![], fields: VariantFields::Unit }
}

fn enum_of(name: &str, attrs: Vec<AttrDesc>, variants: Vec<VariantDescription>) -> EnumDescription {
    EnumDescription { name: name.to_string(), visibility: "pub(crate)".to_string(), attrs, variants }
}

#[test]
fn snake_case_field_names() {
    assert_eq!(field_ident_for("ThereAndBack", None), "there_and_back");
    assert_eq!(field_ident_for("World", None), "world");
    let l = variants_struct(&enum_of("Trip", vec![], vec![unit("ThereAndBack")])).unwrap();
    assert_eq!(l.fields[0].name, "there_and_back");
    assert_eq!(l.fields[0].variant, "ThereAndBack");
}

#[test]
fn keyword_field_names_are_escaped() {
    assert_eq!(field_ident_for("Whatever", Some("struct")), "r#struct");
    assert_eq!(field_ident_for("Match", None), "r#match");
    assert_eq!(field_ident_for("SelfRef", Some("self")), "self_");
    assert_eq!(field_ident_for("Plain", Some("plain_name")), "plain_name");
}

#[test]
fn override_that_is_a_keyword() {
    let v = VariantDescription {
        name: "Anything".to_string(),
        attrs: vec![attr("field_name", AttrArg::StrValue("struct".to_string()))],
        fields: VariantFields::Unit,
    };
    let l = variants_struct(&enum_of("E", vec![], vec![v])).unwrap();
    assert_eq!(l.fields[0].name, "r#struct");
}

#[test]
fn first_field_name_wins() {
    let v = VariantDescription {
        name: "V".to_string(),
        attrs: vec![
            attr("field_name", AttrArg::Bare),
            attr("field_name", AttrArg::StrValue("first".to_string())),
            attr("field_name", AttrArg::StrValue("second".to_string())),
        ],
        fields: VariantFields::Unit,
    };
    let l = variants_struct(&enum_of("E", vec![], vec![v])).unwrap();
    assert_eq!(l.fields[0].name, "first");
}

#[test]
fn default_record_name_and_visibility() {
    let l = variants_struct(&enum_of("Hello", vec![], vec![unit("World"), unit("There")])).unwrap();
    assert_eq!(l.name, "HelloStruct");
    assert_eq!(l.enum_name, "Hello");
    assert_eq!(l.visibility, "pub(crate)");
    assert_eq!(l.constructor_params(), vec!["world".to_string(), "there".to_string()]);
}

#[test]
fn last_struct_name_wins() {
    let attrs = vec![
        attr("struct_name", AttrArg::StrValue("First".to_string())),
        attr("struct_name", AttrArg::StrValue("Second".to_string())),
    ];
    let l = variants_struct(&enum_of("E", attrs, vec![unit("A")])).unwrap();
    assert_eq!(l.name, "Second");
}

#[test]
fn keyed_fields_and_constructor() {
    let vs = vec![
        unit("Zero"),
        VariantDescription {
            name: "One".to_string(),
            attrs: vec![],
            fields: VariantFields::Unnamed(vec!["i32".to_string()]),
        },
        VariantDescription {
            name: "Two".to_string(),
            attrs: vec![],
            fields: VariantFields::Named(vec![NamedField { name: "f".to_string(), ty: "u8".to_string() }]),
        },
        unit("Three"),
    ];
    let l = variants_struct(&enum_of("E", vec![], vs)).unwrap();
    assert_eq!(l.fields[0].slot, SlotKind::Direct);
    assert_eq!(l.fields[1].slot, SlotKind::Keyed("i32".to_string(), None));
    assert_eq!(l.fields[2].slot, SlotKind::Keyed("u8".to_string(), Some("f".to_string())));
    assert_eq!(l.constructor_params(), vec!["zero".to_string(), "three".to_string()]);
}

#[test]
fn two_values_refused() {
    let vs = vec![
        unit("A"),
        VariantDescription {
            name: "B".to_string(),
            attrs: vec![],
            fields: VariantFields::Unnamed(vec!["i32".to_string(), "i32".to_string()]),
        },
    ];
    assert_eq!(variants_struct(&enum_of("E", vec![], vs)), Err(GenError::UnsupportedVariant(1)));
    let vs = vec![VariantDescription {
        name: "S".to_string(),
        attrs: vec![],
        fields: VariantFields::Named(vec![
            NamedField { name: "a".to_string(), ty: "u8".to_string() },
            NamedField { name: "b".to_string(), ty: "u8".to_string() },
        ]),
    }];
    assert_eq!(variants_struct(&enum_of("E", vec![], vs)), Err(GenError::UnsupportedVariant(0)));
}

#[test]
fn empty_parentheses_refused() {
    let vs = vec![VariantDescription {
        name: "A".to_string(),
        attrs: vec![],
        fields: VariantFields::Unnamed(vec![]),
    }];
    assert_eq!(variants_struct(&enum_of("E", vec![], vs)), Err(GenError::UnsupportedVariant(0)));
}

#[test]
fn empty_enum_gives_unit_record() {
    let attrs = vec![
        list("struct_derive", vec![ident("Debug")]),
        list("struct_bounds", vec![ident("Clone")]),
        list("struct_attr", vec![ident("x")]),
    ];
    let l = variants_struct(&enum_of("Nothing", attrs, vec![])).unwrap();
    assert_eq!(l.name, "NothingStruct");
    assert!(l.fields.is_empty());
    assert!(l.bounds.is_empty());
    assert!(l.attrs.is_empty());
    assert_eq!(l.derives, vec!["Debug".to_string()]);
    assert!(l.constructor_params().is_empty());
}

#[test]
fn struct_name_not_a_string() {
    let attrs = vec![attr("other", AttrArg::Bare), attr("struct_name", AttrArg::OtherValue("5".to_string()))];
    assert_eq!(variants_struct(&enum_of("E", attrs, vec![unit("A")])), Err(GenError::StructNameNotString(1)));
}

#[test]
fn directive_not_a_list() {
    let attrs = vec![attr("struct_bounds", AttrArg::StrValue("Clone".to_string()))];
    assert_eq!(variants_struct(&enum_of("E", attrs, vec![unit("A")])), Err(GenError::NotAList(0)));
    let attrs = vec![attr("struct_derive", AttrArg::Bare)];
    assert_eq!(variants_struct(&enum_of("E", attrs, vec![])), Err(GenError::NotAList(0)));
    let attrs = vec![attr("struct_attr", AttrArg::OtherValue("1".to_string()))];
    assert_eq!(variants_struct(&enum_of("E", attrs, vec![unit("A")])), Err(GenError::NotAList(0)));
}

#[test]
fn derive_entry_not_a_path() {
    let toks = vec![ident("Debug"), Tok::Punct(','), Tok::Literal("\"x\"".to_string())];
    let attrs = vec![list("struct_derive", toks)];
    assert_eq!(variants_struct(&enum_of("E", attrs, vec![unit("A")])), Err(GenError::NotAPath(0, 1)));
}

#[test]
fn field_name_not_a_string() {
    let v = VariantDescription {
        name: "V".to_string(),
        attrs: vec![
            attr("field_name", AttrArg::StrValue("ok".to_string())),
            attr("field_name", AttrArg::OtherValue("3".to_string())),
        ],
        fields: VariantFields::Unit,
    };
    assert_eq!(
        variants_struct(&enum_of("E", vec![], vec![unit("A"), v])),
        Err(GenError::FieldNameNotString(1, 1))
    );
}

#[test]
fn duplicate_field_names_refused() {
    let v = VariantDescription {
        name: "Other".to_string(),
        attrs: vec![attr("field_name", AttrArg::StrValue("same".to_string()))],
        fields: VariantFields::Unit,
    };
    let vs = vec![unit("Same"), unit("Middle"), v];
    assert_eq!(variants_struct(&enum_of("E", vec![], vs)), Err(GenError::DuplicateField(2)));
}

#[test]
fn directive_error_comes_first() {
    let attrs = vec![attr("struct_name", AttrArg::OtherValue("1".to_string()))];
    let vs = vec![VariantDescription {
        name: "B".to_string(),
        attrs: vec![],
        fields: VariantFields::Unnamed(vec!["a".to_string(), "b".to_string()]),
    }];
    assert_eq!(variants_struct(&enum_of("E", attrs, vs)), Err(GenError::StructNameNotString(0)));
}

#[test]
fn bounds_and_derives_gather_without_repeats() {
    let attrs = vec![
        list("struct_derive", vec![ident("Clone"), Tok::Punct(','), ident("Debug"), Tok::Punct(',')]),
        list("struct_bounds", vec![ident("Copy"), Tok::Punct('+'), ident("Clone")]),
        list("struct_derive", vec![ident("Debug"), Tok::Punct(','), ident("Default")]),
        list("struct_bounds", vec![ident("Clone"), Tok::Punct('+'), ident("Send")]),
        attr("struct_attr", AttrArg::List(vec![], "serde(bound = \"\")".to_string())),
        attr("struct_attr", AttrArg::List(vec![], "repr(C)".to_string())),
    ];
    let d = read_directives(&attrs).unwrap();
    assert_eq!(d.derives, vec!["Clone".to_string(), "Debug".to_string(), "Default".to_string()]);
    assert_eq!(d.bounds, vec!["Copy".to_string(), "Clone".to_string(), "Send".to_string()]);
    assert_eq!(d.attrs, vec!["serde(bound = \"\")".to_string(), "repr(C)".to_string()]);
    assert_eq!(d.name, None);
}

#[test]
fn path_lists() {
    let colons = |v: &mut Vec<Tok>| {
        v.push(Tok::Punct(':'));
        v.push(Tok::Punct(':'));
    };
    let mut toks = vec![];
    colons(&mut toks);
    toks.push(ident("serde"));
    colons(&mut toks);
    toks.push(ident("Serialize"));
    toks.push(Tok::Punct(','));
    toks.push(ident("Debug"));
    assert_eq!(
        parse_path_list(&toks, ','),
        Ok(vec!["::serde::Serialize".to_string(), "Debug".to_string()])
    );
    assert_eq!(parse_path_list(&vec![], ','), Ok(vec![]));
    let doubled = vec![ident("A"), Tok::Punct(','), Tok::Punct(','), ident("B")];
    assert_eq!(parse_path_list(&doubled, ','), Err(1));
    let leading = vec![Tok::Punct(','), ident("A")];
    assert_eq!(parse_path_list(&leading, ','), Err(0));
    let group = vec![ident("Fn"), Tok::Group("(u8)".to_string())];
    assert_eq!(parse_path_list(&group, '+'), Err(0));
    let single_colon = vec![ident("a"), Tok::Punct(':'), ident("b")];
    assert_eq!(parse_path_list(&single_colon, ','), Err(0));
}

#[test]
fn text_comparison() {
    assert!(same_text("struct_name", "struct_name"));
    assert!(!same_text("struct_name", "struct_names"));
    assert!(!same_text("ab", "ac"));
    assert!(same_text("", ""));
}

#[test]
fn layout_from_given_names() {
    let e = enum_of("E", vec![], vec![unit("A"), unit("B")]);
    let l = layout_with_names(&e, vec!["first".to_string(), "second".to_string()]).unwrap();
    assert_eq!(l.fields[0].name, "first");
    assert_eq!(l.fields[1].name, "second");
    assert_eq!(l.fields[1].variant, "B");
    assert_eq!(
        layout_with_names(&e, vec!["same".to_string(), "same".to_string()]),
        Err(GenError::DuplicateField(1))
    );
}

#[test]
fn entry_point_at_crate_root() {
    let e = enum_of("Hello", vec![], vec![unit("World")]);
    assert_eq!(variants_struct::variants_struct(&e).unwrap().name, "HelloStruct");
}
