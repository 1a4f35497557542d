use double_states::declaration::{
    AttributeKind, DeclarationError, RawAttribute, StateEnumDefinition, VariantDeclaration,
};
use double_states::syntax::{
    annotation, annotation_kind, derive_table, read_definition, read_item, read_variant,
};

fn parse(source: &str) -> syn::DeriveInput {
    syn::parse_str::<syn::DeriveInput>(source).unwrap()
}

fn raw(kind: AttributeKind, targets: Option<&[&str]>) -> RawAttribute {
    RawAttribute {
        kind,
        targets: targets.map(|list| list.iter().map(|target| target.to_string()).collect()),
    }
}

fn declared(name: &str, attributes: Vec<RawAttribute>) -> VariantDeclaration {
    VariantDeclaration { name: name.to_string(), attributes }
}

const APP_STATE: &str = "
    #[derive(Clone, Debug, Default, PartialEq, Eq, Hash)]
    pub enum AppState {
        #[default]
        #[linear(Loading)]
        Idle,
        #[linear(Ready)]
        #[arbitrary(Error)]
        Loading,
        /// The application runs.
        #[arbitrary(Idle, Error)]
        Ready,
        Error,
    }
";

#[test]
fn read_definition_keeps_names_order_and_annotations() {
    let expected = StateEnumDefinition {
        name: "AppState".to_string(),
        variants: vec![
            declared("Idle", vec![raw(AttributeKind::Linear, Some(&["Loading"]))]),
            declared(
                "Loading",
                vec![
                    raw(AttributeKind::Linear, Some(&["Ready"])),
                    raw(AttributeKind::Arbitrary, Some(&["Error"])),
                ],
            ),
            declared("Ready", vec![raw(AttributeKind::Arbitrary, Some(&["Idle", "Error"]))]),
            declared("Error", vec![]),
        ],
    };
    assert_eq!(read_definition(&parse(APP_STATE)), Ok(expected));
}

#[test]
fn read_definition_passes_over_other_attributes() {
    let read = read_definition(&parse(
        "enum Lamp { #[doc = \"dark\"] #[cfg(test)] #[serde::skip] #[linearity(On)] Off, On }",
    ))
    .unwrap();
    assert_eq!(read.variants, vec![declared("Off", vec![]), declared("On", vec![])]);
}

#[test]
fn read_definition_reads_empty_and_trailing_comma_lists() {
    let input = parse("enum Lamp { #[linear()] #[arbitrary(On, Off,)] Off, On }");
    let read = read_definition(&input).unwrap();
    assert_eq!(
        read.variants[0].attributes,
        vec![
            raw(AttributeKind::Linear, Some(&[])),
            raw(AttributeKind::Arbitrary, Some(&["On", "Off"])),
        ]
    );
}

#[test]
fn read_definition_keeps_every_identifier_of_a_linear_list() {
    let read = read_definition(&parse("enum Lamp { #[linear(On, Off)] Off, On }")).unwrap();
    assert_eq!(
        read.variants[0].attributes,
        vec![raw(AttributeKind::Linear, Some(&["On", "Off"]))]
    );
}

#[test]
fn read_definition_marks_what_is_no_identifier_list() {
    let sources = [
        "enum Lamp { #[linear] Off, On }",
        "enum Lamp { #[linear = \"On\"] Off, On }",
        "enum Lamp { #[linear(On Off)] Off, On }",
        "enum Lamp { #[linear(\"On\")] Off, On }",
        "enum Lamp { #[linear(Lamp::On)] Off, On }",
        "enum Lamp { #[linear(On = 1)] Off, On }",
    ];
    for source in sources {
        let read = read_definition(&parse(source)).unwrap();
        assert_eq!(read.variants[0].attributes, vec![raw(AttributeKind::Linear, None)]);
    }
    let read = read_definition(&parse("enum Lamp { #[arbitrary(On; Off)] Off, On }")).unwrap();
    assert_eq!(read.variants[0].attributes, vec![raw(AttributeKind::Arbitrary, None)]);
}

#[test]
fn read_definition_refuses_what_is_no_enumeration() {
    assert_eq!(
        read_definition(&parse("struct Lamp { on: bool }")),
        Err(DeclarationError::NotAnEnum)
    );
    assert_eq!(
        read_definition(&parse("union Lamp { on: bool, level: u8 }")),
        Err(DeclarationError::NotAnEnum)
    );
    assert_eq!(derive_table(&parse("struct Lamp;")), Err(DeclarationError::NotAnEnum));
}

#[test]
fn read_definition_ignores_fields_and_discriminants() {
    let read = read_definition(&parse(
        "enum Shape { #[linear(Square)] Circle(f32), Square { side: u8 }, Point = 3 }",
    ))
    .unwrap();
    assert_eq!(
        read.variants,
        vec![
            declared("Circle", vec![raw(AttributeKind::Linear, Some(&["Square"]))]),
            declared("Square", vec![]),
            declared("Point", vec![]),
        ]
    );
}

#[test]
fn derive_table_answers_the_example() {
    let table = derive_table(&parse(APP_STATE)).unwrap();
    let idle = table.resolve("Idle").unwrap();
    let loading = table.resolve("Loading").unwrap();
    let ready = table.resolve("Ready").unwrap();
    let error = table.resolve("Error").unwrap();
    assert_eq!(table.name(), "AppState");
    assert_eq!(table.try_linear_transition(idle), Ok(loading));
    assert_eq!(table.try_arbitrary_transition(loading, error), Ok(error));
    assert!(table.try_arbitrary_transition(ready, loading).is_err());
    assert!(table.try_linear_transition(error).is_err());
}

#[test]
fn derive_table_refuses_two_linear_targets() {
    assert_eq!(
        derive_table(&parse("enum Lamp { #[linear(On, Off)] Off, On }")),
        Err(DeclarationError::TooManyLinearTargets { variant: "Off".to_string() })
    );
    assert_eq!(
        derive_table(&parse("enum Lamp { Off, #[linear(Dim, Bright)] On }")),
        Err(DeclarationError::TooManyLinearTargets { variant: "On".to_string() })
    );
}

#[test]
fn derive_table_refuses_a_target_that_is_no_variant() {
    assert_eq!(
        derive_table(&parse("enum Lamp { #[linear(Dim)] Off, On }")),
        Err(DeclarationError::UnknownTargetState {
            target: "Dim".to_string(),
            enum_name: "Lamp".to_string(),
        })
    );
    assert_eq!(
        derive_table(&parse("enum Lamp { Off, #[arbitrary(Off, Lamp)] On }")),
        Err(DeclarationError::UnknownTargetState {
            target: "Lamp".to_string(),
            enum_name: "Lamp".to_string(),
        })
    );
}

#[test]
fn derive_table_refuses_a_malformed_annotation() {
    assert_eq!(
        derive_table(&parse("enum Lamp { Off, #[arbitrary] On }")),
        Err(DeclarationError::MalformedAttribute {
            variant: "On".to_string(),
            attribute_kind: AttributeKind::Arbitrary,
        })
    );
    assert_eq!(
        derive_table(&parse("enum Lamp { #[linear(On Off)] Off, On }")),
        Err(DeclarationError::MalformedAttribute {
            variant: "Off".to_string(),
            attribute_kind: AttributeKind::Linear,
        })
    );
}

fn variants_of(input: &syn::DeriveInput) -> Option<Vec<&syn::Variant>> {
    match &input.data {
        syn::Data::Enum(data) => Some(data.variants.iter().collect()),
        _ => None,
    }
}

#[test]
fn annotation_kind_prefers_linear() {
    assert_eq!(annotation_kind(true, false), Some(AttributeKind::Linear));
    assert_eq!(annotation_kind(true, true), Some(AttributeKind::Linear));
    assert_eq!(annotation_kind(false, true), Some(AttributeKind::Arbitrary));
    assert_eq!(annotation_kind(false, false), None);
}

#[test]
fn annotation_keeps_what_was_read() {
    let found = vec!["On".to_string(), "Off".to_string()];
    assert_eq!(
        annotation(AttributeKind::Arbitrary, Ok(found)),
        raw(AttributeKind::Arbitrary, Some(&["On", "Off"]))
    );
    assert_eq!(
        annotation(AttributeKind::Linear, Ok(vec![])),
        raw(AttributeKind::Linear, Some(&[]))
    );
    let failure = match syn::parse_str::<syn::DeriveInput>("enum") {
        Ok(_) => panic!("a lone keyword is no item"),
        Err(failure) => failure,
    };
    assert_eq!(annotation(AttributeKind::Linear, Err(failure)), raw(AttributeKind::Linear, None));
}

#[test]
fn read_variant_takes_the_given_name_and_the_annotations() {
    let input = parse("enum Lamp { #[default] #[arbitrary(On)] #[linear] Off, On }");
    let found = variants_of(&input).unwrap();
    assert_eq!(
        read_variant("Dark".to_string(), &found[0].attrs),
        declared(
            "Dark",
            vec![raw(AttributeKind::Arbitrary, Some(&["On"])), raw(AttributeKind::Linear, None)]
        )
    );
    assert_eq!(read_variant("On".to_string(), &found[1].attrs), declared("On", vec![]));
}

#[test]
fn read_item_wants_a_list_of_variants() {
    let input = parse("enum Lamp { #[linear(On)] Off, On }");
    let read = read_item("Light".to_string(), variants_of(&input)).unwrap();
    assert_eq!(read.name, "Light");
    assert_eq!(
        read.variants,
        vec![
            declared("Off", vec![raw(AttributeKind::Linear, Some(&["On"]))]),
            declared("On", vec![]),
        ]
    );
    assert_eq!(read_item("Light".to_string(), None), Err(DeclarationError::NotAnEnum));
    let empty = read_item("Void".to_string(), Some(Vec::new())).unwrap();
    assert_eq!(empty.variants, vec![]);
}

#[test]
fn names_read_from_an_enumeration_are_valid() {
    let input = parse("enum Mode { #[linear(r#loop)] Idle, r#loop, \u{e9}t\u{e9} }");
    let read = read_definition(&input).unwrap();
    let names: Vec<&str> = read.variants.iter().map(|variant| variant.name.as_str()).collect();
    assert_eq!(names, vec!["Idle", "r#loop", "\u{e9}t\u{e9}"]);
    assert!(read.has_valid_names());
    for name in names {
        assert!(!name.is_empty());
        assert!(!name.contains(','));
    }
    assert_eq!(read.variants[0].attributes, vec![raw(AttributeKind::Linear, Some(&["r#loop"]))]);
}
