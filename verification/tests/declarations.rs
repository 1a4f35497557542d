use double_states::declaration::{
    AttributeKind, DeclarationError, RawAttribute, StateEnumDefinition, VariantDeclaration,
};
use double_states::reader::build_table;
use double_states::table::StateField;

fn linear(targets: &[&str]) -> RawAttribute {
    RawAttribute {
        kind: AttributeKind::Linear,
        targets: Some(targets.iter().map(|target| target.to_string()).collect()),
    }
}

fn arbitrary(targets: &[&str]) -> RawAttribute {
    RawAttribute {
        kind: AttributeKind::Arbitrary,
        targets: Some(targets.iter().map(|target| target.to_string()).collect()),
    }
}

fn unreadable(kind: AttributeKind) -> RawAttribute {
    RawAttribute { kind, targets: None }
}

fn variant(name: &str, attributes: Vec<RawAttribute>) -> VariantDeclaration {
    VariantDeclaration { name: name.to_string(), attributes }
}

fn definition(name: &str, variants: Vec<VariantDeclaration>) -> StateEnumDefinition {
    StateEnumDefinition { name: name.to_string(), variants }
}

fn field(name: &str, linear: Option<&str>, arbitrary: &str) -> StateField {
    StateField {
        name: name.to_string(),
        linear: linear.map(|target| target.to_string()),
        arbitrary: arbitrary.to_string(),
    }
}

fn app_state() -> StateEnumDefinition {
    definition(
        "AppState",
        vec![
            variant("Idle", vec![linear(&["Loading"])]),
            variant("Loading", vec![linear(&["Ready"]), arbitrary(&["Error"])]),
            variant("Ready", vec![arbitrary(&["Idle", "Error"])]),
            variant("Error", vec![]),
        ],
    )
}

#[test]
fn accepted_declaration_is_folded_in_declaration_order() {
    let table = build_table(&app_state()).unwrap();
    assert_eq!(table.name(), "AppState");
    assert_eq!(table.state_count(), 4);
    assert_eq!(*table.field(0), field("Idle", Some("Loading"), ""));
    assert_eq!(*table.field(1), field("Loading", Some("Ready"), "Error,"));
    assert_eq!(*table.field(2), field("Ready", None, "Idle,Error,"));
    assert_eq!(*table.field(3), field("Error", None, ""));
}

#[test]
fn variant_without_annotations_has_no_targets() {
    let table = build_table(&definition("Lamp", vec![variant("Off", vec![])])).unwrap();
    assert_eq!(*table.field(0), field("Off", None, ""));
}

#[test]
fn enumeration_without_variants_gives_an_empty_table() {
    let table = build_table(&definition("Nothing", vec![])).unwrap();
    assert_eq!(table.state_count(), 0);
    assert_eq!(table.name(), "Nothing");
}

#[test]
fn empty_linear_list_declares_no_target() {
    let table = build_table(&definition("Lamp", vec![variant("Off", vec![linear(&[])])])).unwrap();
    assert_eq!(table.field(0).linear, None);
}

#[test]
fn last_linear_annotation_with_a_target_wins() {
    let lamp = definition(
        "Lamp",
        vec![
            variant("Off", vec![linear(&["On"]), linear(&["Off"]), linear(&[])]),
            variant("On", vec![]),
        ],
    );
    let table = build_table(&lamp).unwrap();
    assert_eq!(table.field(0).linear, Some("Off".to_string()));
}

#[test]
fn arbitrary_targets_keep_order_and_repetitions() {
    let lamp = definition(
        "Lamp",
        vec![
            variant("Off", vec![arbitrary(&["On", "Off"]), linear(&["On"]), arbitrary(&["On"])]),
            variant("On", vec![]),
        ],
    );
    let table = build_table(&lamp).unwrap();
    assert_eq!(*table.field(0), field("Off", Some("On"), "On,Off,On,"));
}

#[test]
fn self_loops_are_accepted() {
    let lamp = definition("Lamp", vec![variant("On", vec![linear(&["On"]), arbitrary(&["On"])])]);
    let table = build_table(&lamp).unwrap();
    assert_eq!(*table.field(0), field("On", Some("On"), "On,"));
}

#[test]
fn two_linear_targets_are_refused_when_both_are_variants() {
    let lamp = definition(
        "Lamp",
        vec![variant("Off", vec![linear(&["On", "Off"])]), variant("On", vec![])],
    );
    assert_eq!(
        build_table(&lamp),
        Err(DeclarationError::TooManyLinearTargets { variant: "Off".to_string() })
    );
}

#[test]
fn two_linear_targets_are_refused_when_none_is_a_variant() {
    let lamp = definition(
        "Lamp",
        vec![variant("Off", vec![]), variant("On", vec![linear(&["Dim", "Bright"])])],
    );
    assert_eq!(
        build_table(&lamp),
        Err(DeclarationError::TooManyLinearTargets { variant: "On".to_string() })
    );
}

#[test]
fn unknown_linear_target_is_refused() {
    let lamp = definition(
        "Lamp",
        vec![variant("Off", vec![linear(&["Dim"])]), variant("On", vec![])],
    );
    assert_eq!(
        build_table(&lamp),
        Err(DeclarationError::UnknownTargetState {
            target: "Dim".to_string(),
            enum_name: "Lamp".to_string(),
        })
    );
}

#[test]
fn first_unknown_arbitrary_target_is_named() {
    let lamp = definition(
        "Lamp",
        vec![variant("Off", vec![arbitrary(&["On", "Dim", "Bright"])]), variant("On", vec![])],
    );
    assert_eq!(
        build_table(&lamp),
        Err(DeclarationError::UnknownTargetState {
            target: "Dim".to_string(),
            enum_name: "Lamp".to_string(),
        })
    );
}

#[test]
fn target_names_are_compared_exactly() {
    let lamp = definition(
        "Lamp",
        vec![variant("Off", vec![arbitrary(&["on"])]), variant("On", vec![])],
    );
    assert_eq!(
        build_table(&lamp),
        Err(DeclarationError::UnknownTargetState {
            target: "on".to_string(),
            enum_name: "Lamp".to_string(),
        })
    );
}

#[test]
fn unreadable_linear_annotation_is_refused() {
    let lamp = definition("Lamp", vec![variant("Off", vec![unreadable(AttributeKind::Linear)])]);
    assert_eq!(
        build_table(&lamp),
        Err(DeclarationError::MalformedAttribute {
            variant: "Off".to_string(),
            attribute_kind: AttributeKind::Linear,
        })
    );
}

#[test]
fn unreadable_arbitrary_annotation_is_refused() {
    let lamp = definition(
        "Lamp",
        vec![variant("Off", vec![]), variant("On", vec![unreadable(AttributeKind::Arbitrary)])],
    );
    assert_eq!(
        build_table(&lamp),
        Err(DeclarationError::MalformedAttribute {
            variant: "On".to_string(),
            attribute_kind: AttributeKind::Arbitrary,
        })
    );
}

#[test]
fn first_faulty_annotation_decides_the_error() {
    let lamp = definition(
        "Lamp",
        vec![
            variant("Off", vec![arbitrary(&["On"]), linear(&["Dim"]), linear(&["On", "Off"])]),
            variant("On", vec![unreadable(AttributeKind::Linear)]),
        ],
    );
    assert_eq!(
        build_table(&lamp),
        Err(DeclarationError::UnknownTargetState {
            target: "Dim".to_string(),
            enum_name: "Lamp".to_string(),
        })
    );
}

#[test]
fn earlier_variant_is_checked_before_a_later_one() {
    let lamp = definition(
        "Lamp",
        vec![
            variant("Off", vec![linear(&["On", "On"])]),
            variant("On", vec![arbitrary(&["Dim"])]),
        ],
    );
    assert_eq!(
        build_table(&lamp),
        Err(DeclarationError::TooManyLinearTargets { variant: "Off".to_string() })
    );
}

#[test]
fn declaration_messages_name_the_fault() {
    assert_eq!(
        DeclarationError::TooManyLinearTargets { variant: "Off".to_string() }.message(),
        "Only 1 Linear Transition allowed. Error Occured On \"Off\""
    );
    assert_eq!(
        DeclarationError::UnknownTargetState {
            target: "Dim".to_string(),
            enum_name: "Lamp".to_string(),
        }
        .message(),
        "\"Dim\" doesn't exist as a state in \"Lamp\""
    );
    assert_eq!(
        DeclarationError::MalformedAttribute {
            variant: "Off".to_string(),
            attribute_kind: AttributeKind::Linear,
        }
        .message(),
        "Problem parsing linear list for \"Off\""
    );
    assert_eq!(
        DeclarationError::MalformedAttribute {
            variant: "On".to_string(),
            attribute_kind: AttributeKind::Arbitrary,
        }
        .message(),
        "Problem parsing arbitrary list for \"On\""
    );
    assert_eq!(
        DeclarationError::NotAnEnum.message(),
        "DoubleStates can only be derived for enums with variants"
    );
}

#[test]
fn keywords_are_the_annotation_words() {
    assert_eq!(AttributeKind::Linear.keyword(), "linear");
    assert_eq!(AttributeKind::Arbitrary.keyword(), "arbitrary");
}
