//! Reading a declaration: every annotation is checked against the variants of the
//! enumeration, and the accepted declaration is folded into its transition table.

use crate::declaration::{
    arbitrary_targets, attribute_error, attributes_error, definition_error, first_unknown,
    lemma_first_unknown, linear_target, variants_error, AttributeKind, DeclarationError,
    DefinitionView, RawAttribute, RawAttributeView, StateEnumDefinition, VariantDeclaration,
    VariantView,
};
use crate::table::{fields_view, StateField, StateFieldView, TableView, TransitionTable};
use crate::text::{contains_name, joined, lemma_joined_push, texts};
use vstd::prelude::*;

verus! {

broadcast use vstd::string::group_string_axioms;

/// What the table holds for a variant: its name, its linear target, and its arbitrary
/// targets, each followed by a comma.
pub open spec fn field_of(variant: VariantView) -> StateFieldView {
    StateFieldView {
        name: variant.name,
        linear: linear_target(variant.attributes),
        arbitrary: joined(arbitrary_targets(variant.attributes)),
    }
}

/// The transition table of a declaration: one field for each variant, in declaration
/// order.
pub open spec fn table_of(definition: DefinitionView) -> TableView {
    TableView {
        enum_name: definition.name,
        fields: Seq::new(
            definition.variants.len(),
            |i: int| field_of(definition.variants[i]),
        ),
    }
}

/// The names of the variants, in declaration order.
fn variant_names(definition: &StateEnumDefinition) -> (names: Vec<String>)
    ensures
        texts(names@) == definition@.names(),
{
    let mut names: Vec<String> = Vec::new();
    let mut i: usize = 0;
    while i < definition.variants.len()
        invariant
            i <= definition.variants.len(),
            names@.len() == i,
            forall|j: int| 0 <= j < i ==> names@[j]@ == definition.variants@[j].name@,
        decreases definition.variants.len() - i,
    {
        names.push(definition.variants[i].name.clone());
        i += 1;
    }
    assert(texts(names@) =~= definition@.names());
    names
}

/// The first of `targets` that is none of `names`.
fn find_unknown(targets: &Vec<String>, names: &Vec<String>) -> (unknown: Option<String>)
    ensures
        match unknown {
            Some(target) => first_unknown(texts(targets@), texts(names@)) == Some(target@),
            None => first_unknown(texts(targets@), texts(names@)) is None,
        },
{
    let mut k: usize = 0;
    assert(texts(targets@).skip(0) =~= texts(targets@));
    while k < targets.len()
        invariant
            k <= targets.len(),
            first_unknown(texts(targets@), texts(names@)) == first_unknown(
                texts(targets@).skip(k as int),
                texts(names@),
            ),
        decreases targets.len() - k,
    {
        proof {
            let rest = texts(targets@).skip(k as int);
            assert(rest[0] == targets@[k as int]@);
            assert(rest.drop_first() =~= texts(targets@).skip(k + 1));
        }
        if !contains_name(names, &targets[k]) {
            return Some(targets[k].clone());
        }
        k += 1;
    }
    None
}

/// What is wrong with one annotation, if anything.
fn check_attribute(
    attribute: &RawAttribute,
    variant: &String,
    enum_name: &String,
    names: &Vec<String>,
) -> (error: Option<DeclarationError>)
    ensures
        match error {
            Some(e) => attribute_error(attribute@, variant@, enum_name@, texts(names@)) == Some(
                e@,
            ),
            None => attribute_error(attribute@, variant@, enum_name@, texts(names@)) is None,
        },
{
    match &attribute.targets {
        None => Some(
            DeclarationError::MalformedAttribute {
                variant: variant.clone(),
                attribute_kind: attribute.kind,
            },
        ),
        Some(targets) => {
            if attribute.kind == AttributeKind::Linear && targets.len() > 1 {
                Some(DeclarationError::TooManyLinearTargets { variant: variant.clone() })
            } else {
                match find_unknown(targets, names) {
                    Some(target) => Some(
                        DeclarationError::UnknownTargetState {
                            target,
                            enum_name: enum_name.clone(),
                        },
                    ),
                    None => None,
                }
            }
        },
    }
}

/// Appends every one of `targets`, followed by a comma, to `arbitrary`.
fn push_targets(
    arbitrary: &mut String,
    targets: &Vec<String>,
    Ghost(before): Ghost<Seq<Seq<char>>>,
)
    requires
        old(arbitrary)@ == joined(before),
    ensures
        final(arbitrary)@ == joined(before + texts(targets@)),
{
    let mut k: usize = 0;
    assert(before + texts(targets@).take(0) =~= before);
    while k < targets.len()
        invariant
            k <= targets.len(),
            arbitrary@ == joined(before + texts(targets@).take(k as int)),
        decreases targets.len() - k,
    {
        proof {
            let done = before + texts(targets@).take(k as int);
            lemma_joined_push(done, targets@[k as int]@);
            assert(done.push(targets@[k as int]@) =~= before + texts(targets@).take(k + 1));
            reveal_strlit(",");
            assert(","@ =~= seq![',']);
        }
        arbitrary.append(targets[k].as_str());
        arbitrary.append(",");
        k += 1;
    }
    assert(texts(targets@).take(targets@.len() as int) =~= texts(targets@));
}

/// Checks the annotations of one variant in the order written and folds them into the
/// variant's field.
fn read_variant(
    variant: &VariantDeclaration,
    enum_name: &String,
    names: &Vec<String>,
) -> (result: Result<StateField, DeclarationError>)
    ensures
        match result {
            Ok(field) => {
                &&& attributes_error(
                    variant@.attributes,
                    variant@.name,
                    enum_name@,
                    texts(names@),
                ) is None
                &&& field@ == field_of(variant@)
                &&& field@.linear is Some ==> texts(names@).contains(field@.linear->0)
            },
            Err(error) => attributes_error(
                variant@.attributes,
                variant@.name,
                enum_name@,
                texts(names@),
            ) == Some(error@),
        },
{
    let ghost attributes = variant@.attributes;
    let mut linear: Option<String> = None;
    let mut arbitrary = String::new();
    let mut j: usize = 0;
    proof {
        assert(attributes.skip(0) =~= attributes);
        assert(attributes.take(0) =~= Seq::<RawAttributeView>::empty());
    }
    while j < variant.attributes.len()
        invariant
            j <= variant.attributes.len(),
            attributes == variant@.attributes,
            attributes_error(attributes, variant@.name, enum_name@, texts(names@))
                == attributes_error(
                attributes.skip(j as int),
                variant@.name,
                enum_name@,
                texts(names@),
            ),
            match linear {
                Some(target) => linear_target(attributes.take(j as int)) == Some(target@)
                    && texts(names@).contains(target@),
                None => linear_target(attributes.take(j as int)) is None,
            },
            arbitrary@ == joined(arbitrary_targets(attributes.take(j as int))),
        decreases variant.attributes.len() - j,
    {
        let attribute = &variant.attributes[j];
        proof {
            let rest = attributes.skip(j as int);
            assert(rest[0] == attribute@);
            assert(rest.drop_first() =~= attributes.skip(j + 1));
            let front = attributes.take(j + 1);
            assert(front.last() == attribute@);
            assert(front.drop_last() =~= attributes.take(j as int));
        }
        match check_attribute(attribute, &variant.name, enum_name, names) {
            Some(error) => {
                return Err(error);
            },
            None => {},
        }
        match &attribute.targets {
            Some(targets) => {
                proof {
                    lemma_first_unknown(texts(targets@), texts(names@));
                }
                match attribute.kind {
                    AttributeKind::Linear => {
                        if targets.len() > 0 {
                            assert(texts(targets@)[0] == targets@[0]@);
                            linear = Some(targets[0].clone());
                        }
                    },
                    AttributeKind::Arbitrary => {
                        let ghost before = arbitrary_targets(attributes.take(j as int));
                        push_targets(&mut arbitrary, targets, Ghost(before));
                    },
                }
            },
            None => {},
        }
        j += 1;
    }
    proof {
        assert(attributes.take(j as int) =~= attributes);
    }
    Ok(StateField { name: variant.name.clone(), linear, arbitrary })
}

/// Reads a declaration. Every annotation is checked, variant by variant in the order
/// written: it must be a parenthesised list of identifiers, a `linear` may name one
/// target at most, and every target must be the name of a variant. The first
/// annotation that fails decides the error. A declaration without a fault gives its
/// transition table.
pub fn build_table(definition: &StateEnumDefinition) -> (result: Result<
    TransitionTable,
    DeclarationError,
>)
    ensures
        match result {
            Ok(table) => {
                &&& definition_error(definition@) is None
                &&& table@ == table_of(definition@)
                &&& table@.wf()
            },
            Err(error) => definition_error(definition@) == Some(error@),
        },
{
    let names = variant_names(definition);
    let ghost variants = definition@.variants;
    let mut fields: Vec<StateField> = Vec::new();
    let mut i: usize = 0;
    assert(variants.skip(0) =~= variants);
    while i < definition.variants.len()
        invariant
            i <= definition.variants.len(),
            variants == definition@.variants,
            texts(names@) == definition@.names(),
            variants_error(variants, definition@.name, definition@.names()) == variants_error(
                variants.skip(i as int),
                definition@.name,
                definition@.names(),
            ),
            fields@.len() == i,
            forall|k: int|
                0 <= k < i ==> {
                    &&& (#[trigger] fields@[k])@ == field_of(variants[k])
                    &&& fields@[k]@.linear is Some ==> definition@.names().contains(
                        fields@[k]@.linear->0,
                    )
                },
        decreases definition.variants.len() - i,
    {
        proof {
            let rest = variants.skip(i as int);
            assert(rest[0] == definition.variants@[i as int]@);
            assert(rest.drop_first() =~= variants.skip(i + 1));
        }
        match read_variant(&definition.variants[i], &definition.name, &names) {
            Ok(field) => {
                fields.push(field);
            },
            Err(error) => {
                return Err(error);
            },
        }
        i += 1;
    }
    let ghost view = fields_view(definition.name@, fields@);
    proof {
        assert(view.fields =~= table_of(definition@).fields);
        assert(view.names() =~= definition@.names());
        assert(view.wf());
    }
    Ok(TransitionTable::from_fields(definition.name.clone(), fields))
}

} // verus!
