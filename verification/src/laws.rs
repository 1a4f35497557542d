//! What holds of every declaration and of every table, proved once for all of them.

use crate::declaration::{
    arbitrary_targets, attribute_error, attributes_error, definition_error, lemma_first_unknown,
    linear_target, variants_error, AttributeKind, DefinitionView, RawAttributeView, VariantView,
};
use crate::reader::table_of;
use crate::search::{lemma_position, lemma_position_is};
use crate::table::TableView;
use crate::text::{lemma_parse_joined, plain_name};
use vstd::prelude::*;

verus! {

/// An annotation without a fault: it can be read, a `linear` names one target at
/// most, and every target is the name of a variant.
pub open spec fn faultless(attribute: RawAttributeView, names: Seq<Seq<char>>) -> bool {
    &&& attribute.targets is Some
    &&& attribute.kind == AttributeKind::Linear ==> attribute.targets->0.len() <= 1
    &&& forall|k: int|
        0 <= k < attribute.targets->0.len() ==> names.contains(#[trigger] attribute.targets->0[k])
}

/// `(i, j)` is the place of an annotation in the declaration: annotation `j` of
/// variant `i`.
pub open spec fn is_annotation(definition: DefinitionView, i: int, j: int) -> bool {
    0 <= i < definition.variants.len() && 0 <= j < definition.variants[i].attributes.len()
}

proof fn lemma_attribute_error(
    attribute: RawAttributeView,
    variant: Seq<char>,
    enum_name: Seq<char>,
    names: Seq<Seq<char>>,
)
    ensures
        attribute_error(attribute, variant, enum_name, names) is None <==> faultless(
            attribute,
            names,
        ),
{
    if attribute.targets is Some {
        lemma_first_unknown(attribute.targets->0, names);
    }
}

proof fn lemma_attributes_error(
    attributes: Seq<RawAttributeView>,
    variant: Seq<char>,
    enum_name: Seq<char>,
    names: Seq<Seq<char>>,
)
    ensures
        attributes_error(attributes, variant, enum_name, names) is None <==> forall|j: int|
            0 <= j < attributes.len() ==> faultless(#[trigger] attributes[j], names),
    decreases attributes.len(),
{
    if attributes.len() > 0 {
        let rest = attributes.drop_first();
        lemma_attribute_error(attributes[0], variant, enum_name, names);
        lemma_attributes_error(rest, variant, enum_name, names);
        if attributes_error(attributes, variant, enum_name, names) is None {
            assert forall|j: int| 0 <= j < attributes.len() implies faultless(
                #[trigger] attributes[j],
                names,
            ) by {
                if j > 0 {
                    assert(attributes[j] == rest[j - 1]);
                }
            }
        }
        if forall|j: int| 0 <= j < attributes.len() ==> faultless(#[trigger] attributes[j], names) {
            assert(faultless(attributes[0], names));
            assert forall|j: int| 0 <= j < rest.len() implies faultless(
                #[trigger] rest[j],
                names,
            ) by {
                assert(rest[j] == attributes[j + 1]);
            }
        }
    }
}

proof fn lemma_variants_error(
    variants: Seq<VariantView>,
    enum_name: Seq<char>,
    names: Seq<Seq<char>>,
)
    ensures
        variants_error(variants, enum_name, names) is None <==> forall|i: int, j: int|
            0 <= i < variants.len() && 0 <= j < variants[i].attributes.len() ==> faultless(
                #[trigger] variants[i].attributes[j],
                names,
            ),
    decreases variants.len(),
{
    if variants.len() > 0 {
        let rest = variants.drop_first();
        lemma_attributes_error(variants[0].attributes, variants[0].name, enum_name, names);
        lemma_variants_error(rest, enum_name, names);
        if variants_error(variants, enum_name, names) is None {
            assert forall|i: int, j: int|
                0 <= i < variants.len() && 0 <= j < variants[i].attributes.len() implies faultless(
                #[trigger] variants[i].attributes[j],
                names,
            ) by {
                if i > 0 {
                    assert(variants[i] == rest[i - 1]);
                    assert(faultless(rest[i - 1].attributes[j], names));
                } else {
                    assert(faultless(variants[0].attributes[j], names));
                }
            }
        }
        if forall|i: int, j: int|
            0 <= i < variants.len() && 0 <= j < variants[i].attributes.len() ==> faultless(
                #[trigger] variants[i].attributes[j],
                names,
            ) {
            assert forall|j: int| 0 <= j < variants[0].attributes.len() implies faultless(
                #[trigger] variants[0].attributes[j],
                names,
            ) by {}
            assert forall|i: int, j: int|
                0 <= i < rest.len() && 0 <= j < rest[i].attributes.len() implies faultless(
                #[trigger] rest[i].attributes[j],
                names,
            ) by {
                assert(rest[i] == variants[i + 1]);
                assert(faultless(variants[i + 1].attributes[j], names));
            }
        }
    }
}

/// A declaration is accepted exactly when every one of its annotations is faultless.
pub proof fn law_accepted_iff_faultless(definition: DefinitionView)
    ensures
        definition_error(definition) is None <==> forall|i: int, j: int|
            is_annotation(definition, i, j) ==> faultless(
                #[trigger] definition.variants[i].attributes[j],
                definition.names(),
            ),
{
    lemma_variants_error(definition.variants, definition.name, definition.names());
}

/// A `linear(..)` that names two or more targets has the declaration refused,
/// whatever the targets are.
pub proof fn law_two_linear_targets_are_refused(definition: DefinitionView, i: int, j: int)
    requires
        is_annotation(definition, i, j),
        definition.variants[i].attributes[j].kind == AttributeKind::Linear,
        definition.variants[i].attributes[j].targets is Some,
        definition.variants[i].attributes[j].targets->0.len() >= 2,
    ensures
        definition_error(definition) is Some,
{
    law_accepted_iff_faultless(definition);
    assert(!faultless(definition.variants[i].attributes[j], definition.names()));
}

/// An annotation, `linear` or `arbitrary`, that names a target which is no variant
/// of the enumeration has the declaration refused.
pub proof fn law_unknown_target_is_refused(definition: DefinitionView, i: int, j: int, k: int)
    requires
        is_annotation(definition, i, j),
        definition.variants[i].attributes[j].targets is Some,
        0 <= k < definition.variants[i].attributes[j].targets->0.len(),
        !definition.names().contains(definition.variants[i].attributes[j].targets->0[k]),
    ensures
        definition_error(definition) is Some,
{
    law_accepted_iff_faultless(definition);
    assert(!faultless(definition.variants[i].attributes[j], definition.names()));
}

/// An annotation that cannot be read has the declaration refused.
pub proof fn law_malformed_attribute_is_refused(definition: DefinitionView, i: int, j: int)
    requires
        is_annotation(definition, i, j),
        definition.variants[i].attributes[j].targets is None,
    ensures
        definition_error(definition) is Some,
{
    law_accepted_iff_faultless(definition);
    assert(!faultless(definition.variants[i].attributes[j], definition.names()));
}

proof fn lemma_declared_targets_are_names(
    attributes: Seq<RawAttributeView>,
    names: Seq<Seq<char>>,
)
    requires
        forall|j: int| 0 <= j < attributes.len() ==> faultless(#[trigger] attributes[j], names),
    ensures
        linear_target(attributes) matches Some(target) ==> names.contains(target),
        forall|k: int|
            0 <= k < arbitrary_targets(attributes).len() ==> names.contains(
                #[trigger] arbitrary_targets(attributes)[k],
            ),
    decreases attributes.len(),
{
    if attributes.len() > 0 {
        let front = attributes.drop_last();
        let last = attributes.last();
        assert forall|j: int| 0 <= j < front.len() implies faultless(
            #[trigger] front[j],
            names,
        ) by {
            assert(front[j] == attributes[j]);
        }
        lemma_declared_targets_are_names(front, names);
        assert(faultless(last, names));
        let all = arbitrary_targets(attributes);
        let before = arbitrary_targets(front);
        assert forall|k: int| 0 <= k < all.len() implies names.contains(#[trigger] all[k]) by {
            if k < before.len() {
                assert(all[k] == before[k]);
            } else {
                assert(all[k] == last.targets->0[k - before.len()]);
            }
        }
    }
}

/// In an accepted declaration every declared target is the name of a variant: the
/// linear target of a variant, and every one of its arbitrary targets.
pub proof fn law_declared_targets_are_variants(definition: DefinitionView, state: int)
    requires
        definition_error(definition) is None,
        0 <= state < definition.variants.len(),
    ensures
        linear_target(definition.variants[state].attributes) matches Some(target)
            ==> definition.names().contains(target),
        forall|k: int|
            0 <= k < arbitrary_targets(definition.variants[state].attributes).len()
                ==> definition.names().contains(
                #[trigger] arbitrary_targets(definition.variants[state].attributes)[k],
            ),
{
    let attributes = definition.variants[state].attributes;
    law_accepted_iff_faultless(definition);
    assert forall|j: int| 0 <= j < attributes.len() implies faultless(
        #[trigger] attributes[j],
        definition.names(),
    ) by {
        assert(is_annotation(definition, state, j));
    }
    lemma_declared_targets_are_names(attributes, definition.names());
}

/// In the table of an accepted declaration, every declared linear target is the name
/// of a state.
pub proof fn law_table_is_well_formed(definition: DefinitionView)
    requires
        definition_error(definition) is None,
    ensures
        table_of(definition).wf(),
{
    let table = table_of(definition);
    assert(table.names() =~= definition.names());
    assert forall|i: int|
        0 <= i < table.fields.len() && (#[trigger] table.fields[i]).linear is Some
        implies table.names().contains(table.fields[i].linear->0) by {
        law_declared_targets_are_variants(definition, i);
    }
}

/// The linear transition of an accepted declaration: a variant that declares the
/// linear target `T` has a successor, the successor is a variant, and its name is `T`.
/// A variant that declares none has no successor.
pub proof fn law_linear_transition_follows_declaration(definition: DefinitionView, state: int)
    requires
        definition_error(definition) is None,
        0 <= state < definition.variants.len(),
    ensures
        table_of(definition).has_linear(state) <==> linear_target(
            definition.variants[state].attributes,
        ) is Some,
        linear_target(definition.variants[state].attributes) matches Some(target) ==> {
            let next = table_of(definition).linear_successor(state);
            &&& 0 <= next < definition.variants.len()
            &&& definition.variants[next].name == target
        },
{
    let table = table_of(definition);
    law_table_is_well_formed(definition);
    if table.fields[state].linear is Some {
        lemma_position(table.names(), table.fields[state].linear->0);
    }
}

/// The arbitrary transitions of an accepted declaration whose variant names are
/// plain: a variant may jump to exactly the variants that its `arbitrary(..)`
/// annotations name.
pub proof fn law_arbitrary_transition_follows_declaration(
    definition: DefinitionView,
    state: int,
    target: int,
)
    requires
        definition_error(definition) is None,
        definition.plain_names(),
        0 <= state < definition.variants.len(),
        0 <= target < definition.variants.len(),
    ensures
        table_of(definition).allows(state, target) <==> arbitrary_targets(
            definition.variants[state].attributes,
        ).contains(definition.variants[target].name),
{
    let table = table_of(definition);
    let attributes = definition.variants[state].attributes;
    let declared = arbitrary_targets(attributes);
    let name = definition.variants[target].name;
    let names = definition.names();
    law_declared_targets_are_variants(definition, state);
    assert forall|k: int| 0 <= k < declared.len() implies !(#[trigger] declared[k]).contains(',')
        && crate::text::trimmed(declared[k]) == declared[k] by {
        assert(names.contains(declared[k]));
        let i = choose|i: int| 0 <= i < names.len() && names[i] == declared[k];
        assert(plain_name(definition.variants[i].name));
    }
    lemma_parse_joined(declared);
    let parsed = table.arbitrary_names(state);
    assert(parsed == declared.push(Seq::<char>::empty()));
    assert(plain_name(definition.variants[target].name));
    if parsed.contains(name) {
        let k = choose|k: int| 0 <= k < parsed.len() && parsed[k] == name;
        assert(k < declared.len());
        assert(declared[k] == name);
    }
    if declared.contains(name) {
        let k = choose|k: int| 0 <= k < declared.len() && declared[k] == name;
        assert(parsed[k] == name);
    }
}

/// States of different names render differently, and a name resolves back to the
/// state that renders as it: this holds of a table in which no two states share a
/// name.
pub proof fn law_render_is_distinct(table: TableView, a: int, b: int)
    requires
        table.distinct_names(),
        table.is_state(a),
        table.is_state(b),
    ensures
        a != b ==> table.fields[a].name != table.fields[b].name,
        table.resolve(table.fields[a].name) == Some(a),
{
    assert forall|j: int| 0 <= j < a implies table.names()[j] != table.fields[a].name by {}
    lemma_position_is(table.names(), table.fields[a].name, a);
}

/// The table of a declaration has the names of the declaration, so it has distinct
/// names where the declaration has.
pub proof fn law_table_keeps_names(definition: DefinitionView)
    ensures
        table_of(definition).names() == definition.names(),
        definition.distinct_names() ==> table_of(definition).distinct_names(),
{
    assert(table_of(definition).names() =~= definition.names());
}

} // verus!
