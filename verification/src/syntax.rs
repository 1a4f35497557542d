//! Declarations out of a parsed `derive` input.
//!
//! The syntax tree is that of `syn`. Verus sees nothing inside its values: what is
//! read from one comes through the trusted functions of this file. Each of them
//! reads the same thing from the same value every time, so what it returns has a
//! name, and nothing else is claimed of it. The contracts of the functions that read
//! a declaration say over those names which declaration comes out.

use crate::declaration::{
    definition_error, AttributeKind, DeclarationError, DeclarationErrorView, DefinitionView,
    RawAttribute, RawAttributeView, StateEnumDefinition, VariantDeclaration, VariantView,
};
use crate::reader::{build_table, table_of};
use crate::table::TransitionTable;
use crate::text::texts;
use vstd::prelude::*;

verus! {

/// `syn::DeriveInput`: the item that a `derive` is applied to.
#[verifier::external_type_specification]
#[verifier::external_body]
pub struct ExDeriveInput(syn::DeriveInput);

/// `syn::Variant`: one variant of an enumeration.
#[verifier::external_type_specification]
#[verifier::external_body]
pub struct ExVariant(syn::Variant);

/// `syn::Attribute`: one attribute as written.
#[verifier::external_type_specification]
#[verifier::external_body]
pub struct ExAttribute(syn::Attribute);

/// `syn::Error`: why `syn` could not parse something.
#[verifier::external_type_specification]
#[verifier::external_body]
pub struct ExSynError(syn::Error);

/// The text of the item's identifier, `DeriveInput::ident`.
pub uninterp spec fn item_ident(input: syn::DeriveInput) -> Seq<char>;

/// The variants that `DeriveInput::data` holds where it is `Data::Enum`, in the order
/// written; `None` for a struct or a union.
pub uninterp spec fn item_variants(input: syn::DeriveInput) -> Option<Seq<syn::Variant>>;

/// The text of the variant's identifier, `Variant::ident`.
pub uninterp spec fn variant_ident(variant: syn::Variant) -> Seq<char>;

/// The attributes of the variant, `Variant::attrs`, in the order written.
pub uninterp spec fn variant_attrs(variant: syn::Variant) -> Seq<syn::Attribute>;

/// What `Path::is_ident` answers for the attribute's path and `word`: whether the
/// path is that one identifier.
pub uninterp spec fn path_is_ident(attribute: syn::Attribute, word: Seq<char>) -> bool;

/// The identifiers that `Attribute::parse_nested_meta` reads between the attribute's
/// parentheses, each through `Path::require_ident`; `None` where `syn` gives an error.
pub uninterp spec fn nested_idents(attribute: syn::Attribute) -> Option<Seq<Seq<char>>>;

/// The item's identifier, `DeriveInput::ident`, as text. The contract only names it.
#[verifier::external_body]
fn item_name(input: &syn::DeriveInput) -> (name: String)
    ensures
        name@ == item_ident(*input),
{
    input.ident.to_string()
}

/// The variants of the item where `DeriveInput::data` is `Data::Enum`, in the order
/// written; `None` for a struct or a union. The contract only names them.
#[verifier::external_body]
fn enum_variants(input: &syn::DeriveInput) -> (found: Option<Vec<&syn::Variant>>)
    ensures
        match found {
            Some(list) => item_variants(*input) == Some(
                Seq::new(list@.len(), |i: int| *list@[i]),
            ),
            None => item_variants(*input) is None,
        },
{
    match &input.data {
        syn::Data::Enum(data) => Some(data.variants.iter().collect()),
        syn::Data::Struct(_) => None,
        syn::Data::Union(_) => None,
    }
}

/// The variant's identifier, `Variant::ident`, as text. The contract names it, and
/// says what holds of every identifier: it is not empty, and it holds no comma.
#[verifier::external_body]
fn variant_name(variant: &syn::Variant) -> (name: String)
    ensures
        name@ == variant_ident(*variant),
        name@.len() > 0,
        !name@.contains(','),
{
    variant.ident.to_string()
}

/// The variant's attributes, `Variant::attrs`. The contract only names them.
#[verifier::external_body]
fn variant_attributes(variant: &syn::Variant) -> (attributes: &Vec<syn::Attribute>)
    ensures
        attributes@ == variant_attrs(*variant),
{
    &variant.attrs
}

/// Whether the attribute's path is the one identifier `word`: `Attribute::path`, then
/// `Path::is_ident`. The contract only names the answer.
#[verifier::external_body]
fn attribute_is(attribute: &syn::Attribute, word: &str) -> (answer: bool)
    ensures
        answer == path_is_ident(*attribute, word@),
{
    attribute.path().is_ident(word)
}

/// The identifiers between the attribute's parentheses, read by
/// `Attribute::parse_nested_meta`, each item through `Path::require_ident`. The error
/// is that of `syn` where the attribute has no parenthesised list, where the list is
/// not a comma-separated list of paths, or where a path is more than one identifier.
/// The contract only names what comes back: the identifiers, or that there is an error.
/// The attribute's path has to be `linear` or `arbitrary`: on a path without a
/// segment `syn` would panic.
#[verifier::external_body]
fn nested_identifiers(attribute: &syn::Attribute) -> (parsed: Result<Vec<String>, syn::Error>)
    requires
        path_is_ident(*attribute, AttributeKind::Linear.keyword_text()) || path_is_ident(
            *attribute,
            AttributeKind::Arbitrary.keyword_text(),
        ),
    ensures
        match parsed {
            Ok(found) => nested_idents(*attribute) == Some(texts(found@)),
            Err(_) => nested_idents(*attribute) is None,
        },
{
    let mut found = Vec::new();
    attribute.parse_nested_meta(
        |meta| {
            found.push(meta.path.require_ident()?.to_string());
            Ok(())
        },
    )?;
    Ok(found)
}

/// The kind that an attribute is read as: `linear` where its path is that word, else
/// `arbitrary` where it is that one, else none.
pub open spec fn attribute_kind(attribute: syn::Attribute) -> Option<AttributeKind> {
    if path_is_ident(attribute, AttributeKind::Linear.keyword_text()) {
        Some(AttributeKind::Linear)
    } else if path_is_ident(attribute, AttributeKind::Arbitrary.keyword_text()) {
        Some(AttributeKind::Arbitrary)
    } else {
        None
    }
}

/// The annotation that an attribute is read as: its kind with the identifiers
/// between its parentheses, or with no targets where they cannot be read. An
/// attribute that is neither `linear` nor `arbitrary` is no annotation.
pub open spec fn attribute_annotation(attribute: syn::Attribute) -> Option<RawAttributeView> {
    match attribute_kind(attribute) {
        Some(kind) => Some(RawAttributeView { kind, targets: nested_idents(attribute) }),
        None => None,
    }
}

/// The annotations among `attributes`, in the order written.
pub open spec fn annotations(attributes: Seq<syn::Attribute>) -> Seq<RawAttributeView>
    decreases attributes.len(),
{
    if attributes.len() == 0 {
        Seq::empty()
    } else {
        let front = annotations(attributes.drop_last());
        match attribute_annotation(attributes.last()) {
            Some(annotation) => front.push(annotation),
            None => front,
        }
    }
}

/// The declaration of one variant: its identifier and its annotations.
pub open spec fn variant_declaration(variant: syn::Variant) -> VariantView {
    VariantView {
        name: variant_ident(variant),
        attributes: annotations(variant_attrs(variant)),
    }
}

/// The declaration that a `derive` input holds: the item's identifier and the
/// declarations of its variants, in the order written. `None` for an item that is
/// no enumeration.
pub open spec fn item_declaration(input: syn::DeriveInput) -> Option<DefinitionView> {
    match item_variants(input) {
        Some(variants) => Some(
            DefinitionView {
                name: item_ident(input),
                variants: Seq::new(variants.len(), |i: int| variant_declaration(variants[i])),
            },
        ),
        None => None,
    }
}

/// The views of a sequence of annotations.
pub open spec fn annotation_views(annotations: Seq<RawAttribute>) -> Seq<RawAttributeView> {
    Seq::new(annotations.len(), |i: int| annotations[i]@)
}

/// The kind of an attribute, from whether its path is `linear` and whether it is
/// `arbitrary`: an attribute that is neither is none of this library's.
pub fn annotation_kind(is_linear: bool, is_arbitrary: bool) -> (kind: Option<AttributeKind>)
    ensures
        kind == if is_linear {
            Some(AttributeKind::Linear)
        } else if is_arbitrary {
            Some(AttributeKind::Arbitrary)
        } else {
            None::<AttributeKind>
        },
{
    if is_linear {
        Some(AttributeKind::Linear)
    } else if is_arbitrary {
        Some(AttributeKind::Arbitrary)
    } else {
        None
    }
}

/// The annotation of the kind `kind` whose list was read as `parsed`: it holds the
/// identifiers that were read, and no targets where reading failed.
pub fn annotation(
    kind: AttributeKind,
    parsed: Result<Vec<String>, syn::Error>,
) -> (raw: RawAttribute)
    ensures
        raw@.kind == kind,
        match parsed {
            Ok(found) => raw@.targets == Some(texts(found@)),
            Err(_) => raw@.targets is None,
        },
{
    match parsed {
        Ok(found) => RawAttribute { kind, targets: Some(found) },
        Err(_) => RawAttribute { kind, targets: None },
    }
}

/// One attribute as an annotation; `None` for an attribute that is neither `linear`
/// nor `arbitrary`, which is not read any further.
fn read_attribute(attribute: &syn::Attribute) -> (raw: Option<RawAttribute>)
    ensures
        match raw {
            Some(read) => attribute_annotation(*attribute) == Some(read@),
            None => attribute_annotation(*attribute) is None,
        },
{
    let is_linear = attribute_is(attribute, AttributeKind::Linear.keyword());
    let is_arbitrary = !is_linear && attribute_is(attribute, AttributeKind::Arbitrary.keyword());
    match annotation_kind(is_linear, is_arbitrary) {
        Some(kind) => Some(annotation(kind, nested_identifiers(attribute))),
        None => None,
    }
}

/// The variant called `name` with those of `attributes` that are annotations, in the
/// order written.
pub fn read_variant(name: String, attributes: &Vec<syn::Attribute>) -> (read: VariantDeclaration)
    ensures
        read@.name == name@,
        read@.attributes == annotations(attributes@),
{
    let mut found: Vec<RawAttribute> = Vec::new();
    let mut j: usize = 0;
    assert(attributes@.take(0) =~= Seq::<syn::Attribute>::empty());
    while j < attributes.len()
        invariant
            j <= attributes.len(),
            annotation_views(found@) == annotations(attributes@.take(j as int)),
        decreases attributes.len() - j,
    {
        proof {
            let front = attributes@.take(j + 1);
            assert(front.last() == attributes@[j as int]);
            assert(front.drop_last() =~= attributes@.take(j as int));
        }
        match read_attribute(&attributes[j]) {
            Some(raw) => {
                assert(annotation_views(found@.push(raw)) =~= annotation_views(found@).push(raw@));
                found.push(raw);
            },
            None => {},
        }
        j += 1;
    }
    assert(attributes@.take(attributes@.len() as int) =~= attributes@);
    let read = VariantDeclaration { name, attributes: found };
    assert(read@.attributes =~= annotation_views(found@));
    read
}

/// The declaration of the item called `name` whose variants are `found`: one
/// variant for each of them, in their order. An item without a list of variants is
/// no enumeration and is refused.
pub fn read_item(
    name: String,
    found: Option<Vec<&syn::Variant>>,
) -> (result: Result<StateEnumDefinition, DeclarationError>)
    ensures
        match result {
            Ok(definition) => {
                &&& found is Some
                &&& definition@.name == name@
                &&& definition@.variants == Seq::new(
                    found->0@.len(),
                    |i: int| variant_declaration(*found->0@[i]),
                )
                &&& definition@.unbroken_names()
            },
            Err(error) => found is None && error@ == DeclarationErrorView::NotAnEnum,
        },
{
    match found {
        None => Err(DeclarationError::NotAnEnum),
        Some(found) => {
            let mut variants: Vec<VariantDeclaration> = Vec::new();
            let mut i: usize = 0;
            while i < found.len()
                invariant
                    i <= found.len(),
                    variants@.len() == i,
                    forall|k: int|
                        0 <= k < i ==> (#[trigger] variants@[k])@ == variant_declaration(
                            *found@[k],
                        ),
                    forall|k: int|
                        0 <= k < i ==> (#[trigger] variants@[k])@.name.len() > 0
                            && !variants@[k]@.name.contains(','),
                decreases found.len() - i,
            {
                let variant = found[i];
                variants.push(read_variant(variant_name(variant), variant_attributes(variant)));
                i += 1;
            }
            let definition = StateEnumDefinition { name, variants };
            assert(definition@.variants =~= Seq::new(
                found@.len(),
                |i: int| variant_declaration(*found@[i]),
            ));
            Ok(definition)
        },
    }
}

/// The declaration that a `derive` input holds: the item's name and its variants in
/// the order written, each with those of its attributes that are `linear` or
/// `arbitrary`, in the order written. An item that is no enumeration is refused.
pub fn read_definition(input: &syn::DeriveInput) -> (result: Result<
    StateEnumDefinition,
    DeclarationError,
>)
    ensures
        match result {
            Ok(definition) => item_declaration(*input) == Some(definition@)
                && definition@.unbroken_names(),
            Err(error) => item_declaration(*input) is None && error@
                == DeclarationErrorView::NotAnEnum,
        },
{
    let result = read_item(item_name(input), enum_variants(input));
    proof {
        if result is Ok {
            let definition = result->Ok_0;
            let variants = item_variants(*input)->0;
            assert(definition@.variants =~= Seq::new(
                variants.len(),
                |i: int| variant_declaration(variants[i]),
            ));
        }
    }
    result
}

/// The transition table of a `derive` input: the declaration is read out of the
/// input and then checked and folded by `build_table`. An input that is no
/// enumeration is refused; one that is gives the table of its declaration, or the
/// error that its declaration is refused with.
pub fn derive_table(input: &syn::DeriveInput) -> (result: Result<
    TransitionTable,
    DeclarationError,
>)
    ensures
        match item_declaration(*input) {
            Some(definition) => match result {
                Ok(table) => {
                    &&& definition_error(definition) is None
                    &&& table@ == table_of(definition)
                    &&& table@.wf()
                },
                Err(error) => definition_error(definition) == Some(error@),
            },
            None => result matches Err(error) && error@ == DeclarationErrorView::NotAnEnum,
        },
{
    match read_definition(input) {
        Ok(definition) => build_table(&definition),
        Err(error) => Err(error),
    }
}

} // verus!
