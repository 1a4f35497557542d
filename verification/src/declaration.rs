//! The declaration of a state enumeration, as plain values, and what is wrong with one.

use vstd::prelude::*;

verus! {

broadcast use vstd::string::group_string_axioms;

/// The two annotations that a variant may carry.
#[derive(Clone, Copy, Debug, PartialEq, Eq, Structural)]
pub enum AttributeKind {
    /// `linear(Target)`: the one successor in the fixed chain.
    Linear,
    /// `arbitrary(A, B, ..)`: the targets a state may jump to.
    Arbitrary,
}

impl AttributeKind {
    /// The word that the annotation is written with.
    pub open spec fn keyword_text(self) -> Seq<char> {
        match self {
            AttributeKind::Linear => "linear"@,
            AttributeKind::Arbitrary => "arbitrary"@,
        }
    }

    /// The word that the annotation is written with: `linear` or `arbitrary`.
    pub fn keyword(&self) -> (word: &'static str)
        ensures
            word@ == self.keyword_text(),
    {
        match self {
            AttributeKind::Linear => "linear",
            AttributeKind::Arbitrary => "arbitrary",
        }
    }
}

/// One `linear(..)` or `arbitrary(..)` annotation as it was written.
#[derive(Clone, Debug, PartialEq, Eq)]
pub struct RawAttribute {
    pub kind: AttributeKind,
    /// The identifiers between the parentheses, in order; `None` where the annotation
    /// is not a parenthesised list of identifiers.
    pub targets: Option<Vec<String>>,
}

/// One variant of the enumeration with its annotations, in the order written.
#[derive(Clone, Debug, PartialEq, Eq)]
pub struct VariantDeclaration {
    pub name: String,
    pub attributes: Vec<RawAttribute>,
}

/// A state enumeration: its name and its variants in declaration order.
#[derive(Clone, Debug, PartialEq, Eq)]
pub struct StateEnumDefinition {
    pub name: String,
    pub variants: Vec<VariantDeclaration>,
}

pub ghost struct RawAttributeView {
    pub kind: AttributeKind,
    pub targets: Option<Seq<Seq<char>>>,
}

pub ghost struct VariantView {
    pub name: Seq<char>,
    pub attributes: Seq<RawAttributeView>,
}

pub ghost struct DefinitionView {
    pub name: Seq<char>,
    pub variants: Seq<VariantView>,
}

impl View for RawAttribute {
    type V = RawAttributeView;

    open spec fn view(&self) -> RawAttributeView {
        RawAttributeView {
            kind: self.kind,
            targets: match self.targets {
                Some(targets) => Some(crate::text::texts(targets@)),
                None => None,
            },
        }
    }
}

impl View for VariantDeclaration {
    type V = VariantView;

    open spec fn view(&self) -> VariantView {
        VariantView {
            name: self.name@,
            attributes: Seq::new(self.attributes@.len(), |i: int| self.attributes@[i]@),
        }
    }
}

impl View for StateEnumDefinition {
    type V = DefinitionView;

    open spec fn view(&self) -> DefinitionView {
        DefinitionView {
            name: self.name@,
            variants: Seq::new(self.variants@.len(), |i: int| self.variants@[i]@),
        }
    }
}

impl DefinitionView {
    /// The names of the variants, in declaration order.
    pub open spec fn names(self) -> Seq<Seq<char>> {
        Seq::new(self.variants.len(), |i: int| self.variants[i].name)
    }

    /// No two variants share a name.
    pub open spec fn distinct_names(self) -> bool {
        forall|i: int, j: int|
            0 <= i < j < self.variants.len() ==> self.variants[i].name != self.variants[j].name
    }

    /// Every variant's name is unbroken: not empty and without a comma.
    pub open spec fn unbroken_names(self) -> bool {
        forall|i: int|
            0 <= i < self.variants.len() ==> (#[trigger] self.variants[i]).name.len() > 0
                && !self.variants[i].name.contains(',')
    }

    /// Every variant's name survives joining and parsing.
    pub open spec fn plain_names(self) -> bool {
        forall|i: int|
            0 <= i < self.variants.len() ==> crate::text::plain_name(
                #[trigger] self.variants[i].name,
            )
    }
}

impl StateEnumDefinition {
    /// Whether the variants are named as those of an enumeration are: no two alike,
    /// and every name plain.
    pub fn has_valid_names(&self) -> (valid: bool)
        ensures
            valid == (self@.distinct_names() && self@.plain_names()),
    {
        let mut i: usize = 0;
        while i < self.variants.len()
            invariant
                i <= self.variants.len(),
                forall|a: int, b: int|
                    0 <= a < b < i ==> self@.variants[a].name != self@.variants[b].name,
                forall|a: int|
                    0 <= a < i ==> crate::text::plain_name(#[trigger] self@.variants[a].name),
            decreases self.variants.len() - i,
        {
            if !crate::text::is_plain_name(self.variants[i].name.as_str()) {
                assert(!crate::text::plain_name(self@.variants[i as int].name));
                return false;
            }
            let mut j: usize = 0;
            while j < i
                invariant
                    j <= i < self.variants.len(),
                    forall|a: int|
                        0 <= a < j ==> self@.variants[a].name != self@.variants[i as int].name,
                decreases i - j,
            {
                if self.variants[j].name == self.variants[i].name {
                    assert(self@.variants[j as int].name == self@.variants[i as int].name);
                    return false;
                }
                j += 1;
            }
            i += 1;
        }
        true
    }
}

/// Why a declaration is refused.
#[derive(Clone, Debug, PartialEq, Eq)]
pub enum DeclarationError {
    /// One `linear(..)` annotation names two or more targets.
    TooManyLinearTargets { variant: String },
    /// An annotation names a target that is no variant of the enumeration.
    UnknownTargetState { target: String, enum_name: String },
    /// An annotation is not a parenthesised list of identifiers.
    MalformedAttribute { variant: String, attribute_kind: AttributeKind },
    /// The annotated item is no enumeration.
    NotAnEnum,
}

pub ghost enum DeclarationErrorView {
    TooManyLinearTargets { variant: Seq<char> },
    UnknownTargetState { target: Seq<char>, enum_name: Seq<char> },
    MalformedAttribute { variant: Seq<char>, attribute_kind: AttributeKind },
    NotAnEnum,
}

impl View for DeclarationError {
    type V = DeclarationErrorView;

    open spec fn view(&self) -> DeclarationErrorView {
        match self {
            DeclarationError::TooManyLinearTargets { variant } => {
                DeclarationErrorView::TooManyLinearTargets { variant: variant@ }
            },
            DeclarationError::UnknownTargetState { target, enum_name } => {
                DeclarationErrorView::UnknownTargetState { target: target@, enum_name: enum_name@ }
            },
            DeclarationError::MalformedAttribute { variant, attribute_kind } => {
                DeclarationErrorView::MalformedAttribute {
                    variant: variant@,
                    attribute_kind: *attribute_kind,
                }
            },
            DeclarationError::NotAnEnum => DeclarationErrorView::NotAnEnum,
        }
    }
}

impl DeclarationErrorView {
    /// The text of the diagnostic.
    pub open spec fn message(self) -> Seq<char> {
        match self {
            DeclarationErrorView::TooManyLinearTargets { variant } => {
                "Only 1 Linear Transition allowed. Error Occured On \""@ + variant + "\""@
            },
            DeclarationErrorView::UnknownTargetState { target, enum_name } => {
                "\""@ + target + "\" doesn't exist as a state in \""@ + enum_name + "\""@
            },
            DeclarationErrorView::MalformedAttribute { variant, attribute_kind } => {
                "Problem parsing "@ + attribute_kind.keyword_text() + " list for \""@ + variant
                    + "\""@
            },
            DeclarationErrorView::NotAnEnum => {
                "DoubleStates can only be derived for enums with variants"@
            },
        }
    }
}

impl DeclarationError {
    /// The diagnostic that the declaration is refused with. It names the variant, or
    /// the target and the enumeration, that the fault lies with.
    pub fn message(&self) -> (text: String)
        ensures
            text@ == self@.message(),
    {
        match self {
            DeclarationError::TooManyLinearTargets { variant } => {
                let mut text = String::from_str(
                    "Only 1 Linear Transition allowed. Error Occured On \"",
                );
                text.append(variant.as_str());
                text.append("\"");
                text
            },
            DeclarationError::UnknownTargetState { target, enum_name } => {
                let mut text = String::from_str("\"");
                text.append(target.as_str());
                text.append("\" doesn't exist as a state in \"");
                text.append(enum_name.as_str());
                text.append("\"");
                text
            },
            DeclarationError::MalformedAttribute { variant, attribute_kind } => {
                let mut text = String::from_str("Problem parsing ");
                text.append(attribute_kind.keyword());
                text.append(" list for \"");
                text.append(variant.as_str());
                text.append("\"");
                text
            },
            DeclarationError::NotAnEnum => {
                String::from_str("DoubleStates can only be derived for enums with variants")
            },
        }
    }
}

/// The first of `targets` that is none of `names`.
pub open spec fn first_unknown(targets: Seq<Seq<char>>, names: Seq<Seq<char>>) -> Option<
    Seq<char>,
>
    decreases targets.len(),
{
    if targets.len() == 0 {
        None
    } else if !names.contains(targets[0]) {
        Some(targets[0])
    } else {
        first_unknown(targets.drop_first(), names)
    }
}

/// `first_unknown` finds nothing exactly when every target is a name, and what it
/// finds is a target that is no name.
pub proof fn lemma_first_unknown(targets: Seq<Seq<char>>, names: Seq<Seq<char>>)
    ensures
        first_unknown(targets, names) is None <==> forall|k: int|
            0 <= k < targets.len() ==> names.contains(#[trigger] targets[k]),
        first_unknown(targets, names) matches Some(target) ==> targets.contains(target)
            && !names.contains(target),
    decreases targets.len(),
{
    if targets.len() > 0 {
        let rest = targets.drop_first();
        lemma_first_unknown(rest, names);
        if names.contains(targets[0]) {
            if first_unknown(rest, names) is None {
                assert forall|k: int| 0 <= k < targets.len() implies names.contains(
                    #[trigger] targets[k],
                ) by {
                    if k > 0 {
                        assert(targets[k] == rest[k - 1]);
                    }
                }
            } else {
                let target = first_unknown(rest, names)->0;
                let k = choose|k: int| 0 <= k < rest.len() && rest[k] == target;
                assert(targets[k + 1] == target);
            }
        } else {
            assert(targets[0] == targets[0]);
        }
    }
}

/// What is wrong with one annotation of the variant `variant` of the enumeration
/// `enum_name`, whose variants are called `names`. An annotation that cannot be read is
/// malformed; a readable `linear` with two or more targets has too many; otherwise the
/// first target that is no variant is unknown.
pub open spec fn attribute_error(
    attribute: RawAttributeView,
    variant: Seq<char>,
    enum_name: Seq<char>,
    names: Seq<Seq<char>>,
) -> Option<DeclarationErrorView> {
    match attribute.targets {
        None => Some(
            DeclarationErrorView::MalformedAttribute { variant, attribute_kind: attribute.kind },
        ),
        Some(targets) => {
            if attribute.kind == AttributeKind::Linear && targets.len() > 1 {
                Some(DeclarationErrorView::TooManyLinearTargets { variant })
            } else {
                match first_unknown(targets, names) {
                    Some(target) => Some(
                        DeclarationErrorView::UnknownTargetState { target, enum_name },
                    ),
                    None => None,
                }
            }
        },
    }
}

/// What is wrong with the first faulty annotation of a variant.
pub open spec fn attributes_error(
    attributes: Seq<RawAttributeView>,
    variant: Seq<char>,
    enum_name: Seq<char>,
    names: Seq<Seq<char>>,
) -> Option<DeclarationErrorView>
    decreases attributes.len(),
{
    if attributes.len() == 0 {
        None
    } else {
        match attribute_error(attributes[0], variant, enum_name, names) {
            Some(error) => Some(error),
            None => attributes_error(attributes.drop_first(), variant, enum_name, names),
        }
    }
}

/// What is wrong with the first faulty variant among `variants`.
pub open spec fn variants_error(
    variants: Seq<VariantView>,
    enum_name: Seq<char>,
    names: Seq<Seq<char>>,
) -> Option<DeclarationErrorView>
    decreases variants.len(),
{
    if variants.len() == 0 {
        None
    } else {
        match attributes_error(variants[0].attributes, variants[0].name, enum_name, names) {
            Some(error) => Some(error),
            None => variants_error(variants.drop_first(), enum_name, names),
        }
    }
}

/// The error that a declaration is refused with: that of its first faulty annotation,
/// going through the variants and their annotations in the order written. `None` for a
/// declaration that is accepted.
pub open spec fn definition_error(definition: DefinitionView) -> Option<DeclarationErrorView> {
    variants_error(definition.variants, definition.name, definition.names())
}

/// The linear target that the annotations of a variant declare: the first identifier
/// of the last `linear(..)` that has one.
pub open spec fn linear_target(attributes: Seq<RawAttributeView>) -> Option<Seq<char>>
    decreases attributes.len(),
{
    if attributes.len() == 0 {
        None
    } else {
        let last = attributes.last();
        if last.kind == AttributeKind::Linear && last.targets is Some && last.targets->0.len()
            > 0 {
            Some(last.targets->0[0])
        } else {
            linear_target(attributes.drop_last())
        }
    }
}

/// The arbitrary targets that the annotations of a variant declare: those of all its
/// `arbitrary(..)`, in the order written, with repetitions.
pub open spec fn arbitrary_targets(attributes: Seq<RawAttributeView>) -> Seq<Seq<char>>
    decreases attributes.len(),
{
    if attributes.len() == 0 {
        Seq::empty()
    } else {
        let last = attributes.last();
        let front = arbitrary_targets(attributes.drop_last());
        if last.kind == AttributeKind::Arbitrary && last.targets is Some {
            front + last.targets->0
        } else {
            front
        }
    }
}

} // verus!
