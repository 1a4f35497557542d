//! The transition table of a state enumeration and the transitions it answers.
//!
//! A state is the index of a variant in declaration order. Targets are kept by name
//! and resolved by name equality when a transition is asked for.

use crate::search::{lemma_position, lemma_position_is, position};
use crate::text::{contains_name, parse_arbs, parsed_arbs, texts};
use vstd::prelude::*;

verus! {

broadcast use vstd::string::group_string_axioms;

/// What the table holds for one variant.
#[derive(Clone, Debug, PartialEq, Eq)]
pub struct StateField {
    /// The variant's name.
    pub name: String,
    /// The name of its linear target, if it declares one.
    pub linear: Option<String>,
    /// Its arbitrary targets, each followed by a comma.
    pub arbitrary: String,
}

pub ghost struct StateFieldView {
    pub name: Seq<char>,
    pub linear: Option<Seq<char>>,
    pub arbitrary: Seq<char>,
}

impl View for StateField {
    type V = StateFieldView;

    open spec fn view(&self) -> StateFieldView {
        StateFieldView {
            name: self.name@,
            linear: match self.linear {
                Some(target) => Some(target@),
                None => None,
            },
            arbitrary: self.arbitrary@,
        }
    }
}

pub ghost struct TableView {
    pub enum_name: Seq<char>,
    pub fields: Seq<StateFieldView>,
}

impl TableView {
    /// The names of the states, in declaration order.
    pub open spec fn names(self) -> Seq<Seq<char>> {
        Seq::new(self.fields.len(), |i: int| self.fields[i].name)
    }

    /// Every declared linear target is the name of a state.
    pub open spec fn wf(self) -> bool {
        forall|i: int|
            0 <= i < self.fields.len() && (#[trigger] self.fields[i]).linear is Some
                ==> self.names().contains(self.fields[i].linear->0)
    }

    /// No two states share a name.
    pub open spec fn distinct_names(self) -> bool {
        forall|i: int, j: int|
            0 <= i < j < self.fields.len() ==> self.fields[i].name != self.fields[j].name
    }

    /// `state` is one of the table's states.
    pub open spec fn is_state(self, state: int) -> bool {
        0 <= state < self.fields.len()
    }

    /// The state that `name` resolves to: the first one of that name. `None` where no
    /// state has it.
    pub open spec fn resolve(self, name: Seq<char>) -> Option<int> {
        let k = position(self.names(), name) as int;
        if k < self.fields.len() {
            Some(k)
        } else {
            None
        }
    }

    /// `state` declares a linear target.
    pub open spec fn has_linear(self, state: int) -> bool {
        self.is_state(state) && self.fields[state].linear is Some
    }

    /// The state that the linear target of `state` resolves to.
    pub open spec fn linear_successor(self, state: int) -> int {
        position(self.names(), self.fields[state].linear->0) as int
    }

    /// The names that `state` may jump to: its comma-joined targets, parsed.
    pub open spec fn arbitrary_names(self, state: int) -> Seq<Seq<char>> {
        parsed_arbs(self.fields[state].arbitrary)
    }

    /// `state` may jump to `target`: the name of `target` is among the parsed
    /// arbitrary targets of `state`.
    pub open spec fn allows(self, state: int, target: int) -> bool {
        &&& self.is_state(state)
        &&& self.is_state(target)
        &&& self.arbitrary_names(state).contains(self.fields[target].name)
    }
}

/// Why a transition is refused.
#[derive(Clone, Debug, PartialEq, Eq)]
pub enum TransitionError {
    /// The current state declares no linear target.
    MissingLinearTransition { enum_name: String, variant: String },
    /// The requested target is not among the arbitrary targets of the current state.
    DisallowedArbitraryTransition { enum_name: String, variant: String, target: String },
}

pub ghost enum TransitionErrorView {
    MissingLinearTransition { enum_name: Seq<char>, variant: Seq<char> },
    DisallowedArbitraryTransition { enum_name: Seq<char>, variant: Seq<char>, target: Seq<char> },
}

impl View for TransitionError {
    type V = TransitionErrorView;

    open spec fn view(&self) -> TransitionErrorView {
        match self {
            TransitionError::MissingLinearTransition { enum_name, variant } => {
                TransitionErrorView::MissingLinearTransition {
                    enum_name: enum_name@,
                    variant: variant@,
                }
            },
            TransitionError::DisallowedArbitraryTransition { enum_name, variant, target } => {
                TransitionErrorView::DisallowedArbitraryTransition {
                    enum_name: enum_name@,
                    variant: variant@,
                    target: target@,
                }
            },
        }
    }
}

impl TransitionErrorView {
    /// The text of the diagnostic.
    pub open spec fn message(self) -> Seq<char> {
        match self {
            TransitionErrorView::MissingLinearTransition { enum_name, variant } => {
                "No linear transition found for \""@ + enum_name + "::"@ + variant + "\""@
            },
            TransitionErrorView::DisallowedArbitraryTransition { enum_name, variant, target } => {
                "Arbitrary transition \""@ + target + "\" not found for \""@ + enum_name + "::"@
                    + variant + "\""@
            },
        }
    }
}

impl TransitionError {
    /// The diagnostic that the transition is refused with. It names the enumeration,
    /// the current variant and, for a jump, the target that was asked for.
    pub fn message(&self) -> (text: String)
        ensures
            text@ == self@.message(),
    {
        match self {
            TransitionError::MissingLinearTransition { enum_name, variant } => {
                let mut text = String::from_str("No linear transition found for \"");
                text.append(enum_name.as_str());
                text.append("::");
                text.append(variant.as_str());
                text.append("\"");
                text
            },
            TransitionError::DisallowedArbitraryTransition { enum_name, variant, target } => {
                let mut text = String::from_str("Arbitrary transition \"");
                text.append(target.as_str());
                text.append("\" not found for \"");
                text.append(enum_name.as_str());
                text.append("::");
                text.append(variant.as_str());
                text.append("\"");
                text
            },
        }
    }
}

/// The resolved transitions of one state enumeration. Built once from a declaration
/// and never changed.
#[derive(Debug, PartialEq, Eq)]
pub struct TransitionTable {
    enum_name: String,
    fields: Vec<StateField>,
}

/// The view of a table that holds `fields` under the name `enum_name`.
pub open spec fn fields_view(enum_name: Seq<char>, fields: Seq<StateField>) -> TableView {
    TableView { enum_name, fields: Seq::new(fields.len(), |i: int| fields[i]@) }
}

impl View for TransitionTable {
    type V = TableView;

    closed spec fn view(&self) -> TableView {
        fields_view(self.enum_name@, self.fields@)
    }
}

/// The names of `fields`, in order.
pub open spec fn names_of(fields: Seq<StateField>) -> Seq<Seq<char>> {
    Seq::new(fields.len(), |i: int| fields[i].name@)
}

/// Where the first of `fields` called `name` stands; `fields.len()` if none is.
fn name_position(fields: &Vec<StateField>, name: &String) -> (k: usize)
    ensures
        k == position(names_of(fields@), name@),
        k <= fields.len(),
{
    let mut i: usize = 0;
    while i < fields.len()
        invariant
            i <= fields.len(),
            forall|j: int| 0 <= j < i ==> names_of(fields@)[j] != name@,
        decreases fields.len() - i,
    {
        if fields[i].name == *name {
            proof {
                lemma_position_is(names_of(fields@), name@, i as int);
            }
            return i;
        }
        i += 1;
    }
    proof {
        lemma_position_is(names_of(fields@), name@, i as int);
    }
    i
}

impl TransitionTable {
    #[verifier::type_invariant]
    spec fn inv(&self) -> bool {
        self@.wf()
    }

    /// The table of the given fields, in their order. There is none where a field
    /// declares a linear target that is the name of no field.
    pub fn new(enum_name: String, fields: Vec<StateField>) -> (table: Option<Self>)
        ensures
            table is Some <==> fields_view(enum_name@, fields@).wf(),
            table matches Some(built) ==> built@ == fields_view(enum_name@, fields@),
    {
        let ghost view = fields_view(enum_name@, fields@);
        let mut i: usize = 0;
        while i < fields.len()
            invariant
                i <= fields.len(),
                view == fields_view(enum_name@, fields@),
                forall|k: int|
                    0 <= k < i && (#[trigger] view.fields[k]).linear is Some
                        ==> view.names().contains(view.fields[k].linear->0),
            decreases fields.len() - i,
        {
            match &fields[i].linear {
                Some(target) => {
                    proof {
                        assert(view.names() =~= names_of(fields@));
                        lemma_position(view.names(), target@);
                    }
                    if name_position(&fields, target) >= fields.len() {
                        assert(view.fields[i as int].linear is Some);
                        return None;
                    }
                },
                None => {},
            }
            i += 1;
        }
        Some(TransitionTable { enum_name, fields })
    }

    /// A table of fields that are known to be well formed.
    pub(crate) fn from_fields(enum_name: String, fields: Vec<StateField>) -> (table: Self)
        requires
            fields_view(enum_name@, fields@).wf(),
        ensures
            table@ == fields_view(enum_name@, fields@),
    {
        TransitionTable { enum_name, fields }
    }

    /// The name of the enumeration.
    pub fn name(&self) -> (name: &str)
        ensures
            name@ == self@.enum_name,
    {
        self.enum_name.as_str()
    }

    /// The number of states.
    pub fn state_count(&self) -> (count: usize)
        ensures
            count == self@.fields.len(),
    {
        self.fields.len()
    }

    /// What the table holds for `state`.
    pub fn field(&self, state: usize) -> (field: &StateField)
        requires
            self@.is_state(state as int),
        ensures
            field@ == self@.fields[state as int],
    {
        &self.fields[state]
    }

    /// The textual name of `state`.
    pub fn render(&self, state: usize) -> (name: String)
        requires
            self@.is_state(state as int),
        ensures
            name@ == self@.fields[state as int].name,
    {
        self.fields[state].name.clone()
    }

    /// The state called `name`: the first of that name, `None` where there is none.
    pub fn resolve(&self, name: &str) -> (state: Option<usize>)
        ensures
            state matches Some(k) ==> self@.resolve(name@) == Some(k as int),
            state is None ==> self@.resolve(name@) is None,
    {
        let wanted = String::from_str(name);
        let k = self.find(&wanted);
        if k < self.fields.len() {
            Some(k)
        } else {
            None
        }
    }

    fn find(&self, name: &String) -> (k: usize)
        ensures
            k == position(self@.names(), name@),
            k <= self@.fields.len(),
    {
        assert(self@.names() =~= names_of(self.fields@));
        name_position(&self.fields, name)
    }

    /// Whether `state` declares a linear target.
    pub fn has_linear_transition(&self, state: usize) -> (declared: bool)
        ensures
            declared == self@.has_linear(state as int),
    {
        state < self.fields.len() && self.fields[state].linear.is_some()
    }

    /// The state that follows `state` in the linear chain: the one that the declared
    /// linear target of `state` names. A state without a linear target has no
    /// successor, and asking for it is the caller's fault.
    pub fn linear_transition(&self, state: usize) -> (next: usize)
        requires
            self@.has_linear(state as int),
        ensures
            next == self@.linear_successor(state as int),
            self@.is_state(next as int),
            self@.fields[next as int].name == self@.fields[state as int].linear->0,
    {
        proof {
            use_type_invariant(self);
            lemma_position(self@.names(), self@.fields[state as int].linear->0);
        }
        match &self.fields[state].linear {
            Some(target) => self.find(target),
            None => state,
        }
    }

    /// `linear_transition` for any state: the successor, or the reason why there is
    /// none.
    pub fn try_linear_transition(&self, state: usize) -> (next: Result<usize, TransitionError>)
        requires
            self@.is_state(state as int),
        ensures
            match next {
                Ok(successor) => {
                    &&& self@.has_linear(state as int)
                    &&& successor == self@.linear_successor(state as int)
                    &&& self@.is_state(successor as int)
                    &&& self@.fields[successor as int].name == self@.fields[state as int].linear->0
                },
                Err(error) => {
                    &&& !self@.has_linear(state as int)
                    &&& error@ == (TransitionErrorView::MissingLinearTransition {
                        enum_name: self@.enum_name,
                        variant: self@.fields[state as int].name,
                    })
                },
            },
    {
        if self.has_linear_transition(state) {
            Ok(self.linear_transition(state))
        } else {
            Err(
                TransitionError::MissingLinearTransition {
                    enum_name: self.enum_name.clone(),
                    variant: self.render(state),
                },
            )
        }
    }

    /// Whether `state` may jump to `target`.
    pub fn allows_arbitrary_transition(&self, state: usize, target: usize) -> (allowed: bool)
        ensures
            allowed == self@.allows(state as int, target as int),
    {
        if state < self.fields.len() && target < self.fields.len() {
            let names = parse_arbs(self.fields[state].arbitrary.as_str());
            contains_name(&names, &self.fields[target].name)
        } else {
            false
        }
    }

    /// The names that a comma-joined string of targets holds, as `parse_arbs` of the
    /// text module gives them. The table itself is not looked at.
    pub fn parse_arbs(&self, arbs: &str) -> (names: Vec<String>)
        ensures
            texts(names@) == parsed_arbs(arbs@),
    {
        parse_arbs(arbs)
    }

    /// The jump from `state` to `target`, which `state` must allow: the result is
    /// `target` itself, never another state. A jump that is not allowed is the
    /// caller's fault.
    pub fn arbitrary_transition(&self, state: usize, target: usize) -> (next: usize)
        requires
            self@.allows(state as int, target as int),
        ensures
            next == target,
    {
        target
    }

    /// `arbitrary_transition` for any pair of states: `target` where `state` allows
    /// the jump, else the reason why it is refused.
    pub fn try_arbitrary_transition(&self, state: usize, target: usize) -> (next: Result<
        usize,
        TransitionError,
    >)
        requires
            self@.is_state(state as int),
            self@.is_state(target as int),
        ensures
            match next {
                Ok(successor) => self@.allows(state as int, target as int) && successor == target,
                Err(error) => {
                    &&& !self@.allows(state as int, target as int)
                    &&& error@ == (TransitionErrorView::DisallowedArbitraryTransition {
                        enum_name: self@.enum_name,
                        variant: self@.fields[state as int].name,
                        target: self@.fields[target as int].name,
                    })
                },
            },
    {
        if self.allows_arbitrary_transition(state, target) {
            Ok(self.arbitrary_transition(state, target))
        } else {
            Err(
                TransitionError::DisallowedArbitraryTransition {
                    enum_name: self.enum_name.clone(),
                    variant: self.render(state),
                    target: self.render(target),
                },
            )
        }
    }
}

} // verus!
