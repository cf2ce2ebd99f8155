//! The element types that a pipeline can be assembled from, held in a
//! context that the caller creates once and hands to every constructor.

use vstd::prelude::*;
use crate::caps::{Caps, CapsModel};
use crate::text::{lemma_position_from, lemma_position_is, position_of, same_text};

verus! {

/// What an element does with data: produce it, pass it on, or consume it.
#[derive(Clone, Copy, Debug, PartialEq, Eq, Structural)]
pub enum ElementKind {
    /// Produces data: it has a source pad and no sink pad.
    Source,
    /// Passes data on: it has a sink pad and a source pad.
    Filter,
    /// Consumes data: it has a sink pad and no source pad.
    Sink,
}

/// An element type: the name it is looked up by, its kind, and the formats
/// that its pads admit.
#[derive(Debug, PartialEq, Eq)]
pub struct ElementType {
    pub name: String,
    pub kind: ElementKind,
    pub caps: Caps,
}

/// Mathematical model of an [`ElementType`].
pub struct ElementTypeModel {
    pub name: Seq<char>,
    pub kind: ElementKind,
    pub caps: CapsModel,
}

impl View for ElementType {
    type V = ElementTypeModel;

    open spec fn view(&self) -> ElementTypeModel {
        ElementTypeModel { name: self.name@, kind: self.kind, caps: self.caps@ }
    }
}

/// The models of a list of element types, in order.
pub open spec fn type_models(types: Seq<ElementType>) -> Seq<ElementTypeModel> {
    types.map_values(|t: ElementType| t@)
}

/// The names of a list of element types, in order.
pub open spec fn type_names(types: Seq<ElementTypeModel>) -> Seq<Seq<char>> {
    types.map_values(|t: ElementTypeModel| t.name)
}

/// Position in `types` of the type called `name`; the length of the list
/// where there is none.
pub open spec fn type_position(types: Seq<ElementTypeModel>, name: Seq<char>) -> int {
    position_of(type_names(types), name)
}

/// A type called `name` is among `types`.
pub open spec fn type_known(types: Seq<ElementTypeModel>, name: Seq<char>) -> bool {
    type_position(types, name) < types.len()
}

/// No two types of the list bear the same name.
pub open spec fn distinct_type_names(types: Seq<ElementTypeModel>) -> bool {
    forall|i: int, j: int|
        #![trigger types[i], types[j]]
        0 <= i < j < types.len() ==> types[i].name != types[j].name
}

/// The registry of the element types that are available. Its model is the
/// list of the registered types in the order of registration; no two of
/// them bear the same name.
#[derive(Debug)]
pub struct Context {
    types: Vec<ElementType>,
}

impl View for Context {
    type V = Seq<ElementTypeModel>;

    closed spec fn view(&self) -> Seq<ElementTypeModel> {
        type_models(self.types@)
    }
}

impl Context {
    /// The invariant of a context: no name is registered twice.
    pub open spec fn well_formed(&self) -> bool {
        distinct_type_names(self@)
    }

    /// A context without any element type.
    pub fn new() -> (context: Context)
        ensures
            context@ == Seq::<ElementTypeModel>::empty(),
            context.well_formed(),
    {
        let context = Context { types: Vec::new() };
        assert(context@ =~= Seq::<ElementTypeModel>::empty());
        context
    }

    /// Number of registered element types.
    pub fn len(&self) -> (count: usize)
        ensures
            count == self@.len(),
    {
        self.types.len()
    }

    fn position(&self, name: &str) -> (at: usize)
        ensures
            at == type_position(self@, name@),
            at <= self@.len(),
            at < self@.len() ==> self@[at as int].name == name@,
    {
        let ghost names = type_names(self@);
        let mut i: usize = 0;
        while i < self.types.len()
            invariant
                0 <= i <= self.types.len(),
                names == type_names(self@),
                self@ == type_models(self.types@),
                forall|k: int| 0 <= k < i ==> names[k] != name@,
            decreases self.types.len() - i,
        {
            assert(names[i as int] == self.types@[i as int].name@);
            if same_text(self.types[i].name.as_str(), name) {
                proof {
                    lemma_position_is(names, name@, i as int);
                }
                return i;
            }
            i += 1;
        }
        proof {
            lemma_position_is(names, name@, i as int);
        }
        i
    }

    /// Tells whether an element type called `name` is registered.
    pub fn knows(&self, name: &str) -> (known: bool)
        ensures
            known == type_known(self@, name@),
    {
        self.position(name) < self.types.len()
    }

    /// The element type called `name`, where one is registered.
    pub fn find(&self, name: &str) -> (found: Option<&ElementType>)
        ensures
            found.is_some() == type_known(self@, name@),
            found.is_some() ==> found.unwrap()@ == self@[type_position(self@, name@)],
            found.is_some() ==> found.unwrap()@.name == name@,
    {
        let at = self.position(name);
        if at < self.types.len() {
            assert(self.types@[at as int]@ == self@[at as int]);
            Some(&self.types[at])
        } else {
            None
        }
    }

    /// Registers an element type, unless one of its name is registered
    /// already: the context is then left as it was. Tells whether the type
    /// was added.
    pub fn register(&mut self, element_type: ElementType) -> (added: bool)
        ensures
            old(self).well_formed() ==> final(self).well_formed(),
            added == !type_known(old(self)@, element_type@.name),
            added ==> final(self)@ == old(self)@.push(element_type@),
            !added ==> final(self)@ == old(self)@,
    {
        let at = self.position(element_type.name.as_str());
        if at < self.types.len() {
            return false;
        }
        proof {
            lemma_position_from(type_names(self@), element_type@.name, 0);
            assert forall|k: int| 0 <= k < self@.len() implies (#[trigger] self@[k]).name
                != element_type@.name by {
                assert(type_names(self@)[k] == self@[k].name);
            }
        }
        self.types.push(element_type);
        assert(self@ =~= old(self)@.push(element_type@));
        true
    }

    /// The context with the three element types of the test pipeline: the
    /// source `videotestsrc`, the filter `capsfilter` and the sink
    /// `autovideosink`, each admitting any format.
    pub fn standard() -> (context: Context)
        ensures
            context.well_formed(),
            context@ == standard_types(),
    {
        proof {
            reveal_strlit("videotestsrc");
            reveal_strlit("capsfilter");
            reveal_strlit("autovideosink");
        }
        let mut context = Context::new();
        let source = ElementType {
            name: String::from_str("videotestsrc"),
            kind: ElementKind::Source,
            caps: Caps::new_any(),
        };
        let filter = ElementType {
            name: String::from_str("capsfilter"),
            kind: ElementKind::Filter,
            caps: Caps::new_any(),
        };
        let sink = ElementType {
            name: String::from_str("autovideosink"),
            kind: ElementKind::Sink,
            caps: Caps::new_any(),
        };
        let ghost t0 = context@;
        proof {
            lemma_position_is(type_names(t0), source@.name, 0);
        }
        context.register(source);
        let ghost t1 = context@;
        proof {
            assert(type_names(t1)[0] == "videotestsrc"@);
            assert("videotestsrc"@.len() != "capsfilter"@.len());
            lemma_position_is(type_names(t1), filter@.name, 1);
        }
        context.register(filter);
        let ghost t2 = context@;
        proof {
            assert(type_names(t2)[0] == "videotestsrc"@);
            assert(type_names(t2)[1] == "capsfilter"@);
            assert("videotestsrc"@.len() != "autovideosink"@.len());
            assert("capsfilter"@.len() != "autovideosink"@.len());
            lemma_position_is(type_names(t2), sink@.name, 2);
        }
        context.register(sink);
        assert(context@ =~= standard_types());
        context
    }
}

/// The element types of the test pipeline.
pub open spec fn standard_types() -> Seq<ElementTypeModel> {
    seq![
        ElementTypeModel { name: "videotestsrc"@, kind: ElementKind::Source, caps: CapsModel::Any },
        ElementTypeModel { name: "capsfilter"@, kind: ElementKind::Filter, caps: CapsModel::Any },
        ElementTypeModel { name: "autovideosink"@, kind: ElementKind::Sink, caps: CapsModel::Any },
    ]
}

} // verus!
