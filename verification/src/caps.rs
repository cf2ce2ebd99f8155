//! Capability sets: the description of the data format that may flow, or
//! does flow, across a pad.

use vstd::prelude::*;
use crate::text::{push_signed_decimal, same_text, signed_decimal, texts};

verus! {

/// Value of one field of a structure.
#[derive(Debug, PartialEq, Eq)]
pub enum FieldValue {
    /// A whole number, such as a width in pixels.
    Int(i64),
    /// A fraction, numerator first, such as a frame rate.
    Fraction(i32, i32),
    /// Free text, such as the name of a pixel format.
    Text(String),
}

/// Mathematical model of a [`FieldValue`].
pub enum ValueModel {
    Int(int),
    Fraction(int, int),
    Text(Seq<char>),
}

/// Mathematical model of a [`Field`].
pub struct FieldModel {
    pub name: Seq<char>,
    pub value: ValueModel,
}

/// Mathematical model of a [`Structure`].
pub struct StructureModel {
    pub name: Seq<char>,
    pub fields: Seq<FieldModel>,
}

/// Mathematical model of a [`Caps`].
pub enum CapsModel {
    Any,
    Structures(Seq<StructureModel>),
}

/// How a value is written in a dump.
pub open spec fn value_text(value: ValueModel) -> Seq<char> {
    match value {
        ValueModel::Int(n) => signed_decimal(n),
        ValueModel::Fraction(n, d) => signed_decimal(n) + seq!['/'] + signed_decimal(d),
        ValueModel::Text(t) => t,
    }
}

/// The line of a dump that shows one field: name, colon, value.
pub open spec fn field_line(field: FieldModel) -> Seq<char> {
    field.name + seq![':'] + value_text(field.value)
}

/// The structure's name followed by the lines of its first `count` fields.
pub open spec fn structure_prefix(structure: StructureModel, count: int) -> Seq<Seq<char>> {
    seq![structure.name] + Seq::new(count as nat, |k: int| field_line(structure.fields[k]))
}

/// The lines that show one structure: its name, then one line per field in
/// the order in which the fields were declared.
pub open spec fn structure_lines(structure: StructureModel) -> Seq<Seq<char>> {
    structure_prefix(structure, structure.fields.len() as int)
}

/// The lines that show the first `count` structures of a list.
pub open spec fn lines_of(structures: Seq<StructureModel>, count: int) -> Seq<Seq<char>>
    decreases count,
{
    if count <= 0 {
        Seq::empty()
    } else {
        lines_of(structures, count - 1) + structure_lines(structures[count - 1])
    }
}

/// The line that stands for an unconstrained capability set.
pub open spec fn any_line() -> Seq<char> {
    seq!['A', 'N', 'Y']
}

/// The line that stands for a capability set that admits nothing.
pub open spec fn empty_line() -> Seq<char> {
    seq!['E', 'M', 'P', 'T', 'Y']
}

/// The whole dump of a capability set.
pub open spec fn dump_lines(caps: CapsModel) -> Seq<Seq<char>> {
    match caps {
        CapsModel::Any => seq![any_line()],
        CapsModel::Structures(structures) => if structures.len() == 0 {
            seq![empty_line()]
        } else {
            lines_of(structures, structures.len() as int)
        },
    }
}

/// Position of the first field called `name`, or the number of fields where
/// there is none.
pub open spec fn field_position(fields: Seq<FieldModel>, name: Seq<char>) -> int
    decreases fields.len(),
{
    if fields.len() == 0 {
        0
    } else if fields[0].name == name {
        0
    } else {
        1 + field_position(fields.drop_first(), name)
    }
}

/// No two fields carry the same name.
pub open spec fn distinct_field_names(fields: Seq<FieldModel>) -> bool {
    forall|i: int, j: int|
        #![trigger fields[i], fields[j]]
        0 <= i < j < fields.len() ==> fields[i].name != fields[j].name
}

/// Two structures describe a common format: they bear the same name, and a
/// field that both of them fix has the same value in both.
pub open spec fn structures_agree(left: StructureModel, right: StructureModel) -> bool {
    &&& left.name == right.name
    &&& forall|i: int, j: int|
        #![trigger left.fields[i], right.fields[j]]
        0 <= i < left.fields.len() && 0 <= j < right.fields.len() && left.fields[i].name
            == right.fields[j].name ==> left.fields[i].value == right.fields[j].value
}

/// Some structure of one list agrees with some structure of the other.
pub open spec fn some_pair_agrees(left: Seq<StructureModel>, right: Seq<StructureModel>) -> bool {
    exists|i: int, j: int|
        #![trigger left[i], right[j]]
        0 <= i < left.len() && 0 <= j < right.len() && structures_agree(left[i], right[j])
}

/// Two capability sets share at least one format.
pub open spec fn caps_intersect(left: CapsModel, right: CapsModel) -> bool {
    match (left, right) {
        (CapsModel::Any, CapsModel::Any) => true,
        (CapsModel::Any, CapsModel::Structures(r)) => r.len() > 0,
        (CapsModel::Structures(l), CapsModel::Any) => l.len() > 0,
        (CapsModel::Structures(l), CapsModel::Structures(r)) => some_pair_agrees(l, r),
    }
}

impl View for FieldValue {
    type V = ValueModel;

    open spec fn view(&self) -> ValueModel {
        match self {
            FieldValue::Int(n) => ValueModel::Int(*n as int),
            FieldValue::Fraction(n, d) => ValueModel::Fraction(*n as int, *d as int),
            FieldValue::Text(t) => ValueModel::Text(t@),
        }
    }
}

impl FieldValue {
    /// Tells whether two values are the same. Fractions are compared as
    /// written: numerator with numerator, denominator with denominator.
    pub fn same(&self, other: &FieldValue) -> (same: bool)
        ensures
            same == (self@ == other@),
    {
        match (self, other) {
            (FieldValue::Int(a), FieldValue::Int(b)) => *a == *b,
            (FieldValue::Fraction(an, ad), FieldValue::Fraction(bn, bd)) => *an == *bn && *ad
                == *bd,
            (FieldValue::Text(a), FieldValue::Text(b)) => same_text(a.as_str(), b.as_str()),
            _ => false,
        }
    }

    /// A copy of the value.
    pub fn duplicate(&self) -> (copy: FieldValue)
        ensures
            copy@ == self@,
    {
        match self {
            FieldValue::Int(n) => FieldValue::Int(*n),
            FieldValue::Fraction(n, d) => FieldValue::Fraction(*n, *d),
            FieldValue::Text(t) => FieldValue::Text(t.clone()),
        }
    }

    /// Appends the value, as a dump writes it, to `out`.
    pub fn push_text(&self, out: &mut String)
        ensures
            final(out)@ == old(out)@ + value_text(self@),
    {
        match self {
            FieldValue::Int(n) => {
                push_signed_decimal(out, *n);
            },
            FieldValue::Fraction(n, d) => {
                proof {
                    reveal_strlit("/");
                }
                push_signed_decimal(out, *n as i64);
                out.append("/");
                push_signed_decimal(out, *d as i64);
                assert(final(out)@ =~= old(out)@ + value_text(self@));
            },
            FieldValue::Text(t) => {
                out.append(t.as_str());
            },
        }
    }
}

/// A named value inside a structure.
#[derive(Debug, PartialEq, Eq)]
pub struct Field {
    pub name: String,
    pub value: FieldValue,
}

impl View for Field {
    type V = FieldModel;

    open spec fn view(&self) -> FieldModel {
        FieldModel { name: self.name@, value: self.value@ }
    }
}

impl Field {
    /// The line that shows this field in a dump.
    pub fn line(&self) -> (line: String)
        ensures
            line@ == field_line(self@),
    {
        proof {
            reveal_strlit(":");
        }
        let mut line = self.name.clone();
        line.append(":");
        self.value.push_text(&mut line);
        assert(line@ =~= field_line(self@));
        line
    }

    /// A copy of the field.
    pub fn duplicate(&self) -> (copy: Field)
        ensures
            copy@ == self@,
    {
        Field { name: self.name.clone(), value: self.value.duplicate() }
    }
}

/// The models of a list of fields, in order.
pub open spec fn field_models(fields: Seq<Field>) -> Seq<FieldModel> {
    fields.map_values(|f: Field| f@)
}

/// One format: a media type name and the fields that constrain it.
#[derive(Debug, PartialEq, Eq)]
pub struct Structure {
    pub name: String,
    pub fields: Vec<Field>,
}

impl View for Structure {
    type V = StructureModel;

    open spec fn view(&self) -> StructureModel {
        StructureModel { name: self.name@, fields: field_models(self.fields@) }
    }
}

/// Where `field_position` points at a field, that field has the name looked
/// for and no earlier one has; where it points past the end, no field has.
pub proof fn lemma_field_position(fields: Seq<FieldModel>, name: Seq<char>)
    ensures
        0 <= field_position(fields, name) <= fields.len(),
        field_position(fields, name) < fields.len() ==> fields[field_position(
            fields,
            name,
        )].name == name,
        forall|k: int|
            0 <= k < field_position(fields, name) ==> (#[trigger] fields[k]).name != name,
    decreases fields.len(),
{
    if fields.len() > 0 && fields[0].name != name {
        let rest = fields.drop_first();
        lemma_field_position(rest, name);
        assert forall|k: int| 0 <= k < field_position(fields, name) implies (#[trigger] fields[k]).name
            != name by {
            if k > 0 {
                assert(fields[k] == rest[k - 1]);
            }
        }
    }
}

/// A position whose field has the name looked for, with no such field before
/// it, is the one that `field_position` gives; so is the length, where no
/// field has the name.
pub proof fn lemma_field_position_is(fields: Seq<FieldModel>, name: Seq<char>, at: int)
    requires
        0 <= at <= fields.len(),
        at < fields.len() ==> fields[at].name == name,
        forall|k: int| 0 <= k < at ==> (#[trigger] fields[k]).name != name,
    ensures
        field_position(fields, name) == at,
{
    lemma_field_position(fields, name);
    let found = field_position(fields, name);
    if found < at {
        assert(fields[found].name == name);
    } else if found > at {
        assert(fields[at].name == name);
    }
}

impl Structure {
    /// A structure with the given name and no field.
    pub fn new(name: &str) -> (structure: Structure)
        ensures
            structure@ == (StructureModel { name: name@, fields: Seq::empty() }),
    {
        let structure = Structure { name: String::from_str(name), fields: Vec::new() };
        assert(structure@.fields =~= Seq::empty());
        structure
    }

    /// Position of the first field called `name`, or the number of fields
    /// where there is none.
    pub fn position(&self, name: &str) -> (at: usize)
        ensures
            at == field_position(self@.fields, name@),
    {
        let mut i: usize = 0;
        while i < self.fields.len()
            invariant
                0 <= i <= self.fields.len(),
                forall|k: int| 0 <= k < i ==> (#[trigger] self@.fields[k]).name != name@,
            decreases self.fields.len() - i,
        {
            if same_text(self.fields[i].name.as_str(), name) {
                proof {
                    lemma_field_position_is(self@.fields, name@, i as int);
                }
                return i;
            }
            i += 1;
        }
        proof {
            lemma_field_position_is(self@.fields, name@, i as int);
        }
        i
    }

    /// The value of the field called `name`, where there is one.
    pub fn get(&self, name: &str) -> (value: Option<&FieldValue>)
        ensures
            field_position(self@.fields, name@) == self@.fields.len() <==> value.is_none(),
            value.is_some() ==> value.unwrap()@ == self@.fields[field_position(
                self@.fields,
                name@,
            )].value,
    {
        let at = self.position(name);
        proof {
            lemma_field_position(self@.fields, name@);
        }
        if at < self.fields.len() {
            assert(self.fields@[at as int]@ == self@.fields[at as int]);
            Some(&self.fields[at].value)
        } else {
            None
        }
    }

    /// Gives the field called `name` the value `value`. A field that exists
    /// keeps its place; a new one is added after the others.
    pub fn set(&mut self, name: &str, value: FieldValue)
        ensures
            final(self)@.name == old(self)@.name,
            field_position(old(self)@.fields, name@) < old(self)@.fields.len() ==> final(self)@.fields
                == old(self)@.fields.update(
                field_position(old(self)@.fields, name@),
                FieldModel { name: name@, value: value@ },
            ),
            field_position(old(self)@.fields, name@) == old(self)@.fields.len() ==> final(self)@.fields
                == old(self)@.fields.push(FieldModel { name: name@, value: value@ }),
            distinct_field_names(old(self)@.fields) ==> distinct_field_names(final(self)@.fields),
    {
        let at = self.position(name);
        proof {
            lemma_field_position(self@.fields, name@);
        }
        let field = Field { name: String::from_str(name), value };
        if at < self.fields.len() {
            self.fields.set(at, field);
            assert(self@.fields =~= old(self)@.fields.update(
                at as int,
                FieldModel { name: name@, value: value@ },
            ));
        } else {
            self.fields.push(field);
            assert(self@.fields =~= old(self)@.fields.push(
                FieldModel { name: name@, value: value@ },
            ));
        }
    }

    /// A copy of the structure.
    pub fn duplicate(&self) -> (copy: Structure)
        ensures
            copy@ == self@,
    {
        let mut fields: Vec<Field> = Vec::new();
        let mut i: usize = 0;
        while i < self.fields.len()
            invariant
                0 <= i <= self.fields.len(),
                fields@.len() == i,
                forall|k: int| 0 <= k < i ==> (#[trigger] fields@[k])@ == self.fields@[k]@,
            decreases self.fields.len() - i,
        {
            fields.push(self.fields[i].duplicate());
            i += 1;
        }
        let copy = Structure { name: self.name.clone(), fields };
        assert(copy@.fields =~= self@.fields);
        copy
    }

    /// Tells whether this structure and `other` describe a common format.
    pub fn agrees_with(&self, other: &Structure) -> (agree: bool)
        ensures
            agree == structures_agree(self@, other@),
    {
        if !same_text(self.name.as_str(), other.name.as_str()) {
            return false;
        }
        let mut i: usize = 0;
        while i < self.fields.len()
            invariant
                0 <= i <= self.fields.len(),
                self@.name == other@.name,
                forall|a: int, b: int|
                    #![trigger self@.fields[a], other@.fields[b]]
                    0 <= a < i && 0 <= b < other@.fields.len() && self@.fields[a].name
                        == other@.fields[b].name ==> self@.fields[a].value
                        == other@.fields[b].value,
            decreases self.fields.len() - i,
        {
            let mut j: usize = 0;
            while j < other.fields.len()
                invariant
                    0 <= i < self.fields.len(),
                    0 <= j <= other.fields.len(),
                    self@.name == other@.name,
                    forall|a: int, b: int|
                        #![trigger self@.fields[a], other@.fields[b]]
                        0 <= a < i && 0 <= b < other@.fields.len() && self@.fields[a].name
                            == other@.fields[b].name ==> self@.fields[a].value
                            == other@.fields[b].value,
                    forall|b: int|
                        #![trigger other@.fields[b]]
                        0 <= b < j && self@.fields[i as int].name == other@.fields[b].name
                            ==> self@.fields[i as int].value == other@.fields[b].value,
                decreases other.fields.len() - j,
            {
                let mine = &self.fields[i];
                let theirs = &other.fields[j];
                assert(mine@ == self@.fields[i as int]);
                assert(theirs@ == other@.fields[j as int]);
                if same_text(mine.name.as_str(), theirs.name.as_str()) && !mine.value.same(
                    &theirs.value,
                ) {
                    return false;
                }
                j += 1;
            }
            i += 1;
        }
        true
    }
}

/// The models of a list of structures, in order.
pub open spec fn structure_models(structures: Seq<Structure>) -> Seq<StructureModel> {
    structures.map_values(|s: Structure| s@)
}

/// A capability set: either unconstrained, or a list of admitted formats.
/// An empty list admits nothing.
#[derive(Debug, PartialEq, Eq)]
pub enum Caps {
    Any,
    Structures(Vec<Structure>),
}

impl View for Caps {
    type V = CapsModel;

    open spec fn view(&self) -> CapsModel {
        match self {
            Caps::Any => CapsModel::Any,
            Caps::Structures(list) => CapsModel::Structures(structure_models(list@)),
        }
    }
}

impl Caps {
    /// The unconstrained capability set.
    pub fn new_any() -> (caps: Caps)
        ensures
            caps@ == CapsModel::Any,
    {
        Caps::Any
    }

    /// The capability set that admits nothing.
    pub fn new_empty() -> (caps: Caps)
        ensures
            caps@ == CapsModel::Structures(Seq::empty()),
    {
        let caps = Caps::Structures(Vec::new());
        assert(caps@->Structures_0 =~= Seq::empty());
        caps
    }

    /// The capability set that admits exactly the given format.
    pub fn from_structure(structure: Structure) -> (caps: Caps)
        ensures
            caps@ == CapsModel::Structures(seq![structure@]),
    {
        let mut list: Vec<Structure> = Vec::new();
        list.push(structure);
        let caps = Caps::Structures(list);
        assert(caps@->Structures_0 =~= seq![structure@]);
        caps
    }

    /// Tells whether the set is unconstrained.
    pub fn is_any(&self) -> (any: bool)
        ensures
            any == (self@ == CapsModel::Any),
    {
        match self {
            Caps::Any => true,
            Caps::Structures(_) => false,
        }
    }

    /// Tells whether the set admits nothing.
    pub fn is_empty(&self) -> (empty: bool)
        ensures
            empty == (self@ == CapsModel::Structures(Seq::empty())),
    {
        match self {
            Caps::Any => false,
            Caps::Structures(list) => {
                assert(structure_models(list@).len() == list@.len());
                assert(list@.len() == 0 ==> structure_models(list@) =~= Seq::empty());
                list.len() == 0
            },
        }
    }

    /// A copy of the capability set.
    pub fn duplicate(&self) -> (copy: Caps)
        ensures
            copy@ == self@,
    {
        match self {
            Caps::Any => Caps::Any,
            Caps::Structures(list) => {
                let mut copies: Vec<Structure> = Vec::new();
                let mut i: usize = 0;
                while i < list.len()
                    invariant
                        0 <= i <= list.len(),
                        copies@.len() == i,
                        forall|k: int| 0 <= k < i ==> (#[trigger] copies@[k])@ == list@[k]@,
                    decreases list.len() - i,
                {
                    copies.push(list[i].duplicate());
                    i += 1;
                }
                let copy = Caps::Structures(copies);
                assert(copy@->Structures_0 =~= self@->Structures_0);
                copy
            },
        }
    }

    /// Tells whether this set and `other` share at least one format.
    pub fn can_intersect(&self, other: &Caps) -> (shared: bool)
        ensures
            shared == caps_intersect(self@, other@),
    {
        match self {
            Caps::Any => match other {
                Caps::Any => true,
                Caps::Structures(r) => {
                    assert(structure_models(r@).len() == r@.len());
                    r.len() > 0
                },
            },
            Caps::Structures(l) => match other {
                Caps::Any => {
                    assert(structure_models(l@).len() == l@.len());
                    l.len() > 0
                },
                Caps::Structures(r) => Self::lists_intersect(l, r),
            },
        }
    }

    fn lists_intersect(l: &Vec<Structure>, r: &Vec<Structure>) -> (shared: bool)
        ensures
            shared == some_pair_agrees(structure_models(l@), structure_models(r@)),
    {
        let ghost left = structure_models(l@);
        let ghost right = structure_models(r@);
        let mut i: usize = 0;
        while i < l.len()
            invariant
                0 <= i <= l.len(),
                left == structure_models(l@),
                right == structure_models(r@),
                forall|a: int, b: int|
                    #![trigger left[a], right[b]]
                    0 <= a < i && 0 <= b < right.len() ==> !structures_agree(left[a], right[b]),
            decreases l.len() - i,
        {
            let mut j: usize = 0;
            while j < r.len()
                invariant
                    0 <= i < l.len(),
                    0 <= j <= r.len(),
                    left == structure_models(l@),
                    right == structure_models(r@),
                    forall|a: int, b: int|
                        #![trigger left[a], right[b]]
                        0 <= a < i && 0 <= b < right.len() ==> !structures_agree(
                            left[a],
                            right[b],
                        ),
                    forall|b: int|
                        #![trigger right[b]]
                        0 <= b < j ==> !structures_agree(left[i as int], right[b]),
                decreases r.len() - j,
            {
                assert(l@[i as int]@ == left[i as int]);
                assert(r@[j as int]@ == right[j as int]);
                if l[i].agrees_with(&r[j]) {
                    assert(structures_agree(left[i as int], right[j as int]));
                    return true;
                }
                j += 1;
            }
            i += 1;
        }
        false
    }

    /// The dump of the capability set, line by line: `ANY` for the
    /// unconstrained set, `EMPTY` for the one that admits nothing, else for
    /// each structure its name followed by one `field:value` line per
    /// field, in the order of declaration.
    pub fn dump(&self) -> (lines: Vec<String>)
        ensures
            texts(lines@) == dump_lines(self@),
    {
        let mut lines: Vec<String> = Vec::new();
        match self {
            Caps::Any => {
                proof {
                    reveal_strlit("ANY");
                }
                lines.push(String::from_str("ANY"));
                assert(lines@[0]@ =~= any_line());
                assert(texts(lines@) =~= seq![any_line()]);
            },
            Caps::Structures(list) => {
                if list.len() == 0 {
                    proof {
                        reveal_strlit("EMPTY");
                    }
                    lines.push(String::from_str("EMPTY"));
                    assert(lines@[0]@ =~= empty_line());
                    assert(texts(lines@) =~= seq![empty_line()]);
                } else {
                    let ghost models = structure_models(list@);
                    let mut i: usize = 0;
                    assert(texts(lines@) =~= lines_of(models, 0));
                    while i < list.len()
                        invariant
                            0 <= i <= list.len(),
                            models == structure_models(list@),
                            texts(lines@) == lines_of(models, i as int),
                        decreases list.len() - i,
                    {
                        let structure = &list[i];
                        assert(structure@ == models[i as int]);
                        lines.push(structure.name.clone());
                        assert(texts(lines@) =~= lines_of(models, i as int) + structure_prefix(
                            structure@,
                            0,
                        ));
                        let mut j: usize = 0;
                        while j < structure.fields.len()
                            invariant
                                0 <= j <= structure.fields.len(),
                                texts(lines@) == lines_of(models, i as int) + structure_prefix(
                                    structure@,
                                    j as int,
                                ),
                            decreases structure.fields.len() - j,
                        {
                            let field = &structure.fields[j];
                            assert(field@ == structure@.fields[j as int]);
                            let ghost before = texts(lines@);
                            lines.push(field.line());
                            assert(texts(lines@) =~= before.push(
                                field_line(structure@.fields[j as int]),
                            ));
                            assert(structure_prefix(structure@, j + 1) =~= structure_prefix(
                                structure@,
                                j as int,
                            ).push(field_line(structure@.fields[j as int])));
                            assert(texts(lines@) =~= lines_of(models, i as int) + structure_prefix(
                                structure@,
                                j + 1,
                            ));
                            j += 1;
                        }
                        assert(structure@.fields.len() == structure.fields@.len());
                        assert(texts(lines@) == lines_of(models, i + 1));
                        i += 1;
                    }
                }
            },
        }
        lines
    }
}

/// The dump of a capability set with a single structure has one line for the
/// structure's name and after it one line for each field, each field once,
/// in the order of declaration.
pub proof fn lemma_dump_of_one_structure(structure: StructureModel)
    ensures
        dump_lines(CapsModel::Structures(seq![structure])).len() == structure.fields.len() + 1,
        dump_lines(CapsModel::Structures(seq![structure]))[0] == structure.name,
        forall|k: int|
            0 <= k < structure.fields.len() ==> #[trigger] dump_lines(
                CapsModel::Structures(seq![structure]),
            )[k + 1] == field_line(structure.fields[k]),
{
    let list = seq![structure];
    assert(lines_of(list, 0) =~= Seq::empty());
    assert(lines_of(list, 1) =~= structure_lines(structure));
}

/// The dump of a list of structures has one line for each structure and one
/// for each field of each of them.
pub open spec fn line_count(structures: Seq<StructureModel>, count: int) -> int
    decreases count,
{
    if count <= 0 {
        0
    } else {
        line_count(structures, count - 1) + 1 + structures[count - 1].fields.len()
    }
}

/// The dump of the first `count` structures has `line_count` lines.
pub proof fn lemma_lines_of_len(structures: Seq<StructureModel>, count: int)
    requires
        0 <= count,
    ensures
        lines_of(structures, count).len() == line_count(structures, count),
    decreases count,
{
    if count > 0 {
        lemma_lines_of_len(structures, count - 1);
    }
}

/// In the dump of a list of structures the lines of each structure follow
/// those of the structures before it: the name of structure `at` stands at
/// the line whose number is the count of the lines before it, and its
/// fields follow, each once, in the order of declaration.
pub proof fn lemma_dump_layout(structures: Seq<StructureModel>, count: int, at: int)
    requires
        0 <= at < count,
    ensures
        0 <= line_count(structures, at),
        line_count(structures, at) + 1 + structures[at].fields.len() <= lines_of(
            structures,
            count,
        ).len(),
        lines_of(structures, count)[line_count(structures, at)] == structures[at].name,
        forall|k: int|
            #![trigger structures[at].fields[k]]
            0 <= k < structures[at].fields.len() ==> lines_of(structures, count)[line_count(
                structures,
                at,
            ) + 1 + k] == field_line(structures[at].fields[k]),
    decreases count,
{
    let before = lines_of(structures, count - 1);
    let last = structure_lines(structures[count - 1]);
    lemma_lines_of_len(structures, count - 1);
    lemma_lines_of_len(structures, count);
    lemma_line_count_grows(structures, at, count - 1);
    assert(lines_of(structures, count) == before + last);
    if at == count - 1 {
        assert((before + last)[before.len() as int] == last[0]);
        assert forall|k: int|
            #![trigger structures[at].fields[k]]
            0 <= k < structures[at].fields.len() implies (before + last)[before.len() + 1 + k]
            == field_line(structures[at].fields[k]) by {
            assert((before + last)[before.len() + 1 + k] == last[1 + k]);
        }
    } else {
        lemma_dump_layout(structures, count - 1, at);
        let start = line_count(structures, at);
        assert((before + last)[start] == before[start]);
        assert forall|k: int|
            #![trigger structures[at].fields[k]]
            0 <= k < structures[at].fields.len() implies (before + last)[start + 1 + k]
            == field_line(structures[at].fields[k]) by {
            assert((before + last)[start + 1 + k] == before[start + 1 + k]);
        }
    }
}

/// The count of lines does not shrink as structures are added.
pub proof fn lemma_line_count_grows(structures: Seq<StructureModel>, fewer: int, more: int)
    requires
        0 <= fewer <= more,
    ensures
        0 <= line_count(structures, fewer) <= line_count(structures, more),
    decreases more,
{
    if fewer < more {
        lemma_line_count_grows(structures, fewer, more - 1);
    } else if more > 0 {
        lemma_line_count_grows(structures, fewer - 1, more - 1);
    }
}

/// The capability set of raw video of a given size and frame rate: the
/// structure `video/x-raw` with the fields `width`, `height` and
/// `framerate`, in that order.
pub fn video_caps(width: i32, height: i32, rate_numerator: i32, rate_denominator: i32) -> (caps:
    Caps)
    ensures
        caps@ == video_caps_model(
            width as int,
            height as int,
            rate_numerator as int,
            rate_denominator as int,
        ),
{
    let mut structure = Structure::new("video/x-raw");
    let ghost f0 = structure@.fields;
    proof {
        reveal_strlit("width");
        reveal_strlit("height");
        reveal_strlit("framerate");
        lemma_field_position_is(f0, "width"@, 0);
    }
    structure.set("width", FieldValue::Int(width as i64));
    let ghost f1 = structure@.fields;
    proof {
        assert(f1.len() == 1 && f1[0].name == "width"@);
        assert("width"@.len() != "height"@.len());
        lemma_field_position_is(f1, "height"@, 1);
    }
    structure.set("height", FieldValue::Int(height as i64));
    let ghost f2 = structure@.fields;
    proof {
        assert(f2.len() == 2 && f2[0].name == "width"@ && f2[1].name == "height"@);
        assert("width"@.len() != "framerate"@.len());
        assert("height"@.len() != "framerate"@.len());
        lemma_field_position_is(f2, "framerate"@, 2);
    }
    structure.set("framerate", FieldValue::Fraction(rate_numerator, rate_denominator));
    assert(structure@.fields =~= video_caps_model(
        width as int,
        height as int,
        rate_numerator as int,
        rate_denominator as int,
    )->Structures_0[0].fields);
    Caps::from_structure(structure)
}

/// Model of the capability set that [`video_caps`] builds.
pub open spec fn video_caps_model(
    width: int,
    height: int,
    rate_numerator: int,
    rate_denominator: int,
) -> CapsModel {
    CapsModel::Structures(
        seq![
            StructureModel {
                name: "video/x-raw"@,
                fields: seq![
                    FieldModel { name: "width"@, value: ValueModel::Int(width) },
                    FieldModel { name: "height"@, value: ValueModel::Int(height) },
                    FieldModel {
                        name: "framerate"@,
                        value: ValueModel::Fraction(rate_numerator, rate_denominator),
                    },
                ],
            },
        ],
    )
}

} // verus!
