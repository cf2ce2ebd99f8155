//! Textual pipeline descriptions: element segments separated by `!`, each a
//! type name followed by `key=value` properties.

use vstd::prelude::*;
use crate::element::{
    DescriptorModel,
    ElementDescriptor,
    Property,
    PropertyModel,
    PropertyValue,
    PropertyValueModel,
    descriptor_models,
    property_models,
};
use crate::error::{ErrorModel, PipelineError, optional_text};
use crate::pipeline::{
    Pipeline,
    PipelineModel,
    build,
    build_outcome,
    lemma_first_unknown,
    outcome_model,
};
use crate::registry::{Context, ElementTypeModel, type_known};
use crate::text::{
    decimal,
    find_text,
    lemma_position_from,
    position_of,
    push_decimal,
    same_text,
    texts,
};

verus! {

/// Position of the first `mark` in `text`, from `start` on; the length of
/// the text where there is none.
pub open spec fn mark_position_from(text: Seq<char>, mark: char, start: int) -> int
    decreases text.len() - start,
{
    if start >= text.len() {
        text.len() as int
    } else if text[start] == mark {
        start
    } else {
        mark_position_from(text, mark, start + 1)
    }
}

/// Position of the first `mark` in `text`; the length of the text where
/// there is none.
pub open spec fn mark_position(text: Seq<char>, mark: char) -> int {
    mark_position_from(text, mark, 0)
}

/// The pieces that `mark` cuts `text` into, in order. A text without the
/// mark is one piece; a mark at either end, or two marks in a row, leave an
/// empty piece.
pub open spec fn split(text: Seq<char>, mark: char) -> Seq<Seq<char>>
    decreases text.len(),
{
    if text.len() == 0 {
        seq![Seq::empty()]
    } else {
        let before = split(text.drop_last(), mark);
        if text.last() == mark {
            before.push(Seq::empty())
        } else {
            before.update(before.len() - 1, before.last().push(text.last()))
        }
    }
}

/// Those of the first `count` pieces that are not empty, in order.
pub open spec fn nonempty_of(pieces: Seq<Seq<char>>, count: int) -> Seq<Seq<char>>
    decreases count,
{
    if count <= 0 {
        Seq::empty()
    } else if pieces[count - 1].len() > 0 {
        nonempty_of(pieces, count - 1).push(pieces[count - 1])
    } else {
        nonempty_of(pieces, count - 1)
    }
}

/// The words of a segment: what stands between its spaces.
pub open spec fn words(segment: Seq<char>) -> Seq<Seq<char>> {
    nonempty_of(split(segment, ' '), split(segment, ' ').len() as int)
}

/// The word has the form `key=value`, with a key that is not empty.
pub open spec fn is_assignment(word: Seq<char>) -> bool {
    0 < mark_position(word, '=') < word.len()
}

/// The property that a word of the form `key=value` stands for. The value
/// is text, and runs to the end of the word.
pub open spec fn property_of(word: Seq<char>) -> PropertyModel {
    PropertyModel {
        name: word.subrange(0, mark_position(word, '=')),
        value: PropertyValueModel::Text(
            word.subrange(mark_position(word, '=') + 1, word.len() as int),
        ),
    }
}

/// The words describe an element: a type name without `=`, then nothing
/// but assignments.
pub open spec fn segment_valid(words: Seq<Seq<char>>) -> bool {
    &&& words.len() > 0
    &&& mark_position(words[0], '=') == words[0].len()
    &&& forall|k: int| 1 <= k < words.len() ==> is_assignment(#[trigger] words[k])
}

/// The properties that the words after the first stand for, in order.
pub open spec fn properties_of(words: Seq<Seq<char>>) -> Seq<PropertyModel> {
    Seq::new((words.len() - 1) as nat, |k: int| property_of(words[k + 1]))
}

/// The name of the property that names the instance.
pub open spec fn name_key() -> Seq<char> {
    seq!['n', 'a', 'm', 'e']
}

/// The text of the first property, from `start` on, that is called `name`
/// and holds text.
pub open spec fn name_property_from(properties: Seq<PropertyModel>, start: int) -> Option<
    Seq<char>,
>
    decreases properties.len() - start,
{
    if start >= properties.len() {
        None
    } else if properties[start].name == name_key() && properties[start].value is Text {
        Some(properties[start].value->Text_0)
    } else {
        name_property_from(properties, start + 1)
    }
}

/// The descriptor that the words of the segment at position `index` stand
/// for. The instance is named by its `name` property; without one, by the
/// type name followed by the segment's position.
pub open spec fn descriptor_of(words: Seq<Seq<char>>, index: int) -> DescriptorModel {
    let properties = properties_of(words);
    DescriptorModel {
        factory: words[0],
        name: match name_property_from(properties, 0) {
            Some(name) => name,
            None => words[0] + decimal(index as nat),
        },
        properties,
    }
}

/// The descriptors that the segments stand for, in order.
pub open spec fn descriptors_of(segments: Seq<Seq<char>>) -> Seq<DescriptorModel> {
    Seq::new(segments.len(), |k: int| descriptor_of(words(segments[k]), k))
}

/// Every segment describes an element.
pub open spec fn segments_valid(segments: Seq<Seq<char>>) -> bool {
    forall|k: int| 0 <= k < segments.len() ==> segment_valid(words(#[trigger] segments[k]))
}

/// The type name that a segment begins with: its first word, where the
/// segment has a word and that word is no assignment.
pub open spec fn factory_of(words: Seq<Seq<char>>) -> Option<Seq<char>> {
    if words.len() > 0 && mark_position(words[0], '=') == words[0].len() {
        Some(words[0])
    } else {
        None
    }
}

/// For each segment, the type name that it begins with, if it begins with
/// one.
pub open spec fn named_types(segments: Seq<Seq<char>>) -> Seq<Option<Seq<char>>> {
    Seq::new(segments.len(), |k: int| factory_of(words(segments[k])))
}

/// The type names, among the first `count` of `names`, that are not
/// available: each once, in the order in which they first occur.
pub open spec fn missing_types(
    types: Seq<ElementTypeModel>,
    names: Seq<Option<Seq<char>>>,
    count: int,
) -> Seq<Seq<char>>
    decreases count,
{
    if count <= 0 {
        Seq::empty()
    } else {
        let before = missing_types(types, names, count - 1);
        match names[count - 1] {
            Some(name) => if type_known(types, name) || position_of(before, name) < before.len() {
                before
            } else {
                before.push(name)
            },
            None => before,
        }
    }
}

/// What parsing a description ends in. The type names that its segments
/// begin with are looked up first, in every segment, whether the rest of
/// the segment is well formed or not: where some are not available, the
/// description fails with the list of those types. Else a description
/// with a segment that does not describe an element is malformed, and
/// fails with an empty list. Else it gives one descriptor for each
/// segment.
pub open spec fn parse_outcome(types: Seq<ElementTypeModel>, text: Seq<char>) -> Result<
    Seq<DescriptorModel>,
    ErrorModel,
> {
    let segments = split(text, '!');
    let missing = missing_types(types, named_types(segments), segments.len() as int);
    if missing.len() > 0 {
        Err(ErrorModel::ParseError { missing_elements: missing })
    } else if !segments_valid(segments) {
        Err(ErrorModel::ParseError { missing_elements: Seq::empty() })
    } else {
        Ok(descriptors_of(segments))
    }
}

/// What parsing a description and assembling the pipeline that it
/// describes ends in.
pub open spec fn launch_outcome(types: Seq<ElementTypeModel>, text: Seq<char>) -> Result<
    PipelineModel,
    ErrorModel,
> {
    match parse_outcome(types, text) {
        Ok(descriptors) => build_outcome(types, descriptors),
        Err(error) => Err(error),
    }
}

/// The list of missing types names each type that is not available, and no
/// type that is; it names no type twice; and each of its entries is one of
/// the names given.
pub proof fn lemma_missing_types(
    types: Seq<ElementTypeModel>,
    names: Seq<Option<Seq<char>>>,
    count: int,
)
    requires
        0 <= count <= names.len(),
    ensures
        missing_types(types, names, count).no_duplicates(),
        forall|k: int|
            0 <= k < count && (#[trigger] names[k]) is Some && !type_known(types, names[k]->Some_0)
                ==> missing_types(types, names, count).contains(names[k]->Some_0),
        forall|m: int|
            0 <= m < missing_types(types, names, count).len() ==> {
                &&& !type_known(types, #[trigger] missing_types(types, names, count)[m])
                &&& exists|k: int|
                    0 <= k < count && #[trigger] names[k] == Some(
                        missing_types(types, names, count)[m],
                    )
            },
    decreases count,
{
    if count > 0 {
        lemma_missing_types(types, names, count - 1);
        let before = missing_types(types, names, count - 1);
        let after = missing_types(types, names, count);
        match names[count - 1] {
            None => {
                assert(after == before);
                assert forall|m: int| 0 <= m < after.len() implies {
                    &&& !type_known(types, #[trigger] after[m])
                    &&& exists|k: int| 0 <= k < count && #[trigger] names[k] == Some(after[m])
                } by {
                    let k = choose|k: int| 0 <= k < count - 1 && #[trigger] names[k] == Some(before[m]);
                    assert(names[k] == Some(after[m]));
                }
            },
            Some(name) => {
                lemma_position_from(before, name, 0);
                if type_known(types, name) || position_of(before, name) < before.len() {
                    assert(after == before);
                    if !type_known(types, name) {
                        assert(before[position_of(before, name)] == name);
                        assert(before.contains(name));
                    }
                    assert forall|m: int| 0 <= m < after.len() implies {
                        &&& !type_known(types, #[trigger] after[m])
                        &&& exists|k: int| 0 <= k < count && #[trigger] names[k] == Some(after[m])
                    } by {
                        let k = choose|k: int|
                            0 <= k < count - 1 && #[trigger] names[k] == Some(before[m]);
                        assert(names[k] == Some(after[m]));
                    }
                } else {
                    assert(after == before.push(name));
                    assert(!before.contains(name)) by {
                        if before.contains(name) {
                            let w = choose|w: int| 0 <= w < before.len() && before[w] == name;
                            assert(before[w] != name);
                        }
                    }
                    assert(after.no_duplicates()) by {
                        assert forall|i: int, j: int|
                            0 <= i < after.len() && 0 <= j < after.len() && i != j implies after[i]
                            != after[j] by {
                            if i < before.len() && j < before.len() {
                                assert(before[i] != before[j]);
                            } else if i < before.len() {
                                assert(before[i] != name);
                            } else {
                                assert(before[j] != name);
                            }
                        }
                    }
                    assert forall|k: int|
                        0 <= k < count && (#[trigger] names[k]) is Some && !type_known(
                            types,
                            names[k]->Some_0,
                        ) implies after.contains(names[k]->Some_0) by {
                        if k < count - 1 {
                            let w = choose|w: int|
                                0 <= w < before.len() && before[w] == names[k]->Some_0;
                            assert(after[w] == names[k]->Some_0);
                        } else {
                            assert(after[before.len() as int] == name);
                        }
                    }
                    assert forall|m: int| 0 <= m < after.len() implies {
                        &&& !type_known(types, #[trigger] after[m])
                        &&& exists|k: int| 0 <= k < count && #[trigger] names[k] == Some(after[m])
                    } by {
                        if m < before.len() {
                            assert(after[m] == before[m]);
                            let k = choose|k: int|
                                0 <= k < count - 1 && #[trigger] names[k] == Some(before[m]);
                            assert(names[k] == Some(after[m]));
                        } else {
                            assert(names[count - 1] == Some(after[m]));
                        }
                    }
                }
            },
        }
    }
}

/// A description with a segment that begins with the name of a type that
/// is not available fails, whatever else it holds, with a list of missing
/// types that holds that type exactly once, and holds no type that is
/// available.
pub proof fn lemma_missing_type_reported_once(
    types: Seq<ElementTypeModel>,
    text: Seq<char>,
    at: int,
)
    requires
        0 <= at < split(text, '!').len(),
        factory_of(words(split(text, '!')[at])) is Some,
        !type_known(types, factory_of(words(split(text, '!')[at]))->Some_0),
    ensures
        parse_outcome(types, text) is Err,
        parse_outcome(types, text)->Err_0 is ParseError,
        parse_outcome(types, text)->Err_0->missing_elements.contains(
            factory_of(words(split(text, '!')[at]))->Some_0,
        ),
        parse_outcome(types, text)->Err_0->missing_elements.no_duplicates(),
        forall|m: int|
            0 <= m < parse_outcome(types, text)->Err_0->missing_elements.len() ==> !type_known(
                types,
                #[trigger] parse_outcome(types, text)->Err_0->missing_elements[m],
            ),
        launch_outcome(types, text) == Err::<PipelineModel, ErrorModel>(
            parse_outcome(types, text)->Err_0,
        ),
{
    let segments = split(text, '!');
    let names = named_types(segments);
    lemma_missing_types(types, names, names.len() as int);
    let missing = missing_types(types, names, names.len() as int);
    assert(names[at] == factory_of(words(segments[at])));
    assert(missing.contains(names[at]->Some_0));
    let w = choose|w: int| 0 <= w < missing.len() && missing[w] == names[at]->Some_0;
    assert(missing.len() > 0);
}

/// A description that parses gives descriptors whose types are all
/// available: assembling them does not fail for want of a type.
pub proof fn lemma_parsed_types_are_known(types: Seq<ElementTypeModel>, text: Seq<char>)
    requires
        parse_outcome(types, text) is Ok,
    ensures
        forall|k: int|
            0 <= k < parse_outcome(types, text)->Ok_0.len() ==> type_known(
                types,
                (#[trigger] parse_outcome(types, text)->Ok_0[k]).factory,
            ),
        !(launch_outcome(types, text) is Err && launch_outcome(types, text)->Err_0
            is ElementNotFound),
{
    let segments = split(text, '!');
    let names = named_types(segments);
    let descriptors = descriptors_of(segments);
    lemma_missing_types(types, names, names.len() as int);
    let missing = missing_types(types, names, names.len() as int);
    assert forall|k: int| 0 <= k < descriptors.len() implies type_known(
        types,
        (#[trigger] descriptors[k]).factory,
    ) by {
        assert(segment_valid(words(segments[k])));
        assert(names[k] == Some(descriptors[k].factory));
        if !type_known(types, descriptors[k].factory) {
            assert(missing.contains(names[k]->Some_0));
            let w = choose|w: int| 0 <= w < missing.len() && missing[w] == names[k]->Some_0;
            assert(missing.len() > 0);
        }
    }
    lemma_first_unknown(types, descriptors, 0);
}

/// Position of the first `mark` in `text`; the length of the text where
/// there is none.
pub fn find_mark(text: &str, mark: char) -> (at: usize)
    ensures
        at == mark_position(text@, mark),
        at <= text@.len(),
{
    let n = text.unicode_len();
    let mut i: usize = 0;
    while i < n
        invariant
            0 <= i <= n,
            n == text@.len(),
            mark_position_from(text@, mark, i as int) == mark_position_from(text@, mark, 0),
        decreases n - i,
    {
        if text.get_char(i) == mark {
            return i;
        }
        i += 1;
    }
    n
}

/// Cuts `text` at each `mark`.
pub fn split_text(text: &str, mark: char) -> (pieces: Vec<String>)
    ensures
        texts(pieces@) == split(text@, mark),
{
    let n = text.unicode_len();
    let mut pieces: Vec<String> = Vec::new();
    let mut start: usize = 0;
    let mut i: usize = 0;
    assert(text@.subrange(0, 0) =~= Seq::<char>::empty());
    assert(split(text@.subrange(0, 0), mark) =~= texts(pieces@).push(text@.subrange(0, 0)));
    while i < n
        invariant
            0 <= start <= i <= n,
            n == text@.len(),
            split(text@.subrange(0, i as int), mark) == texts(pieces@).push(
                text@.subrange(start as int, i as int),
            ),
        decreases n - i,
    {
        let c = text.get_char(i);
        let ghost shorter = text@.subrange(0, i as int);
        let ghost longer = text@.subrange(0, i + 1);
        let ghost done = texts(pieces@);
        let ghost current = text@.subrange(start as int, i as int);
        proof {
            assert(longer.drop_last() =~= shorter);
            assert(longer.last() == c);
        }
        if c == mark {
            pieces.push(String::from_str(text.substring_char(start, i)));
            start = i + 1;
            proof {
                assert(texts(pieces@) =~= done.push(current));
                assert(text@.subrange(start as int, i + 1) =~= Seq::<char>::empty());
                assert(split(longer, mark) == split(shorter, mark).push(Seq::empty()));
            }
        } else {
            proof {
                let before = split(shorter, mark);
                assert(before.last() == current);
                assert(current.push(c) =~= text@.subrange(start as int, i + 1));
                assert(before.update(before.len() - 1, current.push(c)) =~= done.push(
                    text@.subrange(start as int, i + 1),
                ));
            }
        }
        i += 1;
    }
    let ghost done = texts(pieces@);
    pieces.push(String::from_str(text.substring_char(start, n)));
    proof {
        assert(text@.subrange(0, n as int) =~= text@);
        assert(texts(pieces@) =~= done.push(text@.subrange(start as int, n as int)));
    }
    pieces
}

/// The words of a segment: what stands between its spaces.
pub fn words_of(segment: &str) -> (found: Vec<String>)
    ensures
        texts(found@) == words(segment@),
{
    let pieces = split_text(segment, ' ');
    let ghost models = texts(pieces@);
    let mut found: Vec<String> = Vec::new();
    let mut i: usize = 0;
    assert(texts(found@) =~= nonempty_of(models, 0));
    while i < pieces.len()
        invariant
            0 <= i <= pieces.len(),
            models == texts(pieces@),
            texts(found@) == nonempty_of(models, i as int),
        decreases pieces.len() - i,
    {
        assert(models[i as int] == pieces@[i as int]@);
        if pieces[i].as_str().unicode_len() > 0 {
            let ghost before = texts(found@);
            found.push(pieces[i].clone());
            assert(texts(found@) =~= before.push(models[i as int]));
        }
        i += 1;
    }
    found
}

/// The property that a word of the form `key=value` stands for.
pub fn parse_property(word: &str) -> (property: Property)
    requires
        is_assignment(word@),
    ensures
        property@ == property_of(word@),
{
    let at = find_mark(word, '=');
    let n = word.unicode_len();
    Property {
        name: String::from_str(word.substring_char(0, at)),
        value: PropertyValue::Text(String::from_str(word.substring_char(at + 1, n))),
    }
}

/// Tells whether a word has the form `key=value`, with a key that is not
/// empty.
pub fn word_is_assignment(word: &str) -> (assignment: bool)
    ensures
        assignment == is_assignment(word@),
{
    let at = find_mark(word, '=');
    0 < at && at < word.unicode_len()
}

/// Tells whether the words describe an element.
pub fn check_segment(found: &Vec<String>) -> (valid: bool)
    ensures
        valid == segment_valid(texts(found@)),
{
    let ghost models = texts(found@);
    if found.len() == 0 {
        return false;
    }
    assert(models[0] == found@[0]@);
    let first = found[0].as_str();
    if find_mark(first, '=') != first.unicode_len() {
        return false;
    }
    let mut i: usize = 1;
    while i < found.len()
        invariant
            1 <= i <= found.len(),
            models == texts(found@),
            forall|k: int| 1 <= k < i ==> is_assignment(#[trigger] models[k]),
        decreases found.len() - i,
    {
        assert(models[i as int] == found@[i as int]@);
        if !word_is_assignment(found[i].as_str()) {
            return false;
        }
        i += 1;
    }
    true
}

fn find_name_property(properties: &Vec<Property>) -> (found: Option<&String>)
    ensures
        found.is_some() == name_property_from(property_models(properties@), 0).is_some(),
        found.is_some() ==> found.unwrap()@ == name_property_from(
            property_models(properties@),
            0,
        ).unwrap(),
{
    let ghost models = property_models(properties@);
    proof {
        reveal_strlit("name");
        assert("name"@ =~= name_key());
    }
    let mut i: usize = 0;
    while i < properties.len()
        invariant
            0 <= i <= properties.len(),
            models == property_models(properties@),
            "name"@ == name_key(),
            name_property_from(models, i as int) == name_property_from(models, 0),
        decreases properties.len() - i,
    {
        let property = &properties[i];
        assert(property@ == models[i as int]);
        if same_text(property.name.as_str(), "name") {
            match &property.value {
                PropertyValue::Text(name) => {
                    return Some(name);
                },
                _ => {},
            }
        }
        i += 1;
    }
    None
}

/// The descriptor that the words of the segment at position `index` stand
/// for.
pub fn describe(found: &Vec<String>, index: usize) -> (descriptor: ElementDescriptor)
    requires
        segment_valid(texts(found@)),
    ensures
        descriptor@ == descriptor_of(texts(found@), index as int),
{
    let ghost models = texts(found@);
    let mut properties: Vec<Property> = Vec::new();
    let mut i: usize = 1;
    while i < found.len()
        invariant
            1 <= i <= found.len(),
            models == texts(found@),
            segment_valid(models),
            properties@.len() == i - 1,
            forall|k: int|
                0 <= k < i - 1 ==> (#[trigger] properties@[k])@ == property_of(models[k + 1]),
        decreases found.len() - i,
    {
        assert(models[i as int] == found@[i as int]@);
        properties.push(parse_property(found[i].as_str()));
        i += 1;
    }
    assert(property_models(properties@) =~= properties_of(models));
    assert(models[0] == found@[0]@);
    let name = match find_name_property(&properties) {
        Some(name) => name.clone(),
        None => {
            let mut name = found[0].clone();
            push_decimal(&mut name, index as u64);
            name
        },
    };
    ElementDescriptor { factory: found[0].clone(), name, properties }
}

/// What a list of optional strings holds, entry by entry.
pub open spec fn optional_texts(names: Seq<Option<String>>) -> Seq<Option<Seq<char>>> {
    names.map_values(|name: Option<String>| optional_text(name))
}

/// The type name that the words of a segment begin with, if they begin
/// with one.
pub fn leading_factory(found: &Vec<String>) -> (name: Option<String>)
    ensures
        optional_text(name) == factory_of(texts(found@)),
{
    if found.len() == 0 {
        return None;
    }
    assert(texts(found@)[0] == found@[0]@);
    let first = found[0].as_str();
    if find_mark(first, '=') == first.unicode_len() {
        Some(found[0].clone())
    } else {
        None
    }
}

/// The type names, among `names`, that are not available in `context`:
/// each once, in the order in which they first occur.
pub fn find_missing(context: &Context, names: &Vec<Option<String>>) -> (missing: Vec<String>)
    ensures
        texts(missing@) == missing_types(context@, optional_texts(names@), names@.len() as int),
{
    let ghost models = optional_texts(names@);
    let mut missing: Vec<String> = Vec::new();
    let mut i: usize = 0;
    assert(texts(missing@) =~= missing_types(context@, models, 0));
    while i < names.len()
        invariant
            0 <= i <= names.len(),
            models == optional_texts(names@),
            texts(missing@) == missing_types(context@, models, i as int),
        decreases names.len() - i,
    {
        assert(models[i as int] == optional_text(names@[i as int]));
        match &names[i] {
            Some(name) => {
                if !context.knows(name.as_str()) && find_text(&missing, name.as_str())
                    >= missing.len() {
                    let ghost before = texts(missing@);
                    missing.push(name.clone());
                    assert(texts(missing@) =~= before.push(name@));
                }
            },
            None => {},
        }
        i += 1;
    }
    missing
}

/// Parses a textual pipeline description into the descriptors of its
/// elements, and checks that the types that it names are available in
/// `context`.
pub fn parse(context: &Context, text: &str) -> (outcome: Result<
    Vec<ElementDescriptor>,
    PipelineError,
>)
    ensures
        match outcome {
            Ok(descriptors) => parse_outcome(context@, text@) == Ok::<
                Seq<DescriptorModel>,
                ErrorModel,
            >(descriptor_models(descriptors@)),
            Err(error) => parse_outcome(context@, text@) == Err::<
                Seq<DescriptorModel>,
                ErrorModel,
            >(error@),
        },
{
    let segments = split_text(text, '!');
    let ghost pieces = texts(segments@);
    let mut names: Vec<Option<String>> = Vec::new();
    let mut descriptors: Vec<ElementDescriptor> = Vec::new();
    let mut valid = true;
    let mut i: usize = 0;
    while i < segments.len()
        invariant
            0 <= i <= segments.len(),
            pieces == texts(segments@),
            pieces == split(text@, '!'),
            names@.len() == i,
            forall|k: int|
                0 <= k < i ==> optional_text(#[trigger] names@[k]) == factory_of(words(pieces[k])),
            !valid ==> !segments_valid(pieces),
            valid ==> descriptors@.len() == i,
            valid ==> forall|k: int| 0 <= k < i ==> segment_valid(words(#[trigger] pieces[k])),
            valid ==> forall|k: int|
                0 <= k < i ==> (#[trigger] descriptors@[k])@ == descriptor_of(words(pieces[k]), k),
        decreases segments.len() - i,
    {
        assert(pieces[i as int] == segments@[i as int]@);
        let found = words_of(segments[i].as_str());
        names.push(leading_factory(&found));
        if valid {
            if check_segment(&found) {
                descriptors.push(describe(&found, i));
            } else {
                valid = false;
                assert(!segment_valid(words(pieces[i as int])));
            }
        }
        i += 1;
    }
    assert(optional_texts(names@) =~= named_types(pieces));
    let missing = find_missing(context, &names);
    if missing.len() > 0 {
        return Err(PipelineError::ParseError { missing_elements: missing });
    }
    if !valid {
        let error = PipelineError::ParseError { missing_elements: Vec::new() };
        assert(error@->missing_elements =~= Seq::empty());
        return Err(error);
    }
    assert(descriptor_models(descriptors@) =~= descriptors_of(pieces));
    Ok(descriptors)
}

/// Parses a textual pipeline description and assembles the pipeline that
/// it describes.
pub fn launch(context: &Context, text: &str) -> (outcome: Result<Pipeline, PipelineError>)
    ensures
        outcome_model(outcome) == launch_outcome(context@, text@),
        outcome is Ok ==> outcome->Ok_0.well_formed(),
{
    match parse(context, text) {
        Ok(descriptors) => build(context, &descriptors),
        Err(error) => Err(error),
    }
}

} // verus!
