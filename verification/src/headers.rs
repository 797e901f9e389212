//! Application headers, kept in byte order of their names.

use crate::text::{
    bytes_of, comes_before, lemma_bytes_determine_text, lemma_precedes_irreflexive,
    lemma_precedes_total, lemma_precedes_transitive, precedes, same_text,
};
use vstd::prelude::*;

verus! {

/// The texts of a list of strings.
pub open spec fn texts(strings: Seq<String>) -> Seq<Seq<char>> {
    strings.map_values(|string: String| string@)
}

/// Names in strictly ascending byte order, so that no name occurs twice.
pub open spec fn ascending(names: Seq<Seq<char>>) -> bool {
    forall|i: int, j: int|
        0 <= i < j < names.len() ==> precedes(bytes_of(#[trigger] names[i]), bytes_of(#[trigger] names[j]))
}

/// Where a name belongs in an ordered list: behind the last name that it does not precede.
pub open spec fn slot(names: Seq<Seq<char>>, name: Seq<char>) -> int
    decreases names.len(),
{
    if names.len() == 0 || !precedes(bytes_of(name), bytes_of(names.last())) {
        names.len() as int
    } else {
        slot(names.drop_last(), name)
    }
}

/// The slot is the boundary between the names that stay before `name` and those that follow it.
pub proof fn lemma_slot(names: Seq<Seq<char>>, name: Seq<char>)
    ensures
        0 <= slot(names, name) <= names.len(),
        forall|i: int|
            slot(names, name) <= i < names.len() ==> precedes(
                bytes_of(name),
                bytes_of(#[trigger] names[i]),
            ),
        slot(names, name) > 0 ==> !precedes(
            bytes_of(name),
            bytes_of(names[slot(names, name) - 1]),
        ),
    decreases names.len(),
{
    if names.len() > 0 && precedes(bytes_of(name), bytes_of(names.last())) {
        lemma_slot(names.drop_last(), name);
        assert forall|i: int| slot(names, name) <= i < names.len() implies precedes(
            bytes_of(name),
            bytes_of(#[trigger] names[i]),
        ) by {
            if i < names.len() - 1 {
                assert(names.drop_last()[i] == names[i]);
            }
        }
    }
}

/// Putting a new name into its slot keeps the list ascending.
pub proof fn lemma_slot_keeps_ascending(names: Seq<Seq<char>>, name: Seq<char>)
    requires
        ascending(names),
        !names.contains(name),
    ensures
        0 <= slot(names, name) <= names.len(),
        ascending(names.insert(slot(names, name), name)),
{
    lemma_slot(names, name);
    let at = slot(names, name);
    let after = names.insert(at, name);

    assert forall|i: int, j: int| 0 <= i < j < after.len() implies precedes(
        bytes_of(#[trigger] after[i]),
        bytes_of(#[trigger] after[j]),
    ) by {
        let left = if i < at { i } else { i - 1 };
        let right = if j < at { j } else { j - 1 };
        if i != at && j != at {
            assert(after[i] == names[left] && after[j] == names[right]);
        } else if i == at {
            assert(after[j] == names[right]);
        } else {
            assert(after[i] == names[left]);
            let before = names[at - 1];
            lemma_bytes_determine_text(name, before);
            lemma_precedes_total(bytes_of(name), bytes_of(before));
            assert(names.contains(before));
            assert(precedes(bytes_of(before), bytes_of(name)));
            if i < at - 1 {
                lemma_precedes_transitive(bytes_of(names[i]), bytes_of(before), bytes_of(name));
            }
        }
    }
}

/// A name that follows every name of a list belongs at its end.
pub proof fn lemma_slot_at_end(names: Seq<Seq<char>>, name: Seq<char>)
    requires
        ascending(names.push(name)),
    ensures
        slot(names, name) == names.len(),
{
    if names.len() > 0 {
        let all = names.push(name);
        assert(precedes(bytes_of(all[names.len() - 1]), bytes_of(all[names.len() as int])));
        if precedes(bytes_of(name), bytes_of(names.last())) {
            lemma_precedes_transitive(bytes_of(name), bytes_of(names.last()), bytes_of(name));
            lemma_precedes_irreflexive(bytes_of(name));
        }
    }
}

/// Finds the slot of `name` in `names`.
pub fn slot_of(names: &Vec<String>, name: &str) -> (at: usize)
    ensures
        at == slot(texts(names@), name@),
        at <= names@.len(),
{
    let mut at: usize = names.len();
    let ghost all = texts(names@);
    assert(all.take(at as int) == all);

    while at > 0
        invariant
            at <= names@.len(),
            all == texts(names@),
            slot(all, name@) == slot(all.take(at as int), name@),
        decreases at,
    {
        let ghost prefix = all.take(at as int);
        assert(prefix.last() == names@[at - 1]@);
        assert(prefix.drop_last() == all.take(at - 1));

        if !comes_before(name.as_bytes(), names[at - 1].as_str().as_bytes()) {
            return at;
        }
        at = at - 1;
    }

    at
}

/// Whether `names` holds `name`.
pub fn holds_name(names: &Vec<String>, name: &str) -> (holds: bool)
    ensures
        holds == texts(names@).contains(name@),
{
    let mut i: usize = 0;

    while i < names.len()
        invariant
            i <= names@.len(),
            forall|k: int| 0 <= k < i ==> #[trigger] names@[k]@ != name@,
        decreases names@.len() - i,
    {
        if same_text(names[i].as_str(), name) {
            assert(texts(names@)[i as int] == name@);
            return true;
        }
        i = i + 1;
    }

    assert forall|k: int| 0 <= k < texts(names@).len() implies texts(names@)[k] != name@ by {
        assert(texts(names@)[k] == names@[k]@);
    }
    false
}

/// How many application headers an envelope may carry, and how many bytes their names and values
/// may have together.
#[derive(Clone, Copy, Debug, PartialEq, Eq, Structural)]
pub struct HeaderLimits {
    /// Most application headers.
    pub max_count: usize,

    /// Most bytes of all their names and values.
    pub max_bytes: usize,
}

/// One application header as a pair of texts.
pub struct HeaderText {
    /// The header's name.
    pub name: Seq<char>,

    /// The header's value.
    pub value: Seq<char>,
}

/// Application headers in byte order of their names.
#[derive(Debug, PartialEq, Eq)]
pub struct Headers {
    names: Vec<String>,
    values: Vec<String>,
}

impl View for Headers {
    type V = Seq<HeaderText>;

    closed spec fn view(&self) -> Seq<HeaderText> {
        Seq::new(
            self.names@.len(),
            |i: int| HeaderText { name: self.names@[i]@, value: self.values@[i]@ },
        )
    }
}

/// The names of a list of headers.
pub open spec fn header_names(headers: Seq<HeaderText>) -> Seq<Seq<char>> {
    headers.map_values(|header: HeaderText| header.name)
}

impl Clone for Headers {
    fn clone(&self) -> (copy: Self)
        ensures
            copy@ == self@,
    {
        proof {
            use_type_invariant(self);
        }
        let names = self.names.clone();
        let values = self.values.clone();
        assert(names@ == self.names@);
        assert(values@ == self.values@);
        let ghost copy = Headers { names, values };
        assert(copy@ == self@);
        Headers { names, values }
    }
}

impl Headers {
    /// Every name has a value, and the names are strictly ascending.
    #[verifier::type_invariant]
    spec fn wf(&self) -> bool {
        &&& self.names@.len() == self.values@.len()
        &&& ascending(header_names(self@))
    }

    /// No headers at all.
    pub fn new() -> (headers: Self)
        ensures
            headers@ == Seq::<HeaderText>::empty(),
    {
        Headers { names: Vec::new(), values: Vec::new() }
    }

    /// The number of headers, whose names are strictly ascending.
    pub fn len(&self) -> (count: usize)
        ensures
            count == self@.len(),
            ascending(header_names(self@)),
    {
        proof {
            use_type_invariant(self);
        }
        self.names.len()
    }

    /// The name of the header at `index`.
    pub fn name(&self, index: usize) -> (name: &str)
        requires
            index < self@.len(),
        ensures
            name@ == self@[index as int].name,
    {
        self.names[index].as_str()
    }

    /// The value of the header at `index`.
    pub fn value(&self, index: usize) -> (value: &str)
        requires
            index < self@.len(),
        ensures
            value@ == self@[index as int].value,
    {
        proof {
            use_type_invariant(self);
        }
        self.values[index].as_str()
    }

    /// Adds a header in its place and returns `true`; a name that is already there keeps its
    /// value, and `false` is returned.
    pub fn insert(&mut self, name: String, value: String) -> (added: bool)
        ensures
            added == !header_names(old(self)@).contains(name@),
            added ==> final(self)@ == old(self)@.insert(
                slot(header_names(old(self)@), name@),
                HeaderText { name: name@, value: value@ },
            ),
            !added ==> final(self)@ == old(self)@,
    {
        proof {
            use_type_invariant(&*self);
        }
        let ghost before = self@;
        let ghost names_before = header_names(before);
        assert(texts(self.names@) == names_before);

        if holds_name(&self.names, name.as_str()) {
            return false;
        }

        let at = slot_of(&self.names, name.as_str());
        proof {
            lemma_slot_keeps_ascending(names_before, name@);
        }
        let mut taken = Headers::new();
        core::mem::swap(self, &mut taken);
        let Headers { mut names, mut values } = taken;
        names.insert(at, name);
        values.insert(at, value);
        let ghost after = Headers { names, values };
        assert(after@ == before.insert(at as int, HeaderText { name: name@, value: value@ }));
        assert(header_names(after@) == names_before.insert(at as int, name@));
        *self = Headers { names, values };
        true
    }
}

/// Adding a header under a new name keeps every other one and the byte order of the names, and the
/// new one stands among them with its value.
pub proof fn law_added_headers_stand_in_order(headers: Seq<HeaderText>, header: HeaderText)
    requires
        ascending(header_names(headers)),
        !header_names(headers).contains(header.name),
    ensures
        ({
            let after = headers.insert(slot(header_names(headers), header.name), header);
            &&& ascending(header_names(after))
            &&& after.len() == headers.len() + 1
            &&& after.contains(header)
            &&& forall|i: int| 0 <= i < headers.len() ==> after.contains(#[trigger] headers[i])
        }),
{
    let names = header_names(headers);
    let at = slot(names, header.name);
    let after = headers.insert(at, header);
    lemma_slot_keeps_ascending(names, header.name);
    assert(header_names(after) =~= names.insert(at, header.name));
    assert(after[at] == header);
    assert forall|i: int| 0 <= i < headers.len() implies after.contains(#[trigger] headers[i]) by {
        let k = if i < at { i } else { i + 1 };
        assert(after[k] == headers[i]);
    }
}

} // verus!
