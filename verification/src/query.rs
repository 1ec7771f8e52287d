//! What a picker's prompt asks for, column by column.
use vstd::prelude::*;
use vstd::string::*;
use crate::text;

verus! {

/// The query of a picker: for each column that it asks something of, the text
/// to match there.
pub struct PickerQuery {
    /// Column names with the text for the column. Of two fields for the same
    /// column the first counts.
    pub fields: Vec<(String, String)>,
}

/// The text for a column, looked for from field `from` on.
pub open spec fn field(fields: Seq<(String, String)>, name: Seq<char>, from: int) -> Option<Seq<char>>
    decreases fields.len() - from,
{
    if from < 0 || from >= fields.len() {
        None
    } else if fields[from].0@ == name {
        Some(fields[from].1@)
    } else {
        field(fields, name, from + 1)
    }
}

impl PickerQuery {
    /// The text for a column, if the query has one.
    pub open spec fn lookup(&self, name: Seq<char>) -> Option<Seq<char>> {
        field(self.fields@, name, 0)
    }

    /// The text for a column, empty where the query has none.
    pub open spec fn text_of(&self, name: Seq<char>) -> Seq<char> {
        match self.lookup(name) {
            Some(text) => text,
            None => Seq::<char>::empty(),
        }
    }

    /// Whether two queries ask the same of every column.
    pub open spec fn asks_the_same(&self, other: &PickerQuery) -> bool {
        forall|name: Seq<char>| self.lookup(name) == other.lookup(name)
    }

    /// A query that asks nothing.
    pub fn new() -> (query: PickerQuery)
        ensures
            query.fields@.len() == 0,
    {
        PickerQuery { fields: Vec::new() }
    }

    /// The text for a column.
    pub fn get(&self, name: &str) -> (text: Option<&str>)
        ensures
            match text {
                Some(t) => self.lookup(name@) == Some(t@),
                None => self.lookup(name@) is None,
            },
    {
        let mut i: usize = 0;
        while i < self.fields.len()
            invariant
                i <= self.fields@.len(),
                self.lookup(name@) == field(self.fields@, name@, i as int),
            decreases self.fields@.len() - i,
        {
            if text::same_text(self.fields[i].0.as_str(), name) {
                return Some(self.fields[i].1.as_str());
            }
            i += 1;
        }
        None
    }

    /// The text for a column, empty where the query has none.
    pub fn text_for(&self, name: &str) -> (text: &str)
        ensures
            text@ == self.text_of(name@),
    {
        match self.get(name) {
            Some(text) => text,
            None => {
                proof {
                    reveal_strlit("");
                }
                assert(""@ =~= Seq::<char>::empty());
                ""
            },
        }
    }

    /// Whether `other` gives the same text for every column of this query.
    fn agrees_with(&self, other: &PickerQuery) -> (yes: bool)
        ensures
            yes == (forall|i: int|
                0 <= i < self.fields@.len() ==> self.lookup((#[trigger] self.fields@[i]).0@)
                    == other.lookup(self.fields@[i].0@)),
    {
        let mut i: usize = 0;
        while i < self.fields.len()
            invariant
                i <= self.fields@.len(),
                forall|j: int|
                    0 <= j < i ==> self.lookup((#[trigger] self.fields@[j]).0@) == other.lookup(
                        self.fields@[j].0@,
                    ),
            decreases self.fields@.len() - i,
        {
            let name: &str = self.fields[i].0.as_str();
            let same: bool = match (self.get(name), other.get(name)) {
                (Some(a), Some(b)) => text::same_text(a, b),
                (None, None) => true,
                _ => false,
            };
            if !same {
                assert(self.lookup(self.fields@[i as int].0@) != other.lookup(
                    self.fields@[i as int].0@,
                ));
                return false;
            }
            i += 1;
        }
        true
    }

    /// Whether two queries ask the same of every column.
    pub fn same(&self, other: &PickerQuery) -> (yes: bool)
        ensures
            yes == self.asks_the_same(other),
    {
        let yes: bool = self.agrees_with(other) && other.agrees_with(self);
        proof {
            if yes {
                assert forall|name: Seq<char>| self.lookup(name) == other.lookup(name) by {
                    lemma_lookup_is_a_field(self.fields@, name, 0);
                    lemma_lookup_is_a_field(other.fields@, name, 0);
                }
            }
        }
        yes
    }
}

/// A text that is found stands in a field of that name.
proof fn lemma_lookup_is_a_field(fields: Seq<(String, String)>, name: Seq<char>, from: int)
    requires
        0 <= from,
    ensures
        field(fields, name, from) is Some ==> exists|i: int|
            from <= i < fields.len() && (#[trigger] fields[i]).0@ == name,
    decreases fields.len() - from,
{
    if from < fields.len() && fields[from].0@ != name {
        lemma_lookup_is_a_field(fields, name, from + 1);
    }
}

/// Text with every `%` escaped by a backslash.
pub open spec fn escaped(text: Seq<char>) -> Seq<char>
    decreases text.len(),
{
    if text.len() == 0 {
        Seq::<char>::empty()
    } else if text.last() == '%' {
        escaped(text.drop_last()) + seq!['\\', '%']
    } else {
        escaped(text.drop_last()).push(text.last())
    }
}

/// Escapes text for use in a query: the percent character is used by the query
/// language.
pub fn escape_percent(text: &str) -> (out: String)
    ensures
        out@ == escaped(text@),
{
    let chars: Vec<char> = text::chars_of(text);
    let mut out: String = String::new();
    let mut i: usize = 0;
    assert(chars@.take(0) =~= Seq::<char>::empty());
    while i < chars.len()
        invariant
            chars@ == text@,
            i <= chars@.len(),
            out@ == escaped(chars@.take(i as int)),
        decreases chars@.len() - i,
    {
        assert(chars@.take(i + 1).drop_last() =~= chars@.take(i as int));
        let ghost before = out@;
        if chars[i] == '%' {
            out.push('\\');
            out.push('%');
            assert(out@ =~= before + seq!['\\', '%']);
        } else {
            out.push(chars[i]);
        }
        i += 1;
    }
    assert(chars@.take(chars@.len() as int) =~= chars@);
    out
}

/// Escaping leaves text without `%` as it is.
pub proof fn law_escaping_touches_percent_only(text: Seq<char>)
    requires
        !text.contains('%'),
    ensures
        escaped(text) == text,
    decreases text.len(),
{
    if text.len() > 0 {
        assert(text[text.len() - 1] == text.last());
        assert forall|i: int| 0 <= i < text.drop_last().len() implies text.drop_last()[i] != '%' by {
            assert(text[i] == text.drop_last()[i]);
        }
        law_escaping_touches_percent_only(text.drop_last());
        assert(escaped(text) =~= text);
    } else {
        assert(escaped(text) =~= text);
    }
}

/// Each `%` of escaped text stands behind a backslash.
pub proof fn law_escaped_percent_is_escaped(text: Seq<char>)
    ensures
        forall|i: int|
            0 <= i < escaped(text).len() && #[trigger] escaped(text)[i] == '%' ==> i > 0
                && escaped(text)[i - 1] == '\\',
    decreases text.len(),
{
    if text.len() > 0 {
        law_escaped_percent_is_escaped(text.drop_last());
        let before = escaped(text.drop_last());
        assert forall|i: int|
            0 <= i < escaped(text).len() && #[trigger] escaped(text)[i] == '%' implies i > 0
            && escaped(text)[i - 1] == '\\' by {
            if i < before.len() {
                assert(escaped(text)[i] == before[i]);
                assert(escaped(text)[i - 1] == before[i - 1]);
            }
        }
    }
}

/// What a query asks of a column is the text of the first field with its name,
/// as it stands there, and nothing where no field has that name.
pub proof fn law_the_first_field_counts(query: PickerQuery, name: Seq<char>)
    ensures
        forall|f: int|
            0 <= f < query.fields@.len() && (#[trigger] query.fields@[f]).0@ == name && (forall|
                g: int,
            |
                0 <= g < f ==> (#[trigger] query.fields@[g]).0@ != name) ==> query.lookup(name) == Some(
                query.fields@[f].1@,
            ) && query.text_of(name) == query.fields@[f].1@,
        (forall|f: int| 0 <= f < query.fields@.len() ==> (#[trigger] query.fields@[f]).0@ != name)
            ==> query.lookup(name) is None && query.text_of(name).len() == 0,
{
    assert forall|f: int|
        0 <= f < query.fields@.len() && (#[trigger] query.fields@[f]).0@ == name && (forall|g: int|
            0 <= g < f ==> (#[trigger] query.fields@[g]).0@ != name) implies query.lookup(name)
        == Some(query.fields@[f].1@) && query.text_of(name) == query.fields@[f].1@ by {
        lemma_first_field(query.fields@, name, 0, f);
    }
    if forall|f: int| 0 <= f < query.fields@.len() ==> (#[trigger] query.fields@[f]).0@ != name {
        lemma_lookup_is_a_field(query.fields@, name, 0);
    }
}

proof fn lemma_first_field(fields: Seq<(String, String)>, name: Seq<char>, from: int, at: int)
    requires
        0 <= from <= at < fields.len(),
        fields[at].0@ == name,
        forall|g: int| from <= g < at ==> (#[trigger] fields[g]).0@ != name,
    ensures
        field(fields, name, from) == Some(fields[at].1@),
    decreases at - from,
{
    if from < at {
        lemma_first_field(fields, name, from + 1, at);
    }
}

/// Two queries ask the same exactly when no column tells them apart: the same
/// fields ask the same, and a text that differs for one column does not.
pub proof fn law_queries_differ_by_column(a: PickerQuery, b: PickerQuery)
    ensures
        a.asks_the_same(&a),
        a.asks_the_same(&b) <==> b.asks_the_same(&a),
        (exists|name: Seq<char>| a.text_of(name) != b.text_of(name)) ==> !a.asks_the_same(&b),
        (exists|name: Seq<char>| a.lookup(name) is Some != b.lookup(name) is Some)
            ==> !a.asks_the_same(&b),
        (forall|name: Seq<char>| #[trigger] a.lookup(name) == b.lookup(name)) ==> a.asks_the_same(
            &b,
        ),
        a.fields@ == b.fields@ ==> a.asks_the_same(&b),
{
    if exists|name: Seq<char>| a.text_of(name) != b.text_of(name) {
        let name = choose|name: Seq<char>| a.text_of(name) != b.text_of(name);
        assert(a.lookup(name) != b.lookup(name));
    }
}

/// Text is escaped character by character: a `%` becomes a backslash and a
/// `%`, and any other character stays.
pub proof fn law_escaping_goes_by_character(a: Seq<char>, b: Seq<char>, c: char)
    ensures
        escaped(Seq::<char>::empty()).len() == 0,
        escaped(a + b) == escaped(a) + escaped(b),
        escaped(seq!['%']) == seq!['\\', '%'],
        c != '%' ==> escaped(seq![c]) == seq![c],
    decreases b.len(),
{
    assert(seq!['%'].drop_last() =~= Seq::<char>::empty());
    assert(seq![c].drop_last() =~= Seq::<char>::empty());
    reveal_with_fuel(escaped, 2);
    assert(escaped(seq!['%']) =~= seq!['\\', '%']);
    if c != '%' {
        assert(escaped(seq![c]) =~= seq![c]);
    }
    if b.len() == 0 {
        assert(a + b =~= a);
        assert(escaped(a) + escaped(b) =~= escaped(a));
    } else {
        law_escaping_goes_by_character(a, b.drop_last(), c);
        assert((a + b).drop_last() =~= a + b.drop_last());
        assert(escaped(a + b) =~= escaped(a) + escaped(b));
    }
}

} // verus!
