//! The fields in which a search looks.

use vstd::prelude::*;

use crate::text::{chars_of, is_text, split_at_char, split_either, texts, trim, trimmed};

verus! {

/// A field of a search.
#[derive(Debug, Clone, Copy, PartialEq, Eq, Structural)]
pub enum SearchField {
    App,
    Title,
    Exe,
}

/// A set of search fields.
#[derive(Debug, Clone, Copy, PartialEq, Eq, Structural)]
pub struct SearchFields {
    app: bool,
    title: bool,
    exe: bool,
}

/// The field that a text names.
pub open spec fn field_of(value: Seq<char>) -> Option<SearchField> {
    if value == "app"@ {
        Some(SearchField::App)
    } else if value == "title"@ {
        Some(SearchField::Title)
    } else if value == "exe"@ {
        Some(SearchField::Exe)
    } else {
        None
    }
}

/// The trimmed names in a comma separated list.
pub open spec fn field_names(value: Seq<char>) -> Seq<Seq<char>> {
    split_at_char(value, ',').map_values(|part: Seq<char>| trimmed(part))
}

/// Whether every name of the list is that of a field.
pub open spec fn fields_valid(value: Seq<char>) -> bool {
    forall|i: int|
        0 <= i < field_names(value).len() ==> field_of(#[trigger] field_names(value)[i]) is Some
}

/// Whether the list names the field.
pub open spec fn names_field(value: Seq<char>, field: SearchField) -> bool {
    exists|i: int|
        0 <= i < field_names(value).len() && field_of(#[trigger] field_names(value)[i]) == Some(
            field,
        )
}

impl SearchFields {
    pub closed spec fn has(self, field: SearchField) -> bool {
        match field {
            SearchField::App => self.app,
            SearchField::Title => self.title,
            SearchField::Exe => self.exe,
        }
    }

    /// The set of the fields for which a flag is given.
    pub fn of(app: bool, title: bool, exe: bool) -> (r: Self)
        ensures
            r.has(SearchField::App) == app,
            r.has(SearchField::Title) == title,
            r.has(SearchField::Exe) == exe,
    {
        SearchFields { app, title, exe }
    }

    pub fn contains(self, field: SearchField) -> (r: bool)
        ensures
            r == self.has(field),
    {
        match field {
            SearchField::App => self.app,
            SearchField::Title => self.title,
            SearchField::Exe => self.exe,
        }
    }

    /// Reads a comma separated list of field names.
    pub fn parse(value: &str) -> (r: Option<Self>)
        ensures
            r is Some <==> fields_valid(value@),
            r is Some ==> forall|field: SearchField| #[trigger]
                r->0.has(field) == names_field(value@, field),
    {
        let chars = chars_of(value);
        let parts = split_either(chars.as_slice(), ',', ',');
        let ghost names = field_names(value@);
        let mut fields = SearchFields { app: false, title: false, exe: false };
        for i in 0..parts.len()
            invariant
                names == field_names(value@),
                texts(parts@) == split_at_char(value@, ','),
                forall|k: int| 0 <= k < i ==> field_of(#[trigger] names[k]) is Some,
                forall|field: SearchField| #[trigger]
                    fields.has(field) <==> exists|k: int|
                        0 <= k < i && field_of(#[trigger] names[k]) == Some(field),
        {
            let ghost before = fields;
            let part = trim(parts[i].as_slice());
            assert(texts(parts@)[i as int] == parts@[i as int]@);
            assert(names[i as int] == part@);
            if is_text(part.as_slice(), "app") {
                fields.app = true;
            } else if is_text(part.as_slice(), "title") {
                fields.title = true;
            } else if is_text(part.as_slice(), "exe") {
                fields.exe = true;
            } else {
                return None;
            }
            assert forall|field: SearchField| #[trigger] fields.has(field) <==> exists|k: int|
                0 <= k < i + 1 && field_of(#[trigger] names[k]) == Some(field) by {
                assert(before.has(field) <==> exists|k: int|
                    0 <= k < i && field_of(#[trigger] names[k]) == Some(field));
                assert(fields.has(field) <==> before.has(field) || field_of(names[i as int])
                    == Some(field));
            }
        }
        Some(fields)
    }
}

/// The set of fields that is read from a valid list is never empty.
pub proof fn fields_are_never_empty(value: Seq<char>)
    requires
        fields_valid(value),
    ensures
        exists|field: SearchField| names_field(value, field),
{
    assert(split_at_char(value, ',').len() > 0);
    assert(field_of(field_names(value)[0]) is Some);
    assert(names_field(value, field_of(field_names(value)[0])->0));
}

/// A list of fields is read name by name: each of `app`, `title` and `exe` names its field, with
/// white space around it or not, and any other name makes the list invalid.
pub proof fn lists_of_fields(value: Seq<char>, i: int)
    requires
        0 <= i < split_at_char(value, ',').len(),
    ensures
        ({
            let name = trimmed(split_at_char(value, ',')[i]);
            &&& name == seq!['a', 'p', 'p'] ==> names_field(value, SearchField::App)
            &&& name == seq!['t', 'i', 't', 'l', 'e'] ==> names_field(value, SearchField::Title)
            &&& name == seq!['e', 'x', 'e'] ==> names_field(value, SearchField::Exe)
            &&& name != seq!['a', 'p', 'p'] && name != seq!['t', 'i', 't', 'l', 'e'] && name != seq![
                'e',
                'x',
                'e',
            ] ==> !fields_valid(value)
        }),
{
    field_words();
    let name = trimmed(split_at_char(value, ',')[i]);
    assert(field_names(value)[i] == name);
}

/// A field is in a list only where its name is.
pub proof fn fields_are_named(value: Seq<char>, field: SearchField) -> (i: int)
    requires
        names_field(value, field),
    ensures
        0 <= i < split_at_char(value, ',').len(),
        trimmed(split_at_char(value, ',')[i]) == match field {
            SearchField::App => seq!['a', 'p', 'p'],
            SearchField::Title => seq!['t', 'i', 't', 'l', 'e'],
            SearchField::Exe => seq!['e', 'x', 'e'],
        },
{
    field_words();
    let i = choose|i: int|
        0 <= i < field_names(value).len() && field_of(#[trigger] field_names(value)[i]) == Some(
            field,
        );
    assert(field_names(value)[i] == trimmed(split_at_char(value, ',')[i]));
    i
}

proof fn field_words()
    ensures
        "app"@ == seq!['a', 'p', 'p'],
        "title"@ == seq!['t', 'i', 't', 'l', 'e'],
        "exe"@ == seq!['e', 'x', 'e'],
        "app"@ != "title"@,
        "app"@ != "exe"@,
        "title"@ != "exe"@,
{
    reveal_strlit("app");
    reveal_strlit("title");
    reveal_strlit("exe");
    assert("app"@ =~= seq!['a', 'p', 'p']);
    assert("title"@ =~= seq!['t', 'i', 't', 'l', 'e']);
    assert("exe"@ =~= seq!['e', 'x', 'e']);
    assert("app"@.len() == 3 && "title"@.len() == 5);
    assert("app"@[0] != "exe"@[0]);
}

}
