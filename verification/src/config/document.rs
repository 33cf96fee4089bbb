//! The INI document: reading it, and completing it without touching what the user wrote.

use vstd::prelude::*;

use crate::config::overrides::position;
use crate::text::{
    find_either, part, raw_lines, same_chars, split_lines, texts, trim, trim_start, trimmed,
    trimmed_start, until, until_range,
};

verus! {

/// A section: its name, none before the first header, and its properties in order.
pub struct IniSection {
    pub name: Option<String>,
    pub properties: Vec<(String, String)>,
}

/// A parsed INI document: its sections in order; a repeated header begins a section of its own.
pub struct IniDocument {
    pub sections: Vec<IniSection>,
}

/// A property: its key and its value.
pub type PropertyView = (Seq<char>, Seq<char>);

/// A section: its name and its properties.
pub type SectionView = (Option<Seq<char>>, Seq<PropertyView>);

/// A property with the name of its section.
pub type EntryView = (Seq<char>, Seq<char>, Seq<char>);

pub open spec fn property_views(properties: Seq<(String, String)>) -> Seq<PropertyView> {
    Seq::new(properties.len(), |i: int| (properties[i].0@, properties[i].1@))
}

impl View for IniSection {
    type V = SectionView;

    open spec fn view(&self) -> SectionView {
        (
            match self.name {
                Some(name) => Some(name@),
                None => None,
            },
            property_views(self.properties@),
        )
    }
}

impl View for IniDocument {
    type V = Seq<SectionView>;

    open spec fn view(&self) -> Seq<SectionView> {
        Seq::new(self.sections@.len(), |i: int| self.sections@[i]@)
    }
}

/// Where a text stops being an INI document, and why.
#[derive(Debug, Clone, PartialEq, Eq)]
pub struct IniSyntaxError {
    pub line: usize,
    pub column: usize,
    pub reason: String,
}

/// The line, the column and the reason of a syntax error.
pub type SyntaxView = (usize, usize, Seq<char>);

impl View for IniSyntaxError {
    type V = SyntaxView;

    open spec fn view(&self) -> SyntaxView {
        (self.line, self.column, self.reason@)
    }
}

/// What `ini::Ini::load_from_str_opt` reads from a text, without escapes: the sections, or the
/// line, the column and the reason of the syntax error.
pub uninterp spec fn ini_result(text: Seq<char>) -> Result<
    Seq<(Option<Seq<char>>, Seq<(Seq<char>, Seq<char>)>)>,
    (usize, usize, Seq<char>),
>;

/// The sections of a text; none where it is not a document.
pub open spec fn ini_sections(text: Seq<char>) -> Option<Seq<SectionView>> {
    match ini_result(text) {
        Ok(sections) => Some(sections),
        Err(_) => None,
    }
}

/// The syntax error of a text that is not a document.
pub open spec fn ini_error(text: Seq<char>) -> SyntaxView {
    ini_result(text)->Err_0
}

/// `ini::Ini::load_from_str_opt`, with `enabled_escape` off and the other options at their
/// defaults, reads a document or returns a syntax error with its position and its reason. Its
/// result depends on the text alone and is here under the name `ini_result`; `Ini::iter` and
/// `Properties::iter` list the sections and the properties in their order.
#[verifier::external_body]
fn load_ini(text: &str) -> (r: Result<IniDocument, IniSyntaxError>)
    ensures
        match r {
            Ok(document) => ini_result(text@) == Ok::<_, SyntaxView>(document@),
            Err(error) => ini_result(text@) == Err::<Seq<SectionView>, _>(error@),
        },
{
    let options = ini::ParseOption { enabled_escape: false, ..Default::default() };
    let read = match ini::Ini::load_from_str_opt(text, options) {
        Ok(read) => read,
        Err(e) => return Err(IniSyntaxError { line: e.line, column: e.col, reason: e.msg.into() }),
    };
    let property = |(key, value): (&str, &str)| (key.to_owned(), value.to_owned());
    let sections = read.iter().map(|(name, properties)| IniSection {
        name: name.map(str::to_owned),
        properties: properties.iter().map(property).collect(),
    });
    Ok(IniDocument { sections: sections.collect() })
}

/// Reads an INI document.
pub fn parse_ini(text: &str) -> (r: Result<IniDocument, IniSyntaxError>)
    ensures
        match r {
            Ok(document) => ini_sections(text@) == Some(document@),
            Err(error) => ini_sections(text@) is None && error@ == ini_error(text@),
        },
{
    load_ini(text)
}

// ---------------------------------------------------------------------------
// Values

/// The name under which a section's properties are known; unnamed sections have the empty name.
pub open spec fn section_key(name: Option<Seq<char>>) -> Seq<char> {
    match name {
        Some(name) => name,
        None => seq![],
    }
}

/// The first value of a key among properties, from a place on.
pub open spec fn property(properties: Seq<PropertyView>, key: Seq<char>, from: int) -> Option<
    Seq<char>,
>
    decreases properties.len() - from,
{
    if from < 0 || from >= properties.len() {
        None
    } else if properties[from].0 == key {
        Some(properties[from].1)
    } else {
        property(properties, key, from + 1)
    }
}

/// The first value of a key in the first section of the name, from a place on.
pub open spec fn lookup(
    sections: Seq<SectionView>,
    name: Option<Seq<char>>,
    key: Seq<char>,
    from: int,
) -> Option<Seq<char>>
    decreases sections.len() - from,
{
    if from < 0 || from >= sections.len() {
        None
    } else if sections[from].0 == name {
        property(sections[from].1, key, 0)
    } else {
        lookup(sections, name, key, from + 1)
    }
}

/// The properties of a section as entries.
pub open spec fn section_entries(section: SectionView) -> Seq<EntryView> {
    Seq::new(
        section.1.len(),
        |i: int| (section_key(section.0), section.1[i].0, section.1[i].1),
    )
}

/// Every property of a document with the name of its section, in document order.
pub open spec fn entries_of(sections: Seq<SectionView>) -> Seq<EntryView>
    decreases sections.len(),
{
    if sections.len() == 0 {
        seq![]
    } else {
        entries_of(sections.drop_last()) + section_entries(sections.last())
    }
}

/// The values of one key, in order.
pub open spec fn values_of(entries: Seq<EntryView>, section: Seq<char>, key: Seq<char>) -> Seq<
    Seq<char>,
>
    decreases entries.len(),
{
    if entries.len() == 0 {
        seq![]
    } else {
        let rest = values_of(entries.drop_last(), section, key);
        if entries.last().0 == section && entries.last().1 == key {
            rest.push(entries.last().2)
        } else {
            rest
        }
    }
}

/// Whether a key has a value.
pub open spec fn has_value(entries: Seq<EntryView>, section: Seq<char>, key: Seq<char>) -> bool {
    exists|i: int|
        0 <= i < entries.len() && (#[trigger] entries[i]).0 == section && entries[i].1 == key
}

/// One property with the name of its section.
pub struct Entry {
    pub section: String,
    pub key: String,
    pub value: String,
}

impl View for Entry {
    type V = EntryView;

    open spec fn view(&self) -> EntryView {
        (self.section@, self.key@, self.value@)
    }
}

pub open spec fn entry_views(entries: Seq<Entry>) -> Seq<EntryView> {
    Seq::new(entries.len(), |i: int| entries[i]@)
}

fn same_string(a: &String, b: &String) -> (r: bool)
    ensures
        r == (a@ == b@),
{
    *a == *b
}

impl IniDocument {
    /// The value of a key: the first in the first section of the name.
    pub fn get_from(&self, section: Option<&str>, key: &str) -> (r: Option<String>)
        ensures
            crate::config::parsers::optional_view(r) == lookup(
                self@,
                match section {
                    Some(name) => Some(name@),
                    None => None,
                },
                key@,
                0,
            ),
    {
        let ghost name = match section {
            Some(name) => Some(name@),
            None => None,
        };
        let mut i: usize = 0;
        while i < self.sections.len()
            invariant
                i <= self.sections@.len(),
                name == (match section {
                    Some(name) => Some(name@),
                    None => None,
                }),
                lookup(self@, name, key@, 0) == lookup(self@, name, key@, i as int),
            decreases self.sections@.len() - i,
        {
            let this = match &self.sections[i].name {
                Some(name) => Some(name.as_str()),
                None => None,
            };
            assert(self@[i as int] == self.sections@[i as int]@);
            if crate::text::same_optional(this, section) {
                return first_property(&self.sections[i].properties, key);
            }
            i += 1;
        }
        None
    }

    /// Whether no section has a property.
    pub fn is_blank(&self) -> (r: bool)
        ensures
            r == blank(self@),
    {
        for i in 0..self.sections.len()
            invariant
                forall|k: int| 0 <= k < i ==> (#[trigger] self@[k]).1.len() == 0,
        {
            assert(self@[i as int] == self.sections@[i as int]@);
            if self.sections[i].properties.len() != 0 {
                return false;
            }
        }
        true
    }
}

/// Whether a document holds no value.
pub open spec fn blank(sections: Seq<SectionView>) -> bool {
    forall|i: int| 0 <= i < sections.len() ==> (#[trigger] sections[i]).1.len() == 0
}

fn first_property(properties: &Vec<(String, String)>, key: &str) -> (r: Option<String>)
    ensures
        crate::config::parsers::optional_view(r) == property(property_views(properties@), key@, 0),
{
    let ghost views = property_views(properties@);
    let mut i: usize = 0;
    while i < properties.len()
        invariant
            i <= properties@.len(),
            views == property_views(properties@),
            property(views, key@, 0) == property(views, key@, i as int),
        decreases properties@.len() - i,
    {
        assert(views[i as int] == (properties@[i as int].0@, properties@[i as int].1@));
        if crate::text::same_str(properties[i].0.as_str(), key) {
            return Some(properties[i].1.clone());
        }
        i += 1;
    }
    None
}

/// Lists every property of a document with the name of its section.
pub fn values(document: &IniDocument) -> (r: Vec<Entry>)
    ensures
        entry_views(r@) == entries_of(document@),
{
    let mut r: Vec<Entry> = Vec::new();
    assert(entry_views(r@) == entries_of(document@.take(0)));
    for i in 0..document.sections.len()
        invariant
            entry_views(r@) == entries_of(document@.take(i as int)),
    {
        let section = &document.sections[i];
        assert(document@[i as int] == section@);
        assert(document@.take(i + 1).drop_last() == document@.take(i as int));
        let ghost before = entry_views(r@);
        let ghost all = section_entries(section@);
        assert(entry_views(r@) == before + all.take(0));
        for k in 0..section.properties.len()
            invariant
                all == section_entries(section@),
                entry_views(r@) == before + all.take(k as int),
        {
            let name = match &section.name {
                Some(name) => name.clone(),
                None => String::new(),
            };
            let entry = Entry {
                section: name,
                key: section.properties[k].0.clone(),
                value: section.properties[k].1.clone(),
            };
            assert(section@.1[k as int] == (
                section.properties@[k as int].0@,
                section.properties@[k as int].1@,
            ));
            assert(entry.section@ == section_key(section@.0));
            assert(entry@ == all[k as int]);
            let ghost old_views = entry_views(r@);
            r.push(entry);
            assert(entry_views(r@) == old_views.push(all[k as int]));
            assert(all.take(k + 1) == all.take(k as int).push(all[k as int]));
        }
        assert(all.take(all.len() as int) == all);
    }
    assert(document@.take(document@.len() as int) == document@);
    r
}

/// Whether a key has a value among the entries.
pub fn contains_entry(entries: &Vec<Entry>, section: &[char], key: &[char]) -> (r: bool)
    ensures
        r == has_value(entry_views(entries@), section@, key@),
{
    for i in 0..entries.len()
        invariant
            forall|k: int|
                0 <= k < i ==> !((#[trigger] entry_views(entries@)[k]).0 == section@ && entry_views(
                    entries@,
                )[k].1 == key@),
    {
        assert(entry_views(entries@)[i as int] == entries@[i as int]@);
        if crate::text::is_text(section, entries[i].section.as_str()) && crate::text::is_text(
            key,
            entries[i].key.as_str(),
        ) {
            assert(entry_views(entries@)[i as int].0 == section@);
            return true;
        }
    }
    false
}

fn collect_values(entries: &Vec<Entry>, section: &String, key: &String) -> (r: Vec<String>)
    ensures
        crate::text::strings(r@) == values_of(entry_views(entries@), section@, key@),
{
    let ghost views = entry_views(entries@);
    let mut r: Vec<String> = Vec::new();
    assert(crate::text::strings(r@) == values_of(views.take(0), section@, key@));
    for i in 0..entries.len()
        invariant
            views == entry_views(entries@),
            crate::text::strings(r@) == values_of(views.take(i as int), section@, key@),
    {
        assert(views[i as int] == entries@[i as int]@);
        assert(views.take(i + 1).drop_last() == views.take(i as int));
        let ghost before = crate::text::strings(r@);
        if same_string(&entries[i].section, section) && same_string(&entries[i].key, key) {
            r.push(entries[i].value.clone());
            assert(crate::text::strings(r@) == before.push(entries@[i as int].value@));
        }
    }
    assert(views.take(views.len() as int) == views);
    r
}

/// The last value of a key.
pub fn last_value(entries: &Vec<Entry>, section: &str, key: &str) -> (r: Option<String>)
    ensures
        ({
            let all = values_of(entry_views(entries@), section@, key@);
            crate::config::parsers::optional_view(r) == (if all.len() == 0 {
                None
            } else {
                Some(all.last())
            })
        }),
{
    let all = collect_values(entries, &section.to_owned(), &key.to_owned());
    let ghost views = crate::text::strings(all@);
    if all.len() == 0 {
        assert(views.len() == 0);
        None
    } else {
        assert(views.last() == all@[all@.len() - 1]@);
        Some(all[all.len() - 1].clone())
    }
}

fn same_strings(a: &Vec<String>, b: &Vec<String>) -> (r: bool)
    ensures
        r == (crate::text::strings(a@) == crate::text::strings(b@)),
{
    let ghost x = crate::text::strings(a@);
    let ghost y = crate::text::strings(b@);
    if a.len() != b.len() {
        assert(x.len() != y.len());
        return false;
    }
    for i in 0..a.len()
        invariant
            a@.len() == b@.len(),
            x == crate::text::strings(a@),
            y == crate::text::strings(b@),
            forall|k: int| 0 <= k < i ==> x[k] == y[k],
    {
        if !same_string(&a[i], &b[i]) {
            assert(x[i as int] != y[i as int]);
            return false;
        }
    }
    assert(x =~= y);
    true
}

/// Whether the key of an entry has the same values in both lists.
pub fn same_values(before: &Vec<Entry>, after: &Vec<Entry>, place: usize) -> (r: bool)
    requires
        place < before@.len(),
    ensures
        r == ({
            let entry = before@[place as int]@;
            values_of(entry_views(before@), entry.0, entry.1) == values_of(
                entry_views(after@),
                entry.0,
                entry.1,
            )
        }),
{
    let entry = &before[place];
    let old_values = collect_values(before, &entry.section, &entry.key);
    let new_values = collect_values(after, &entry.section, &entry.key);
    same_strings(&old_values, &new_values)
}

/// The first entry, from a place on, whose key has other values in the second list.
pub open spec fn first_change(before: Seq<EntryView>, after: Seq<EntryView>, from: int) -> Option<
    EntryView,
>
    decreases before.len() - from,
{
    if from < 0 || from >= before.len() {
        None
    } else if values_of(before, before[from].0, before[from].1) != values_of(
        after,
        before[from].0,
        before[from].1,
    ) {
        Some(before[from])
    } else {
        first_change(before, after, from + 1)
    }
}

// ---------------------------------------------------------------------------
// Lines

/// The section name of a header line.
pub open spec fn header_name(line: Seq<char>) -> Option<Seq<char>> {
    if line.len() > 0 && line[0] == '[' {
        let rest = line.drop_first();
        let at = until(rest, ']', ']');
        if at < rest.len() {
            Some(trimmed(rest.take(at)))
        } else {
            None
        }
    } else {
        None
    }
}

pub fn section_name(line: &[char]) -> (r: Option<Vec<char>>)
    ensures
        match r {
            Some(name) => header_name(line@) == Some(name@),
            None => header_name(line@) is None,
        },
{
    if line.len() == 0 || line[0] != '[' {
        return None;
    }
    let at: usize = find_either(line, 1, ']', ']');
    assert(line@.skip(1) == line@.drop_first());
    if at == line.len() {
        return None;
    }
    let name = part(line, 1, at);
    assert(name@ == line@.drop_first().take(at - 1));
    Some(trim(name.as_slice()))
}

/// The key and the beginning of the value of an assignment line.
pub open spec fn assigned(line: Seq<char>) -> Option<(Seq<char>, Seq<char>)> {
    let at = until(line, '=', ':');
    if at < line.len() {
        Some((trimmed(line.take(at)), trimmed_start(line.skip(at + 1))))
    } else {
        None
    }
}

pub fn assignment(line: &[char]) -> (r: Option<(Vec<char>, Vec<char>)>)
    ensures
        match r {
            Some((key, value)) => assigned(line@) == Some((key@, value@)),
            None => assigned(line@) is None,
        },
{
    assert(line@.skip(0) == line@);
    let at: usize = find_either(line, 0, '=', ':');
    if at == line.len() {
        return None;
    }
    let key = part(line, 0, at);
    let value = part(line, at + 1, line.len());
    assert(key@ == line@.take(at as int));
    assert(value@ == line@.skip(at + 1));
    Some((trim(key.as_slice()), trim_start(value.as_slice())))
}

/// The quote that a value leaves open, given the quote that is open at its beginning.
pub open spec fn open_quote(value: Seq<char>, quote: Option<char>) -> Option<char>
    decreases value.len(), (if quote is Some {
        0int
    } else {
        1int
    }),
{
    match quote {
        Some(delimiter) => {
            let at = until(value, delimiter, delimiter);
            if 0 <= at < value.len() {
                open_quote(value.skip(at + 1), None)
            } else {
                Some(delimiter)
            }
        },
        None => if value.len() > 0 && (value[0] == '\'' || value[0] == '"') {
            open_quote(value.drop_first(), Some(value[0]))
        } else {
            None
        },
    }
}

pub fn unfinished_quote(value: &[char], quote: Option<char>) -> (r: Option<char>)
    ensures
        r == open_quote(value@, quote),
{
    let mut pending = quote;
    let mut from: usize = 0;
    assert(value@.skip(0) == value@);
    loop
        invariant
            from <= value@.len(),
            open_quote(value@, quote) == open_quote(value@.skip(from as int), pending),
        decreases value@.len() - from, (if pending is Some {
            0int
        } else {
            1int
        }),
    {
        let ghost rest = value@.skip(from as int);
        match pending {
            Some(delimiter) => {
                let at: usize = find_either(value, from, delimiter, delimiter);
                if at == value.len() {
                    return Some(delimiter);
                }
                assert(rest.skip(at - from + 1) == value@.skip(at + 1));
                from = at + 1;
                pending = None;
            },
            None => {
                if from == value.len() || (value[from] != '\'' && value[from] != '"') {
                    return None;
                }
                assert(rest.drop_first() == value@.skip(from + 1));
                pending = Some(value[from]);
                from = from + 1;
            },
        }
    }
}

/// The line without its trailing carriage returns and newlines.
pub open spec fn without_line_end(s: Seq<char>) -> Seq<char>
    decreases s.len(),
{
    if s.len() > 0 && (s.last() == '\r' || s.last() == '\n') {
        without_line_end(s.drop_last())
    } else {
        s
    }
}

/// Whether a line continues on the next one: it ends in a backslash.
pub open spec fn continues(raw: Seq<char>) -> bool {
    let body = without_line_end(raw);
    body.len() > 0 && body.last() == '\\'
}

fn continued(raw: &[char]) -> (r: bool)
    ensures
        r == continues(raw@),
{
    let mut end: usize = raw.len();
    assert(raw@.take(end as int) == raw@);
    while end > 0 && (raw[end - 1] == '\r' || raw[end - 1] == '\n')
        invariant
            end <= raw@.len(),
            without_line_end(raw@) == without_line_end(raw@.take(end as int)),
        decreases end,
    {
        assert(raw@.take(end as int).drop_last() == raw@.take(end - 1));
        end -= 1;
    }
    end > 0 && raw[end - 1] == '\\'
}

pub open spec fn is_comment(line: Seq<char>) -> bool {
    line.len() > 0 && (line[0] == ';' || line[0] == '#')
}

// ---------------------------------------------------------------------------
// The layout of a document

/// Where the keys and sections of a text stand. The first place of a name counts.
pub struct Outline {
    pub keys: Seq<(Seq<char>, Seq<char>, int)>,
    pub ends: Seq<(Seq<char>, int)>,
    pub comments: Seq<Seq<char>>,
}

/// The state of a scan over the lines of a text.
pub struct Scan {
    pub outline: Outline,
    pub section: Seq<char>,
    pub offset: int,
    pub quote: Option<char>,
    pub continuation: bool,
}

impl Scan {
    pub open spec fn start() -> Scan {
        Scan {
            outline: Outline { keys: seq![], ends: seq![], comments: seq![] },
            section: seq![],
            offset: 0,
            quote: None,
            continuation: false,
        }
    }

    /// The state after one line. Lines within a quoted or continued value are no structure.
    pub open spec fn after(self, raw: Seq<char>) -> Scan {
        let line = trimmed(raw);
        let next = Scan { offset: self.offset + raw.len(), ..self };
        if self.quote is Some {
            Scan { quote: open_quote(line, self.quote), ..next }
        } else if self.continuation {
            Scan { continuation: continues(raw), ..next }
        } else if is_comment(line) {
            Scan {
                outline: Outline {
                    comments: self.outline.comments.push(line),
                    ..self.outline
                },
                ..next
            }
        } else {
            match header_name(line) {
                Some(name) => Scan {
                    outline: Outline {
                        ends: self.outline.ends.push((self.section, self.offset)),
                        ..self.outline
                    },
                    section: name,
                    ..next
                },
                None => match assigned(line) {
                    Some((key, value)) => Scan {
                        outline: Outline {
                            keys: self.outline.keys.push((self.section, key, self.offset)),
                            ..self.outline
                        },
                        quote: open_quote(value, None),
                        continuation: open_quote(value, None) is None && continues(raw),
                        ..next
                    },
                    None => next,
                },
            }
        }
    }
}

/// The state after the given lines.
pub open spec fn scanned(lines: Seq<Seq<char>>) -> Scan
    decreases lines.len(),
{
    if lines.len() == 0 {
        Scan::start()
    } else {
        scanned(lines.drop_last()).after(lines.last())
    }
}

/// The outline of a text.
pub open spec fn outline(text: Seq<char>) -> Outline {
    let last = scanned(raw_lines(text));
    Outline {
        ends: last.outline.ends.push((last.section, text.len() as int)),
        ..last.outline
    }
}

/// The first place of a key, from position `from` of the list on.
pub open spec fn key_place(
    keys: Seq<(Seq<char>, Seq<char>, int)>,
    section: Seq<char>,
    key: Seq<char>,
    from: int,
) -> Option<int>
    decreases keys.len() - from,
{
    if from < 0 || from >= keys.len() {
        None
    } else if keys[from].0 == section && keys[from].1 == key {
        Some(keys[from].2)
    } else {
        key_place(keys, section, key, from + 1)
    }
}

/// The first end of a section, from position `from` of the list on.
pub open spec fn section_end(ends: Seq<(Seq<char>, int)>, section: Seq<char>, from: int) -> Option<
    int,
>
    decreases ends.len() - from,
{
    if from < 0 || from >= ends.len() {
        None
    } else if ends[from].0 == section {
        Some(ends[from].1)
    } else {
        section_end(ends, section, from + 1)
    }
}

/// Where the keys and sections of a text stand, in characters.
pub struct DocumentLayout {
    keys: Vec<(Vec<char>, Vec<char>, usize)>,
    section_ends: Vec<(Vec<char>, usize)>,
    comments: Vec<Vec<char>>,
}

impl View for DocumentLayout {
    type V = Outline;

    closed spec fn view(&self) -> Outline {
        Outline {
            keys: Seq::new(
                self.keys@.len(),
                |i: int| (self.keys@[i].0@, self.keys@[i].1@, self.keys@[i].2 as int),
            ),
            ends: Seq::new(
                self.section_ends@.len(),
                |i: int| (self.section_ends@[i].0@, self.section_ends@[i].1 as int),
            ),
            comments: texts(self.comments@),
        }
    }
}

impl DocumentLayout {
    pub fn key(&self, section: &[char], key: &[char]) -> (r: Option<usize>)
        ensures
            match r {
                Some(at) => key_place(self@.keys, section@, key@, 0) == Some(at as int),
                None => key_place(self@.keys, section@, key@, 0) is None,
            },
    {
        let mut i: usize = 0;
        while i < self.keys.len()
            invariant
                i <= self.keys@.len(),
                key_place(self@.keys, section@, key@, 0) == key_place(
                    self@.keys,
                    section@,
                    key@,
                    i as int,
                ),
            decreases self.keys@.len() - i,
        {
            if same_chars(self.keys[i].0.as_slice(), section) && same_chars(
                self.keys[i].1.as_slice(),
                key,
            ) {
                return Some(self.keys[i].2);
            }
            i += 1;
        }
        None
    }

    pub fn end(&self, section: &[char]) -> (r: Option<usize>)
        ensures
            match r {
                Some(at) => section_end(self@.ends, section@, 0) == Some(at as int),
                None => section_end(self@.ends, section@, 0) is None,
            },
    {
        let mut i: usize = 0;
        while i < self.section_ends.len()
            invariant
                i <= self.section_ends@.len(),
                section_end(self@.ends, section@, 0) == section_end(self@.ends, section@, i as int),
            decreases self.section_ends@.len() - i,
        {
            if same_chars(self.section_ends[i].0.as_slice(), section) {
                return Some(self.section_ends[i].1);
            }
            i += 1;
        }
        None
    }

    pub fn documents(&self, marker: &[char]) -> (r: bool)
        ensures
            r == self@.comments.contains(marker@),
    {
        for i in 0..self.comments.len()
            invariant
                forall|k: int| 0 <= k < i ==> self@.comments[k] != marker@,
        {
            if same_chars(self.comments[i].as_slice(), marker) {
                assert(self@.comments[i as int] == marker@);
                return true;
            }
        }
        false
    }
}

proof fn lines_within(lines: Seq<Seq<char>>, n: int)
    requires
        0 <= n <= lines.len(),
    ensures
        scanned(lines.take(n)).offset <= scanned(lines).offset,
        0 <= scanned(lines.take(n)).offset,
    decreases lines.len(),
{
    if n == lines.len() {
        assert(lines.take(n) == lines);
        if lines.len() > 0 {
            lines_within(lines.drop_last(), lines.len() - 1);
            assert(lines.drop_last().take(lines.len() - 1) == lines.drop_last());
        }
    } else {
        lines_within(lines.drop_last(), n);
        assert(lines.drop_last().take(n) == lines.take(n));
    }
}

/// The length of two runs of lines is the sum of theirs.
pub proof fn scanned_offset_adds(a: Seq<Seq<char>>, b: Seq<Seq<char>>)
    ensures
        scanned(a + b).offset == scanned(a).offset + scanned(b).offset,
    decreases b.len(),
{
    if b.len() == 0 {
        assert(a + b == a);
    } else {
        scanned_offset_adds(a, b.drop_last());
        assert((a + b).drop_last() == a + b.drop_last());
        assert((a + b).last() == b.last());
    }
}

/// The lines of a text cover it.
pub proof fn lines_cover(text: Seq<char>)
    ensures
        scanned(raw_lines(text)).offset == text.len(),
    decreases text.len(),
{
    let i = until(text, '\n', '\n');
    until_range(text, '\n', '\n');
    if text.len() == 0 {
    } else if i < text.len() {
        let first = seq![text.take(i + 1)];
        let rest = raw_lines(text.skip(i + 1));
        lines_cover(text.skip(i + 1));
        scanned_offset_adds(first, rest);
        assert(first.drop_last() == Seq::<Seq<char>>::empty());
        assert(scanned(first.drop_last()).offset == 0);
        assert(scanned(first).offset == i + 1);
    } else {
        let only = seq![text];
        assert(only.drop_last() == Seq::<Seq<char>>::empty());
        assert(scanned(only.drop_last()).offset == 0);
    }
}

/// Finds where the keys and sections of a text stand.
pub fn scan_layout(text: &[char]) -> (r: DocumentLayout)
    ensures
        r@ == outline(text@),
{
    let total: usize = text.len();
    let raw = split_lines(text);
    let ghost lines = raw_lines(text@);
    let mut layout = DocumentLayout {
        keys: Vec::new(),
        section_ends: Vec::new(),
        comments: Vec::new(),
    };
    let mut section: Vec<char> = Vec::new();
    let mut offset: usize = 0;
    let mut quote: Option<char> = None;
    let mut continuation = false;
    proof {
        lines_cover(text@);
        assert(lines.take(0) == Seq::<Seq<char>>::empty());
        assert(layout@.keys == Scan::start().outline.keys);
        assert(layout@.ends == Scan::start().outline.ends);
        assert(layout@.comments == Scan::start().outline.comments);
    }
    for i in 0..raw.len()
        invariant
            lines == raw_lines(text@),
            texts(raw@) == lines,
            scanned(lines).offset == total,
            scanned(lines.take(i as int)) == (Scan {
                outline: layout@,
                section: section@,
                offset: offset as int,
                quote,
                continuation,
            }),
    {
        let ghost state = scanned(lines.take(i as int));
        proof {
            assert(lines[i as int] == raw@[i as int]@);
            assert(lines.take(i + 1).drop_last() == lines.take(i as int));
            assert(lines.take(i + 1).last() == lines[i as int]);
            lines_within(lines, i + 1);
        }
        let this = raw[i].as_slice();
        let line = trim(this);
        let ghost before = layout@;
        if quote.is_some() {
            quote = unfinished_quote(line.as_slice(), quote);
        } else if continuation {
            continuation = continued(this);
        } else if line.len() > 0 && (line[0] == ';' || line[0] == '#') {
            let ghost text = line@;
            layout.comments.push(line);
            proof {
                assert(layout@.comments =~= before.comments.push(text));
                assert(layout@.keys =~= before.keys);
                assert(layout@.ends =~= before.ends);
            }
        } else {
            match section_name(line.as_slice()) {
                Some(name) => {
                    let ghost finished = section@;
                    layout.section_ends.push((section, offset));
                    section = name;
                    proof {
                        assert(layout@.ends =~= before.ends.push((finished, offset as int)));
                        assert(layout@.keys =~= before.keys);
                        assert(layout@.comments =~= before.comments);
                    }
                },
                None => {
                    if let Some((key, value)) = assignment(line.as_slice()) {
                        let owner = part(section.as_slice(), 0, section.len());
                        let ghost name = key@;
                        layout.keys.push((owner, key, offset));
                        quote = unfinished_quote(value.as_slice(), None);
                        continuation = quote.is_none() && continued(this);
                        proof {
                            assert(owner@ == section@);
                            assert(layout@.keys =~= before.keys.push(
                                (section@, name, offset as int),
                            ));
                            assert(layout@.ends =~= before.ends);
                            assert(layout@.comments =~= before.comments);
                        }
                    }
                },
            }
        }
        offset = offset + raw[i].len();
        assert(scanned(lines.take(i + 1)) == state.after(lines[i as int]));
    }
    let ghost last = layout@;
    let ghost name = section@;
    assert(lines.take(lines.len() as int) == lines);
    layout.section_ends.push((section, total));
    proof {
        assert(layout@.ends =~= last.ends.push((name, text@.len() as int)));
        assert(layout@.keys =~= last.keys);
        assert(layout@.comments =~= last.comments);
    }
    layout
}

/// The value of a key is that of its first property in the first section of the name. A later
/// section of the same name is not asked.
pub proof fn first_property_of_the_first_section(
    sections: Seq<SectionView>,
    name: Option<Seq<char>>,
    key: Seq<char>,
    at: int,
    place: int,
)
    requires
        0 <= at < sections.len(),
        sections[at].0 == name,
        forall|i: int| 0 <= i < at ==> (#[trigger] sections[i]).0 != name,
        0 <= place <= sections[at].1.len(),
        forall|k: int| 0 <= k < place ==> (#[trigger] sections[at].1[k]).0 != key,
        place < sections[at].1.len() ==> sections[at].1[place].0 == key,
    ensures
        lookup(sections, name, key, 0) == if place < sections[at].1.len() {
            Some(sections[at].1[place].1)
        } else {
            None
        },
{
    lookup_skips(sections, name, key, 0, at);
    property_skips(sections[at].1, key, 0, place);
}

proof fn lookup_skips(
    sections: Seq<SectionView>,
    name: Option<Seq<char>>,
    key: Seq<char>,
    from: int,
    at: int,
)
    requires
        0 <= from <= at < sections.len(),
        forall|i: int| 0 <= i < at ==> (#[trigger] sections[i]).0 != name,
    ensures
        lookup(sections, name, key, from) == lookup(sections, name, key, at),
    decreases at - from,
{
    if from < at {
        assert(sections[from].0 != name);
        lookup_skips(sections, name, key, from + 1, at);
    }
}

proof fn property_skips(properties: Seq<PropertyView>, key: Seq<char>, from: int, place: int)
    requires
        0 <= from <= place <= properties.len(),
        forall|k: int| 0 <= k < place ==> (#[trigger] properties[k]).0 != key,
    ensures
        property(properties, key, from) == property(properties, key, place),
    decreases place - from,
{
    if from < place {
        assert(properties[from].0 != key);
        property_skips(properties, key, from + 1, place);
    }
}

/// A document without a section of the name has no value of it.
pub proof fn absent_section_has_no_value(
    sections: Seq<SectionView>,
    name: Option<Seq<char>>,
    key: Seq<char>,
    from: int,
)
    requires
        0 <= from <= sections.len(),
        forall|i: int| 0 <= i < sections.len() ==> (#[trigger] sections[i]).0 != name,
    ensures
        lookup(sections, name, key, from) is None,
    decreases sections.len() - from,
{
    if from < sections.len() {
        assert(sections[from].0 != name);
        absent_section_has_no_value(sections, name, key, from + 1);
    }
}

/// The entries of a document are those of its sections in their order: every property once, with
/// the name of its section.
pub proof fn entries_follow_the_sections(a: Seq<SectionView>, section: SectionView, i: int)
    requires
        0 <= i < section.1.len(),
    ensures
        entries_of(a.push(section)).len() == entries_of(a).len() + section.1.len(),
        entries_of(a.push(section)).take(entries_of(a).len() as int) == entries_of(a),
        ({
            let entry = entries_of(a.push(section))[entries_of(a).len() + i];
            &&& entry.1 == section.1[i].0
            &&& entry.2 == section.1[i].1
            &&& section.0 is Some ==> entry.0 == section.0->0
            &&& section.0 is None ==> entry.0.len() == 0
        }),
        entries_of(Seq::<SectionView>::empty()).len() == 0,
{
    assert(a.push(section).drop_last() =~= a);
    assert(a.push(section).last() == section);
    assert(entries_of(a.push(section)).take(entries_of(a).len() as int) =~= entries_of(a));
}

/// The values of a key are those of its entries, in their order; another key has no part in them.
pub proof fn values_follow_the_entries(
    entries: Seq<EntryView>,
    entry: EntryView,
    section: Seq<char>,
    key: Seq<char>,
)
    ensures
        (entry.0 == section && entry.1 == key) ==> values_of(entries.push(entry), section, key)
            == values_of(entries, section, key).push(entry.2),
        !(entry.0 == section && entry.1 == key) ==> values_of(entries.push(entry), section, key)
            == values_of(entries, section, key),
        values_of(Seq::<EntryView>::empty(), section, key).len() == 0,
{
    assert(entries.push(entry).drop_last() =~= entries);
}

/// A header is a name in square brackets at the beginning of the line; what follows the first
/// closing bracket does not matter.
pub proof fn header_lines(name: Seq<char>, rest: Seq<char>, line: Seq<char>)
    requires
        forall|i: int| 0 <= i < name.len() ==> #[trigger] name[i] != ']',
    ensures
        header_name(seq!['['] + name + seq![']'] + rest) == Some(trimmed(name)),
        line.len() == 0 || line[0] != '[' ==> header_name(line) is None,
        (forall|i: int| 0 <= i < line.len() ==> #[trigger] line[i] != ']') ==> header_name(
            line,
        ) is None,
{
    let whole = seq!['['] + name + seq![']'] + rest;
    let tail = whole.drop_first();
    assert(tail =~= name + seq![']'] + rest);
    until_range(tail, ']', ']');
    let at = until(tail, ']', ']');
    assert(tail[name.len() as int] == ']');
    assert(at == name.len()) by {
        if at < name.len() {
            assert(tail[at] == name[at]);
        }
    }
    assert(tail.take(at) =~= name);
    if line.len() > 0 {
        until_range(line.drop_first(), ']', ']');
        let k = until(line.drop_first(), ']', ']');
        if k < line.drop_first().len() {
            assert(line.drop_first()[k] == line[k + 1]);
        }
    }
}

/// An assignment is a key and a value with the first equals sign or colon between them. The key is
/// trimmed, and the white space before the value is not part of it.
pub proof fn assignment_lines(key: Seq<char>, sign: char, value: Seq<char>, line: Seq<char>)
    requires
        sign == '=' || sign == ':',
        forall|i: int| 0 <= i < key.len() ==> #[trigger] key[i] != '=' && key[i] != ':',
    ensures
        assigned(key + seq![sign] + value) == Some((trimmed(key), trimmed_start(value))),
        (forall|i: int| 0 <= i < line.len() ==> #[trigger] line[i] != '=' && line[i] != ':')
            ==> assigned(line) is None,
{
    let whole = key + seq![sign] + value;
    until_range(whole, '=', ':');
    let at = until(whole, '=', ':');
    assert(whole[key.len() as int] == sign);
    assert(at == key.len()) by {
        if at < key.len() {
            assert(whole[at] == key[at]);
        }
    }
    assert(whole.take(at) =~= key);
    assert(whole.skip(at + 1) =~= value);
    until_range(line, '=', ':');
}

/// A quoted value is closed by the quote that opened it, and by that one only. What follows it may
/// be another quoted value; any other character ends the quoting.
pub proof fn quotes_close(body: Seq<char>, quote: char, rest: Seq<char>)
    requires
        forall|i: int| 0 <= i < body.len() ==> #[trigger] body[i] != quote,
    ensures
        open_quote(body, Some(quote)) == Some(quote),
        open_quote(body + seq![quote] + rest, Some(quote)) == open_quote(rest, None),
        quote == '\'' || quote == '"' ==> open_quote(seq![quote] + rest, None) == open_quote(
            rest,
            Some(quote),
        ),
        quote != '\'' && quote != '"' ==> open_quote(seq![quote] + rest, None) is None,
        open_quote(Seq::<char>::empty(), None) is None,
{
    reveal_with_fuel(open_quote, 2);
    until_range(body, quote, quote);
    let whole = body + seq![quote] + rest;
    until_range(whole, quote, quote);
    let at = until(whole, quote, quote);
    assert(whole[body.len() as int] == quote);
    assert(at == body.len()) by {
        if at < body.len() {
            assert(whole[at] == body[at]);
        }
    }
    assert(whole.skip(at + 1) =~= rest);
    assert((seq![quote] + rest).drop_first() =~= rest);
    assert((seq![quote] + rest)[0] == quote);
}

/// A line goes on in the next one where the last character before its line end is a backslash.
pub proof fn continued_lines(body: Seq<char>, end: Seq<char>)
    requires
        forall|i: int| 0 <= i < end.len() ==> #[trigger] end[i] == '\r' || end[i] == '\n',
        body.len() > 0 ==> body.last() != '\r' && body.last() != '\n',
    ensures
        continues(body + end) <==> body.len() > 0 && body.last() == '\\',
    decreases end.len(),
{
    if end.len() > 0 {
        assert((body + end).drop_last() =~= body + end.drop_last());
        assert((body + end).last() == end.last());
        assert(end[end.len() - 1] == end.last());
        continued_lines(body, end.drop_last());
    } else {
        assert(body + end =~= body);
    }
}

/// A line within a quoted or continued value belongs to the value, whatever it looks like: it is
/// neither a comment nor a header nor an assignment.
pub proof fn lines_of_a_value_are_no_structure(scan: Scan, raw: Seq<char>)
    requires
        scan.quote is Some || scan.continuation,
    ensures
        scan.after(raw).outline == scan.outline,
        scan.after(raw).section == scan.section,
        scan.after(raw).offset == scan.offset + raw.len(),
        scan.quote is Some ==> scan.after(raw).quote == open_quote(trimmed(raw), scan.quote)
            && scan.after(raw).continuation == scan.continuation,
        scan.quote is None ==> scan.after(raw).quote is None && scan.after(raw).continuation
            == continues(raw),
{
}

/// Any other line is a comment where it begins with a semicolon or a number sign, then a header,
/// then an assignment, and else nothing. A header ends the section before it where it stands; a key
/// is noted at the beginning of its line.
pub proof fn lines_of_a_document(scan: Scan, raw: Seq<char>)
    requires
        scan.quote is None,
        !scan.continuation,
    ensures
        ({
            let line = trimmed(raw);
            let after = scan.after(raw);
            let comment = line.len() > 0 && (line[0] == ';' || line[0] == '#');
            let header = !comment && header_name(line) is Some;
            let setting = !comment && !header && assigned(line) is Some;
            &&& after.offset == scan.offset + raw.len()
            &&& after.outline.comments == if comment {
                scan.outline.comments.push(line)
            } else {
                scan.outline.comments
            }
            &&& after.outline.ends == if header {
                scan.outline.ends.push((scan.section, scan.offset))
            } else {
                scan.outline.ends
            }
            &&& after.section == if header {
                header_name(line)->0
            } else {
                scan.section
            }
            &&& after.outline.keys == if setting {
                scan.outline.keys.push((scan.section, (assigned(line)->0).0, scan.offset))
            } else {
                scan.outline.keys
            }
            &&& setting ==> after.quote == open_quote((assigned(line)->0).1, None)
            &&& after.continuation <==> setting && after.quote is None && continues(raw)
            &&& !setting ==> after.quote is None
        }),
{
}

/// A document begins without a section, and its last section ends where the text does.
pub proof fn outline_begins_and_ends(text: Seq<char>)
    ensures
        outline(text).ends.last() == (scanned(raw_lines(text)).section, text.len() as int),
        outline(text).ends.drop_last() == scanned(raw_lines(text)).outline.ends,
        outline(text).keys == scanned(raw_lines(text)).outline.keys,
        outline(text).comments == scanned(raw_lines(text)).outline.comments,
        ({
            let start = scanned(Seq::<Seq<char>>::empty());
            &&& start.section.len() == 0 && start.offset == 0
            &&& start.quote is None && !start.continuation
            &&& start.outline.keys.len() == 0 && start.outline.ends.len() == 0
            &&& start.outline.comments.len() == 0
        }),
{
    assert(outline(text).ends.drop_last() =~= scanned(raw_lines(text)).outline.ends);
}

/// The place of a key is that of its first line, and the end of a section that of its first part.
pub proof fn first_places_count(
    keys: Seq<(Seq<char>, Seq<char>, int)>,
    ends: Seq<(Seq<char>, int)>,
    section: Seq<char>,
    key: Seq<char>,
    from: int,
)
    requires
        0 <= from,
    ensures
        match key_place(keys, section, key, from) {
            Some(place) => exists|i: int|
                from <= i < keys.len() && #[trigger] keys[i] == (section, key, place)
                    && forall|k: int|
                    from <= k < i ==> !((#[trigger] keys[k]).0 == section && keys[k].1 == key),
            None => forall|k: int|
                from <= k < keys.len() ==> !((#[trigger] keys[k]).0 == section && keys[k].1 == key),
        },
        match section_end(ends, section, from) {
            Some(place) => exists|i: int|
                from <= i < ends.len() && #[trigger] ends[i] == (section, place) && forall|k: int|
                    from <= k < i ==> (#[trigger] ends[k]).0 != section,
            None => forall|k: int| from <= k < ends.len() ==> (#[trigger] ends[k]).0 != section,
        },
    decreases keys.len() + ends.len() - from,
{
    if from < keys.len() || from < ends.len() {
        first_places_count(keys, ends, section, key, from + 1);
        if from < keys.len() {
            if keys[from].0 == section && keys[from].1 == key {
                assert(keys[from] == (section, key, keys[from].2));
            }
        }
        if from < ends.len() {
            if ends[from].0 == section {
                assert(ends[from] == (section, ends[from].1));
            }
        }
    }
}

/// A key has a value exactly where it has an entry; the values of a key without one are none.
pub proof fn values_come_from_entries(
    entries: Seq<EntryView>,
    section: Seq<char>,
    key: Seq<char>,
    more: EntryView,
)
    ensures
        has_value(entries, section, key) <==> values_of(entries, section, key).len() > 0,
        has_value(entries.push(more), section, key) <==> has_value(entries, section, key) || (more.0
            == section && more.1 == key),
        !has_value(Seq::<EntryView>::empty(), section, key),
    decreases entries.len(),
{
    let all = entries.push(more);
    if has_value(entries, section, key) {
        let i = choose|i: int|
            0 <= i < entries.len() && (#[trigger] entries[i]).0 == section && entries[i].1 == key;
        assert(all[i] == entries[i]);
    }
    if has_value(all, section, key) {
        let i = choose|i: int|
            0 <= i < all.len() && (#[trigger] all[i]).0 == section && all[i].1 == key;
        if i < entries.len() {
            assert(entries[i] == all[i]);
        }
    }
    assert(all[entries.len() as int] == more);
    if entries.len() > 0 {
        values_come_from_entries(entries.drop_last(), section, key, entries.last());
        assert(entries.drop_last().push(entries.last()) =~= entries);
    }
}

/// A document is blank where it has no entry.
pub proof fn blank_documents_have_no_entries(sections: Seq<SectionView>)
    ensures
        blank(sections) <==> entries_of(sections).len() == 0,
    decreases sections.len(),
{
    if sections.len() > 0 {
        let before = sections.drop_last();
        blank_documents_have_no_entries(before);
        if blank(sections) {
            assert forall|i: int| 0 <= i < before.len() implies (#[trigger] before[i]).1.len() == 0 by {
                assert(sections[i] == before[i]);
            }
            assert(sections[sections.len() - 1].1.len() == 0);
        }
        if entries_of(sections).len() == 0 {
            assert forall|i: int| 0 <= i < sections.len() implies (#[trigger] sections[i]).1.len()
                == 0 by {
                if i < before.len() {
                    assert(sections[i] == before[i]);
                }
            }
        }
    }
}

/// The first entry whose values differ is found, and only such an entry.
pub proof fn first_changed_entry(before: Seq<EntryView>, after: Seq<EntryView>, from: int)
    requires
        0 <= from,
    ensures
        match first_change(before, after, from) {
            Some(entry) => exists|i: int|
                {
                    &&& from <= i < before.len()
                    &&& #[trigger] before[i] == entry
                    &&& values_of(before, entry.0, entry.1) != values_of(after, entry.0, entry.1)
                    &&& forall|k: int|
                        from <= k < i ==> values_of(before, (#[trigger] before[k]).0, before[k].1)
                            == values_of(after, before[k].0, before[k].1)
                },
            None => forall|k: int|
                from <= k < before.len() ==> values_of(before, (#[trigger] before[k]).0, before[k].1)
                    == values_of(after, before[k].0, before[k].1),
        },
    decreases before.len() - from,
{
    if from < before.len() {
        first_changed_entry(before, after, from + 1);
        if first_change(before, after, from) is Some && values_of(
            before,
            before[from].0,
            before[from].1,
        ) == values_of(after, before[from].0, before[from].1) {
            let entry = first_change(before, after, from)->0;
            let i = choose|i: int|
                {
                    &&& from + 1 <= i < before.len()
                    &&& #[trigger] before[i] == entry
                    &&& values_of(before, entry.0, entry.1) != values_of(after, entry.0, entry.1)
                    &&& forall|k: int|
                        from + 1 <= k < i ==> values_of(before, (#[trigger] before[k]).0, before[k].1)
                            == values_of(after, before[k].0, before[k].1)
                };
            assert(before[i] == entry);
        }
    }
}

}
