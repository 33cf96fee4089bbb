//! Completing a document with the settings of a template.
//!
//! New lines are inserted into the text as it stands; what the user wrote is never written anew.

use vstd::prelude::*;

use crate::config::defaults::{default_config, default_text};
use crate::config::document::{
    assigned, assignment, contains_entry, entries_of, entry_views, first_change, has_value,
    header_name, ini_error, ini_sections, is_comment, key_place, outline, parse_ini, scan_layout,
    section_end, section_name, values, values_of, Entry, EntryView, IniSyntaxError, Outline,
    SyntaxView,
};
use crate::config::overrides::{
    has_key, position, put, text_entries, text_entry, text_get, text_insert, text_len, text_map,
};
use crate::text::{
    begins_with, chars_of, ends_with, find_either, finishes_with, part, push_chars, raw_lines,
    split_lines, string_of, texts, trim, trimmed, until, until_range,
};

verus! {

/// One setting of a template.
pub struct TemplateView {
    pub section: Seq<char>,
    pub key: Seq<char>,
    pub marker: Seq<char>,
    pub comments: Seq<char>,
    pub assignment: Seq<char>,
}

/// The state of a scan over the lines of a template.
pub struct TemplateScan {
    pub section: Seq<char>,
    pub comments: Seq<Seq<char>>,
    pub entries: Seq<TemplateView>,
}

/// Lines joined by newlines.
pub open spec fn joined_lines(lines: Seq<Seq<char>>) -> Seq<char>
    decreases lines.len(),
{
    if lines.len() == 0 {
        seq![]
    } else if lines.len() == 1 {
        lines[0]
    } else {
        joined_lines(lines.drop_last()).push('\n') + lines.last()
    }
}

/// The name of a setting with its section.
pub open spec fn full_name(section: Seq<char>, key: Seq<char>) -> Seq<char> {
    if section.len() == 0 {
        key
    } else {
        section.push('.') + key
    }
}

/// The comment line that marks a setting as documented.
pub open spec fn marker_of(section: Seq<char>, key: Seq<char>) -> Seq<char> {
    "; 配置说明："@ + full_name(section, key)
}

impl TemplateScan {
    pub open spec fn start() -> TemplateScan {
        TemplateScan { section: seq![], comments: seq![], entries: seq![] }
    }

    /// The state after one line. The comments above an assignment belong to it.
    pub open spec fn after(self, raw: Seq<char>) -> TemplateScan {
        let line = trimmed(raw);
        match header_name(line) {
            Some(name) => TemplateScan { section: name, comments: seq![], ..self },
            None => if is_comment(line) {
                TemplateScan { comments: self.comments.push(line), ..self }
            } else {
                match assigned(line) {
                    Some((key, _)) => TemplateScan {
                        comments: seq![],
                        entries: self.entries.push(
                            TemplateView {
                                section: self.section,
                                key,
                                marker: marker_of(self.section, key),
                                comments: joined_lines(self.comments),
                                assignment: line,
                            },
                        ),
                        ..self
                    },
                    None => self,
                }
            },
        }
    }
}

pub open spec fn template_scan(lines: Seq<Seq<char>>) -> TemplateScan
    decreases lines.len(),
{
    if lines.len() == 0 {
        TemplateScan::start()
    } else {
        template_scan(lines.drop_last()).after(lines.last())
    }
}

/// The settings of a template.
pub open spec fn template_of(template: Seq<char>) -> Seq<TemplateView> {
    template_scan(raw_lines(template)).entries
}

/// One setting of a template.
pub struct TemplateEntry {
    section: Vec<char>,
    key: Vec<char>,
    marker: Vec<char>,
    comments: Vec<char>,
    assignment: Vec<char>,
}

impl View for TemplateEntry {
    type V = TemplateView;

    closed spec fn view(&self) -> TemplateView {
        TemplateView {
            section: self.section@,
            key: self.key@,
            marker: self.marker@,
            comments: self.comments@,
            assignment: self.assignment@,
        }
    }
}

pub open spec fn template_views(entries: Seq<TemplateEntry>) -> Seq<TemplateView> {
    Seq::new(entries.len(), |i: int| entries[i]@)
}

fn join_lines(lines: &Vec<Vec<char>>) -> (r: Vec<char>)
    ensures
        r@ == joined_lines(texts(lines@)),
{
    let ghost all = texts(lines@);
    let mut r: Vec<char> = Vec::new();
    assert(all.take(0) == Seq::<Seq<char>>::empty());
    for i in 0..lines.len()
        invariant
            all == texts(lines@),
            r@ == joined_lines(all.take(i as int)),
    {
        assert(all.take(i + 1).drop_last() == all.take(i as int));
        assert(all[i as int] == lines@[i as int]@);
        if i > 0 {
            r.push('\n');
            push_chars(&mut r, lines[i].as_slice());
        } else {
            push_chars(&mut r, lines[i].as_slice());
            assert(r@ == lines@[0]@);
            assert(all.take(1)[0] == lines@[0]@);
        }
    }
    assert(all.take(all.len() as int) == all);
    r
}

fn marker(section: &[char], key: &[char]) -> (r: Vec<char>)
    ensures
        r@ == marker_of(section@, key@),
{
    let mut name: Vec<char> = Vec::new();
    if section.len() == 0 {
        push_chars(&mut name, key);
        assert(name@ == key@);
    } else {
        push_chars(&mut name, section);
        assert(name@ == section@);
        name.push('.');
        push_chars(&mut name, key);
    }
    let mut r = chars_of("; 配置说明：");
    push_chars(&mut r, name.as_slice());
    r
}

/// Lists the settings of a template.
pub fn template_entries(template: &str) -> (r: Vec<TemplateEntry>)
    ensures
        template_views(r@) == template_of(template@),
{
    let chars = chars_of(template);
    let raw = split_lines(chars.as_slice());
    let ghost lines = raw_lines(template@);
    let mut entries: Vec<TemplateEntry> = Vec::new();
    let mut section: Vec<char> = Vec::new();
    let mut comments: Vec<Vec<char>> = Vec::new();
    proof {
        assert(lines.take(0) == Seq::<Seq<char>>::empty());
        assert(template_views(entries@) == Seq::<TemplateView>::empty());
        assert(texts(comments@) == Seq::<Seq<char>>::empty());
    }
    for i in 0..raw.len()
        invariant
            lines == raw_lines(template@),
            texts(raw@) == lines,
            template_scan(lines.take(i as int)) == (TemplateScan {
                section: section@,
                comments: texts(comments@),
                entries: template_views(entries@),
            }),
    {
        let ghost state = template_scan(lines.take(i as int));
        proof {
            assert(lines[i as int] == raw@[i as int]@);
            assert(lines.take(i + 1).drop_last() == lines.take(i as int));
            assert(lines.take(i + 1).last() == lines[i as int]);
        }
        let line = trim(raw[i].as_slice());
        match section_name(line.as_slice()) {
            Some(name) => {
                section = name;
                comments = Vec::new();
                assert(texts(comments@) == Seq::<Seq<char>>::empty());
            },
            None => {
                if line.len() > 0 && (line[0] == ';' || line[0] == '#') {
                    let ghost before = texts(comments@);
                    let ghost text = line@;
                    comments.push(line);
                    assert(texts(comments@) == before.push(text));
                } else if let Some((key, _)) = assignment(line.as_slice()) {
                    let ghost before = template_views(entries@);
                    let entry = TemplateEntry {
                        section: part(section.as_slice(), 0, section.len()),
                        marker: marker(section.as_slice(), key.as_slice()),
                        key,
                        comments: join_lines(&comments),
                        assignment: line,
                    };
                    assert(entry.section@ == section@);
                    let ghost view = entry@;
                    entries.push(entry);
                    comments = Vec::new();
                    assert(template_views(entries@) == before.push(view));
                    assert(texts(comments@) == Seq::<Seq<char>>::empty());
                }
            },
        }
        assert(template_scan(lines.take(i + 1)) == state.after(lines[i as int]));
    }
    assert(lines.take(lines.len() as int) == lines);
    entries
}

// ---------------------------------------------------------------------------
// What is inserted where

/// A document that is completed: its text, its entries and its outline.
pub struct Source {
    pub text: Seq<char>,
    pub entries: Seq<EntryView>,
    pub outline: Outline,
}

impl Source {
    /// Whether the setting has a value.
    pub open spec fn present(self, e: TemplateView) -> bool {
        has_value(self.entries, e.section, e.key)
    }

    /// Whether the setting's comment stands in the text.
    pub open spec fn documented(self, e: TemplateView) -> bool {
        self.outline.comments.contains(e.marker)
    }

    /// Whether nothing has to be added for the setting.
    pub open spec fn settled(self, e: TemplateView) -> bool {
        self.present(e) && self.documented(e)
    }

    /// Whether the setting's section stands in the text.
    pub open spec fn known(self, e: TemplateView) -> bool {
        section_end(self.outline.ends, e.section, 0) is Some
    }

    /// Where the addition for a setting of a known section goes: above its first assignment, or
    /// at the end of its first section.
    pub open spec fn place(self, e: TemplateView) -> int {
        match key_place(self.outline.keys, e.section, e.key, 0) {
            Some(at) => at,
            None => section_end(self.outline.ends, e.section, 0)->0,
        }
    }

    /// What is added for a setting.
    pub open spec fn addition(self, e: TemplateView) -> Seq<char> {
        let comments = if self.documented(e) {
            seq![]
        } else {
            e.comments.push('\n')
        };
        if self.present(e) {
            comments
        } else {
            comments + e.assignment + seq!['\n', '\n']
        }
    }

    /// What is added at a place of the text for settings of known sections.
    pub open spec fn inserted(self, entries: Seq<TemplateView>, at: int) -> Seq<char>
        decreases entries.len(),
    {
        if entries.len() == 0 {
            seq![]
        } else {
            let rest = self.inserted(entries.drop_last(), at);
            let e = entries.last();
            if !self.settled(e) && self.known(e) && self.place(e) == at {
                rest + self.addition(e)
            } else {
                rest
            }
        }
    }

    /// The sections that are added, each with its text, in the order of the template.
    pub open spec fn fresh(self, entries: Seq<TemplateView>) -> Seq<(Seq<char>, Seq<char>)>
        decreases entries.len(),
    {
        if entries.len() == 0 {
            seq![]
        } else {
            let rest = self.fresh(entries.drop_last());
            let e = entries.last();
            if !self.settled(e) && !self.known(e) {
                put(rest, e.section, section_text(rest, e.section) + self.addition(e))
            } else {
                rest
            }
        }
    }

    /// Whether the document needs no addition.
    pub open spec fn complete(self, entries: Seq<TemplateView>) -> bool {
        forall|i: int| 0 <= i < entries.len() ==> self.settled(#[trigger] entries[i])
    }

    /// Everything that is added at a place of the text.
    pub open spec fn insertion(self, entries: Seq<TemplateView>, at: int) -> Seq<char> {
        if at == self.text.len() {
            self.inserted(entries, at) + values_text(self.fresh(entries))
        } else {
            self.inserted(entries, at)
        }
    }

    /// The text up to a place, with what is added up to and at the place.
    pub open spec fn woven(self, entries: Seq<TemplateView>, at: int) -> Seq<char> {
        with_insertion(
            self.before(entries, at),
            self.insertion(entries, at),
            newline_of(self.text),
        )
    }

    /// The text up to a place, with what is added before the place.
    pub open spec fn before(self, entries: Seq<TemplateView>, at: int) -> Seq<char>
        decreases at,
    {
        if at <= 0 {
            seq![]
        } else {
            with_insertion(
                self.before(entries, at - 1),
                self.insertion(entries, at - 1),
                newline_of(self.text),
            ).push(self.text[at - 1])
        }
    }

    /// The completed text.
    pub open spec fn merged(self, entries: Seq<TemplateView>) -> Seq<char> {
        let newline = newline_of(self.text);
        let all = self.woven(entries, self.text.len() as int);
        if self.complete(entries) {
            self.text
        } else if self.text.len() > 0 && self.text.last() != '\n' {
            without_newlines(all, newline)
        } else {
            all
        }
    }
}

/// The text of an added section: its header where it is new.
pub open spec fn section_text(
    sections: Seq<(Seq<char>, Seq<char>)>,
    section: Seq<char>,
) -> Seq<char> {
    if has_key(sections, section) {
        sections[position(sections, section)].1
    } else {
        seq!['\n', '['] + section + seq![']', '\n', '\n']
    }
}

/// The texts of the added sections, joined.
pub open spec fn values_text(sections: Seq<(Seq<char>, Seq<char>)>) -> Seq<char>
    decreases sections.len(),
{
    if sections.len() == 0 {
        seq![]
    } else {
        values_text(sections.drop_last()) + sections.last().1
    }
}

/// The newline of a text: that of its first line.
pub open spec fn newline_of(text: Seq<char>) -> Seq<char> {
    let at = until(text, '\n', '\n');
    if 0 < at < text.len() && text[at - 1] == '\r' {
        seq!['\r', '\n']
    } else {
        seq!['\n']
    }
}

/// The text with every newline written in the given way.
pub open spec fn with_newlines(text: Seq<char>, newline: Seq<char>) -> Seq<char>
    decreases text.len(),
{
    if text.len() == 0 {
        seq![]
    } else if text.last() == '\n' {
        with_newlines(text.drop_last(), newline) + newline
    } else {
        with_newlines(text.drop_last(), newline).push(text.last())
    }
}

/// The text with an addition at its end, on a line of its own.
pub open spec fn with_insertion(base: Seq<char>, addition: Seq<char>, newline: Seq<char>) -> Seq<
    char,
> {
    if addition.len() == 0 {
        base
    } else if base.len() > 0 && base.last() != '\n' {
        base + newline + with_newlines(addition, newline)
    } else {
        base + with_newlines(addition, newline)
    }
}

/// The text without the newlines at its end.
pub open spec fn without_newlines(text: Seq<char>, newline: Seq<char>) -> Seq<char>
    decreases text.len(),
{
    if newline.len() > 0 && finishes_with(text, newline) {
        without_newlines(text.take(text.len() - newline.len()), newline)
    } else {
        text
    }
}

/// The source of a text with the given entries.
pub open spec fn source_of(text: Seq<char>, entries: Seq<EntryView>) -> Source {
    Source { text, entries, outline: outline(text) }
}

/// Additions by their place; a place without addition is absent or has an empty one.
pub open spec fn added_at(list: Seq<(usize, Vec<char>)>, at: int) -> Seq<char>
    decreases list.len(),
{
    if list.len() == 0 {
        seq![]
    } else if list[0].0 == at {
        list[0].1@
    } else {
        added_at(list.drop_first(), at)
    }
}

fn find_added(list: &Vec<(usize, Vec<char>)>, at: usize) -> (r: Option<usize>)
    ensures
        match r {
            Some(i) => i < list@.len() && list@[i as int].0 == at && added_at(list@, at as int)
                == list@[i as int].1@ && forall|k: int|
                0 <= k < i ==> (#[trigger] list@[k]).0 != at,
            None => added_at(list@, at as int) == Seq::<char>::empty() && forall|k: int|
                0 <= k < list@.len() ==> (#[trigger] list@[k]).0 != at,
        },
{
    let mut i: usize = 0;
    assert(list@.skip(0) == list@);
    while i < list.len()
        invariant
            i <= list@.len(),
            added_at(list@, at as int) == added_at(list@.skip(i as int), at as int),
            forall|k: int| 0 <= k < i ==> (#[trigger] list@[k]).0 != at,
        decreases list@.len() - i,
    {
        if list[i].0 == at {
            return Some(i);
        }
        assert(list@.skip(i as int).drop_first() == list@.skip(i + 1));
        i += 1;
    }
    None
}

proof fn added_elsewhere(list: Seq<(usize, Vec<char>)>, item: (usize, Vec<char>), other: int)
    ensures
        (forall|k: int| 0 <= k < list.len() ==> (#[trigger] list[k]).0 != item.0) ==> added_at(
            list.push(item),
            item.0 as int,
        ) == item.1@,
        other != item.0 ==> added_at(list.push(item), other) == added_at(list, other),
    decreases list.len(),
{
    let longer = list.push(item);
    if list.len() > 0 {
        added_elsewhere(list.drop_first(), item, other);
        assert(longer.drop_first() == list.drop_first().push(item));
        assert(longer[0] == list[0]);
        if forall|k: int| 0 <= k < list.len() ==> (#[trigger] list[k]).0 != item.0 {
            assert forall|k: int| 0 <= k < list.drop_first().len() implies (
            #[trigger] list.drop_first()[k]).0 != item.0 by {
                assert(list.drop_first()[k] == list[k + 1]);
            }
        }
    } else {
        assert(longer.drop_first() == list);
    }
}

proof fn added_after_update(list: Seq<(usize, Vec<char>)>, i: int, text: Vec<char>, other: int)
    requires
        0 <= i < list.len(),
        forall|k: int| 0 <= k < i ==> (#[trigger] list[k]).0 != list[i].0,
    ensures
        added_at(list.update(i, (list[i].0, text)), list[i].0 as int) == text@,
        other != list[i].0 ==> added_at(list.update(i, (list[i].0, text)), other) == added_at(
            list,
            other,
        ),
    decreases list.len(),
{
    let changed = list.update(i, (list[i].0, text));
    if i > 0 {
        assert forall|k: int| 0 <= k < i - 1 implies (#[trigger] list.drop_first()[k]).0
            != list.drop_first()[i - 1].0 by {
            assert(list.drop_first()[k] == list[k + 1]);
        }
        added_after_update(list.drop_first(), i - 1, text, other);
        assert(changed.drop_first() == list.drop_first().update(i - 1, (list[i].0, text)));
        assert(list[0].0 != list[i].0);
    } else {
        assert(changed.drop_first() == list.drop_first());
    }
}

/// Appends an addition at a place.
fn add_at(list: &mut Vec<(usize, Vec<char>)>, at: usize, addition: &[char])
    ensures
        added_at(final(list)@, at as int) == added_at(old(list)@, at as int) + addition@,
        forall|other: int|
            other != at ==> #[trigger] added_at(final(list)@, other) == added_at(
                old(list)@,
                other,
            ),
{
    let ghost before = list@;
    match find_added(list, at) {
        Some(i) => {
            let mut text = part(list[i].1.as_slice(), 0, list[i].1.len());
            assert(text@ == before[i as int].1@);
            push_chars(&mut text, addition);
            let ghost view = text;
            list.set(i, (at, text));
            proof {
                assert forall|other: int| other != at implies #[trigger] added_at(list@, other)
                    == added_at(before, other) by {
                    added_after_update(before, i as int, view, other);
                }
                added_after_update(before, i as int, view, 0);
            }
        },
        None => {
            let text = part(addition, 0, addition.len());
            assert(text@ == addition@);
            let ghost view = text;
            list.push((at, text));
            proof {
                assert forall|other: int| other != at implies #[trigger] added_at(list@, other)
                    == added_at(before, other) by {
                    added_elsewhere(before, (at, view), other);
                }
                added_elsewhere(before, (at, view), 0);
                assert(Seq::<char>::empty() + addition@ == addition@);
            }
        },
    }
}

fn expand_newlines(text: &[char], newline: &[char]) -> (r: Vec<char>)
    ensures
        r@ == with_newlines(text@, newline@),
{
    let mut r: Vec<char> = Vec::new();
    for i in 0..text.len()
        invariant
            r@ == with_newlines(text@.take(i as int), newline@),
    {
        assert(text@.take(i + 1).drop_last() == text@.take(i as int));
        if text[i] == '\n' {
            push_chars(&mut r, newline);
        } else {
            r.push(text[i]);
        }
    }
    assert(text@.take(text@.len() as int) == text@);
    r
}

fn detect_newline(text: &[char]) -> (r: Vec<char>)
    ensures
        r@ == newline_of(text@),
{
    assert(text@.skip(0) == text@);
    let at: usize = find_either(text, 0, '\n', '\n');
    let mut r: Vec<char> = Vec::new();
    if at < text.len() && at > 0 && text[at - 1] == '\r' {
        r.push('\r');
    }
    r.push('\n');
    assert(r@ =~= newline_of(text@));
    r
}

fn strip_newlines(text: Vec<char>, newline: &[char]) -> (r: Vec<char>)
    requires
        newline@.len() > 0,
    ensures
        r@ == without_newlines(text@, newline@),
{
    let mut r = text;
    while ends_with(r.as_slice(), newline)
        invariant
            newline@.len() > 0,
            without_newlines(text@, newline@) == without_newlines(r@, newline@),
        decreases r@.len(),
    {
        let keep: usize = r.len() - newline.len();
        assert(r@.subrange(0, keep as int) == r@.take(keep as int));
        r.truncate(keep);
    }
    r
}

fn addition_text(
    entry: &TemplateEntry,
    present: bool,
    documented: bool,
    Ghost(source): Ghost<Source>,
) -> (r: Vec<char>)
    requires
        present == source.present(entry@),
        documented == source.documented(entry@),
    ensures
        r@ == source.addition(entry@),
{
    let mut r: Vec<char> = Vec::new();
    if !documented {
        push_chars(&mut r, entry.comments.as_slice());
        assert(r@ == entry.comments@);
        r.push('\n');
    }
    if !present {
        push_chars(&mut r, entry.assignment.as_slice());
        r.push('\n');
        r.push('\n');
    }
    assert(r@ =~= source.addition(entry@));
    r
}

fn header_text(section: &[char]) -> (r: Vec<char>)
    ensures
        r@ == seq!['\n', '['] + section@ + seq![']', '\n', '\n'],
{
    let mut r: Vec<char> = Vec::new();
    r.push('\n');
    r.push('[');
    assert(r@ == seq!['\n', '[']);
    push_chars(&mut r, section);
    r.push(']');
    r.push('\n');
    r.push('\n');
    assert(r@ =~= seq!['\n', '['] + section@ + seq![']', '\n', '\n']);
    r
}

/// Completes a text, whose entries are given, with the settings of a template; nothing where the
/// text is complete.
pub fn complete_text(
    text: &[char],
    original: &Vec<Entry>,
    template: &Vec<TemplateEntry>,
) -> (r: Option<Vec<char>>)
    ensures
        ({
            let source = source_of(text@, entry_views(original@));
            let entries = template_views(template@);
            match r {
                Some(merged) => !source.complete(entries) && merged@ == source.merged(entries),
                None => source.complete(entries),
            }
        }),
{
    let ghost source = source_of(text@, entry_views(original@));
    let ghost all = template_views(template@);
    let layout = scan_layout(text);
    let mut insertions: Vec<(usize, Vec<char>)> = Vec::new();
    let mut new_sections = text_map();
    let mut complete = true;
    assert(all.take(0) == Seq::<TemplateView>::empty());
    for i in 0..template.len()
        invariant
            all == template_views(template@),
            source == source_of(text@, entry_views(original@)),
            layout@ == source.outline,
            forall|at: int| #[trigger]
                added_at(insertions@, at) == source.inserted(all.take(i as int), at),
            text_entries(new_sections) == source.fresh(all.take(i as int)),
            complete == source.complete(all.take(i as int)),
    {
        let entry = &template[i];
        let ghost e = entry@;
        proof {
            assert(all[i as int] == e);
            assert(all.take(i + 1).drop_last() == all.take(i as int));
            assert(all.take(i + 1).last() == e);
        }
        let present = contains_entry(original, entry.section.as_slice(), entry.key.as_slice());
        let documented = layout.documents(entry.marker.as_slice());
        let ghost before = source.inserted(all.take(i as int), 0);
        if !(present && documented) {
            complete = false;
            assert(!source.settled(all.take(i + 1)[i as int]));
            let addition = addition_text(entry, present, documented, Ghost(source));
            match layout.end(entry.section.as_slice()) {
                Some(end) => {
                    let at = match layout.key(entry.section.as_slice(), entry.key.as_slice()) {
                        Some(at) => at,
                        None => end,
                    };
                    assert(at == source.place(e));
                    add_at(&mut insertions, at, addition.as_slice());
                },
                None => {
                    let section = string_of(entry.section.as_slice());
                    let mut body = match text_get(&new_sections, section.as_str()) {
                        Some(text) => chars_of(text.as_str()),
                        None => header_text(entry.section.as_slice()),
                    };
                    push_chars(&mut body, addition.as_slice());
                    let body = string_of(body.as_slice());
                    let _ = text_insert(&mut new_sections, section, body);
                },
            }
        } else {
            proof {
                if source.complete(all.take(i as int)) {
                    assert forall|k: int| 0 <= k < i + 1 implies source.settled(
                        #[trigger] all.take(i + 1)[k],
                    ) by {
                        if k < i {
                            assert(all.take(i as int)[k] == all.take(i + 1)[k]);
                        }
                    }
                }
            }
        }
        proof {
            if !source.complete(all.take(i as int)) {
                let k = choose|k: int|
                    0 <= k < i && !source.settled(#[trigger] all.take(i as int)[k]);
                assert(all.take(i + 1)[k] == all.take(i as int)[k]);
            }
        }
    }
    assert(all.take(all.len() as int) == all);
    if complete {
        return None;
    }
    let mut tail: Vec<char> = Vec::new();
    let ghost sections = text_entries(new_sections);
    let count: usize = text_len(&new_sections);
    assert(sections.take(0) == Seq::<(Seq<char>, Seq<char>)>::empty());
    for k in 0..count
        invariant
            sections == text_entries(new_sections),
            count == sections.len(),
            tail@ == values_text(sections.take(k as int)),
    {
        assert(sections.take(k + 1).drop_last() == sections.take(k as int));
        if let Some((_, body)) = text_entry(&new_sections, k) {
            let body = chars_of(body.as_str());
            push_chars(&mut tail, body.as_slice());
        }
    }
    assert(sections.take(sections.len() as int) == sections);
    if tail.len() > 0 {
        add_at(&mut insertions, text.len(), tail.as_slice());
    }
    assert forall|at: int| #[trigger] added_at(insertions@, at) == source.insertion(all, at) by {
        assert(source.inserted(all, at) + Seq::<char>::empty() == source.inserted(all, at));
    }
    let newline = detect_newline(text);
    let mut merged: Vec<char> = Vec::new();
    let mut at: usize = 0;
    loop
        invariant_except_break
            merged@ == source.before(all, at as int),
        invariant
            all == template_views(template@),
            source == source_of(text@, entry_views(original@)),
            newline@ == newline_of(text@),
            at <= text@.len(),
            forall|at: int| #[trigger] added_at(insertions@, at) == source.insertion(all, at),
        ensures
            at == text@.len(),
            merged@ == source.woven(all, text@.len() as int),
        decreases text@.len() - at,
    {
        let ghost base = merged@;
        assert(added_at(insertions@, at as int) == source.insertion(all, at as int));
        if let Some(i) = find_added(&insertions, at) {
            if insertions[i].1.len() > 0 {
                if merged.len() > 0 && merged[merged.len() - 1] != '\n' {
                    push_chars(&mut merged, newline.as_slice());
                }
                let addition = expand_newlines(insertions[i].1.as_slice(), newline.as_slice());
                push_chars(&mut merged, addition.as_slice());
            }
        }
        assert(merged@ == with_insertion(base, source.insertion(all, at as int), newline@));
        if at == text.len() {
            break ;
        }
        merged.push(text[at]);
        at = at + 1;
    }
    if text.len() > 0 && text[text.len() - 1] != '\n' {
        Some(strip_newlines(merged, newline.as_slice()))
    } else {
        Some(merged)
    }
}

// ---------------------------------------------------------------------------
// Merging

/// Why a text cannot be completed.
pub enum MergeFailure {
    /// The text, or the completed text, is not an INI document.
    Syntax(SyntaxView),
    /// A setting of the template is still missing.
    Missing { section: Seq<char>, key: Seq<char> },
    /// A setting of the user has other values.
    Changed { section: Seq<char>, key: Seq<char> },
}

/// Why a text cannot be completed.
#[derive(Debug, Clone, PartialEq, Eq)]
pub enum MergeError {
    Syntax(IniSyntaxError),
    Missing { section: String, key: String },
    Changed { section: String, key: String },
}

impl View for MergeError {
    type V = MergeFailure;

    open spec fn view(&self) -> MergeFailure {
        match self {
            MergeError::Syntax(error) => MergeFailure::Syntax(error@),
            MergeError::Missing { section, key } => MergeFailure::Missing {
                section: section@,
                key: key@,
            },
            MergeError::Changed { section, key } => MergeFailure::Changed {
                section: section@,
                key: key@,
            },
        }
    }
}

/// The first setting of a template, from a place on, that has no value.
pub open spec fn first_missing(
    template: Seq<TemplateView>,
    entries: Seq<EntryView>,
    from: int,
) -> Option<TemplateView>
    decreases template.len() - from,
{
    if from < 0 || from >= template.len() {
        None
    } else if !has_value(entries, template[from].section, template[from].key) {
        Some(template[from])
    } else {
        first_missing(template, entries, from + 1)
    }
}

/// What is wrong with a completed document: a template setting is missing, or the values of a
/// setting of the user are not the same as before.
pub open spec fn merge_problem(
    template: Seq<TemplateView>,
    before: Seq<EntryView>,
    after: Seq<EntryView>,
) -> Option<MergeFailure> {
    match first_missing(template, after, 0) {
        Some(e) => Some(MergeFailure::Missing { section: e.section, key: e.key }),
        None => match first_change(before, after, 0) {
            Some(e) => Some(MergeFailure::Changed { section: e.0, key: e.1 }),
            None => None,
        },
    }
}

/// The result of completing a text with a template.
pub open spec fn merge_result(text: Seq<char>, template: Seq<TemplateView>) -> Result<
    Seq<char>,
    MergeFailure,
> {
    match ini_sections(text) {
        None => Err(MergeFailure::Syntax(ini_error(text))),
        Some(document) => {
            let source = source_of(text, entries_of(document));
            let merged = source.merged(template);
            if source.complete(template) {
                Ok(text)
            } else {
                match ini_sections(merged) {
                    None => Err(MergeFailure::Syntax(ini_error(merged))),
                    Some(after) => match merge_problem(
                        template,
                        entries_of(document),
                        entries_of(after),
                    ) {
                        Some(failure) => Err(failure),
                        None => Ok(merged),
                    },
                }
            }
        },
    }
}

/// Compares a completed document with the one before.
pub fn check_merge(
    template: &Vec<TemplateEntry>,
    before: &Vec<Entry>,
    after: &Vec<Entry>,
) -> (r: Option<MergeError>)
    ensures
        (match r {
            Some(error) => Some(error@),
            None => None,
        }) == merge_problem(template_views(template@), entry_views(before@), entry_views(after@)),
{
    let ghost wanted = template_views(template@);
    let ghost old_views = entry_views(before@);
    let ghost new_views = entry_views(after@);
    let mut i: usize = 0;
    while i < template.len()
        invariant
            i <= template@.len(),
            wanted == template_views(template@),
            new_views == entry_views(after@),
            first_missing(wanted, new_views, 0) == first_missing(wanted, new_views, i as int),
        decreases template@.len() - i,
    {
        assert(wanted[i as int] == template@[i as int]@);
        let entry = &template[i];
        if !contains_entry(after, entry.section.as_slice(), entry.key.as_slice()) {
            return Some(
                MergeError::Missing {
                    section: string_of(entry.section.as_slice()),
                    key: string_of(entry.key.as_slice()),
                },
            );
        }
        i += 1;
    }
    let mut k: usize = 0;
    while k < before.len()
        invariant
            k <= before@.len(),
            wanted == template_views(template@),
            first_missing(wanted, new_views, 0) is None,
            old_views == entry_views(before@),
            new_views == entry_views(after@),
            first_change(old_views, new_views, 0) == first_change(old_views, new_views, k as int),
        decreases before@.len() - k,
    {
        assert(old_views[k as int] == before@[k as int]@);
        if !crate::config::document::same_values(before, after, k) {
            return Some(
                MergeError::Changed {
                    section: before[k].section.clone(),
                    key: before[k].key.clone(),
                },
            );
        }
        k += 1;
    }
    None
}

/// Completes a text with the settings of a template.
pub fn merge_with(text: &str, template: &str) -> (r: Result<String, MergeError>)
    ensures
        match r {
            Ok(merged) => merge_result(text@, template_of(template@)) == Ok::<_, MergeFailure>(
                merged@,
            ),
            Err(error) => merge_result(text@, template_of(template@)) == Err::<Seq<char>, _>(
                error@,
            ),
        },
{
    let original = match parse_ini(text) {
        Ok(document) => document,
        Err(error) => {
            return Err(MergeError::Syntax(error));
        },
    };
    let before = values(&original);
    let entries = template_entries(template);
    let chars = chars_of(text);
    match complete_text(chars.as_slice(), &before, &entries) {
        None => Ok(text.to_owned()),
        Some(merged) => {
            let merged = string_of(merged.as_slice());
            let completed = match parse_ini(merged.as_str()) {
                Ok(document) => document,
                Err(error) => {
                    return Err(MergeError::Syntax(error));
                },
            };
            let after = values(&completed);
            match check_merge(&entries, &before, &after) {
                Some(error) => Err(error),
                None => Ok(merged),
            }
        },
    }
}

// ---------------------------------------------------------------------------
// Laws of a completion

proof fn none_missing(template: Seq<TemplateView>, entries: Seq<EntryView>, from: int, i: int)
    requires
        first_missing(template, entries, from) is None,
        0 <= from <= i < template.len(),
    ensures
        has_value(entries, template[i].section, template[i].key),
    decreases template.len() - from,
{
    if from < i {
        none_missing(template, entries, from + 1, i);
    }
}

proof fn none_changed(before: Seq<EntryView>, after: Seq<EntryView>, from: int, i: int)
    requires
        first_change(before, after, from) is None,
        0 <= from <= i < before.len(),
    ensures
        values_of(before, before[i].0, before[i].1) == values_of(after, before[i].0, before[i].1),
    decreases before.len() - from,
{
    if from < i {
        none_changed(before, after, from + 1, i);
    }
}

/// Completes a configuration text with the settings that the default configuration has and the
/// text does not; what the text says stays.
pub fn merge_missing(text: &str) -> (r: Result<String, MergeError>)
    ensures
        match r {
            Ok(merged) => merge_result(text@, template_of(default_text())) == Ok::<
                _,
                MergeFailure,
            >(merged@),
            Err(error) => merge_result(text@, template_of(default_text())) == Err::<
                Seq<char>,
                _,
            >(error@),
        },
{
    let template = default_config();
    merge_with(text, template.as_str())
}

/// A completed document keeps every value of every key that the document had, in order, and has a
/// value for every setting of the template.
pub proof fn completion_keeps_values(
    text: Seq<char>,
    template: Seq<TemplateView>,
    section: Seq<char>,
    key: Seq<char>,
)
    requires
        merge_result(text, template) is Ok,
    ensures
        ini_sections(text) is Some,
        ini_sections(merge_result(text, template)->Ok_0) is Some,
        ({
            let before = entries_of(ini_sections(text)->0);
            let after = entries_of(ini_sections(merge_result(text, template)->Ok_0)->0);
            &&& has_value(before, section, key) ==> values_of(before, section, key) == values_of(
                after,
                section,
                key,
            )
            &&& forall|i: int|
                0 <= i < template.len() ==> has_value(
                    after,
                    (#[trigger] template[i]).section,
                    template[i].key,
                )
        }),
{
    let document = ini_sections(text)->0;
    let source = source_of(text, entries_of(document));
    let merged = merge_result(text, template)->Ok_0;
    let before = entries_of(document);
    let after = entries_of(ini_sections(merged)->0);
    if source.complete(template) {
        assert forall|i: int| 0 <= i < template.len() implies has_value(
            after,
            (#[trigger] template[i]).section,
            template[i].key,
        ) by {
            assert(source.settled(template[i]));
        }
    } else {
        assert forall|i: int| 0 <= i < template.len() implies has_value(
            after,
            (#[trigger] template[i]).section,
            template[i].key,
        ) by {
            none_missing(template, after, 0, i);
        }
        if has_value(before, section, key) {
            let i = choose|i: int|
                0 <= i < before.len() && (#[trigger] before[i]).0 == section && before[i].1 == key;
            none_changed(before, after, 0, i);
        }
    }
}

/// A document in which every setting of the template has a value and its comment is not changed.
pub proof fn complete_document_stays(text: Seq<char>, template: Seq<TemplateView>)
    requires
        ini_sections(text) is Some,
        source_of(text, entries_of(ini_sections(text)->0)).complete(template),
    ensures
        merge_result(text, template) == Ok::<_, MergeFailure>(text),
{
}

/// Whether a sequence remains when characters are left out of another one.
pub open spec fn is_subsequence(a: Seq<char>, b: Seq<char>) -> bool
    decreases b.len(),
{
    if a.len() == 0 {
        true
    } else if b.len() == 0 {
        false
    } else if a.last() == b.last() {
        is_subsequence(a.drop_last(), b.drop_last())
    } else {
        is_subsequence(a, b.drop_last())
    }
}

proof fn shorter_subsequence(a: Seq<char>, b: Seq<char>)
    requires
        a.len() > 0,
        is_subsequence(a, b),
    ensures
        is_subsequence(a.drop_last(), b),
    decreases b.len(),
{
    if a.last() == b.last() {
        if a.drop_last().len() > 0 {
            if a.drop_last().last() == b.last() {
                shorter_subsequence(a.drop_last(), b.drop_last());
            }
        }
    } else {
        shorter_subsequence(a, b.drop_last());
        if a.drop_last().len() > 0 && a.drop_last().last() == b.last() {
            shorter_subsequence(a.drop_last(), b.drop_last());
        }
    }
}

proof fn longer_sequence(a: Seq<char>, b: Seq<char>, c: char)
    requires
        is_subsequence(a, b),
    ensures
        is_subsequence(a, b.push(c)),
{
    assert(b.push(c).drop_last() == b);
    if a.len() > 0 && a.last() == c {
        shorter_subsequence(a, b);
    }
}

proof fn extended_sequence(a: Seq<char>, b: Seq<char>, tail: Seq<char>)
    requires
        is_subsequence(a, b),
    ensures
        is_subsequence(a, b + tail),
    decreases tail.len(),
{
    if tail.len() == 0 {
        assert(b + tail == b);
    } else {
        extended_sequence(a, b, tail.drop_last());
        longer_sequence(a, b + tail.drop_last(), tail.last());
        assert((b + tail.drop_last()).push(tail.last()) == b + tail);
    }
}

proof fn insertion_extends(a: Seq<char>, base: Seq<char>, addition: Seq<char>, newline: Seq<char>)
    requires
        is_subsequence(a, base),
    ensures
        is_subsequence(a, with_insertion(base, addition, newline)),
{
    extended_sequence(a, base, newline);
    extended_sequence(a, base, with_newlines(addition, newline));
    extended_sequence(a, base + newline, with_newlines(addition, newline));
}

proof fn text_survives_weaving(source: Source, template: Seq<TemplateView>, at: int)
    requires
        0 <= at <= source.text.len(),
    ensures
        is_subsequence(source.text.take(at), source.before(template, at)),
        at > 0 ==> source.before(template, at).len() > 0 && source.before(template, at).last()
            == source.text[at - 1],
    decreases at,
{
    if at > 0 {
        let newline = newline_of(source.text);
        text_survives_weaving(source, template, at - 1);
        let base = with_insertion(
            source.before(template, at - 1),
            source.insertion(template, at - 1),
            newline,
        );
        insertion_extends(
            source.text.take(at - 1),
            source.before(template, at - 1),
            source.insertion(template, at - 1),
            newline,
        );
        assert(source.text.take(at).drop_last() == source.text.take(at - 1));
        assert(source.before(template, at).drop_last() == base);
        assert(source.text.take(at).last() == source.text[at - 1]);
    }
}

/// What stands before the newlines at the end of a text stays when they are stripped, and so does
/// a first newline with something behind it.
pub proof fn stripping_stops(p: Seq<char>, q: Seq<char>, newline: Seq<char>) -> (kept: Seq<char>)
    requires
        p.len() > 0,
        p.last() != '\n',
        newline == seq!['\n'] || newline == seq!['\r', '\n'],
        q.len() > 0 ==> begins_with(q, newline),
    ensures
        without_newlines(p + q, newline) == p + kept,
        kept.len() > 0 ==> begins_with(kept, newline),
    decreases q.len(),
{
    let all = p + q;
    if finishes_with(all, newline) {
        assert(all.subrange(all.len() - newline.len(), all.len() as int).last() == '\n');
        assert(all.last() == '\n');
        if q.len() == 0 {
            assert(all.last() == p.last());
        }
        let rest = q.take(q.len() - newline.len());
        assert(all.take(all.len() - newline.len()) == p + rest);
        if rest.len() > 0 {
            assert(q.subrange(0, newline.len() as int)[newline.len() - 1] == '\n');
            if rest.len() < newline.len() {
                // Only one character of a newline of two is left: the one at its end.
                assert(all.subrange(all.len() - 2, all.len() as int)[0] == all[all.len() - 2]);
                assert(q[1] == '\r');
            }
            assert(rest.subrange(0, newline.len() as int) =~= q.subrange(0, newline.len() as int));
        }
        stripping_stops(p, rest, newline)
    } else {
        q
    }
}

/// Completing a text only inserts: the characters of the text remain, in their order.
pub proof fn completion_only_inserts(source: Source, template: Seq<TemplateView>)
    ensures
        is_subsequence(source.text, source.merged(template)),
{
    let text = source.text;
    let len = text.len() as int;
    let newline = newline_of(text);
    text_survives_weaving(source, template, len);
    let base = source.before(template, len);
    let addition = source.insertion(template, len);
    assert(text.take(len) == text);
    insertion_extends(text, base, addition, newline);
    if source.complete(template) {
        subsequence_of_itself(text);
    } else if len > 0 && text.last() != '\n' {
        let tail = if addition.len() == 0 {
            Seq::<char>::empty()
        } else {
            newline + with_newlines(addition, newline)
        };
        assert(base + tail == source.woven(template, len)) by {
            assert(base + Seq::<char>::empty() == base);
            assert(base + (newline + with_newlines(addition, newline)) == base + newline
                + with_newlines(addition, newline));
        }
        assert(tail.len() > 0 ==> tail.subrange(0, newline.len() as int) =~= newline);
        let kept = stripping_stops(base, tail, newline);
        extended_sequence(text, base, kept);
    }
}

proof fn subsequence_of_itself(a: Seq<char>)
    ensures
        is_subsequence(a, a),
    decreases a.len(),
{
    if a.len() > 0 {
        subsequence_of_itself(a.drop_last());
    }
}

/// The lines of a template: a header begins its section and forgets the comments before it, a
/// comment is kept for the next setting, and an assignment is a setting with the comments above it.
/// Any other line is passed over.
pub proof fn lines_of_a_template(scan: TemplateScan, raw: Seq<char>)
    ensures
        ({
            let line = trimmed(raw);
            let after = scan.after(raw);
            let header = header_name(line) is Some;
            let comment = !header && line.len() > 0 && (line[0] == ';' || line[0] == '#');
            let setting = !header && !comment && assigned(line) is Some;
            &&& header ==> after.section == header_name(line)->0 && after.comments.len() == 0
            &&& !header ==> after.section == scan.section
            &&& comment ==> after.comments == scan.comments.push(line)
            &&& setting ==> after.comments.len() == 0
            &&& !header && !comment && !setting ==> after == scan
            &&& !setting ==> after.entries == scan.entries
            &&& setting ==> after.entries.drop_last() == scan.entries && {
                let e = after.entries.last();
                &&& e.section == scan.section
                &&& e.key == (assigned(line)->0).0
                &&& e.assignment == line
                &&& e.comments == joined_lines(scan.comments)
                &&& e.marker == marker_of(scan.section, e.key)
            }
        }),
        template_scan(Seq::<Seq<char>>::empty()).section.len() == 0,
        template_scan(Seq::<Seq<char>>::empty()).comments.len() == 0,
        template_scan(Seq::<Seq<char>>::empty()).entries.len() == 0,
{
    let after = scan.after(raw);
    if after.entries.len() == scan.entries.len() + 1 {
        assert(after.entries.drop_last() =~= scan.entries);
    }
}

/// The comments of a setting stand below each other.
pub proof fn comments_are_joined(lines: Seq<Seq<char>>, line: Seq<char>)
    ensures
        joined_lines(Seq::<Seq<char>>::empty()).len() == 0,
        joined_lines(seq![line]) == line,
        lines.len() > 0 ==> joined_lines(lines.push(line)) == joined_lines(lines) + seq!['\n']
            + line,
{
    assert(lines.push(line).drop_last() =~= lines);
    if lines.len() > 0 {
        assert(joined_lines(lines.push(line)) =~= joined_lines(lines) + seq!['\n'] + line);
    }
}

/// The comment that marks a setting holds its name, with the section and a dot before it where it
/// has one.
pub proof fn markers_name_their_settings(section: Seq<char>, key: Seq<char>)
    ensures
        section.len() == 0 ==> full_name(section, key) == key,
        section.len() > 0 ==> full_name(section, key) == section + seq!['.'] + key,
        marker_of(section, key) == seq![';', ' ', '配', '置', '说', '明', '：'] + full_name(
            section,
            key,
        ),
{
    reveal_strlit("; 配置说明：");
    assert("; 配置说明："@ =~= seq![';', ' ', '配', '置', '说', '明', '：']);
    assert(section.push('.') + key =~= section + seq!['.'] + key);
}

/// A setting that has a value only gets its comment, one with its comment only its line with an
/// empty one after it, and one that has neither gets both. A setting that has both gets nothing.
pub proof fn additions_for_a_setting(source: Source, e: TemplateView)
    ensures
        ({
            let value = has_value(source.entries, e.section, e.key);
            let comment = source.outline.comments.contains(e.marker);
            let added = source.addition(e);
            &&& value && comment ==> added.len() == 0
            &&& value && !comment ==> added == e.comments + seq!['\n']
            &&& !value && comment ==> added == e.assignment + seq!['\n', '\n']
            &&& !value && !comment ==> added == e.comments + seq!['\n'] + e.assignment + seq![
                '\n',
                '\n',
            ]
            &&& source.settled(e) <==> value && comment
        }),
{
    assert(e.comments.push('\n') =~= e.comments + seq!['\n']);
    assert(Seq::<char>::empty() + e.assignment + seq!['\n', '\n'] =~= e.assignment + seq![
        '\n',
        '\n',
    ]);
}

/// An addition goes above the first line of its key, or to the end of the first part of its
/// section; additions for the same place keep the order of the template. A setting whose section
/// is not in the text is added at the end, in its section.
pub proof fn additions_have_their_places(source: Source, entries: Seq<TemplateView>, e: TemplateView, at: int)
    ensures
        ({
            let line = key_place(source.outline.keys, e.section, e.key, 0);
            let end = section_end(source.outline.ends, e.section, 0);
            let needed = !(has_value(source.entries, e.section, e.key)
                && source.outline.comments.contains(e.marker));
            let here = end is Some && if line is Some {
                line->0 == at
            } else {
                end->0 == at
            };
            &&& needed && here ==> source.inserted(entries.push(e), at) == source.inserted(
                entries,
                at,
            ) + source.addition(e)
            &&& !(needed && here) ==> source.inserted(entries.push(e), at) == source.inserted(
                entries,
                at,
            )
            &&& !(needed && end is None) ==> source.fresh(entries.push(e)) == source.fresh(entries)
            &&& needed && end is None ==> source.fresh(entries.push(e)) == put(
                source.fresh(entries),
                e.section,
                section_text(source.fresh(entries), e.section) + source.addition(e),
            )
        }),
        source.inserted(Seq::<TemplateView>::empty(), at).len() == 0,
        source.fresh(Seq::<TemplateView>::empty()).len() == 0,
{
    assert(entries.push(e).drop_last() =~= entries);
}

/// An added section begins with an empty line, its header and another empty line; its settings
/// follow each other under one header.
pub proof fn added_sections_have_a_header(sections: Seq<(Seq<char>, Seq<char>)>, section: Seq<char>, i: int)
    ensures
        (forall|k: int| 0 <= k < sections.len() ==> (#[trigger] sections[k]).0 != section)
            ==> section_text(sections, section) == seq!['\n', '['] + section + seq![
            ']',
            '\n',
            '\n',
        ],
        0 <= i < sections.len() && sections[i].0 == section && (forall|k: int|
            0 <= k < i ==> (#[trigger] sections[k]).0 != section) ==> section_text(sections, section)
            == sections[i].1,
        values_text(Seq::<(Seq<char>, Seq<char>)>::empty()).len() == 0,
        forall|added: (Seq<char>, Seq<char>)| #[trigger] values_text(sections.push(added))
            == values_text(sections) + added.1,
{
    assert forall|added: (Seq<char>, Seq<char>)| #[trigger] values_text(sections.push(added))
        == values_text(sections) + added.1 by {
        assert(sections.push(added).drop_last() =~= sections);
    }
    if 0 <= i < sections.len() && sections[i].0 == section && (forall|k: int|
        0 <= k < i ==> (#[trigger] sections[k]).0 != section) {
        place_of_a_key(sections, section, i);
    }
    if forall|k: int| 0 <= k < sections.len() ==> (#[trigger] sections[k]).0 != section {
        absent_key(sections, section);
    }
}

proof fn absent_key(sections: Seq<(Seq<char>, Seq<char>)>, section: Seq<char>)
    requires
        forall|k: int| 0 <= k < sections.len() ==> (#[trigger] sections[k]).0 != section,
    ensures
        position(sections, section) == sections.len(),
    decreases sections.len(),
{
    if sections.len() > 0 {
        assert(sections[0].0 != section);
        let rest = sections.drop_first();
        assert forall|k: int| 0 <= k < rest.len() implies (#[trigger] rest[k]).0 != section by {
            assert(sections[k + 1].0 != section);
        }
        absent_key(rest, section);
    }
}

proof fn place_of_a_key(sections: Seq<(Seq<char>, Seq<char>)>, section: Seq<char>, i: int)
    requires
        0 <= i < sections.len(),
        sections[i].0 == section,
        forall|k: int| 0 <= k < i ==> (#[trigger] sections[k]).0 != section,
    ensures
        position(sections, section) == i,
    decreases sections.len(),
{
    if i > 0 {
        assert(sections[0].0 != section);
        let rest = sections.drop_first();
        assert forall|k: int| 0 <= k < i - 1 implies (#[trigger] rest[k]).0 != section by {
            assert(sections[k + 1].0 != section);
        }
        place_of_a_key(rest, section, i - 1);
    }
}

/// What is added uses the newline of the first line: a carriage return with a line feed where that
/// line ends so, and else a line feed alone.
pub proof fn newline_of_the_first_line(line: Seq<char>, rest: Seq<char>, text: Seq<char>)
    requires
        forall|i: int| 0 <= i < line.len() ==> #[trigger] line[i] != '\n',
        forall|i: int| 0 <= i < text.len() ==> #[trigger] text[i] != '\n',
    ensures
        newline_of(line + seq!['\n'] + rest) == if line.len() > 0 && line.last() == '\r' {
            seq!['\r', '\n']
        } else {
            seq!['\n']
        },
        newline_of(text) == seq!['\n'],
{
    let whole = line + seq!['\n'] + rest;
    until_range(whole, '\n', '\n');
    let at = until(whole, '\n', '\n');
    assert(whole[line.len() as int] == '\n');
    assert(at == line.len()) by {
        if at < line.len() {
            assert(whole[at] == line[at]);
        }
    }
    if at > 0 {
        assert(whole[at - 1] == line[at - 1]);
    }
    until_range(text, '\n', '\n');
}

/// Each line feed of an addition becomes the newline of the text; every other character stays.
pub proof fn newlines_are_written(a: Seq<char>, b: Seq<char>, c: char, newline: Seq<char>)
    ensures
        with_newlines(a + b, newline) == with_newlines(a, newline) + with_newlines(b, newline),
        with_newlines(seq!['\n'], newline) == newline,
        c != '\n' ==> with_newlines(seq![c], newline) == seq![c],
        with_newlines(a, seq!['\n']) == a,
    decreases a.len() + b.len(),
{
    reveal_with_fuel(with_newlines, 2);
    assert(seq!['\n'].drop_last() =~= Seq::<char>::empty());
    assert(seq![c].drop_last() =~= Seq::<char>::empty());
    assert(Seq::<char>::empty() + newline =~= newline);
    assert(Seq::<char>::empty().push(c) =~= seq![c]);
    if b.len() > 0 {
        newlines_are_written(a, b.drop_last(), c, newline);
        assert((a + b).drop_last() =~= a + b.drop_last());
        assert((a + b).last() == b.last());
        let x = with_newlines(a, newline);
        let y = with_newlines(b.drop_last(), newline);
        assert((x + y) + newline =~= x + (y + newline));
        assert((x + y).push(b.last()) =~= x + y.push(b.last()));
    } else {
        assert(a + b =~= a);
        assert(with_newlines(a, newline) + Seq::<char>::empty() =~= with_newlines(a, newline));
        if a.len() > 0 {
            newlines_are_written(a.drop_last(), b, c, newline);
            assert(a =~= a.drop_last().push(a.last()));
            assert(a.drop_last() + seq!['\n'] =~= a.drop_last().push('\n'));
        }
    }
}

/// An addition begins on a line of its own: a newline is put before it where the text before it
/// does not end with one. Nothing is put where there is nothing to add.
pub proof fn additions_begin_a_line(base: Seq<char>, addition: Seq<char>, newline: Seq<char>)
    ensures
        with_insertion(base, Seq::<char>::empty(), newline) == base,
        addition.len() > 0 && (base.len() == 0 || base.last() == '\n') ==> with_insertion(
            base,
            addition,
            newline,
        ) == base + with_newlines(addition, newline),
        addition.len() > 0 && base.len() > 0 && base.last() != '\n' ==> with_insertion(
            base,
            addition,
            newline,
        ) == base + newline + with_newlines(addition, newline),
{
}

/// A text that did not end with a newline does not end with one after it was completed; one that
/// did, or was empty, keeps what was added at its end.
pub proof fn end_of_a_completed_text(source: Source, entries: Seq<TemplateView>)
    ensures
        ({
            let all = source.woven(entries, source.text.len() as int);
            let merged = source.merged(entries);
            &&& source.complete(entries) ==> merged == source.text
            &&& !source.complete(entries) && (source.text.len() == 0 || source.text.last() == '\n')
                ==> merged == all
            &&& !source.complete(entries) && source.text.len() > 0 && source.text.last() != '\n'
                ==> !finishes_with(merged, newline_of(source.text)) && merged.is_prefix_of(all)
        }),
{
    stripped_is_a_beginning(
        source.woven(entries, source.text.len() as int),
        newline_of(source.text),
    );
}

proof fn stripped_is_a_beginning(text: Seq<char>, newline: Seq<char>)
    requires
        newline.len() > 0,
    ensures
        !finishes_with(without_newlines(text, newline), newline),
        without_newlines(text, newline).is_prefix_of(text),
    decreases text.len(),
{
    if finishes_with(text, newline) {
        stripped_is_a_beginning(text.take(text.len() - newline.len()), newline);
    }
}

/// A completed document is refused where a setting of the template is still missing, and else where
/// the values of a setting of the user are others than before.
pub proof fn refused_completions(
    template: Seq<TemplateView>,
    before: Seq<EntryView>,
    after: Seq<EntryView>,
)
    ensures
        ({
            let missing = exists|i: int|
                0 <= i < template.len() && !has_value(
                    after,
                    (#[trigger] template[i]).section,
                    template[i].key,
                );
            let changed = exists|i: int|
                0 <= i < before.len() && values_of(before, (#[trigger] before[i]).0, before[i].1)
                    != values_of(after, before[i].0, before[i].1);
            &&& merge_problem(template, before, after) is None <==> !missing && !changed
            &&& merge_problem(template, before, after) matches Some(
                MergeFailure::Missing { section, key },
            ) ==> !has_value(after, section, key)
            &&& merge_problem(template, before, after) matches Some(
                MergeFailure::Changed { section, key },
            ) ==> !missing && values_of(before, section, key) != values_of(after, section, key)
            &&& missing ==> merge_problem(template, before, after) matches Some(
                MergeFailure::Missing { section, key },
            )
        }),
{
    missing_is_found(template, after, 0);
    change_is_found(before, after, 0);
}

proof fn missing_is_found(template: Seq<TemplateView>, entries: Seq<EntryView>, from: int)
    requires
        0 <= from,
    ensures
        match first_missing(template, entries, from) {
            Some(e) => !has_value(entries, e.section, e.key) && exists|i: int|
                from <= i < template.len() && #[trigger] template[i] == e,
            None => forall|i: int|
                from <= i < template.len() ==> has_value(
                    entries,
                    (#[trigger] template[i]).section,
                    template[i].key,
                ),
        },
    decreases template.len() - from,
{
    if from < template.len() {
        missing_is_found(template, entries, from + 1);
    }
}

proof fn change_is_found(before: Seq<EntryView>, after: Seq<EntryView>, from: int)
    requires
        0 <= from,
    ensures
        match first_change(before, after, from) {
            Some(e) => values_of(before, e.0, e.1) != values_of(after, e.0, e.1) && exists|i: int|
                from <= i < before.len() && #[trigger] before[i] == e,
            None => forall|i: int|
                from <= i < before.len() ==> values_of(before, (#[trigger] before[i]).0, before[i].1)
                    == values_of(after, before[i].0, before[i].1),
        },
    decreases before.len() - from,
{
    if from < before.len() {
        change_is_found(before, after, from + 1);
    }
}

}
