//! What is remarkable in a configuration file: unknown, repeated, invalid and outdated settings.

use vstd::prelude::*;

use crate::config::document::{
    lookup, property, property_views, IniDocument, IniSection, PropertyView, SectionView,
};
use crate::config::parsers::optional_view;
use crate::config_schema::{
    is_known_section, known_section, name_view, setting_status, validate_setting, SettingStatus,
    StatusView,
};
use crate::text::{
    chars_of, decimal, decimal_text, find_either, has_char, parse_unsigned, part, push_text,
    raw_lines, same_chars, same_str, split_lines, string_of, texts, trim, trimmed, unsigned, until,
    until_range,
};

verus! {

/// The version of the configuration format.
pub const CURRENT_CONFIG_VERSION: u32 = 1;

/// How serious a remark is.
#[derive(Debug, Clone, Copy, PartialEq, Eq, Structural)]
pub enum ConfigDiagnosticSeverity {
    Info,
    Warning,
}

/// A remark on a configuration file, with its line where it has one.
#[derive(Debug, Clone, PartialEq, Eq)]
pub struct ConfigDiagnostic {
    pub severity: ConfigDiagnosticSeverity,
    pub line: Option<usize>,
    pub message: String,
}

/// A remark: its severity, its line and its message.
pub type DiagnosticView = (ConfigDiagnosticSeverity, Option<usize>, Seq<char>);

impl View for ConfigDiagnostic {
    type V = DiagnosticView;

    open spec fn view(&self) -> DiagnosticView {
        (self.severity, self.line, self.message@)
    }
}

pub open spec fn diagnostic_views(list: Seq<ConfigDiagnostic>) -> Seq<DiagnosticView> {
    Seq::new(list.len(), |i: int| list[i]@)
}

impl ConfigDiagnostic {
    pub fn is_warning(&self) -> (r: bool)
        ensures
            r == (self.severity == ConfigDiagnosticSeverity::Warning),
    {
        self.severity == ConfigDiagnosticSeverity::Warning
    }

    /// The remark as it is shown: with its line where it has one.
    pub fn text(&self) -> (r: String)
        ensures
            r@ == (match self.line {
                Some(line) => "line "@ + decimal(line as nat) + ": "@ + self.message@,
                None => self.message@,
            }),
    {
        match self.line {
            Some(line) => {
                let mut r = "line ".to_owned();
                let number = decimal_text(line as u64);
                push_text(&mut r, number.as_str());
                push_text(&mut r, ": ");
                push_text(&mut r, self.message.as_str());
                r
            },
            None => self.message.clone(),
        }
    }
}

// ---------------------------------------------------------------------------
// Lines

/// The lines of sections and settings; lines are counted from one.
pub struct Locations {
    pub sections: Seq<(Seq<char>, int)>,
    pub settings: Seq<(Option<Seq<char>>, Seq<char>, int)>,
}

/// The sequence without leading byte order marks.
pub open spec fn without_marks(s: Seq<char>) -> Seq<char>
    decreases s.len(),
{
    if s.len() > 0 && s[0] == '\u{feff}' {
        without_marks(s.drop_first())
    } else {
        s
    }
}

/// A line as it is looked at.
pub open spec fn clean_line(raw: Seq<char>) -> Seq<char> {
    trimmed(without_marks(trimmed(raw)))
}

/// The section name of a line that is nothing but a header.
pub open spec fn bracket_name(line: Seq<char>) -> Option<Seq<char>> {
    if line.len() >= 2 && line[0] == '[' && line.last() == ']' {
        let name = trimmed(line.subrange(1, line.len() - 1));
        if name.len() > 0 {
            Some(name)
        } else {
            None
        }
    } else {
        None
    }
}

/// The key of an assignment line.
pub open spec fn line_key(line: Seq<char>) -> Option<Seq<char>> {
    let at = until(line, '=', ':');
    if at < line.len() {
        let key = trimmed(line.take(at));
        if key.len() > 0 {
            Some(key)
        } else {
            None
        }
    } else {
        None
    }
}

/// The state of a scan over lines.
pub struct LineScan {
    pub locations: Locations,
    pub section: Option<Seq<char>>,
    pub count: int,
}

impl LineScan {
    pub open spec fn start() -> LineScan {
        LineScan {
            locations: Locations { sections: seq![], settings: seq![] },
            section: None,
            count: 0,
        }
    }

    pub open spec fn after(self, raw: Seq<char>) -> LineScan {
        let line = clean_line(raw);
        let number = self.count + 1;
        let next = LineScan { count: number, ..self };
        if line.len() == 0 || line[0] == '#' || line[0] == ';' {
            next
        } else {
            match bracket_name(line) {
                Some(name) => LineScan {
                    locations: Locations {
                        sections: self.locations.sections.push((name, number)),
                        ..self.locations
                    },
                    section: Some(name),
                    ..next
                },
                None => match line_key(line) {
                    Some(key) => LineScan {
                        locations: Locations {
                            settings: self.locations.settings.push((self.section, key, number)),
                            ..self.locations
                        },
                        ..next
                    },
                    None => next,
                },
            }
        }
    }
}

pub open spec fn line_scan(lines: Seq<Seq<char>>) -> LineScan
    decreases lines.len(),
{
    if lines.len() == 0 {
        LineScan::start()
    } else {
        line_scan(lines.drop_last()).after(lines.last())
    }
}

/// The lines of the sections and settings of a text.
pub open spec fn locations_of(source: Seq<char>) -> Locations {
    line_scan(raw_lines(source)).locations
}

/// The lines of one setting, in order.
pub open spec fn setting_lines(
    settings: Seq<(Option<Seq<char>>, Seq<char>, int)>,
    section: Option<Seq<char>>,
    key: Seq<char>,
) -> Seq<int>
    decreases settings.len(),
{
    if settings.len() == 0 {
        seq![]
    } else {
        let rest = setting_lines(settings.drop_last(), section, key);
        if settings.last().0 == section && settings.last().1 == key {
            rest.push(settings.last().2)
        } else {
            rest
        }
    }
}

/// The line of an occurrence of a setting; the last line where there are fewer.
pub open spec fn line_of(
    locations: Locations,
    section: Option<Seq<char>>,
    key: Seq<char>,
    occurrence: int,
) -> Option<usize> {
    let lines = setting_lines(locations.settings, section, key);
    if 0 <= occurrence < lines.len() {
        Some(lines[occurrence] as usize)
    } else if lines.len() > 0 {
        Some(lines.last() as usize)
    } else {
        None
    }
}

/// The lines of the sections and settings of a text.
pub struct DocumentLocations {
    section_lines: Vec<(Vec<char>, usize)>,
    setting_lines: Vec<(Option<Vec<char>>, Vec<char>, usize)>,
}

pub open spec fn optional_chars(name: Option<Vec<char>>) -> Option<Seq<char>> {
    match name {
        Some(name) => Some(name@),
        None => None,
    }
}

impl View for DocumentLocations {
    type V = Locations;

    closed spec fn view(&self) -> Locations {
        Locations {
            sections: Seq::new(
                self.section_lines@.len(),
                |i: int| (self.section_lines@[i].0@, self.section_lines@[i].1 as int),
            ),
            settings: Seq::new(
                self.setting_lines@.len(),
                |i: int|
                    (
                        optional_chars(self.setting_lines@[i].0),
                        self.setting_lines@[i].1@,
                        self.setting_lines@[i].2 as int,
                    ),
            ),
        }
    }
}

fn strip_marks(s: &[char]) -> (r: Vec<char>)
    ensures
        r@ == without_marks(s@),
{
    let mut start: usize = 0;
    assert(s@.skip(0) =~= s@);
    while start < s.len() && s[start] == '\u{feff}'
        invariant
            start <= s@.len(),
            without_marks(s@) == without_marks(s@.skip(start as int)),
        decreases s@.len() - start,
    {
        assert(s@.skip(start as int).drop_first() =~= s@.skip(start + 1));
        start += 1;
    }
    assert(s@.skip(start as int) =~= s@.subrange(start as int, s@.len() as int));
    part(s, start, s.len())
}

fn parse_section_name(line: &[char]) -> (r: Option<Vec<char>>)
    ensures
        optional_chars(r) == bracket_name(line@),
{
    if line.len() < 2 || line[0] != '[' || line[line.len() - 1] != ']' {
        return None;
    }
    let inner = part(line, 1, line.len() - 1);
    let name = trim(inner.as_slice());
    if name.len() > 0 {
        Some(name)
    } else {
        None
    }
}

fn parse_key(line: &[char]) -> (r: Option<Vec<char>>)
    ensures
        optional_chars(r) == line_key(line@),
{
    assert(line@.skip(0) =~= line@);
    let at: usize = find_either(line, 0, '=', ':');
    if at == line.len() {
        return None;
    }
    let key = part(line, 0, at);
    assert(key@ =~= line@.take(at as int));
    let key = trim(key.as_slice());
    if key.len() > 0 {
        Some(key)
    } else {
        None
    }
}

fn copy_name(name: &Option<Vec<char>>) -> (r: Option<Vec<char>>)
    ensures
        optional_chars(r) == optional_chars(*name),
{
    match name {
        Some(name) => {
            let copy = part(name.as_slice(), 0, name.len());
            assert(copy@ =~= name@);
            Some(copy)
        },
        None => None,
    }
}

proof fn scan_counts_lines(lines: Seq<Seq<char>>)
    ensures
        line_scan(lines).count == lines.len(),
    decreases lines.len(),
{
    if lines.len() > 0 {
        scan_counts_lines(lines.drop_last());
    }
}

impl DocumentLocations {
    /// Finds the lines of the sections and settings of a text.
    pub fn scan(source: &str) -> (r: Self)
        ensures
            r@ == locations_of(source@),
    {
        let chars = chars_of(source);
        let raw = split_lines(chars.as_slice());
        let ghost lines = raw_lines(source@);
        let mut r = DocumentLocations { section_lines: Vec::new(), setting_lines: Vec::new() };
        let mut section: Option<Vec<char>> = None;
        proof {
            assert(lines.take(0) =~= Seq::<Seq<char>>::empty());
            assert(r@.sections =~= LineScan::start().locations.sections);
            assert(r@.settings =~= LineScan::start().locations.settings);
        }
        for i in 0..raw.len()
            invariant
                lines == raw_lines(source@),
                texts(raw@) == lines,
                raw@.len() <= usize::MAX,
                line_scan(lines.take(i as int)) == (LineScan {
                    locations: r@,
                    section: optional_chars(section),
                    count: i as int,
                }),
        {
            let ghost state = line_scan(lines.take(i as int));
            proof {
                assert(lines[i as int] == raw@[i as int]@);
                assert(lines.take(i + 1).drop_last() =~= lines.take(i as int));
                assert(lines.take(i + 1).last() == lines[i as int]);
            }
            let number: usize = i + 1;
            let line = trim(raw[i].as_slice());
            let line = strip_marks(line.as_slice());
            let line = trim(line.as_slice());
            let ghost before = r@;
            if line.len() > 0 && line[0] != '#' && line[0] != ';' {
                match parse_section_name(line.as_slice()) {
                    Some(name) => {
                        let copy = part(name.as_slice(), 0, name.len());
                        assert(copy@ =~= name@);
                        let ghost view = name@;
                        section = Some(copy);
                        r.section_lines.push((name, number));
                        assert(r@.sections =~= before.sections.push((view, number as int)));
                        assert(r@.settings =~= before.settings);
                    },
                    None => {
                        if let Some(key) = parse_key(line.as_slice()) {
                            let owner = copy_name(&section);
                            let ghost entry = (optional_chars(owner), key@, number as int);
                            r.setting_lines.push((owner, key, number));
                            assert(r@.settings =~= before.settings.push(entry));
                            assert(r@.sections =~= before.sections);
                        }
                    },
                }
            }
            assert(line_scan(lines.take(i + 1)) == state.after(lines[i as int]));
        }
        assert(lines.take(lines.len() as int) =~= lines);
        r
    }

    /// The line of an occurrence of a setting.
    pub fn setting_line(&self, section: Option<&str>, key: &str, occurrence: usize) -> (r: Option<
        usize,
    >)
        ensures
            r == line_of(self@, name_view(section), key@, occurrence as int),
    {
        let ghost all = self@.settings;
        let ghost name = name_view(section);
        let wanted = chars_of(key);
        let mut seen: usize = 0;
        let mut last: Option<usize> = None;
        assert(all.take(0) =~= Seq::<(Option<Seq<char>>, Seq<char>, int)>::empty());
        for i in 0..self.setting_lines.len()
            invariant
                all == self@.settings,
                name == name_view(section),
                wanted@ == key@,
                ({
                    let lines = setting_lines(all.take(i as int), name, key@);
                    &&& seen == lines.len()
                    &&& seen <= occurrence
                    &&& seen <= i
                    &&& last == (if lines.len() > 0 {
                        Some(lines.last() as usize)
                    } else {
                        None
                    })
                }),
        {
            proof {
                assert(all.take(i + 1).drop_last() =~= all.take(i as int));
                assert(all.take(i + 1).last() == all[i as int]);
            }
            let entry = &self.setting_lines[i];
            let owner = match (&entry.0, section) {
                (Some(a), Some(b)) => crate::text::is_text(a.as_slice(), b),
                (None, None) => true,
                _ => false,
            };
            if owner && same_chars(entry.1.as_slice(), wanted.as_slice()) {
                if seen == occurrence {
                    proof {
                        lines_prefix(all, name, key@, i + 1);
                        let upto = setting_lines(all.take(i + 1), name, key@);
                        let lines = setting_lines(all, name, key@);
                        assert(lines.take(upto.len() as int)[occurrence as int]
                            == lines[occurrence as int]);
                    }
                    return Some(entry.2);
                }
                seen = seen + 1;
                last = Some(entry.2);
            }
        }
        assert(all.take(all.len() as int) =~= all);
        last
    }
}

proof fn lines_prefix(
    settings: Seq<(Option<Seq<char>>, Seq<char>, int)>,
    section: Option<Seq<char>>,
    key: Seq<char>,
    n: int,
)
    requires
        0 <= n <= settings.len(),
    ensures
        ({
            let upto = setting_lines(settings.take(n), section, key);
            let all = setting_lines(settings, section, key);
            upto.len() <= all.len() && all.take(upto.len() as int) == upto
        }),
    decreases settings.len(),
{
    if n == settings.len() {
        assert(settings.take(n) =~= settings);
    } else {
        lines_prefix(settings.drop_last(), section, key, n);
        assert(settings.drop_last().take(n) =~= settings.take(n));
    }
}

// ---------------------------------------------------------------------------
// Remarks

/// The name of a setting with its section.
pub open spec fn shown_name(section: Option<Seq<char>>, key: Seq<char>) -> Seq<char> {
    match section {
        Some(name) => "["@ + name + "]."@ + key,
        None => key,
    }
}

pub fn setting_name(section: Option<&str>, key: &str) -> (r: String)
    ensures
        r@ == shown_name(name_view(section), key@),
{
    match section {
        Some(name) => {
            let mut r = "[".to_owned();
            push_text(&mut r, name);
            push_text(&mut r, "].");
            push_text(&mut r, key);
            r
        },
        None => key.to_owned(),
    }
}

/// The text that the `Debug` format of `str` gives: quoted, with escapes.
pub uninterp spec fn quoted(text: Seq<char>) -> Seq<char>;

/// The `Debug` format of `str` quotes a text and escapes the characters that cannot be shown. The
/// result depends on the text alone and is here under the name `quoted`.
#[verifier::external_body]
pub(crate) fn quote(text: &str) -> (r: String)
    ensures
        r@ == quoted(text@),
{
    format!("{text:?}")
}

pub open spec fn warn(line: Option<usize>, message: Seq<char>) -> DiagnosticView {
    (ConfigDiagnosticSeverity::Warning, line, message)
}

fn warning(line: Option<usize>, message: String) -> (r: ConfigDiagnostic)
    ensures
        r@ == warn(line, message@),
{
    ConfigDiagnostic { severity: ConfigDiagnosticSeverity::Warning, line, message }
}

/// Whether a section of the name stands before a place.
pub open spec fn section_before(sections: Seq<(Seq<char>, int)>, place: int) -> bool {
    exists|k: int| 0 <= k < place && (#[trigger] sections[k]).0 == sections[place].0
}

/// The remark on a section header.
pub open spec fn section_remark(sections: Seq<(Seq<char>, int)>, place: int) -> Option<
    DiagnosticView,
> {
    let name = sections[place].0;
    let line = Some(sections[place].1 as usize);
    if !known_section(Some(name)) {
        Some(warn(line, "未知配置节 / unknown section ["@ + name + "]"@))
    } else if section_before(sections, place) {
        Some(warn(line, "重复配置节 / duplicate section ["@ + name + "]"@))
    } else {
        None
    }
}

/// The remarks on the first section headers.
pub open spec fn section_remarks(sections: Seq<(Seq<char>, int)>, count: int) -> Seq<DiagnosticView>
    decreases count,
{
    if count <= 0 {
        seq![]
    } else {
        let rest = section_remarks(sections, count - 1);
        match section_remark(sections, count - 1) {
            Some(remark) => rest.push(remark),
            None => rest,
        }
    }
}

/// A property with the name of its section.
pub type SettingView = (Option<Seq<char>>, Seq<char>, Seq<char>);

pub open spec fn section_settings(section: SectionView) -> Seq<SettingView> {
    Seq::new(section.1.len(), |i: int| (section.0, section.1[i].0, section.1[i].1))
}

/// The properties of the known sections, in document order.
pub open spec fn known_settings(d: Seq<SectionView>) -> Seq<SettingView>
    decreases d.len(),
{
    if d.len() == 0 {
        seq![]
    } else if known_section(d.last().0) {
        known_settings(d.drop_last()) + section_settings(d.last())
    } else {
        known_settings(d.drop_last())
    }
}

/// How often a setting occurs.
pub open spec fn occurrences(
    settings: Seq<SettingView>,
    section: Option<Seq<char>>,
    key: Seq<char>,
) -> nat
    decreases settings.len(),
{
    if settings.len() == 0 {
        0
    } else {
        occurrences(settings.drop_last(), section, key) + (if settings.last().0 == section
            && settings.last().1 == key {
            1nat
        } else {
            0nat
        })
    }
}

/// The remark that a status gives rise to.
pub open spec fn status_remark(setting: SettingView, line: Option<usize>) -> Option<
    DiagnosticView,
> {
    let name = shown_name(setting.0, setting.1);
    match setting_status(setting.0, setting.1, setting.2) {
        StatusView::Valid => None,
        StatusView::Invalid(expected) => Some(
            warn(
                line,
                "无效值 / invalid value "@ + name + "="@ + quoted(setting.2) + "; expected "@
                    + expected,
            ),
        ),
        StatusView::DeprecatedKey(replacement) => Some(
            warn(line, "过时配置项 / deprecated setting "@ + name + "; use "@ + replacement),
        ),
        StatusView::DeprecatedValue(replacement) => Some(
            warn(
                line,
                "过时配置值 / deprecated value "@ + name + "="@ + quoted(setting.2) + "; use "@
                    + replacement,
            ),
        ),
        StatusView::Unknown => Some(warn(line, "未知配置项 / unknown setting "@ + name)),
    }
}

/// The remarks on the setting at a place: on its repetition and on its value.
pub open spec fn setting_remarks(
    settings: Seq<SettingView>,
    place: int,
    locations: Locations,
) -> Seq<DiagnosticView> {
    let setting = settings[place];
    let count = occurrences(settings.take(place), setting.0, setting.1);
    let line = line_of(locations, setting.0, setting.1, count as int);
    let repeated = if count > 0 {
        seq![warn(line, "重复配置项 / duplicate setting "@ + shown_name(setting.0, setting.1))]
    } else {
        seq![]
    };
    match status_remark(setting, line) {
        Some(remark) => repeated.push(remark),
        None => repeated,
    }
}

/// The remarks on the first settings.
pub open spec fn settings_remarks(
    settings: Seq<SettingView>,
    count: int,
    locations: Locations,
) -> Seq<DiagnosticView>
    decreases count,
{
    if count <= 0 {
        seq![]
    } else {
        settings_remarks(settings, count - 1, locations) + setting_remarks(
            settings,
            count - 1,
            locations,
        )
    }
}

/// The remarks on a document.
pub open spec fn analysis(d: Seq<SectionView>, locations: Locations) -> Seq<DiagnosticView> {
    section_remarks(locations.sections, locations.sections.len() as int) + settings_remarks(
        known_settings(d),
        known_settings(d).len() as int,
        locations,
    )
}

struct Setting {
    section: Option<String>,
    key: String,
    value: String,
}

impl View for Setting {
    type V = SettingView;

    closed spec fn view(&self) -> SettingView {
        (optional_view(self.section), self.key@, self.value@)
    }
}

spec fn setting_views(list: Seq<Setting>) -> Seq<SettingView> {
    Seq::new(list.len(), |i: int| list[i]@)
}

fn list_settings(document: &IniDocument) -> (r: Vec<Setting>)
    ensures
        setting_views(r@) == known_settings(document@),
{
    let mut r: Vec<Setting> = Vec::new();
    assert(setting_views(r@) =~= known_settings(document@.take(0)));
    for i in 0..document.sections.len()
        invariant
            setting_views(r@) == known_settings(document@.take(i as int)),
    {
        let section = &document.sections[i];
        assert(document@[i as int] == section@);
        assert(document@.take(i + 1).drop_last() =~= document@.take(i as int));
        assert(document@.take(i + 1).last() == section@);
        let name = match &section.name {
            Some(name) => Some(name.as_str()),
            None => None,
        };
        assert(name_view(name) == section@.0);
        if is_known_section(name) {
            let ghost before = setting_views(r@);
            let ghost all = section_settings(section@);
            assert(setting_views(r@) =~= before + all.take(0));
            for k in 0..section.properties.len()
                invariant
                    all == section_settings(section@),
                    setting_views(r@) == before + all.take(k as int),
            {
                let setting = Setting {
                    section: match &section.name {
                        Some(name) => Some(name.clone()),
                        None => None,
                    },
                    key: section.properties[k].0.clone(),
                    value: section.properties[k].1.clone(),
                };
                assert(section@.1[k as int] == (
                    section.properties@[k as int].0@,
                    section.properties@[k as int].1@,
                ));
                assert(setting@ == all[k as int]);
                let ghost old_views = setting_views(r@);
                r.push(setting);
                assert(setting_views(r@) =~= old_views.push(all[k as int]));
                assert(all.take(k + 1) =~= all.take(k as int).push(all[k as int]));
            }
            assert(all.take(all.len() as int) =~= all);
        }
    }
    assert(document@.take(document@.len() as int) =~= document@);
    r
}

fn count_before(list: &Vec<Setting>, place: usize) -> (r: usize)
    requires
        place < list@.len(),
    ensures
        r == occurrences(
            setting_views(list@).take(place as int),
            list@[place as int]@.0,
            list@[place as int]@.1,
        ),
{
    let ghost all = setting_views(list@);
    let ghost this = list@[place as int]@;
    let mut count: usize = 0;
    assert(all.take(0) =~= Seq::<SettingView>::empty());
    for i in 0..place
        invariant
            place < list@.len(),
            all == setting_views(list@),
            this == list@[place as int]@,
            count <= i,
            count == occurrences(all.take(i as int), this.0, this.1),
    {
        assert(all[i as int] == list@[i as int]@);
        assert(all.take(i + 1).drop_last() =~= all.take(i as int));
        let same_section = match (&list[i].section, &list[place].section) {
            (Some(a), Some(b)) => *a == *b,
            (None, None) => true,
            _ => false,
        };
        if same_section && list[i].key == list[place].key {
            count = count + 1;
        }
    }
    count
}

fn status_diagnostic(setting: &Setting, line: Option<usize>) -> (r: Option<ConfigDiagnostic>)
    ensures
        (match r {
            Some(remark) => Some(remark@),
            None => None,
        }) == status_remark(setting@, line),
{
    let section = match &setting.section {
        Some(name) => Some(name.as_str()),
        None => None,
    };
    let name = setting_name(section, setting.key.as_str());
    match validate_setting(section, setting.key.as_str(), setting.value.as_str()) {
        SettingStatus::Valid => None,
        SettingStatus::Invalid(expected) => {
            let mut text = "无效值 / invalid value ".to_owned();
            push_text(&mut text, name.as_str());
            push_text(&mut text, "=");
            push_text(&mut text, quote(setting.value.as_str()).as_str());
            push_text(&mut text, "; expected ");
            push_text(&mut text, expected);
            Some(warning(line, text))
        },
        SettingStatus::DeprecatedKey(replacement) => {
            let mut text = "过时配置项 / deprecated setting ".to_owned();
            push_text(&mut text, name.as_str());
            push_text(&mut text, "; use ");
            push_text(&mut text, replacement);
            Some(warning(line, text))
        },
        SettingStatus::DeprecatedValue(replacement) => {
            let mut text = "过时配置值 / deprecated value ".to_owned();
            push_text(&mut text, name.as_str());
            push_text(&mut text, "=");
            push_text(&mut text, quote(setting.value.as_str()).as_str());
            push_text(&mut text, "; use ");
            push_text(&mut text, replacement);
            Some(warning(line, text))
        },
        SettingStatus::Unknown => {
            let mut text = "未知配置项 / unknown setting ".to_owned();
            push_text(&mut text, name.as_str());
            Some(warning(line, text))
        },
    }
}

fn push_remark(list: &mut Vec<ConfigDiagnostic>, remark: ConfigDiagnostic)
    ensures
        diagnostic_views(final(list)@) == diagnostic_views(old(list)@).push(remark@),
{
    list.push(remark);
    assert(diagnostic_views(list@) =~= diagnostic_views(old(list)@).push(remark@));
}

/// Lists the remarks on a document.
pub fn analyze_config(document: &IniDocument, locations: &DocumentLocations) -> (r: Vec<
    ConfigDiagnostic,
>)
    ensures
        diagnostic_views(r@) == analysis(document@, locations@),
{
    let mut r: Vec<ConfigDiagnostic> = Vec::new();
    let ghost sections = locations@.sections;
    assert(diagnostic_views(r@) =~= section_remarks(sections, 0));
    for i in 0..locations.section_lines.len()
        invariant
            sections == locations@.sections,
            diagnostic_views(r@) == section_remarks(sections, i as int),
    {
        let line: usize = locations.section_lines[i].1;
        let name = string_of(locations.section_lines[i].0.as_slice());
        assert(sections[i as int] == (name@, line as int));
        if !is_known_section(Some(name.as_str())) {
            let mut text = "未知配置节 / unknown section [".to_owned();
            push_text(&mut text, name.as_str());
            push_text(&mut text, "]");
            push_remark(&mut r, warning(Some(line), text));
        } else {
            let mut repeated = false;
            for k in 0..i
                invariant
                    i < locations.section_lines@.len(),
                    sections == locations@.sections,
                    repeated <==> exists|j: int|
                        0 <= j < k && (#[trigger] sections[j]).0 == sections[i as int].0,
            {
                assert(sections[k as int].0 == locations.section_lines@[k as int].0@);
                if same_chars(
                    locations.section_lines[k].0.as_slice(),
                    locations.section_lines[i].0.as_slice(),
                ) {
                    repeated = true;
                }
            }
            assert(repeated == section_before(sections, i as int));
            if repeated {
                let mut text = "重复配置节 / duplicate section [".to_owned();
                push_text(&mut text, name.as_str());
                push_text(&mut text, "]");
                push_remark(&mut r, warning(Some(line), text));
            }
        }
    }
    let ghost head = diagnostic_views(r@);
    let settings = list_settings(document);
    let ghost all = known_settings(document@);
    assert(diagnostic_views(r@) =~= head + settings_remarks(all, 0, locations@));
    for i in 0..settings.len()
        invariant
            all == known_settings(document@),
            setting_views(settings@) == all,
            diagnostic_views(r@) == head + settings_remarks(all, i as int, locations@),
    {
        let setting = &settings[i];
        assert(all[i as int] == setting@);
        let count: usize = count_before(&settings, i);
        let section = match &setting.section {
            Some(name) => Some(name.as_str()),
            None => None,
        };
        let line = locations.setting_line(section, setting.key.as_str(), count);
        let ghost before = diagnostic_views(r@);
        if count > 0 {
            let mut text = "重复配置项 / duplicate setting ".to_owned();
            push_text(&mut text, setting_name(section, setting.key.as_str()).as_str());
            push_remark(&mut r, warning(line, text));
        }
        if let Some(remark) = status_diagnostic(setting, line) {
            push_remark(&mut r, remark);
        }
        assert(diagnostic_views(r@) =~= before + setting_remarks(all, i as int, locations@));
        assert(head + (settings_remarks(all, i as int, locations@) + setting_remarks(
            all,
            i as int,
            locations@,
        )) =~= before + setting_remarks(all, i as int, locations@));
    }
    r
}

// ---------------------------------------------------------------------------
// Migration

/// The properties with one value for a key, in the last place.
pub open spec fn with_property(
    properties: Seq<PropertyView>,
    key: Seq<char>,
    value: Seq<char>,
) -> Seq<PropertyView> {
    without_property(properties, key).push((key, value))
}

/// The properties without those of a key.
pub open spec fn without_property(properties: Seq<PropertyView>, key: Seq<char>) -> Seq<PropertyView>
    decreases properties.len(),
{
    if properties.len() == 0 {
        seq![]
    } else {
        let rest = without_property(properties.drop_last(), key);
        if properties.last().0 == key {
            rest
        } else {
            rest.push(properties.last())
        }
    }
}

/// The place of the first section of a name; the length where there is none.
pub open spec fn section_place(d: Seq<SectionView>, name: Option<Seq<char>>) -> int
    decreases d.len(),
{
    if d.len() == 0 || d[0].0 == name {
        0
    } else {
        1 + section_place(d.drop_first(), name)
    }
}

/// The document with one value for a key in the first section of a name; a missing section is
/// added in the last place.
pub open spec fn with_value(
    d: Seq<SectionView>,
    name: Option<Seq<char>>,
    key: Seq<char>,
    value: Seq<char>,
) -> Seq<SectionView> {
    let place = section_place(d, name);
    if place < d.len() {
        d.update(place, (name, with_property(d[place].1, key, value)))
    } else {
        d.push((name, seq![(key, value)]))
    }
}

/// The version of a document; zero where it has none that can be read.
pub open spec fn version_of(d: Seq<SectionView>) -> nat {
    match lookup(d, None, "config_version"@, 0) {
        Some(text) => match unsigned(trimmed(text), u32::MAX as nat) {
            Some(version) => version,
            None => 0,
        },
        None => 0,
    }
}

/// The document with the log path under its current name.
pub open spec fn with_log_path(d: Seq<SectionView>) -> Seq<SectionView> {
    match (lookup(d, Some("log"@), "path"@, 0), lookup(d, Some("log"@), "file"@, 0)) {
        (None, Some(file)) => with_value(d, Some("log"@), "path"@, file),
        _ => d,
    }
}

/// The document in the current format. Only a document of version zero is changed.
pub open spec fn migrated(d: Seq<SectionView>) -> Seq<SectionView> {
    if version_of(d) == 0 {
        with_value(
            with_log_path(d),
            None,
            "config_version"@,
            decimal(CURRENT_CONFIG_VERSION as nat),
        )
    } else {
        d
    }
}

/// The remarks on the version of a document.
pub open spec fn version_remarks(d: Seq<SectionView>, locations: Locations) -> Seq<DiagnosticView> {
    let current = decimal(CURRENT_CONFIG_VERSION as nat);
    if version_of(d) > CURRENT_CONFIG_VERSION {
        seq![
            warn(
                line_of(locations, None, "config_version"@, 0),
                "配置版本 "@ + decimal(version_of(d)) + " 高于当前支持版本 "@ + current
                    + " / newer config version"@,
            ),
        ]
    } else if version_of(d) == 0 {
        seq![
            (
                ConfigDiagnosticSeverity::Info,
                None,
                "已在内存中迁移旧配置到版本 "@ + current
                    + " / legacy configuration migrated in memory"@,
            ),
        ]
    } else {
        seq![]
    }
}

fn replace_property(properties: &Vec<(String, String)>, key: &str, value: &str) -> (r: Vec<
    (String, String),
>)
    ensures
        property_views(r@) == with_property(property_views(properties@), key@, value@),
{
    let ghost all = property_views(properties@);
    let mut r: Vec<(String, String)> = Vec::new();
    assert(property_views(r@) =~= without_property(all.take(0), key@));
    for i in 0..properties.len()
        invariant
            all == property_views(properties@),
            property_views(r@) == without_property(all.take(i as int), key@),
    {
        assert(all[i as int] == (properties@[i as int].0@, properties@[i as int].1@));
        assert(all.take(i + 1).drop_last() =~= all.take(i as int));
        if !same_str(properties[i].0.as_str(), key) {
            let ghost before = property_views(r@);
            r.push((properties[i].0.clone(), properties[i].1.clone()));
            assert(property_views(r@) =~= before.push(all[i as int]));
        }
    }
    assert(all.take(all.len() as int) =~= all);
    let ghost before = property_views(r@);
    r.push((key.to_owned(), value.to_owned()));
    assert(property_views(r@) =~= before.push((key@, value@)));
    r
}

impl IniDocument {
    /// Gives a key of the first section of a name one value.
    pub fn set_in(&mut self, section: Option<&str>, key: &str, value: &str)
        ensures
            final(self)@ == with_value(old(self)@, name_view(section), key@, value@),
    {
        let ghost d = self@;
        let ghost name = name_view(section);
        let mut i: usize = 0;
        assert(d.skip(0) =~= d);
        while i < self.sections.len()
            invariant
                i <= self.sections@.len(),
                d == self@,
                d == old(self)@,
                name == name_view(section),
                section_place(d, name) == i + section_place(d.skip(i as int), name),
            decreases self.sections@.len() - i,
        {
            let this = match &self.sections[i].name {
                Some(name) => Some(name.as_str()),
                None => None,
            };
            assert(d[i as int] == self.sections@[i as int]@);
            if crate::text::same_optional(this, section) {
                let properties = replace_property(&self.sections[i].properties, key, value);
                let replaced = IniSection {
                    name: match section {
                        Some(name) => Some(name.to_owned()),
                        None => None,
                    },
                    properties,
                };
                assert(d.skip(i as int)[0] == d[i as int]);
                assert(section_place(d, name) == i);
                assert(replaced@ == (name, with_property(d[i as int].1, key@, value@)));
                let ghost view = replaced@;
                self.sections.set(i, replaced);
                assert(self@ =~= d.update(i as int, view));
                return ;
            }
            assert(d.skip(i as int).drop_first() =~= d.skip(i + 1));
            i += 1;
        }
        let mut properties: Vec<(String, String)> = Vec::new();
        properties.push((key.to_owned(), value.to_owned()));
        assert(property_views(properties@) =~= seq![(key@, value@)]);
        let added = IniSection {
            name: match section {
                Some(name) => Some(name.to_owned()),
                None => None,
            },
            properties,
        };
        let ghost view = added@;
        self.sections.push(added);
        assert(self@ =~= d.push(view));
    }
}

/// Brings a document into the current format and remarks on its version.
pub fn migrate_config(
    document: &mut IniDocument,
    locations: &DocumentLocations,
    diagnostics: &mut Vec<ConfigDiagnostic>,
)
    ensures
        final(document)@ == migrated(old(document)@),
        diagnostic_views(final(diagnostics)@) == diagnostic_views(old(diagnostics)@)
            + version_remarks(old(document)@, locations@),
{
    let ghost d = document@;
    let ghost before = diagnostic_views(diagnostics@);
    let version: u64 = match document.get_from(None, "config_version") {
        Some(text) => {
            let chars = chars_of(text.as_str());
            match parse_unsigned(trim(chars.as_slice()).as_slice(), u32::MAX as u64) {
                Some(version) => version,
                None => 0,
            }
        },
        None => 0,
    };
    assert(version == version_of(d));
    if version > CURRENT_CONFIG_VERSION as u64 {
        let line = locations.setting_line(None, "config_version", 0);
        let mut text = "配置版本 ".to_owned();
        push_text(&mut text, decimal_text(version).as_str());
        push_text(&mut text, " 高于当前支持版本 ");
        push_text(&mut text, decimal_text(CURRENT_CONFIG_VERSION as u64).as_str());
        push_text(&mut text, " / newer config version");
        push_remark(diagnostics, warning(line, text));
        assert(diagnostic_views(diagnostics@) =~= before + version_remarks(d, locations@));
        return ;
    }
    if version == 0 {
        let path = document.get_from(Some("log"), "path");
        let file = document.get_from(Some("log"), "file");
        if path.is_none() {
            if let Some(file) = file {
                document.set_in(Some("log"), "path", file.as_str());
            }
        }
        assert(document@ == with_log_path(d));
        let current = decimal_text(CURRENT_CONFIG_VERSION as u64);
        document.set_in(None, "config_version", current.as_str());
        let mut text = "已在内存中迁移旧配置到版本 ".to_owned();
        push_text(&mut text, current.as_str());
        push_text(&mut text, " / legacy configuration migrated in memory");
        let remark = ConfigDiagnostic {
            severity: ConfigDiagnosticSeverity::Info,
            line: None,
            message: text,
        };
        push_remark(diagnostics, remark);
        assert(diagnostic_views(diagnostics@) =~= before + version_remarks(d, locations@));
        return ;
    }
    assert(diagnostic_views(diagnostics@) =~= before + version_remarks(d, locations@));
}

/// The remarks on a file.
pub open spec fn remarks(source: Seq<char>, d: Seq<SectionView>) -> Seq<DiagnosticView> {
    analysis(d, locations_of(source)) + version_remarks(d, locations_of(source))
}

/// Lists the remarks on a file and brings its document into the current format.
pub fn prepare_config(source: &str, document: &mut IniDocument) -> (r: Vec<ConfigDiagnostic>)
    ensures
        final(document)@ == migrated(old(document)@),
        diagnostic_views(r@) == remarks(source@, old(document)@),
{
    let locations = DocumentLocations::scan(source);
    let mut diagnostics = analyze_config(document, &locations);
    migrate_config(document, &locations, &mut diagnostics);
    diagnostics
}

/// A document with a version is left as it is.
pub proof fn versioned_document_stays(d: Seq<SectionView>)
    requires
        version_of(d) > 0,
    ensures
        migrated(d) == d,
{
}

proof fn property_after_set(
    properties: Seq<PropertyView>,
    key: Seq<char>,
    value: Seq<char>,
    from: int,
)
    requires
        0 <= from <= without_property(properties, key).len(),
    ensures
        crate::config::document::property(with_property(properties, key, value), key, from)
            == Some(value),
    decreases without_property(properties, key).len() - from,
{
    let rest = without_property(properties, key);
    property_is_gone(properties, key);
    if from < rest.len() {
        assert(with_property(properties, key, value)[from] == rest[from]);
        property_after_set(properties, key, value, from + 1);
    }
}

proof fn property_is_gone(properties: Seq<PropertyView>, key: Seq<char>)
    ensures
        forall|i: int|
            0 <= i < without_property(properties, key).len() ==> (#[trigger] without_property(
                properties,
                key,
            )[i]).0 != key,
    decreases properties.len(),
{
    if properties.len() > 0 {
        property_is_gone(properties.drop_last(), key);
        let rest = without_property(properties.drop_last(), key);
        assert forall|i: int| 0 <= i < without_property(properties, key).len() implies (
        #[trigger] without_property(properties, key)[i]).0 != key by {
            if i < rest.len() {
                assert(without_property(properties, key)[i] == rest[i]);
            }
        }
    }
}

proof fn lookup_after_set(
    d: Seq<SectionView>,
    name: Option<Seq<char>>,
    key: Seq<char>,
    value: Seq<char>,
    from: int,
)
    requires
        0 <= from <= section_place(d, name),
    ensures
        lookup(with_value(d, name, key, value), name, key, from) == Some(value),
    decreases section_place(d, name) - from,
{
    section_place_facts(d, name);
    let place = section_place(d, name);
    let after = with_value(d, name, key, value);
    if from < place {
        assert(after[from] == d[from]);
        lookup_after_set(d, name, key, value, from + 1);
    } else if place < d.len() {
        property_after_set(d[place].1, key, value, 0);
    } else {
        let only = seq![(key, value)];
        assert(only[0].0 == key);
    }
}

proof fn section_place_facts(d: Seq<SectionView>, name: Option<Seq<char>>)
    ensures
        0 <= section_place(d, name) <= d.len(),
        section_place(d, name) < d.len() ==> d[section_place(d, name)].0 == name,
        forall|i: int| 0 <= i < section_place(d, name) ==> (#[trigger] d[i]).0 != name,
    decreases d.len(),
{
    if d.len() > 0 && d[0].0 != name {
        section_place_facts(d.drop_first(), name);
        assert forall|i: int| 0 <= i < section_place(d, name) implies (#[trigger] d[i]).0
            != name by {
            if i > 0 {
                assert(d[i] == d.drop_first()[i - 1]);
            }
        }
    }
}

/// A value that was set is the one that is found.
pub proof fn set_value_is_found(
    d: Seq<SectionView>,
    name: Option<Seq<char>>,
    key: Seq<char>,
    value: Seq<char>,
)
    ensures
        lookup(with_value(d, name, key, value), name, key, 0) == Some(value),
{
    section_place_facts(d, name);
    lookup_after_set(d, name, key, value, 0);
}

/// An old document has the current version after its migration.
pub proof fn migration_sets_the_version(d: Seq<SectionView>)
    requires
        version_of(d) == 0,
    ensures
        lookup(migrated(d), None, "config_version"@, 0) == Some(
            decimal(CURRENT_CONFIG_VERSION as nat),
        ),
{
    set_value_is_found(
        with_log_path(d),
        None,
        "config_version"@,
        decimal(CURRENT_CONFIG_VERSION as nat),
    );
}

/// Every line is counted, from one on. A blank line and a comment say nothing; a header begins its
/// section, and the key of an assignment is noted in the section that it stands in.
pub proof fn lines_are_counted_from_one(scan: LineScan, raw: Seq<char>)
    ensures
        ({
            let line = clean_line(raw);
            let after = scan.after(raw);
            let silent = line.len() == 0 || line[0] == '#' || line[0] == ';';
            let header = !silent && bracket_name(line) is Some;
            let setting = !silent && !header && line_key(line) is Some;
            &&& after.count == scan.count + 1
            &&& after.section == if header {
                bracket_name(line)
            } else {
                scan.section
            }
            &&& after.locations.sections == if header {
                scan.locations.sections.push((bracket_name(line)->0, scan.count + 1))
            } else {
                scan.locations.sections
            }
            &&& after.locations.settings == if setting {
                scan.locations.settings.push((scan.section, line_key(line)->0, scan.count + 1))
            } else {
                scan.locations.settings
            }
        }),
        line_scan(Seq::<Seq<char>>::empty()).count == 0,
        line_scan(Seq::<Seq<char>>::empty()).section is None,
        line_scan(Seq::<Seq<char>>::empty()).locations.sections.len() == 0,
        line_scan(Seq::<Seq<char>>::empty()).locations.settings.len() == 0,
{
}

/// A header is a line in square brackets with a name between them, and nothing behind. An
/// assignment has a key before its first equals sign or colon.
pub proof fn headers_and_keys(name: Seq<char>, sign: char, rest: Seq<char>, line: Seq<char>)
    requires
        sign == '=' || sign == ':',
    ensures
        bracket_name(seq!['['] + name + seq![']']) == if trimmed(name).len() > 0 {
            Some(trimmed(name))
        } else {
            None
        },
        line.len() == 0 || line[0] != '[' || line.last() != ']' ==> bracket_name(line) is None,
        !has_char(name, '=') && !has_char(name, ':') ==> line_key(name + seq![sign] + rest)
            == if trimmed(name).len() > 0 {
            Some(trimmed(name))
        } else {
            None
        },
        !has_char(line, '=') && !has_char(line, ':') ==> line_key(line) is None,
{
    let header = seq!['['] + name + seq![']'];
    assert(header.subrange(1, header.len() - 1) =~= name);
    let whole = name + seq![sign] + rest;
    until_range(whole, '=', ':');
    until_range(line, '=', ':');
    if !has_char(name, '=') && !has_char(name, ':') {
        let at = until(whole, '=', ':');
        assert(whole[name.len() as int] == sign);
        assert(at == name.len()) by {
            if at < name.len() {
                assert(whole[at] == name[at]);
            }
        }
        assert(whole.take(at) =~= name);
    }
}

/// Byte order marks at the beginning of a line are passed over, however many there are.
pub proof fn leading_marks_are_passed_over(line: Seq<char>)
    ensures
        without_marks(seq!['\u{feff}'] + line) == without_marks(line),
        line.len() == 0 || line[0] != '\u{feff}' ==> without_marks(line) == line,
{
    assert((seq!['\u{feff}'] + line).drop_first() =~= line);
}

/// The lines of a setting are those on which it is noted, in their order. An occurrence is on the
/// line with its number among them; beyond the last it is on the last.
pub proof fn occurrences_have_their_lines(
    settings: Seq<(Option<Seq<char>>, Seq<char>, int)>,
    more: (Option<Seq<char>>, Seq<char>, int),
    locations: Locations,
    section: Option<Seq<char>>,
    key: Seq<char>,
    occurrence: int,
)
    ensures
        setting_lines(Seq::<(Option<Seq<char>>, Seq<char>, int)>::empty(), section, key).len() == 0,
        (more.0 == section && more.1 == key) ==> setting_lines(settings.push(more), section, key)
            == setting_lines(settings, section, key).push(more.2),
        !(more.0 == section && more.1 == key) ==> setting_lines(settings.push(more), section, key)
            == setting_lines(settings, section, key),
        ({
            let lines = setting_lines(locations.settings, section, key);
            &&& lines.len() == 0 ==> line_of(locations, section, key, occurrence) is None
            &&& 0 <= occurrence < lines.len() ==> line_of(locations, section, key, occurrence)
                == Some(lines[occurrence] as usize)
            &&& 0 < lines.len() <= occurrence ==> line_of(locations, section, key, occurrence)
                == Some(lines[lines.len() - 1] as usize)
        }),
{
    assert(settings.push(more).drop_last() =~= settings);
}

/// A section gets a remark, a warning on its line, where it is unknown or where one of its name
/// stands before it, and no other.
pub proof fn remarks_on_sections(sections: Seq<(Seq<char>, int)>, place: int)
    requires
        0 <= place < sections.len(),
    ensures
        ({
            let remark = section_remark(sections, place);
            let again = exists|k: int|
                0 <= k < place && (#[trigger] sections[k]).0 == sections[place].0;
            &&& remark is Some <==> !known_section(Some(sections[place].0)) || again
            &&& remark matches Some(r) ==> r.0 == ConfigDiagnosticSeverity::Warning && r.1 == Some(
                sections[place].1 as usize,
            )
            &&& remark matches Some(r) ==> r.2 == (if known_section(Some(sections[place].0)) {
                "重复配置节 / duplicate section ["@
            } else {
                "未知配置节 / unknown section ["@
            }) + sections[place].0 + seq![']']
            &&& section_remarks(sections, place + 1) == if remark is Some {
                section_remarks(sections, place).push(remark->0)
            } else {
                section_remarks(sections, place)
            }
        }),
        section_remarks(sections, 0).len() == 0,
{
    reveal_strlit("]");
    assert("]"@ =~= seq![']']);
}

/// A setting is counted by its section and its key.
pub proof fn settings_are_counted(
    settings: Seq<SettingView>,
    more: SettingView,
    section: Option<Seq<char>>,
    key: Seq<char>,
)
    ensures
        occurrences(Seq::<SettingView>::empty(), section, key) == 0,
        occurrences(settings.push(more), section, key) == occurrences(settings, section, key) + (
        if more.0 == section && more.1 == key {
            1nat
        } else {
            0nat
        }),
{
    assert(settings.push(more).drop_last() =~= settings);
}

/// The settings of the known sections are looked at in their order, and those of unknown sections
/// are not.
pub proof fn settings_of_known_sections(d: Seq<SectionView>, section: SectionView, i: int)
    requires
        0 <= i < section.1.len(),
    ensures
        !known_section(section.0) ==> known_settings(d.push(section)) == known_settings(d),
        known_section(section.0) ==> {
            let all = known_settings(d.push(section));
            let n = known_settings(d).len();
            &&& all.len() == n + section.1.len()
            &&& all.take(n as int) == known_settings(d)
            &&& all[n + i] == (section.0, section.1[i].0, section.1[i].1)
        },
        known_settings(Seq::<SectionView>::empty()).len() == 0,
{
    assert(d.push(section).drop_last() =~= d);
    if known_section(section.0) {
        assert(known_settings(d.push(section)).take(known_settings(d).len() as int)
            =~= known_settings(d));
    }
}

/// A setting that is valid and stands there for the first time gets no remark. A repeated one gets a
/// warning for that, and one that is not valid a warning for its value or its name; all stand on
/// the line of this occurrence.
pub proof fn remarks_on_settings(settings: Seq<SettingView>, place: int, locations: Locations)
    requires
        0 <= place < settings.len(),
    ensures
        ({
            let (section, key, value) = settings[place];
            let count = occurrences(settings.take(place), section, key);
            let line = line_of(locations, section, key, count as int);
            let remarks = setting_remarks(settings, place, locations);
            let valid = setting_status(section, key, value) == StatusView::Valid;
            &&& remarks.len() == (if count > 0 {
                1nat
            } else {
                0nat
            }) + (if valid {
                0nat
            } else {
                1nat
            })
            &&& forall|i: int|
                0 <= i < remarks.len() ==> (#[trigger] remarks[i]).0
                    == ConfigDiagnosticSeverity::Warning && remarks[i].1 == line
            &&& count > 0 ==> remarks[0].2 == "重复配置项 / duplicate setting "@ + shown_name(
                section,
                key,
            )
            &&& settings_remarks(settings, place + 1, locations) == settings_remarks(
                settings,
                place,
                locations,
            ) + remarks
        }),
        settings_remarks(settings, 0, locations).len() == 0,
        settings[place].0 is None ==> shown_name(settings[place].0, settings[place].1)
            == settings[place].1,
        settings[place].0 is Some ==> shown_name(settings[place].0, settings[place].1) == seq!['[']
            + settings[place].0->0 + seq![']', '.'] + settings[place].1,
{
    reveal_strlit("[");
    reveal_strlit("].");
    assert("["@ =~= seq!['[']);
    assert("]."@ =~= seq![']', '.']);
}

/// What is said of a setting names it, and says what is wrong: that it is unknown, that it or its
/// value has another name now, or that its value is none of the expected ones.
pub proof fn remarks_say_what_is_wrong(setting: SettingView, line: Option<usize>)
    ensures
        ({
            let name = shown_name(setting.0, setting.1);
            let remark = status_remark(setting, line);
            match setting_status(setting.0, setting.1, setting.2) {
                StatusView::Valid => remark is None,
                StatusView::Unknown => remark == Some(
                    warn(line, "未知配置项 / unknown setting "@ + name),
                ),
                StatusView::DeprecatedKey(other) => remark == Some(
                    warn(line, "过时配置项 / deprecated setting "@ + name + "; use "@ + other),
                ),
                StatusView::DeprecatedValue(other) => remark == Some(
                    warn(
                        line,
                        "过时配置值 / deprecated value "@ + name + "="@ + quoted(setting.2) + "; use "@
                            + other,
                    ),
                ),
                StatusView::Invalid(expected) => remark == Some(
                    warn(
                        line,
                        "无效值 / invalid value "@ + name + "="@ + quoted(setting.2) + "; expected "@
                            + expected,
                    ),
                ),
            }
        }),
        warn(line, setting.1) == (ConfigDiagnosticSeverity::Warning, line, setting.1),
{
}

/// A document of a later version than the first gets a warning on the line of its version, one
/// without a version gets a note that it was migrated, and one of the first version gets neither.
pub proof fn remarks_on_the_version(d: Seq<SectionView>, locations: Locations)
    ensures
        ({
            let remarks = version_remarks(d, locations);
            &&& version_of(d) == 1 ==> remarks.len() == 0
            &&& version_of(d) > 1 ==> remarks.len() == 1 && remarks[0].0
                == ConfigDiagnosticSeverity::Warning && remarks[0].1 == line_of(
                locations,
                None,
                "config_version"@,
                0,
            )
            &&& version_of(d) == 0 ==> remarks.len() == 1 && remarks[0].0
                == ConfigDiagnosticSeverity::Info && remarks[0].1 is None
        }),
        lookup(d, None, "config_version"@, 0) is None ==> version_of(d) == 0,
        lookup(d, None, "config_version"@, 0) matches Some(text) ==> version_of(d) == match unsigned(
            trimmed(text),
            4294967295,
        ) {
            Some(version) => version,
            None => 0,
        },
{
}

/// Setting a value changes no other setting.
pub proof fn other_values_stay(
    d: Seq<SectionView>,
    name: Option<Seq<char>>,
    key: Seq<char>,
    value: Seq<char>,
    other: Option<Seq<char>>,
    other_key: Seq<char>,
    from: int,
)
    requires
        0 <= from,
        other != name || other_key != key,
    ensures
        lookup(with_value(d, name, key, value), other, other_key, from) == lookup(
            d,
            other,
            other_key,
            from,
        ),
    decreases d.len() + 1 - from,
{
    section_place_facts(d, name);
    let place = section_place(d, name);
    let after = with_value(d, name, key, value);
    if from < d.len() {
        if from == place {
            if other == name {
                other_property_stays(d[place].1, key, value, other_key);
            }
        } else {
            assert(after[from] == d[from]);
        }
        other_values_stay(d, name, key, value, other, other_key, from + 1);
    } else if from == d.len() && place == d.len() {
        assert(after[from] == (name, seq![(key, value)]));
        let only = seq![(key, value)];
        assert(property(only, other_key, 1) is None);
        assert(only[0].0 == key);
        assert(lookup(after, other, other_key, from + 1) is None);
    }
}

proof fn other_property_stays(
    properties: Seq<PropertyView>,
    key: Seq<char>,
    value: Seq<char>,
    other: Seq<char>,
)
    requires
        other != key,
    ensures
        property(with_property(properties, key, value), other, 0) == property(properties, other, 0),
{
    property_among_others(properties, key, other);
    let rest = without_property(properties, key);
    property_behind(rest, (key, value), other, 0);
}

proof fn property_behind(
    properties: Seq<PropertyView>,
    more: PropertyView,
    key: Seq<char>,
    from: int,
)
    requires
        0 <= from,
    ensures
        from <= properties.len() ==> property(properties.push(more), key, from) == match property(
            properties,
            key,
            from,
        ) {
            Some(value) => Some(value),
            None => if more.0 == key {
                Some(more.1)
            } else {
                None
            },
        },
    decreases properties.len() + 1 - from,
{
    let all = properties.push(more);
    if from < properties.len() {
        assert(all[from] == properties[from]);
        property_behind(properties, more, key, from + 1);
    } else if from == properties.len() {
        assert(all[from] == more);
        assert(property(all, key, from + 1) is None);
    }
}

proof fn property_among_others(properties: Seq<PropertyView>, key: Seq<char>, other: Seq<char>)
    requires
        other != key,
    ensures
        property(without_property(properties, key), other, 0) == property(properties, other, 0),
    decreases properties.len(),
{
    if properties.len() > 0 {
        let before = properties.drop_last();
        let last = properties.last();
        property_among_others(before, key, other);
        assert(properties =~= before.push(last));
        property_behind(before, last, other, 0);
        property_behind(without_property(before, key), last, other, 0);
    }
}

/// A migration gives the log path its current name where only the earlier one is there, and sets
/// the version; no other setting changes.
pub proof fn migration_changes_two_settings(
    d: Seq<SectionView>,
    name: Option<Seq<char>>,
    key: Seq<char>,
)
    ensures
        ({
            let path = lookup(d, Some("log"@), "path"@, 0);
            let file = lookup(d, Some("log"@), "file"@, 0);
            let after = migrated(d);
            &&& !(name is None && key == "config_version"@) && !(name == Some("log"@) && key
                == "path"@) ==> lookup(after, name, key, 0) == lookup(d, name, key, 0)
            &&& lookup(after, Some("log"@), "path"@, 0) == if version_of(d) == 0 && path is None {
                file
            } else {
                path
            }
            &&& version_of(d) == 0 ==> lookup(after, None, "config_version"@, 0) == Some(seq!['1'])
        }),
{
    reveal_with_fuel(decimal, 2);
    let version = decimal(CURRENT_CONFIG_VERSION as nat);
    assert(version =~= seq!['1']);
    let named = with_log_path(d);
    if version_of(d) == 0 {
        migration_sets_the_version(d);
        other_values_stay(named, None, "config_version"@, version, Some("log"@), "path"@, 0);
        if !(name is None && key == "config_version"@) {
            other_values_stay(named, None, "config_version"@, version, name, key, 0);
        }
        match (lookup(d, Some("log"@), "path"@, 0), lookup(d, Some("log"@), "file"@, 0)) {
            (None, Some(file)) => {
                set_value_is_found(d, Some("log"@), "path"@, file);
                if !(name == Some("log"@) && key == "path"@) {
                    other_values_stay(d, Some("log"@), "path"@, file, name, key, 0);
                }
            },
            _ => {},
        }
    }
}

}
