//! A document that was completed is complete: completing it again changes nothing.

use vstd::prelude::*;

use crate::config::document::{
    assigned, continues, entries_of, header_name, ini_sections, is_comment, key_place, lines_cover,
    open_quote, outline, scanned, scanned_offset_adds, section_end, without_line_end, Scan,
};
use crate::config::merge::{
    completion_keeps_values, joined_lines, merge_result, newline_of, section_text, source_of,
    stripping_stops, template_of, template_scan, values_text, with_newlines, without_newlines,
    MergeFailure, Source, TemplateView,
};
use crate::config::overrides::{has_key, position};
use crate::text::{
    finishes_with, is_white, raw_lines, trimmed, trimmed_end, trimmed_ends, trimmed_start, until,
    until_range,
};
use crate::trimming::white_end_is_trimmed;

verus! {

// ---------------------------------------------------------------------------
// Lines that stand for themselves

/// Whether a line begins no value that goes on in the next line.
pub open spec fn closed_line(raw: Seq<char>) -> bool {
    let line = trimmed(raw);
    is_comment(line) || header_name(line) is Some || match assigned(line) {
        Some((_, value)) => open_quote(value, None) is None && !continues(raw),
        None => true,
    }
}

/// Whether a scan stands between two values.
pub open spec fn between(scan: Scan) -> bool {
    scan.quote is None && !scan.continuation
}

/// Whether a text consists of whole lines.
pub open spec fn whole_lines(text: Seq<char>) -> bool {
    text.len() == 0 || text.last() == '\n'
}

/// Whether a text consists of whole lines, none of which begins a value that goes on in the next.
spec fn plain_text(text: Seq<char>) -> bool {
    &&& whole_lines(text)
    &&& forall|i: int|
        0 <= i < raw_lines(text).len() ==> closed_line(#[trigger] raw_lines(text)[i])
}

/// Whether a comment is a line of a text.
spec fn shows(text: Seq<char>, comment: Seq<char>) -> bool {
    is_comment(comment) && exists|i: int|
        0 <= i < raw_lines(text).len() && trimmed(#[trigger] raw_lines(text)[i]) == comment
}

/// Whether a setting explains itself: its marker is a line of its comments, and its assignment
/// ends with its line.
pub open spec fn explained(e: TemplateView) -> bool {
    let lines = raw_lines(e.comments.push('\n'));
    &&& exists|i: int| 0 <= i < lines.len() && trimmed(#[trigger] lines[i]) == e.marker
    &&& closed_line(e.assignment)
}

/// Whether every setting of a template explains itself.
pub open spec fn explained_template(template: Seq<TemplateView>) -> bool {
    forall|i: int| 0 <= i < template.len() ==> explained(#[trigger] template[i])
}

/// Whether a setting also consists of lines of its own, and its comments of comment lines.
spec fn documented_setting(e: TemplateView) -> bool {
    let lines = raw_lines(e.comments.push('\n'));
    &&& explained(e)
    &&& forall|i: int| 0 <= i < lines.len() ==> is_comment(trimmed(#[trigger] lines[i]))
    &&& !e.assignment.contains('\n')
    &&& !e.section.contains('\n')
}

spec fn documented_template(template: Seq<TemplateView>) -> bool {
    forall|i: int| 0 <= i < template.len() ==> documented_setting(#[trigger] template[i])
}

/// The end of a line decides nothing.
pub proof fn line_end_is_trimmed(x: Seq<char>, newline: Seq<char>)
    requires
        newline == seq!['\n'] || newline == seq!['\r', '\n'],
    ensures
        trimmed(x + newline) == trimmed(x),
        continues(x + newline) == continues(x),
        closed_line(x + newline) == closed_line(x),
        trimmed(x.push('\n')) == trimmed(x),
        continues(x.push('\n')) == continues(x),
        closed_line(x.push('\n')) == closed_line(x),
{
    white_end_is_trimmed(x, '\n');
    white_end_is_trimmed(x, '\r');
    white_end_is_trimmed(x.push('\r'), '\n');
    assert(x.push('\n').drop_last() =~= x);
    assert(x.push('\r').drop_last() =~= x);
    assert(x.push('\r').push('\n').drop_last() =~= x.push('\r'));
    assert(without_line_end(x.push('\r')) == without_line_end(x));
    assert(without_line_end(x.push('\n')) == without_line_end(x));
    assert(without_line_end(x.push('\r').push('\n')) == without_line_end(x));
    if newline == seq!['\n'] {
        assert(x + newline =~= x.push('\n'));
    } else {
        assert(x + newline =~= x.push('\r').push('\n'));
    }
}

// ---------------------------------------------------------------------------
// Texts and their lines

proof fn until_in_prefix(a: Seq<char>, b: Seq<char>)
    requires
        until(a, '\n', '\n') < a.len(),
    ensures
        until(a + b, '\n', '\n') == until(a, '\n', '\n'),
    decreases a.len(),
{
    assert((a + b)[0] == a[0]);
    if a[0] != '\n' {
        until_in_prefix(a.drop_first(), b);
        assert((a + b).drop_first() =~= a.drop_first() + b);
    }
}

proof fn newline_is_found(a: Seq<char>, i: int)
    requires
        0 <= i < a.len(),
        a[i] == '\n',
    ensures
        until(a, '\n', '\n') <= i,
{
    until_range(a, '\n', '\n');
}

/// The lines of whole lines and a text are those of the two.
pub proof fn lines_add(a: Seq<char>, b: Seq<char>)
    requires
        whole_lines(a),
    ensures
        raw_lines(a + b) == raw_lines(a) + raw_lines(b),
    decreases a.len(),
{
    if a.len() == 0 {
        assert(a + b =~= b);
        assert(raw_lines(a) + raw_lines(b) =~= raw_lines(b));
    } else {
        let i = until(a, '\n', '\n');
        until_range(a, '\n', '\n');
        newline_is_found(a, a.len() - 1);
        until_in_prefix(a, b);
        let rest = a.skip(i + 1);
        assert(rest.len() > 0 ==> rest.last() == a.last());
        lines_add(rest, b);
        assert((a + b).take(i + 1) =~= a.take(i + 1));
        assert((a + b).skip(i + 1) =~= rest + b);
        assert(raw_lines(a + b) =~= raw_lines(a) + raw_lines(b));
    }
}

/// A text whose only newline ends it is one line.
pub proof fn one_line(x: Seq<char>)
    requires
        x.len() > 0,
        forall|k: int| 0 <= k < x.len() - 1 ==> x[k] != '\n',
    ensures
        raw_lines(x) == seq![x],
{
    let i = until(x, '\n', '\n');
    until_range(x, '\n', '\n');
    if i < x.len() {
        assert(i == x.len() - 1);
        assert(x.take(i + 1) =~= x);
        let rest = x.skip(i + 1);
        assert(rest.len() == 0);
        assert(raw_lines(rest) =~= Seq::<Seq<char>>::empty());
        assert(raw_lines(x) =~= seq![x]);
    }
}

proof fn plain_add(p: Seq<char>, q: Seq<char>)
    requires
        plain_text(p),
        plain_text(q),
    ensures
        plain_text(p + q),
        forall|m: Seq<char>| shows(p, m) || shows(q, m) ==> #[trigger] shows(p + q, m),
{
    lines_add(p, q);
    let a = raw_lines(p);
    let b = raw_lines(q);
    let all = raw_lines(p + q);
    assert(q.len() > 0 ==> (p + q).last() == q.last());
    assert(q.len() == 0 ==> p + q =~= p);
    assert forall|i: int| 0 <= i < all.len() implies closed_line(#[trigger] all[i]) by {
        if i < a.len() {
            assert(all[i] == a[i]);
        } else {
            assert(all[i] == b[i - a.len()]);
        }
    }
    assert forall|m: Seq<char>| shows(p, m) || shows(q, m) implies #[trigger] shows(p + q, m) by {
        if shows(p, m) {
            let i = choose|i: int| 0 <= i < a.len() && trimmed(#[trigger] a[i]) == m;
            assert(all[i] == a[i]);
        } else {
            let i = choose|i: int| 0 <= i < b.len() && trimmed(#[trigger] b[i]) == m;
            assert(all[a.len() + i] == b[i]);
        }
    }
}

proof fn newlines_add(a: Seq<char>, b: Seq<char>, newline: Seq<char>)
    ensures
        with_newlines(a + b, newline) == with_newlines(a, newline) + with_newlines(b, newline),
    decreases b.len(),
{
    if b.len() == 0 {
        assert(a + b =~= a);
        assert(with_newlines(a, newline) + with_newlines(b, newline) =~= with_newlines(
            a,
            newline,
        ));
    } else {
        newlines_add(a, b.drop_last(), newline);
        assert((a + b).drop_last() =~= a + b.drop_last());
        assert((a + b).last() == b.last());
        assert(with_newlines(a + b, newline) =~= with_newlines(a, newline) + with_newlines(
            b,
            newline,
        ));
    }
}

proof fn no_newlines(x: Seq<char>, newline: Seq<char>)
    requires
        !x.contains('\n'),
    ensures
        with_newlines(x, newline) == x,
    decreases x.len(),
{
    if x.len() > 0 {
        assert(x[x.len() - 1] == x.last());
        assert forall|c: char| x.drop_last().contains(c) implies x.contains(c) by {
            let i = x.drop_last().index_of(c);
            assert(x.drop_last()[i] == c);
            assert(x[i] == c);
        }
        no_newlines(x.drop_last(), newline);
        assert(x.drop_last().push(x.last()) =~= x);
    } else {
        assert(with_newlines(x, newline) =~= x);
    }
}

/// Writing the newlines of a text in another way changes nothing that a scan looks at.
proof fn expanded_lines(p: Seq<char>, newline: Seq<char>)
    requires
        whole_lines(p),
        newline == seq!['\n'] || newline == seq!['\r', '\n'],
    ensures
        ({
            let a = raw_lines(p);
            let b = raw_lines(with_newlines(p, newline));
            &&& whole_lines(with_newlines(p, newline))
            &&& a.len() == b.len()
            &&& forall|i: int|
                #![trigger a[i]]
                #![trigger b[i]]
                0 <= i < a.len() ==> trimmed(a[i]) == trimmed(b[i]) && continues(a[i])
                    == continues(b[i]) && closed_line(a[i]) == closed_line(b[i])
        }),
    decreases p.len(),
{
    let q = with_newlines(p, newline);
    if p.len() > 0 {
        let i = until(p, '\n', '\n');
        until_range(p, '\n', '\n');
        newline_is_found(p, p.len() - 1);
        let x = p.take(i);
        let rest = p.skip(i + 1);
        assert(rest.len() > 0 ==> rest.last() == p.last());
        expanded_lines(rest, newline);
        let head = p.take(i + 1);
        assert(head =~= x.push('\n'));
        assert(!x.contains('\n'));
        no_newlines(x, newline);
        assert(head.drop_last() =~= x);
        assert(with_newlines(head, newline) == x + newline);
        assert(p =~= head + rest);
        newlines_add(head, rest, newline);
        let first = x + newline;
        let tail = with_newlines(rest, newline);
        assert(first.last() == '\n');
        assert forall|k: int| 0 <= k < first.len() - 1 implies first[k] != '\n' by {
            if k < x.len() {
                assert(first[k] == x[k]);
                assert(x.contains(x[k]));
            }
        }
        one_line(first);
        lines_add(first, tail);
        line_end_is_trimmed(x, newline);
        let a = raw_lines(p);
        let b = raw_lines(q);
        assert(a == seq![head] + raw_lines(rest));
        assert(b == seq![first] + raw_lines(tail));
        assert(tail.len() > 0 ==> q.last() == tail.last());
        assert(tail.len() == 0 ==> q =~= first);
        assert forall|k: int| 0 <= k < a.len() implies trimmed(#[trigger] a[k]) == trimmed(b[k])
            && continues(a[k]) == continues(b[k]) && closed_line(a[k]) == closed_line(b[k]) by {
            if k > 0 {
                assert(a[k] == raw_lines(rest)[k - 1]);
                assert(b[k] == raw_lines(tail)[k - 1]);
            }
        }
    }
}

proof fn expanded_text(p: Seq<char>, newline: Seq<char>)
    requires
        plain_text(p),
        newline == seq!['\n'] || newline == seq!['\r', '\n'],
    ensures
        plain_text(with_newlines(p, newline)),
        forall|m: Seq<char>| shows(p, m) ==> #[trigger] shows(with_newlines(p, newline), m),
{
    expanded_lines(p, newline);
    let a = raw_lines(p);
    let b = raw_lines(with_newlines(p, newline));
    assert forall|i: int| 0 <= i < b.len() implies closed_line(#[trigger] b[i]) by {
        assert(closed_line(a[i]));
    }
    assert forall|m: Seq<char>| shows(p, m) implies #[trigger] shows(
        with_newlines(p, newline),
        m,
    ) by {
        let i = choose|i: int| 0 <= i < a.len() && trimmed(#[trigger] a[i]) == m;
        assert(trimmed(b[i]) == m);
    }
}

// ---------------------------------------------------------------------------
// Scans

/// The state after the given lines, from a state on.
spec fn scan_from(scan: Scan, lines: Seq<Seq<char>>) -> Scan
    decreases lines.len(),
{
    if lines.len() == 0 {
        scan
    } else {
        scan_from(scan, lines.drop_last()).after(lines.last())
    }
}

proof fn scanned_add(a: Seq<Seq<char>>, b: Seq<Seq<char>>)
    ensures
        scanned(a + b) == scan_from(scanned(a), b),
    decreases b.len(),
{
    if b.len() == 0 {
        assert(a + b =~= a);
    } else {
        scanned_add(a, b.drop_last());
        assert((a + b).drop_last() =~= a + b.drop_last());
        assert((a + b).last() == b.last());
    }
}

proof fn plain_scan(scan: Scan, lines: Seq<Seq<char>>)
    requires
        between(scan),
        forall|i: int| 0 <= i < lines.len() ==> closed_line(#[trigger] lines[i]),
    ensures
        between(scan_from(scan, lines)),
        forall|c: Seq<char>|
            scan.outline.comments.contains(c) ==> #[trigger] scan_from(
                scan,
                lines,
            ).outline.comments.contains(c),
        forall|i: int|
            0 <= i < lines.len() && is_comment(trimmed(#[trigger] lines[i])) ==> scan_from(
                scan,
                lines,
            ).outline.comments.contains(trimmed(lines[i])),
    decreases lines.len(),
{
    if lines.len() > 0 {
        let before = lines.drop_last();
        assert forall|i: int| 0 <= i < before.len() implies closed_line(#[trigger] before[i]) by {
            assert(before[i] == lines[i]);
        }
        plain_scan(scan, before);
        let state = scan_from(scan, before);
        let next = scan_from(scan, lines);
        assert(closed_line(lines[lines.len() - 1]));
        comments_stay(state, lines.last());
        assert forall|i: int|
            0 <= i < lines.len() && is_comment(
                trimmed(#[trigger] lines[i]),
            ) implies next.outline.comments.contains(trimmed(lines[i])) by {
            if i < before.len() {
                assert(before[i] == lines[i]);
            } else {
                assert(next.outline.comments.last() == trimmed(lines[i]));
            }
        }
    }
}

/// A scan never forgets a comment.
proof fn comments_stay(scan: Scan, raw: Seq<char>)
    ensures
        forall|c: Seq<char>|
            scan.outline.comments.contains(c) ==> #[trigger] scan.after(
                raw,
            ).outline.comments.contains(c),
{
    let old_comments = scan.outline.comments;
    let new_comments = scan.after(raw).outline.comments;
    assert forall|c: Seq<char>| old_comments.contains(
        c,
    ) implies #[trigger] new_comments.contains(c) by {
        let i = old_comments.index_of(c);
        assert(old_comments[i] == c);
        assert(new_comments[i] == c);
    }
}

/// Whether one scan is in the state of another and has seen its comments.
spec fn covers(a: Scan, b: Scan) -> bool {
    &&& a.quote == b.quote
    &&& a.continuation == b.continuation
    &&& forall|c: Seq<char>|
        b.outline.comments.contains(c) ==> #[trigger] a.outline.comments.contains(c)
}

proof fn covers_step(a: Scan, b: Scan, x: Seq<char>, y: Seq<char>)
    requires
        covers(a, b),
        trimmed(x) == trimmed(y),
        continues(x) == continues(y),
    ensures
        covers(a.after(x), b.after(y)),
{
    comments_stay(a, x);
    let line = trimmed(y);
    let before = b.outline.comments;
    let after = b.after(y).outline.comments;
    assert forall|c: Seq<char>| after.contains(c) implies #[trigger] a.after(
        x,
    ).outline.comments.contains(c) by {
        let i = after.index_of(c);
        assert(after[i] == c);
        if i < before.len() {
            assert(before[i] == c);
            assert(before.contains(c));
        } else {
            assert(a.after(x).outline.comments.last() == line);
        }
    }
}

// ---------------------------------------------------------------------------
// Where something is inserted

/// Whether a place is the beginning of a line between two values.
spec fn line_start(lines: Seq<Seq<char>>, at: int) -> bool {
    exists|k: int|
        0 <= k < lines.len() && (#[trigger] scanned(lines.take(k))).offset == at && between(
            scanned(lines.take(k)),
        )
}

proof fn line_start_of_more(lines: Seq<Seq<char>>, at: int)
    requires
        lines.len() > 0,
        line_start(lines.drop_last(), at),
    ensures
        line_start(lines, at),
{
    let before = lines.drop_last();
    let k = choose|k: int|
        0 <= k < before.len() && (#[trigger] scanned(before.take(k))).offset == at && between(
            scanned(before.take(k)),
        );
    assert(before.take(k) =~= lines.take(k));
}

proof fn places_are_line_starts(lines: Seq<Seq<char>>)
    ensures
        forall|i: int|
            0 <= i < scanned(lines).outline.keys.len() ==> line_start(
                lines,
                (#[trigger] scanned(lines).outline.keys[i]).2,
            ),
        forall|i: int|
            0 <= i < scanned(lines).outline.ends.len() ==> line_start(
                lines,
                (#[trigger] scanned(lines).outline.ends[i]).1,
            ),
    decreases lines.len(),
{
    if lines.len() > 0 {
        let before = lines.drop_last();
        places_are_line_starts(before);
        let old_outline = scanned(before).outline;
        let new_outline = scanned(lines).outline;
        assert(lines.take(lines.len() - 1) =~= before);
        assert forall|i: int| 0 <= i < new_outline.keys.len() implies line_start(
            lines,
            (#[trigger] new_outline.keys[i]).2,
        ) by {
            if i < old_outline.keys.len() {
                assert(new_outline.keys[i] == old_outline.keys[i]);
                line_start_of_more(lines, old_outline.keys[i].2);
            } else {
                assert(scanned(lines.take(lines.len() - 1)).offset == new_outline.keys[i].2);
            }
        }
        assert forall|i: int| 0 <= i < new_outline.ends.len() implies line_start(
            lines,
            (#[trigger] new_outline.ends[i]).1,
        ) by {
            if i < old_outline.ends.len() {
                assert(new_outline.ends[i] == old_outline.ends[i]);
                line_start_of_more(lines, old_outline.ends[i].1);
            } else {
                assert(scanned(lines.take(lines.len() - 1)).offset == new_outline.ends[i].1);
            }
        }
    }
}

proof fn key_place_is_listed(
    keys: Seq<(Seq<char>, Seq<char>, int)>,
    section: Seq<char>,
    key: Seq<char>,
    from: int,
) -> (i: int)
    requires
        key_place(keys, section, key, from) is Some,
    ensures
        0 <= i < keys.len(),
        keys[i].2 == key_place(keys, section, key, from)->0,
    decreases keys.len() - from,
{
    if keys[from].0 == section && keys[from].1 == key {
        from
    } else {
        key_place_is_listed(keys, section, key, from + 1)
    }
}

proof fn section_end_is_listed(ends: Seq<(Seq<char>, int)>, section: Seq<char>, from: int) -> (i:
    int)
    requires
        section_end(ends, section, from) is Some,
    ensures
        0 <= i < ends.len(),
        ends[i].1 == section_end(ends, section, from)->0,
    decreases ends.len() - from,
{
    if ends[from].0 == section {
        from
    } else {
        section_end_is_listed(ends, section, from + 1)
    }
}

/// Additions stand at the beginning of a line between two values, or at the end of the text.
proof fn place_of_addition(source: Source, e: TemplateView)
    requires
        source.outline == outline(source.text),
        source.known(e),
    ensures
        line_start(raw_lines(source.text), source.place(e)) || source.place(e)
            == source.text.len(),
{
    let lines = raw_lines(source.text);
    places_are_line_starts(lines);
    let last = scanned(lines);
    if key_place(source.outline.keys, e.section, e.key, 0) is Some {
        let i = key_place_is_listed(source.outline.keys, e.section, e.key, 0);
        assert(last.outline.keys[i].2 == source.place(e));
    } else {
        let i = section_end_is_listed(source.outline.ends, e.section, 0);
        if i < last.outline.ends.len() {
            assert(source.outline.ends[i] == last.outline.ends[i]);
        }
    }
}

proof fn nothing_inserted(source: Source, entries: Seq<TemplateView>, at: int)
    requires
        forall|i: int|
            0 <= i < entries.len() && source.known(#[trigger] entries[i]) ==> source.place(
                entries[i],
            ) != at,
    ensures
        source.inserted(entries, at).len() == 0,
    decreases entries.len(),
{
    if entries.len() > 0 {
        let rest = entries.drop_last();
        assert forall|i: int| 0 <= i < rest.len() && source.known(
            #[trigger] rest[i],
        ) implies source.place(rest[i]) != at by {
            assert(rest[i] == entries[i]);
        }
        nothing_inserted(source, rest, at);
        assert(entries[entries.len() - 1] == entries.last());
    }
}

// ---------------------------------------------------------------------------
// What is inserted

proof fn blank_line_is_plain()
    ensures
        plain_text(seq!['\n']),
{
    let text = seq!['\n'];
    one_line(text);
    let none = Seq::<char>::empty();
    assert(none.push('\n') =~= text);
    line_end_is_trimmed(none, seq!['\n']);
    assert(trimmed(none) =~= none);
    assert(trimmed(text) == none);
    assert(assigned(none) is None);
}

proof fn closed_line_is_plain(line: Seq<char>)
    requires
        !line.contains('\n'),
        closed_line(line),
    ensures
        plain_text(line.push('\n')),
{
    let text = line.push('\n');
    assert forall|k: int| 0 <= k < text.len() - 1 implies text[k] != '\n' by {
        assert(text[k] == line[k]);
        assert(line.contains(line[k]));
    }
    one_line(text);
    line_end_is_trimmed(line, seq!['\n']);
}

/// What is added for a documented setting is plain, and holds its marker where the document does
/// not.
proof fn addition_is_plain(source: Source, e: TemplateView)
    requires
        documented_setting(e),
    ensures
        plain_text(source.addition(e)),
        !source.documented(e) ==> shows(source.addition(e), e.marker),
{
    let comments = e.comments.push('\n');
    let lines = raw_lines(comments);
    assert forall|i: int| 0 <= i < lines.len() implies closed_line(#[trigger] lines[i]) by {
        assert(is_comment(trimmed(lines[i])));
    }
    assert(plain_text(comments));
    let at = choose|i: int| 0 <= i < lines.len() && trimmed(#[trigger] lines[i]) == e.marker;
    assert(shows(comments, e.marker));
    let none = Seq::<char>::empty();
    assert(plain_text(none));
    let assignment = e.assignment.push('\n');
    closed_line_is_plain(e.assignment);
    blank_line_is_plain();
    plain_add(assignment, seq!['\n']);
    let block = assignment + seq!['\n'];
    let first = if source.documented(e) {
        none
    } else {
        comments
    };
    plain_add(first, block);
    if !source.present(e) {
        assert(source.addition(e) =~= first + block);
    } else {
        assert(source.addition(e) =~= first);
    }
}

proof fn header_is_plain(section: Seq<char>)
    requires
        !section.contains('\n'),
    ensures
        plain_text(seq!['\n', '['] + section + seq![']', '\n', '\n']),
{
    let line = seq!['['] + section + seq![']'];
    assert forall|k: int| 0 <= k < line.len() implies line[k] != '\n' by {
        if 0 < k < line.len() - 1 {
            assert(line[k] == section[k - 1]);
            assert(section.contains(section[k - 1]));
        }
    }
    assert(trimmed_start(line) == line);
    assert(trimmed_end(line) == line);
    let rest = line.drop_first();
    until_range(rest, ']', ']');
    assert(rest[rest.len() - 1] == ']');
    assert(header_name(line) is Some);
    closed_line_is_plain(line);
    blank_line_is_plain();
    plain_add(seq!['\n'], line.push('\n'));
    plain_add(seq!['\n'] + line.push('\n'), seq!['\n']);
    assert(seq!['\n'] + line.push('\n') + seq!['\n'] =~= seq!['\n', '['] + section + seq![
        ']',
        '\n',
        '\n',
    ]);
}

proof fn inserted_is_plain(source: Source, entries: Seq<TemplateView>, at: int)
    requires
        documented_template(entries),
    ensures
        plain_text(source.inserted(entries, at)),
        forall|i: int|
            0 <= i < entries.len() && source.known(#[trigger] entries[i]) && !source.documented(
                entries[i],
            ) && source.place(entries[i]) == at ==> shows(
                source.inserted(entries, at),
                entries[i].marker,
            ),
    decreases entries.len(),
{
    if entries.len() > 0 {
        let rest = entries.drop_last();
        let e = entries.last();
        assert(entries[entries.len() - 1] == e);
        assert forall|i: int| 0 <= i < rest.len() implies documented_setting(
            #[trigger] rest[i],
        ) by {
            assert(rest[i] == entries[i]);
        }
        inserted_is_plain(source, rest, at);
        addition_is_plain(source, e);
        plain_add(source.inserted(rest, at), source.addition(e));
        assert forall|i: int|
            0 <= i < entries.len() && source.known(#[trigger] entries[i]) && !source.documented(
                entries[i],
            ) && source.place(entries[i]) == at implies shows(
            source.inserted(entries, at),
            entries[i].marker,
        ) by {
            if i < rest.len() {
                assert(rest[i] == entries[i]);
                assert(shows(source.inserted(rest, at), entries[i].marker));
            }
        }
    }
}

/// Whether a comment is a line of one of the added sections.
spec fn shown_in(sections: Seq<(Seq<char>, Seq<char>)>, comment: Seq<char>) -> bool {
    exists|p: int| 0 <= p < sections.len() && shows((#[trigger] sections[p]).1, comment)
}

pub proof fn position_facts(sections: Seq<(Seq<char>, Seq<char>)>, key: Seq<char>)
    ensures
        0 <= position(sections, key) <= sections.len(),
    decreases sections.len(),
{
    if sections.len() > 0 && sections[0].0 != key {
        position_facts(sections.drop_first(), key);
    }
}

proof fn fresh_is_plain(source: Source, entries: Seq<TemplateView>)
    requires
        documented_template(entries),
    ensures
        forall|p: int|
            0 <= p < source.fresh(entries).len() ==> plain_text(
                (#[trigger] source.fresh(entries)[p]).1,
            ),
        forall|i: int|
            0 <= i < entries.len() && !source.known(#[trigger] entries[i]) && !source.documented(
                entries[i],
            ) ==> shown_in(source.fresh(entries), entries[i].marker),
    decreases entries.len(),
{
    if entries.len() > 0 {
        let rest = entries.drop_last();
        let e = entries.last();
        assert(entries[entries.len() - 1] == e);
        assert forall|i: int| 0 <= i < rest.len() implies documented_setting(
            #[trigger] rest[i],
        ) by {
            assert(rest[i] == entries[i]);
        }
        fresh_is_plain(source, rest);
        let before = source.fresh(rest);
        let after = source.fresh(entries);
        if !source.settled(e) && !source.known(e) {
            let addition = source.addition(e);
            let old_text = section_text(before, e.section);
            let at = position(before, e.section);
            position_facts(before, e.section);
            addition_is_plain(source, e);
            if !has_key(before, e.section) {
                header_is_plain(e.section);
            } else {
                assert(plain_text(before[at].1));
            }
            plain_add(old_text, addition);
            assert forall|p: int| 0 <= p < after.len() implies plain_text(
                (#[trigger] after[p]).1,
            ) by {
                if p != at {
                    assert(after[p] == before[p]);
                }
            }
            assert(after[at].1 == old_text + addition);
            assert forall|i: int|
                0 <= i < entries.len() && !source.known(#[trigger] entries[i])
                    && !source.documented(entries[i]) implies shown_in(
                after,
                entries[i].marker,
            ) by {
                if i < rest.len() {
                    assert(rest[i] == entries[i]);
                    let marker = entries[i].marker;
                    let p = choose|p: int|
                        0 <= p < before.len() && shows((#[trigger] before[p]).1, marker);
                    if p == at {
                        assert(old_text == before[at].1);
                        assert(shows(after[at].1, marker));
                    } else {
                        assert(after[p] == before[p]);
                    }
                } else {
                    assert(shows(after[at].1, e.marker));
                }
            }
        } else {
            assert forall|i: int|
                0 <= i < entries.len() && !source.known(#[trigger] entries[i])
                    && !source.documented(entries[i]) implies shown_in(
                after,
                entries[i].marker,
            ) by {
                assert(i < rest.len());
                assert(rest[i] == entries[i]);
            }
        }
    }
}

proof fn values_are_plain(sections: Seq<(Seq<char>, Seq<char>)>)
    requires
        forall|p: int| 0 <= p < sections.len() ==> plain_text((#[trigger] sections[p]).1),
    ensures
        plain_text(values_text(sections)),
        forall|m: Seq<char>|
            shown_in(sections, m) ==> #[trigger] shows(values_text(sections), m),
    decreases sections.len(),
{
    if sections.len() > 0 {
        let rest = sections.drop_last();
        assert forall|p: int| 0 <= p < rest.len() implies plain_text((#[trigger] rest[p]).1) by {
            assert(rest[p] == sections[p]);
        }
        values_are_plain(rest);
        assert(sections[sections.len() - 1] == sections.last());
        plain_add(values_text(rest), sections.last().1);
        assert forall|m: Seq<char>| shown_in(sections, m) implies #[trigger] shows(
            values_text(sections),
            m,
        ) by {
            let p = choose|p: int| 0 <= p < sections.len() && shows((#[trigger] sections[p]).1, m);
            if p < rest.len() {
                assert(rest[p] == sections[p]);
                assert(shown_in(rest, m));
                assert(shows(values_text(rest), m));
            }
        }
    }
}

/// Everything that is inserted at a place is plain and holds the markers that belong there.
proof fn insertion_is_plain(source: Source, template: Seq<TemplateView>, at: int)
    requires
        documented_template(template),
    ensures
        plain_text(source.insertion(template, at)),
        forall|i: int|
            0 <= i < template.len() && !source.documented(#[trigger] template[i]) && (
            if source.known(template[i]) {
                source.place(template[i]) == at
            } else {
                at == source.text.len()
            }) ==> shows(source.insertion(template, at), template[i].marker),
{
    inserted_is_plain(source, template, at);
    fresh_is_plain(source, template);
    values_are_plain(source.fresh(template));
    plain_add(source.inserted(template, at), values_text(source.fresh(template)));
    assert forall|i: int|
        0 <= i < template.len() && !source.documented(#[trigger] template[i]) && (
        if source.known(template[i]) {
            source.place(template[i]) == at
        } else {
            at == source.text.len()
        }) implies shows(source.insertion(template, at), template[i].marker) by {
        let m = template[i].marker;
        if source.known(template[i]) {
            assert(shows(source.inserted(template, at), m));
        } else {
            assert(shown_in(source.fresh(template), m));
            assert(shows(values_text(source.fresh(template)), m));
        }
    }
}

// ---------------------------------------------------------------------------
// The text with its additions

/// Where a line of a text begins.
pub open spec fn line_offset(text: Seq<char>, k: int) -> int {
    scanned(raw_lines(text).take(k)).offset
}

/// Lines are not empty, follow each other and end at newlines.
pub proof fn line_facts(text: Seq<char>, k: int)
    requires
        0 <= k < raw_lines(text).len(),
    ensures
        ({
            let line = raw_lines(text)[k];
            let at = line_offset(text, k);
            &&& 0 <= at
            &&& line.len() > 0
            &&& line_offset(text, k + 1) == at + line.len()
            &&& at + line.len() <= text.len()
            &&& text.subrange(at, at + line.len()) == line
            &&& forall|j: int| 0 <= j < line.len() - 1 ==> line[j] != '\n'
            &&& k + 1 < raw_lines(text).len() ==> line.last() == '\n'
            &&& k + 1 == raw_lines(text).len() ==> at + line.len() == text.len()
        }),
    decreases text.len(),
{
    let lines = raw_lines(text);
    let line = lines[k];
    let i = until(text, '\n', '\n');
    until_range(text, '\n', '\n');
    assert(lines.take(k + 1).drop_last() =~= lines.take(k));
    assert(lines.take(k + 1).last() == line);
    assert(line_offset(text, k + 1) == line_offset(text, k) + line.len());
    if k == 0 {
        assert(lines.take(0) =~= Seq::<Seq<char>>::empty());
        assert(line_offset(text, 0) == 0);
    }
    if i < text.len() {
        let rest = text.skip(i + 1);
        let others = raw_lines(rest);
        assert(lines == seq![text.take(i + 1)] + others);
        if k == 0 {
            assert(line == text.take(i + 1));
            if others.len() == 0 {
                lines_cover(rest);
            }
        } else {
            line_facts(rest, k - 1);
            assert(lines.take(k) =~= seq![text.take(i + 1)] + others.take(k - 1));
            scanned_offset_adds(seq![text.take(i + 1)], others.take(k - 1));
            assert(seq![text.take(i + 1)].drop_last() =~= Seq::<Seq<char>>::empty());
            assert(scanned(seq![text.take(i + 1)].drop_last()).offset == 0);
            assert(scanned(seq![text.take(i + 1)]).offset == i + 1);
            let at = line_offset(rest, k - 1);
            assert(line == others[k - 1]);
            assert(text.subrange(i + 1 + at, i + 1 + at + line.len()) =~= rest.subrange(
                at,
                at + line.len(),
            ));
        }
    } else {
        assert(lines =~= seq![text]);
        assert(text.subrange(0, text.len() as int) =~= text);
    }
}

proof fn offsets_grow(text: Seq<char>, a: int, b: int)
    requires
        0 <= a < b <= raw_lines(text).len(),
    ensures
        0 <= line_offset(text, a) < line_offset(text, b) <= text.len(),
    decreases b - a,
{
    line_facts(text, b - 1);
    if a < b - 1 {
        offsets_grow(text, a, b - 1);
    }
}

/// Nothing is inserted but at the beginning of a line between two values.
proof fn nothing_inserted_within(source: Source, template: Seq<TemplateView>, k: int, at: int)
    requires
        source.outline == outline(source.text),
        0 <= k < raw_lines(source.text).len(),
        line_offset(source.text, k) <= at < line_offset(source.text, k + 1),
        line_offset(source.text, k) < at || !between(scanned(raw_lines(source.text).take(k))),
    ensures
        source.insertion(template, at).len() == 0,
{
    let lines = raw_lines(source.text);
    line_facts(source.text, k);
    assert forall|i: int| 0 <= i < template.len() && source.known(
        #[trigger] template[i],
    ) implies source.place(template[i]) != at by {
        if source.place(template[i]) == at {
            place_of_addition(source, template[i]);
            let j = choose|j: int|
                0 <= j < lines.len() && (#[trigger] scanned(lines.take(j))).offset == at
                    && between(scanned(lines.take(j)));
            assert(line_offset(source.text, j) == at);
            if j < k {
                offsets_grow(source.text, j, k);
            } else if j > k + 1 {
                offsets_grow(source.text, k + 1, j);
            }
        }
    }
    nothing_inserted(source, template, at);
}

/// Whether the comments of a text hold the markers of the settings whose additions stand before
/// a place.
spec fn marked_before(
    source: Source,
    template: Seq<TemplateView>,
    text: Seq<char>,
    at: int,
) -> bool {
    forall|i: int|
        0 <= i < template.len() && source.known(#[trigger] template[i]) && !source.documented(
            template[i],
        ) && source.place(template[i]) < at ==> scanned(
            raw_lines(text),
        ).outline.comments.contains(template[i].marker)
}

/// Scanning plain text behind whole lines finds its comments and loses none.
proof fn plain_text_is_read(base: Seq<char>, added: Seq<char>)
    requires
        whole_lines(base),
        plain_text(added),
        between(scanned(raw_lines(base))),
    ensures
        between(scanned(raw_lines(base + added))),
        forall|c: Seq<char>|
            scanned(raw_lines(base)).outline.comments.contains(c) || shows(added, c)
                ==> #[trigger] scanned(raw_lines(base + added)).outline.comments.contains(c),
{
    let lines = raw_lines(added);
    lines_add(base, added);
    scanned_add(raw_lines(base), lines);
    plain_scan(scanned(raw_lines(base)), lines);
    let next = scanned(raw_lines(base + added));
    assert forall|c: Seq<char>|
        scanned(raw_lines(base)).outline.comments.contains(c) || shows(
            added,
            c,
        ) implies #[trigger] next.outline.comments.contains(c) by {
        if shows(added, c) {
            let i = choose|i: int| 0 <= i < lines.len() && trimmed(#[trigger] lines[i]) == c;
            assert(is_comment(trimmed(lines[i])));
        }
    }
}

/// A newline is one of two.
pub proof fn newline_forms(text: Seq<char>)
    ensures
        newline_of(text) == seq!['\n'] || newline_of(text) == seq!['\r', '\n'],
{
}

/// An addition at the beginning of a line is read and leaves the state of the scan.
proof fn addition_is_read(source: Source, template: Seq<TemplateView>, k: int)
    requires
        source.outline == outline(source.text),
        documented_template(template),
        0 <= k < raw_lines(source.text).len(),
        whole_lines(source.before(template, line_offset(source.text, k))),
        covers(
            scanned(raw_lines(source.before(template, line_offset(source.text, k)))),
            scanned(raw_lines(source.text).take(k)),
        ),
        marked_before(
            source,
            template,
            source.before(template, line_offset(source.text, k)),
            line_offset(source.text, k),
        ),
    ensures
        ({
            let woven = source.woven(template, line_offset(source.text, k));
            &&& whole_lines(woven)
            &&& covers(scanned(raw_lines(woven)), scanned(raw_lines(source.text).take(k)))
            &&& marked_before(source, template, woven, line_offset(source.text, k) + 1)
        }),
{
    let at = line_offset(source.text, k);
    let newline = newline_of(source.text);
    let base = source.before(template, at);
    let addition = source.insertion(template, at);
    let woven = source.woven(template, at);
    newline_forms(source.text);
    line_facts(source.text, k);
    insertion_is_plain(source, template, at);
    if addition.len() == 0 {
        assert forall|i: int|
            0 <= i < template.len() && source.known(#[trigger] template[i]) && !source.documented(
                template[i],
            ) && source.place(template[i]) < at + 1 implies scanned(
            raw_lines(woven),
        ).outline.comments.contains(template[i].marker) by {
            if source.place(template[i]) == at {
                assert(shows(addition, template[i].marker));
                assert(raw_lines(addition).len() == 0);
            }
        }
    } else {
        if !between(scanned(raw_lines(source.text).take(k))) {
            nothing_inserted_within(source, template, k, at);
        }
        expanded_text(addition, newline);
        let added = with_newlines(addition, newline);
        plain_text_is_read(base, added);
        assert(woven == base + added);
        assert(added.len() > 0 ==> woven.last() == added.last());
        assert(added.len() == 0 ==> woven =~= base);
        assert forall|i: int|
            0 <= i < template.len() && source.known(#[trigger] template[i]) && !source.documented(
                template[i],
            ) && source.place(template[i]) < at + 1 implies scanned(
            raw_lines(woven),
        ).outline.comments.contains(template[i].marker) by {
            if source.place(template[i]) == at {
                assert(shows(addition, template[i].marker));
                assert(shows(added, template[i].marker));
            }
        }
    }
}

/// The characters of a line follow the additions before it.
pub proof fn line_follows(source: Source, template: Seq<TemplateView>, k: int, j: int)
    requires
        source.outline == outline(source.text),
        0 <= k < raw_lines(source.text).len(),
        1 <= j <= raw_lines(source.text)[k].len(),
    ensures
        source.before(template, line_offset(source.text, k) + j) == source.woven(
            template,
            line_offset(source.text, k),
        ) + raw_lines(source.text)[k].take(j),
    decreases j,
{
    let at = line_offset(source.text, k);
    let line = raw_lines(source.text)[k];
    line_facts(source.text, k);
    assert(source.text[at + j - 1] == line[j - 1]) by {
        assert(source.text.subrange(at, at + line.len())[j - 1] == line[j - 1]);
    }
    let woven = source.woven(template, at);
    if j == 1 {
        assert(source.before(template, at + 1) =~= woven.push(source.text[at]));
        assert(woven + line.take(1) =~= woven.push(line[0]));
    } else {
        line_follows(source, template, k, j - 1);
        nothing_inserted_within(source, template, k, at + j - 1);
        assert(source.before(template, at + j) =~= source.before(template, at + j - 1).push(
            source.text[at + j - 1],
        ));
        assert((woven + line.take(j - 1)).push(line[j - 1]) =~= woven + line.take(j));
    }
}

/// Up to each line, the text with its additions reads like the text and holds the markers.
proof fn weaving_is_read(source: Source, template: Seq<TemplateView>, k: int)
    requires
        source.outline == outline(source.text),
        documented_template(template),
        0 <= k <= raw_lines(source.text).len(),
    ensures
        ({
            let base = source.before(template, line_offset(source.text, k));
            &&& k < raw_lines(source.text).len() ==> whole_lines(base)
            &&& covers(scanned(raw_lines(base)), scanned(raw_lines(source.text).take(k)))
            &&& marked_before(source, template, base, line_offset(source.text, k))
        }),
    decreases k,
{
    let lines = raw_lines(source.text);
    let at = line_offset(source.text, k);
    let base = source.before(template, at);
    if k == 0 {
        assert(lines.take(0) =~= Seq::<Seq<char>>::empty());
        assert(at == 0);
        assert(base =~= Seq::<char>::empty());
        assert(raw_lines(base) =~= Seq::<Seq<char>>::empty());
        assert forall|i: int|
            0 <= i < template.len() && source.known(#[trigger] template[i]) && !source.documented(
                template[i],
            ) && source.place(template[i]) < at implies scanned(
            raw_lines(base),
        ).outline.comments.contains(template[i].marker) by {
            place_is_inside(source, template[i]);
        }
    } else {
        weaving_is_read(source, template, k - 1);
        addition_is_read(source, template, k - 1);
        let from = line_offset(source.text, k - 1);
        let line = lines[k - 1];
        let woven = source.woven(template, from);
        line_facts(source.text, k - 1);
        line_follows(source, template, k - 1, line.len() as int);
        assert(line.take(line.len() as int) =~= line);
        assert(base == woven + line);
        assert(base.last() == line.last());
        one_line(line);
        lines_add(woven, line);
        assert(raw_lines(base) == raw_lines(woven).push(line)) by {
            assert(raw_lines(woven) + seq![line] =~= raw_lines(woven).push(line));
        }
        assert(raw_lines(base).drop_last() =~= raw_lines(woven));
        assert(lines.take(k).drop_last() =~= lines.take(k - 1));
        covers_step(
            scanned(raw_lines(woven)),
            scanned(lines.take(k - 1)),
            line,
            line,
        );
        comments_stay(scanned(raw_lines(woven)), line);
        assert forall|i: int|
            0 <= i < template.len() && source.known(#[trigger] template[i]) && !source.documented(
                template[i],
            ) && source.place(template[i]) < at implies scanned(
            raw_lines(base),
        ).outline.comments.contains(template[i].marker) by {
            let place = source.place(template[i]);
            if place > from {
                place_of_addition(source, template[i]);
                if place < at {
                    let j = choose|j: int|
                        0 <= j < lines.len() && (#[trigger] scanned(lines.take(j))).offset == place
                            && between(scanned(lines.take(j)));
                    assert(line_offset(source.text, j) == place);
                    if j < k - 1 {
                        offsets_grow(source.text, j, k - 1);
                    } else if j > k {
                        offsets_grow(source.text, k, j);
                    }
                }
            }
        }
    }
}

proof fn place_is_inside(source: Source, e: TemplateView)
    requires
        source.outline == outline(source.text),
        source.known(e),
    ensures
        0 <= source.place(e) <= source.text.len(),
{
    let lines = raw_lines(source.text);
    place_of_addition(source, e);
    if line_start(lines, source.place(e)) {
        let j = choose|j: int|
            0 <= j < lines.len() && (#[trigger] scanned(lines.take(j))).offset == source.place(e)
                && between(scanned(lines.take(j)));
        assert(line_offset(source.text, j) == source.place(e));
        offsets_grow(source.text, j, j + 1);
    }
}

// ---------------------------------------------------------------------------
// The completed text

/// A line end behind a text that has none belongs to its last line.
pub proof fn lines_with_end(base: Seq<char>, newline: Seq<char>)
    requires
        base.len() > 0,
        base.last() != '\n',
        newline == seq!['\n'] || newline == seq!['\r', '\n'],
    ensures
        raw_lines(base).len() > 0,
        raw_lines(base + newline) == raw_lines(base).drop_last().push(
            raw_lines(base).last() + newline,
        ),
    decreases base.len(),
{
    let i = until(base, '\n', '\n');
    until_range(base, '\n', '\n');
    if i < base.len() {
        let head = base.take(i + 1);
        let rest = base.skip(i + 1);
        assert(rest.len() > 0);
        assert(rest.last() == base.last());
        lines_with_end(rest, newline);
        assert(head.last() == '\n');
        lines_add(head, rest + newline);
        lines_add(head, rest);
        assert(head + rest =~= base);
        assert(head + (rest + newline) =~= base + newline);
        assert(raw_lines(base) =~= raw_lines(head) + raw_lines(rest));
        assert(raw_lines(base + newline) =~= raw_lines(base).drop_last().push(
            raw_lines(base).last() + newline,
        ));
    } else {
        one_line(base);
        let longer = base + newline;
        assert forall|k: int| 0 <= k < longer.len() - 1 implies longer[k] != '\n' by {
            if k < base.len() {
                assert(longer[k] == base[k]);
            }
        }
        one_line(longer);
        assert(raw_lines(longer) =~= raw_lines(base).drop_last().push(
            raw_lines(base).last() + newline,
        ));
    }
}

/// The end of a line is no comment.
proof fn line_end_adds_no_comment(base: Seq<char>, newline: Seq<char>)
    requires
        newline == seq!['\n'] || newline == seq!['\r', '\n'],
    ensures
        scanned(raw_lines(base + newline)).outline.comments == scanned(
            raw_lines(base),
        ).outline.comments,
        base.len() > 0 && base.last() != '\n' ==> covers(
            scanned(raw_lines(base + newline)),
            scanned(raw_lines(base)),
        ),
{
    let lines = raw_lines(base);
    let longer = raw_lines(base + newline);
    if whole_lines(base) {
        lines_add(base, newline);
        one_line(newline);
        assert(longer =~= lines.push(newline));
        assert(longer.drop_last() =~= lines);
        let none = Seq::<char>::empty();
        line_end_is_trimmed(none, newline);
        assert(none + newline =~= newline);
        assert(trimmed(none) =~= none);
        assert(!is_comment(none));
        assert(assigned(none) is None);
    } else {
        lines_with_end(base, newline);
        let before = lines.drop_last();
        assert(longer.drop_last() =~= before);
        line_end_is_trimmed(lines.last(), newline);
        assert(covers(scanned(before), scanned(before)));
        covers_step(scanned(before), scanned(before), lines.last() + newline, lines.last());
    }
}

proof fn stripping_keeps_comments(text: Seq<char>, newline: Seq<char>)
    requires
        newline == seq!['\n'] || newline == seq!['\r', '\n'],
    ensures
        scanned(raw_lines(without_newlines(text, newline))).outline.comments == scanned(
            raw_lines(text),
        ).outline.comments,
    decreases text.len(),
{
    if finishes_with(text, newline) {
        let rest = text.take(text.len() - newline.len());
        assert(rest + newline =~= text);
        line_end_adds_no_comment(rest, newline);
        stripping_keeps_comments(rest, newline);
    }
}

proof fn scan_from_first(scan: Scan, lines: Seq<Seq<char>>)
    requires
        lines.len() > 0,
    ensures
        scan_from(scan, lines) == scan_from(scan.after(lines[0]), lines.skip(1)),
    decreases lines.len(),
{
    if lines.len() > 1 {
        scan_from_first(scan, lines.drop_last());
        assert(lines.skip(1).drop_last() =~= lines.drop_last().skip(1));
        assert(lines.skip(1).last() == lines.last());
        assert(lines.drop_last()[0] == lines[0]);
    } else {
        assert(lines.skip(1).len() == 0);
        assert(lines.drop_last().len() == 0);
        assert(scan_from(scan, lines.drop_last()) == scan);
    }
}

/// Whether what is added behind a text is read as structure: the last value of the text ends
/// before it, or goes on in no more than its first line, which documents no setting.
pub open spec fn end_is_read(source: Source, template: Seq<TemplateView>) -> bool {
    let end = scanned(raw_lines(source.text));
    let added = raw_lines(source.insertion(template, source.text.len() as int));
    ||| between(end)
    ||| added.len() == 0
    ||| end.quote is None && !continues(added[0]) && forall|i: int|
        0 <= i < template.len() && !source.documented(#[trigger] template[i]) ==> trimmed(added[0])
            != template[i].marker
}

/// Scanning plain text behind a continued value loses its first line only.
proof fn continued_text_is_read(base: Seq<char>, added: Seq<char>)
    requires
        whole_lines(base),
        plain_text(added),
        raw_lines(added).len() > 0,
        scanned(raw_lines(base)).quote is None,
        scanned(raw_lines(base)).continuation,
        !continues(raw_lines(added)[0]),
    ensures
        forall|c: Seq<char>|
            scanned(raw_lines(base)).outline.comments.contains(c) || (shows(added, c) && trimmed(
                raw_lines(added)[0],
            ) != c) ==> #[trigger] scanned(raw_lines(base + added)).outline.comments.contains(c),
{
    let lines = raw_lines(added);
    let first = scanned(raw_lines(base));
    lines_add(base, added);
    scanned_add(raw_lines(base), lines);
    scan_from_first(first, lines);
    let rest = lines.skip(1);
    assert forall|i: int| 0 <= i < rest.len() implies closed_line(#[trigger] rest[i]) by {
        assert(rest[i] == lines[i + 1]);
    }
    plain_scan(first.after(lines[0]), rest);
    let next = scanned(raw_lines(base + added));
    assert forall|c: Seq<char>|
        first.outline.comments.contains(c) || (shows(added, c) && trimmed(lines[0])
            != c) implies #[trigger] next.outline.comments.contains(c) by {
        if first.outline.comments.contains(c) {
            assert(first.after(lines[0]).outline.comments.contains(c));
        } else {
            let i = choose|i: int| 0 <= i < lines.len() && trimmed(#[trigger] lines[i]) == c;
            assert(rest[i - 1] == lines[i]);
            assert(is_comment(trimmed(rest[i - 1])));
        }
    }
}

/// A completed text holds the marker of every setting of the template.
proof fn completed_text_is_documented(source: Source, template: Seq<TemplateView>)
    requires
        source.outline == outline(source.text),
        documented_template(template),
        end_is_read(source, template),
        !source.complete(template),
    ensures
        forall|i: int|
            0 <= i < template.len() ==> outline(source.merged(template)).comments.contains(
                (#[trigger] template[i]).marker,
            ),
{
    let text = source.text;
    let lines = raw_lines(text);
    let end = text.len() as int;
    let newline = newline_of(text);
    newline_forms(text);
    lines_cover(text);
    assert(lines.take(lines.len() as int) =~= lines);
    assert(line_offset(text, lines.len() as int) == end);
    weaving_is_read(source, template, lines.len() as int);
    insertion_is_plain(source, template, end);
    let base = source.before(template, end);
    let addition = source.insertion(template, end);
    let all = source.woven(template, end);
    let found = scanned(raw_lines(all)).outline.comments;
    if addition.len() == 0 {
        assert(raw_lines(addition).len() == 0);
        assert forall|i: int| 0 <= i < template.len() implies found.contains(
            (#[trigger] template[i]).marker,
        ) by {
            if !source.documented(template[i]) {
                if source.known(template[i]) {
                    place_is_inside(source, template[i]);
                }
                assert(!shows(addition, template[i].marker));
            }
        }
    } else {
        let whole = if base.len() > 0 && base.last() != '\n' {
            base + newline
        } else {
            base
        };
        line_end_adds_no_comment(base, newline);
        assert(whole_lines(whole));
        assert(covers(scanned(raw_lines(whole)), scanned(lines)));
        expanded_text(addition, newline);
        expanded_lines(addition, newline);
        let added = with_newlines(addition, newline);
        assert(all == whole + added);
        assert(raw_lines(addition).len() > 0);
        if between(scanned(lines)) {
            plain_text_is_read(whole, added);
        } else {
            continued_text_is_read(whole, added);
        }
        assert forall|i: int| 0 <= i < template.len() implies found.contains(
            (#[trigger] template[i]).marker,
        ) by {
            let marker = template[i].marker;
            if source.documented(template[i]) {
                assert(scanned(raw_lines(whole)).outline.comments.contains(marker));
            } else {
                if source.known(template[i]) {
                    place_is_inside(source, template[i]);
                }
                if source.known(template[i]) && source.place(template[i]) < end {
                    assert(scanned(raw_lines(whole)).outline.comments.contains(marker));
                } else {
                    assert(shows(addition, marker));
                    assert(shows(added, marker));
                    assert(trimmed(raw_lines(added)[0]) == trimmed(raw_lines(addition)[0]));
                }
            }
        }
    }
    stripping_keeps_comments(all, newline);
}

// ---------------------------------------------------------------------------
// The settings of a template

proof fn trimming_adds_nothing(x: Seq<char>, c: char)
    requires
        !x.contains(c),
    ensures
        !trimmed(x).contains(c),
{
    start_adds_nothing(x, c);
    end_adds_nothing(trimmed_start(x), c);
}

proof fn start_adds_nothing(x: Seq<char>, c: char)
    requires
        !x.contains(c),
    ensures
        !trimmed_start(x).contains(c),
    decreases x.len(),
{
    if x.len() > 0 && is_white(x[0]) {
        part_adds_nothing(x, c, 1, x.len() as int);
        assert(x.drop_first() =~= x.subrange(1, x.len() as int));
        start_adds_nothing(x.drop_first(), c);
    }
}

proof fn end_adds_nothing(x: Seq<char>, c: char)
    requires
        !x.contains(c),
    ensures
        !trimmed_end(x).contains(c),
    decreases x.len(),
{
    if x.len() > 0 && is_white(x.last()) {
        part_adds_nothing(x, c, 0, x.len() - 1);
        assert(x.drop_last() =~= x.subrange(0, x.len() - 1));
        end_adds_nothing(x.drop_last(), c);
    }
}

proof fn part_adds_nothing(x: Seq<char>, c: char, from: int, to: int)
    requires
        !x.contains(c),
        0 <= from <= to <= x.len(),
    ensures
        !x.subrange(from, to).contains(c),
{
    let part = x.subrange(from, to);
    if part.contains(c) {
        let i = part.index_of(c);
        assert(part[i] == c);
        assert(x[from + i] == c);
    }
}

/// A line without its white space holds no newline.
proof fn trimmed_line(raw: Seq<char>)
    requires
        forall|k: int| 0 <= k < raw.len() - 1 ==> raw[k] != '\n',
    ensures
        !trimmed(raw).contains('\n'),
        trimmed(trimmed(raw)) == trimmed(raw),
{
    trimmed_ends(raw);
    if raw.len() > 0 && raw.last() == '\n' {
        let body = raw.drop_last();
        assert(body.push('\n') =~= raw);
        white_end_is_trimmed(body, '\n');
        assert(!body.contains('\n'));
        trimming_adds_nothing(body, '\n');
    } else {
        assert(!raw.contains('\n')) by {
            if raw.contains('\n') {
                let i = raw.index_of('\n');
                assert(raw[i] == '\n');
            }
        }
        trimming_adds_nothing(raw, '\n');
    }
}

/// Whether a text is a comment line without white space around it.
spec fn comment_line(line: Seq<char>) -> bool {
    is_comment(line) && trimmed(line) == line && !line.contains('\n')
}

proof fn joined_comments(lines: Seq<Seq<char>>)
    requires
        lines.len() > 0,
        forall|i: int| 0 <= i < lines.len() ==> comment_line(#[trigger] lines[i]),
    ensures
        ({
            let raw = raw_lines(joined_lines(lines).push('\n'));
            forall|i: int| 0 <= i < raw.len() ==> is_comment(trimmed(#[trigger] raw[i]))
        }),
    decreases lines.len(),
{
    let last = lines.last();
    assert(comment_line(lines[lines.len() - 1]));
    let line = last.push('\n');
    assert forall|k: int| 0 <= k < line.len() - 1 implies line[k] != '\n' by {
        assert(line[k] == last[k]);
        assert(last.contains(last[k]));
    }
    one_line(line);
    line_end_is_trimmed(last, seq!['\n']);
    if lines.len() > 1 {
        let before = lines.drop_last();
        assert forall|i: int| 0 <= i < before.len() implies comment_line(#[trigger] before[i]) by {
            assert(before[i] == lines[i]);
        }
        joined_comments(before);
        let head = joined_lines(before).push('\n');
        lines_add(head, line);
        assert(joined_lines(lines).push('\n') =~= head + line);
    }
}

/// Whether a setting consists of lines of its own, and its comments of comment lines.
spec fn plain_setting(e: TemplateView) -> bool {
    let lines = raw_lines(e.comments.push('\n'));
    &&& e.comments.len() > 0 ==> forall|i: int|
        0 <= i < lines.len() ==> is_comment(trimmed(#[trigger] lines[i]))
    &&& !e.assignment.contains('\n')
    &&& !e.section.contains('\n')
    &&& e.marker.len() > 0
}

proof fn template_settings_are_plain(lines: Seq<Seq<char>>)
    requires
        forall|i: int, k: int|
            0 <= i < lines.len() && 0 <= k < lines[i].len() - 1 ==> #[trigger] lines[i][k] != '\n',
    ensures
        !template_scan(lines).section.contains('\n'),
        forall|i: int|
            0 <= i < template_scan(lines).comments.len() ==> comment_line(
                #[trigger] template_scan(lines).comments[i],
            ),
        forall|i: int|
            0 <= i < template_scan(lines).entries.len() ==> plain_setting(
                #[trigger] template_scan(lines).entries[i],
            ),
    decreases lines.len(),
{
    if lines.len() > 0 {
        let rest = lines.drop_last();
        assert forall|i: int, k: int|
            0 <= i < rest.len() && 0 <= k < rest[i].len() - 1 implies #[trigger] rest[i][k]
            != '\n' by {
            assert(rest[i] == lines[i]);
            assert(lines[i][k] != '\n');
        }
        template_settings_are_plain(rest);
        let before = template_scan(rest);
        let after = template_scan(lines);
        let raw = lines.last();
        let line = trimmed(raw);
        assert forall|k: int| 0 <= k < raw.len() - 1 implies raw[k] != '\n' by {
            assert(lines[lines.len() - 1][k] != '\n');
        }
        trimmed_line(raw);
        if header_name(line) is Some {
            let inner = line.drop_first();
            let at = until(inner, ']', ']');
            until_range(inner, ']', ']');
            part_adds_nothing(line, '\n', 1, 1 + at);
            assert(line.subrange(1, 1 + at) =~= inner.take(at));
            trimming_adds_nothing(inner.take(at), '\n');
        } else if is_comment(line) {
            assert(comment_line(line));
        } else if assigned(line) is Some {
            reveal_strlit("; 配置说明：");
            if before.comments.len() > 0 {
                joined_comments(before.comments);
            }
            assert(plain_setting(after.entries.last()));
            assert forall|i: int| 0 <= i < after.entries.len() implies plain_setting(
                #[trigger] after.entries[i],
            ) by {
                if i < before.entries.len() {
                    assert(after.entries[i] == before.entries[i]);
                }
            }
        }
    }
}

proof fn explained_settings_are_documented(template: Seq<char>)
    requires
        explained_template(template_of(template)),
    ensures
        documented_template(template_of(template)),
{
    let lines = raw_lines(template);
    let settings = template_of(template);
    assert forall|i: int, k: int|
        0 <= i < lines.len() && 0 <= k < lines[i].len() - 1 implies #[trigger] lines[i][k]
        != '\n' by {
        line_facts(template, i);
    }
    template_settings_are_plain(lines);
    assert forall|i: int| 0 <= i < settings.len() implies documented_setting(
        #[trigger] settings[i],
    ) by {
        let e = settings[i];
        assert(explained(e));
        assert(plain_setting(e));
        if e.comments.len() == 0 {
            let none = Seq::<char>::empty();
            assert(e.comments.push('\n') =~= seq!['\n']);
            one_line(seq!['\n']);
            line_end_is_trimmed(none, seq!['\n']);
            assert(none.push('\n') =~= seq!['\n']);
            assert(trimmed(none) =~= none);
        }
    }
}

/// A document that was completed is complete: completing it again changes nothing. This holds
/// where every setting of the template explains itself, and where what is added behind the
/// document is not taken for the rest of its last value.
pub proof fn completion_is_stable(text: Seq<char>, template: Seq<char>)
    requires
        merge_result(text, template_of(template)) is Ok,
        explained_template(template_of(template)),
        end_is_read(source_of(text, entries_of(ini_sections(text)->0)), template_of(template)),
    ensures
        merge_result(merge_result(text, template_of(template))->Ok_0, template_of(template))
            == merge_result(text, template_of(template)),
{
    let settings = template_of(template);
    let source = source_of(text, entries_of(ini_sections(text)->0));
    let merged = merge_result(text, settings)->Ok_0;
    completion_keeps_values(text, settings, seq![], seq![]);
    if !source.complete(settings) {
        explained_settings_are_documented(template);
        completed_text_is_documented(source, settings);
        let again = source_of(merged, entries_of(ini_sections(merged)->0));
        assert forall|i: int| 0 <= i < settings.len() implies again.settled(
            #[trigger] settings[i],
        ) by {}
    }
}

// ---------------------------------------------------------------------------
// The exact condition

proof fn newlines_are_not_shorter(text: Seq<char>, newline: Seq<char>)
    requires
        newline.len() > 0,
    ensures
        with_newlines(text, newline).len() >= text.len(),
        forall|c: char|
            c != '\n' && text.contains(c) ==> #[trigger] with_newlines(text, newline).contains(c),
    decreases text.len(),
{
    if text.len() > 0 {
        let rest = text.drop_last();
        let before = with_newlines(rest, newline);
        let after = with_newlines(text, newline);
        newlines_are_not_shorter(rest, newline);
        assert forall|c: char| c != '\n' && text.contains(c) implies #[trigger] after.contains(
            c,
        ) by {
            let i = text.index_of(c);
            assert(text[i] == c);
            if i < rest.len() {
                assert(rest[i] == c);
                assert(rest.contains(c));
                assert(before.contains(c));
                let k = before.index_of(c);
                assert(before[k] == c);
                assert(after[k] == c);
            } else {
                assert(after.last() == c);
                assert(after[after.len() - 1] == c);
            }
        }
    }
}

proof fn insertions_make_longer(source: Source, template: Seq<TemplateView>, place: int, at: int)
    requires
        0 <= at <= source.text.len(),
    ensures
        source.before(template, at).len() >= at,
        0 <= place < at && source.insertion(template, place).len() > 0 ==> source.before(
            template,
            at,
        ).len() > at,
        at > 0 ==> source.before(template, at).last() == source.text[at - 1],
    decreases at,
{
    newline_forms(source.text);
    if at > 0 {
        insertions_make_longer(source, template, place, at - 1);
        newlines_are_not_shorter(source.insertion(template, at - 1), newline_of(source.text));
    }
}

/// Stripping newlines removes line ends only.
proof fn stripping_removes_line_ends(text: Seq<char>, newline: Seq<char>, i: int)
    requires
        newline == seq!['\n'] || newline == seq!['\r', '\n'],
        0 <= i < text.len(),
        text[i] != '\n',
        text[i] != '\r',
    ensures
        without_newlines(text, newline).len() > i,
    decreases text.len(),
{
    if finishes_with(text, newline) {
        let from = text.len() - newline.len();
        let end = text.subrange(from, text.len() as int);
        if i >= from {
            assert(end[i - from] == text[i]);
        }
        let rest = text.take(from);
        assert(rest[i] == text[i]);
        stripping_removes_line_ends(rest, newline, i);
    }
}

/// A text that shows a comment holds a character that ends no line.
proof fn comment_is_visible(text: Seq<char>, comment: Seq<char>) -> (c: char)
    requires
        shows(text, comment),
    ensures
        text.contains(c),
        c != '\n',
        c != '\r',
{
    let lines = raw_lines(text);
    let i = choose|i: int| 0 <= i < lines.len() && trimmed(#[trigger] lines[i]) == comment;
    let c = comment[0];
    assert(comment.contains(c));
    if !lines[i].contains(c) {
        trimming_adds_nothing(lines[i], c);
    }
    let k = lines[i].index_of(c);
    assert(lines[i][k] == c);
    line_facts(text, i);
    let at = line_offset(text, i);
    assert(text.subrange(at, at + lines[i].len())[k] == c);
    assert(text[at + k] == c);
    c
}

/// A text that lacks the marker of a setting becomes another one.
proof fn undocumented_text_changes(source: Source, template: Seq<TemplateView>, i: int)
    requires
        source.outline == outline(source.text),
        documented_template(template),
        0 <= i < template.len(),
        !source.documented(template[i]),
    ensures
        source.merged(template) != source.text,
{
    let e = template[i];
    let text = source.text;
    let end = text.len() as int;
    let newline = newline_of(text);
    newline_forms(text);
    if source.known(e) {
        place_is_inside(source, e);
    }
    let place = if source.known(e) {
        source.place(e)
    } else {
        end
    };
    insertion_is_plain(source, template, place);
    let addition = source.insertion(template, place);
    assert(shows(addition, e.marker));
    assert(addition.len() > 0) by {
        if addition.len() == 0 {
            assert(raw_lines(addition).len() == 0);
        }
    }
    insertions_make_longer(source, template, place, end);
    let base = source.before(template, end);
    let all = source.woven(template, end);
    newlines_are_not_shorter(source.insertion(template, end), newline);
    assert(!source.settled(e));
    if end > 0 && text.last() != '\n' {
        let last = source.insertion(template, end);
        let added = with_newlines(last, newline);
        if place < end {
            let tail = if last.len() == 0 {
                Seq::<char>::empty()
            } else {
                newline + added
            };
            assert(all =~= base + tail);
            assert(tail.len() > 0 ==> tail.subrange(0, newline.len() as int) =~= newline);
            let kept = stripping_stops(base, tail, newline);
            assert(source.merged(template).len() > end);
        } else {
            let c = comment_is_visible(addition, e.marker);
            assert(added.contains(c));
            let k = added.index_of(c);
            assert(added[k] == c);
            let at = base.len() + newline.len() + k;
            assert(all == base + newline + added);
            assert(all[at] == c);
            stripping_removes_line_ends(all, newline, at);
        }
    }
}

/// Completing a completed document changes nothing exactly where the marker of every setting is
/// a comment of the completed document. This holds for every document that can be completed.
pub proof fn documented_completion_is_stable(text: Seq<char>, template: Seq<char>)
    requires
        merge_result(text, template_of(template)) is Ok,
        explained_template(template_of(template)),
    ensures
        ({
            let settings = template_of(template);
            let merged = merge_result(text, settings)->Ok_0;
            merge_result(merged, settings) == Ok::<_, MergeFailure>(merged) <==> forall|i: int|
                0 <= i < settings.len() ==> outline(merged).comments.contains(
                    (#[trigger] settings[i]).marker,
                )
        }),
{
    let settings = template_of(template);
    let merged = merge_result(text, settings)->Ok_0;
    let again = source_of(merged, entries_of(ini_sections(merged)->0));
    completion_keeps_values(text, settings, seq![], seq![]);
    explained_settings_are_documented(template);
    if forall|i: int|
        0 <= i < settings.len() ==> outline(merged).comments.contains(
            (#[trigger] settings[i]).marker,
        ) {
        assert forall|i: int| 0 <= i < settings.len() implies again.settled(
            #[trigger] settings[i],
        ) by {}
    } else {
        let i = choose|i: int|
            0 <= i < settings.len() && !outline(merged).comments.contains(
                (#[trigger] settings[i]).marker,
            );
        assert(!again.documented(settings[i]));
        assert(!again.settled(settings[i]));
        undocumented_text_changes(again, settings, i);
    }
}

}
