//! Completing a document keeps its lines.

use vstd::prelude::*;

use crate::config::document::{entries_of, ini_sections, outline};
use crate::config::merge::{
    merge_result, newline_of, section_text, source_of, stripping_stops, values_text,
    with_newlines, MergeFailure, Source, TemplateView,
};
use crate::config::overrides::{has_key, position};
use crate::config::stability::{
    line_facts, line_follows, line_offset, lines_add, lines_with_end, newline_forms, one_line,
    position_facts, whole_lines,
};
use crate::text::raw_lines;

verus! {

/// Whether a line is still there. The end of a text that has no newline may get one.
pub open spec fn same_line(before: Seq<char>, after: Seq<char>, newline: Seq<char>) -> bool {
    after == before || before.len() > 0 && before.last() != '\n' && after == before + newline
}

/// Whether lines stand at the given places of other lines, one behind the other.
pub open spec fn stand_at(
    lines: Seq<Seq<char>>,
    others: Seq<Seq<char>>,
    newline: Seq<char>,
    places: Seq<int>,
) -> bool {
    &&& places.len() == lines.len()
    &&& forall|i: int| 0 <= i < lines.len() ==> 0 <= #[trigger] places[i] < others.len()
    &&& forall|i: int, j: int| 0 <= i < j < lines.len() ==> #[trigger] places[i] < #[trigger] places[j]
    &&& forall|i: int|
        0 <= i < lines.len() ==> same_line(#[trigger] lines[i], others[places[i]], newline)
}

/// Whether lines are among other lines, whole and in the same order.
pub open spec fn lines_remain(
    lines: Seq<Seq<char>>,
    others: Seq<Seq<char>>,
    newline: Seq<char>,
) -> bool {
    exists|places: Seq<int>| stand_at(lines, others, newline, places)
}

proof fn whole_lines_add(a: Seq<char>, b: Seq<char>)
    requires
        whole_lines(a),
        whole_lines(b),
    ensures
        whole_lines(a + b),
{
    if b.len() == 0 {
        assert(a + b =~= a);
    } else {
        assert((a + b).last() == b.last());
    }
}

proof fn addition_is_whole(source: Source, e: TemplateView)
    ensures
        whole_lines(source.addition(e)),
{
    let end = seq!['\n', '\n'];
    if !source.present(e) {
        let comments = if source.documented(e) {
            Seq::<char>::empty()
        } else {
            e.comments.push('\n')
        };
        assert((comments + e.assignment + end).last() == end.last());
    }
}

proof fn inserted_is_whole(source: Source, entries: Seq<TemplateView>, at: int)
    ensures
        whole_lines(source.inserted(entries, at)),
    decreases entries.len(),
{
    if entries.len() > 0 {
        inserted_is_whole(source, entries.drop_last(), at);
        addition_is_whole(source, entries.last());
        whole_lines_add(
            source.inserted(entries.drop_last(), at),
            source.addition(entries.last()),
        );
    }
}

proof fn fresh_is_whole(source: Source, entries: Seq<TemplateView>)
    ensures
        forall|p: int|
            0 <= p < source.fresh(entries).len() ==> whole_lines(
                (#[trigger] source.fresh(entries)[p]).1,
            ),
    decreases entries.len(),
{
    if entries.len() > 0 {
        let e = entries.last();
        let before = source.fresh(entries.drop_last());
        let after = source.fresh(entries);
        fresh_is_whole(source, entries.drop_last());
        if !source.settled(e) && !source.known(e) {
            let old_text = section_text(before, e.section);
            let at = position(before, e.section);
            position_facts(before, e.section);
            addition_is_whole(source, e);
            if has_key(before, e.section) {
                assert(whole_lines(before[at].1));
            } else {
                assert(old_text.last() == '\n');
            }
            whole_lines_add(old_text, source.addition(e));
            assert forall|p: int| 0 <= p < after.len() implies whole_lines(
                (#[trigger] after[p]).1,
            ) by {
                if p != at {
                    assert(after[p] == before[p]);
                }
            }
        }
    }
}

proof fn values_are_whole(sections: Seq<(Seq<char>, Seq<char>)>)
    requires
        forall|p: int| 0 <= p < sections.len() ==> whole_lines((#[trigger] sections[p]).1),
    ensures
        whole_lines(values_text(sections)),
    decreases sections.len(),
{
    if sections.len() > 0 {
        let rest = sections.drop_last();
        assert forall|p: int| 0 <= p < rest.len() implies whole_lines((#[trigger] rest[p]).1) by {
            assert(rest[p] == sections[p]);
        }
        values_are_whole(rest);
        assert(sections[sections.len() - 1] == sections.last());
        whole_lines_add(values_text(rest), sections.last().1);
    }
}

/// Everything that is inserted at a place consists of whole lines.
proof fn insertion_is_whole(source: Source, template: Seq<TemplateView>, at: int)
    ensures
        whole_lines(with_newlines(source.insertion(template, at), newline_of(source.text))),
{
    let added = source.insertion(template, at);
    let newline = newline_of(source.text);
    inserted_is_whole(source, template, at);
    fresh_is_whole(source, template);
    values_are_whole(source.fresh(template));
    whole_lines_add(source.inserted(template, at), values_text(source.fresh(template)));
    newline_forms(source.text);
    if added.len() > 0 {
        assert((with_newlines(added.drop_last(), newline) + newline).last() == '\n');
    }
}

/// The lines of a text up to one of them stand in the text with its additions, and the last of
/// them ends it.
proof fn weaving_keeps_lines(source: Source, template: Seq<TemplateView>, k: int) -> (places: Seq<
    int,
>)
    requires
        source.outline == outline(source.text),
        0 <= k <= raw_lines(source.text).len(),
    ensures
        ({
            let base = source.before(template, line_offset(source.text, k));
            &&& k < raw_lines(source.text).len() ==> whole_lines(base)
            &&& stand_at(
                raw_lines(source.text).take(k),
                raw_lines(base),
                newline_of(source.text),
                places,
            )
            &&& k > 0 ==> {
                &&& base.len() > 0
                &&& base.last() == raw_lines(source.text)[k - 1].last()
                &&& places[k - 1] == raw_lines(base).len() - 1
                &&& raw_lines(base).last() == raw_lines(source.text)[k - 1]
            }
        }),
    decreases k,
{
    let lines = raw_lines(source.text);
    let newline = newline_of(source.text);
    let at = line_offset(source.text, k);
    let base = source.before(template, at);
    if k == 0 {
        assert(lines.take(0) =~= Seq::<Seq<char>>::empty());
        assert(at == 0);
        Seq::<int>::empty()
    } else {
        let earlier = weaving_keeps_lines(source, template, k - 1);
        let from = line_offset(source.text, k - 1);
        let start = source.before(template, from);
        let line = lines[k - 1];
        let added = source.insertion(template, from);
        let woven = source.woven(template, from);
        let expanded = with_newlines(added, newline);
        insertion_is_whole(source, template, from);
        line_facts(source.text, k - 1);
        line_follows(source, template, k - 1, line.len() as int);
        assert(line.take(line.len() as int) =~= line);
        assert(base == woven + line);
        assert(base.last() == line.last());
        if added.len() == 0 {
            assert(woven == start);
            assert(expanded =~= Seq::<char>::empty());
            assert(start + expanded =~= start);
        }
        assert(woven == start + expanded);
        lines_add(start, expanded);
        whole_lines_add(start, expanded);
        one_line(line);
        lines_add(woven, line);
        let now = raw_lines(base);
        assert(now == raw_lines(start) + raw_lines(expanded) + seq![line]);
        let places = earlier.push(now.len() - 1);
        assert forall|i: int| 0 <= i < k implies same_line(
            #[trigger] lines.take(k)[i],
            now[places[i]],
            newline,
        ) by {
            if i < k - 1 {
                assert(lines.take(k - 1)[i] == lines[i]);
                assert(places[i] == earlier[i]);
                assert(now[places[i]] == raw_lines(start)[earlier[i]]);
            }
        }
        assert forall|i: int| 0 <= i < k implies 0 <= #[trigger] places[i] < now.len() by {
            if i < k - 1 {
                assert(places[i] == earlier[i]);
            }
        }
        assert forall|i: int, j: int| 0 <= i < j < k implies #[trigger] places[i]
            < #[trigger] places[j] by {
            assert(places[i] == earlier[i]);
            if j < k - 1 {
                assert(places[j] == earlier[j]);
            }
        }
        places
    }
}

/// The places of lines stay where more lines follow.
proof fn places_stay(
    lines: Seq<Seq<char>>,
    others: Seq<Seq<char>>,
    more: Seq<Seq<char>>,
    newline: Seq<char>,
    places: Seq<int>,
)
    requires
        stand_at(lines, others, newline, places),
    ensures
        stand_at(lines, others + more, newline, places),
{
    assert forall|i: int| 0 <= i < lines.len() implies same_line(
        #[trigger] lines[i],
        (others + more)[places[i]],
        newline,
    ) by {
        assert((others + more)[places[i]] == others[places[i]]);
    }
}

proof fn merging_keeps_lines(source: Source, template: Seq<TemplateView>)
    requires
        source.outline == outline(source.text),
    ensures
        lines_remain(
            raw_lines(source.text),
            raw_lines(source.merged(template)),
            newline_of(source.text),
        ),
{
    let text = source.text;
    let lines = raw_lines(text);
    let newline = newline_of(text);
    let count = lines.len() as int;
    let end = text.len() as int;
    newline_forms(text);
    if source.complete(template) {
        let places = Seq::new(lines.len(), |i: int| i);
        assert(stand_at(lines, lines, newline, places));
    } else if end == 0 {
        assert(lines =~= Seq::<Seq<char>>::empty());
        assert(stand_at(lines, raw_lines(source.merged(template)), newline, Seq::<int>::empty()));
    } else {
        assert(count > 0);
        line_facts(text, count - 1);
        let places = weaving_keeps_lines(source, template, count);
        assert(lines.take(count) =~= lines);
        let base = source.before(template, end);
        let added = source.insertion(template, end);
        let expanded = with_newlines(added, newline);
        assert(text.last() == lines.last().last()) by {
            let at = line_offset(text, count - 1);
            assert(text.subrange(at, end).last() == text.last());
        }
        if text.last() == '\n' {
            if added.len() == 0 {
                assert(expanded =~= Seq::<char>::empty());
                assert(base + expanded =~= base);
            }
            assert(source.merged(template) == base + expanded);
            lines_add(base, expanded);
            places_stay(lines, raw_lines(base), raw_lines(expanded), newline, places);
        } else {
            let tail = if added.len() == 0 {
                Seq::<char>::empty()
            } else {
                newline + expanded
            };
            assert(source.woven(template, end) == base + tail) by {
                assert(base + Seq::<char>::empty() =~= base);
                assert(base + (newline + expanded) =~= base + newline + expanded);
            }
            assert(tail.len() > 0 ==> tail.subrange(0, newline.len() as int) =~= newline);
            let kept = stripping_stops(base, tail, newline);
            let merged = source.merged(template);
            assert(merged == base + kept);
            if kept.len() == 0 {
                assert(merged =~= base);
            } else {
                let rest = kept.skip(newline.len() as int);
                assert(kept =~= newline + rest);
                assert(merged =~= (base + newline) + rest);
                lines_with_end(base, newline);
                assert((base + newline).last() == '\n');
                lines_add(base + newline, rest);
                let longer = raw_lines(base + newline);
                assert forall|i: int| 0 <= i < count implies same_line(
                    #[trigger] lines[i],
                    longer[places[i]],
                    newline,
                ) by {
                    if i < count - 1 {
                        assert(places[i] < places[count - 1]);
                        assert(longer[places[i]] == raw_lines(base)[places[i]]);
                        line_facts(text, i);
                    }
                }
                assert(stand_at(lines, longer, newline, places));
                places_stay(lines, longer, raw_lines(rest), newline, places);
            }
        }
    }
}

/// Completing a text keeps its lines: each of them is a line of the completed text, whole, and
/// they stand there in the same order. Only the last line, where the text ends without a newline,
/// may have got one.
pub proof fn completion_keeps_lines(text: Seq<char>, template: Seq<TemplateView>, merged: Seq<char>)
    requires
        merge_result(text, template) == Ok::<_, MergeFailure>(merged),
    ensures
        lines_remain(raw_lines(text), raw_lines(merged), newline_of(text)),
{
    let source = source_of(text, entries_of(ini_sections(text)->0));
    merging_keeps_lines(source, template);
}

}
