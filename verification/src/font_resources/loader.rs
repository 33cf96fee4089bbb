//! The choice of a font family.

use vstd::prelude::*;

use crate::config::encoding::{decode_utf16, is_high, is_low, pair_char, text_of_units};
use crate::config::overrides::{lower_unicode, unicode_lower};
use crate::text::{chars_of, equal_ignoring_case, same_ignoring_case, same_str, strings, trim, trimmed};

verus! {

/// The family that every system has.
pub const FALLBACK_FAMILY: &'static str = "Segoe UI";

/// Largest number of families in a font file.
pub const MAX_FAMILIES: u32 = 128;

/// Largest length of the name of a family in UTF-16 units.
pub const MAX_FAMILY_UNITS: u32 = 128;

/// The family that is asked for: that of the system where the configuration leaves it open.
pub open spec fn requested_family(family: Seq<char>, system: Seq<char>) -> Seq<char> {
    if family == "auto"@ {
        system
    } else {
        family
    }
}

/// The families in the order in which they are tried.
pub open spec fn candidates(family: Seq<char>, system: Seq<char>) -> Seq<Seq<char>> {
    seq![requested_family(family, system), system, "Segoe UI"@]
}

/// The family that is asked for.
pub fn requested(family: &str, system: &str) -> (r: String)
    ensures
        r@ == requested_family(family@, system@),
{
    if same_str(family, "auto") {
        system.to_owned()
    } else {
        family.to_owned()
    }
}

/// A way to a font.
#[derive(Debug, Clone, PartialEq, Eq)]
pub enum FontAttempt {
    /// The file that the configuration names.
    File,
    /// A family of the system.
    Family(String),
}

/// The way to a font as a mathematical value: none stands for the file.
pub open spec fn attempt_views(attempts: Seq<FontAttempt>) -> Seq<Option<Seq<char>>> {
    Seq::new(
        attempts.len(),
        |i: int|
            match attempts[i] {
                FontAttempt::File => None,
                FontAttempt::Family(family) => Some(family@),
            },
    )
}

/// The ways to a font in the order in which they are tried: the file comes first, where the
/// configuration names one and the system can load it, then the families.
pub fn font_attempts(family: &str, system: &str, file: bool, loader: bool) -> (r: Vec<FontAttempt>)
    ensures
        attempt_views(r@) == (if file && loader {
            seq![None]
        } else {
            seq![]
        }) + candidates(family@, system@).map_values(|name: Seq<char>| Some(name)),
{
    let mut r: Vec<FontAttempt> = Vec::new();
    if file && loader {
        r.push(FontAttempt::File);
    }
    r.push(FontAttempt::Family(requested(family, system)));
    r.push(FontAttempt::Family(system.to_owned()));
    r.push(FontAttempt::Family(FALLBACK_FAMILY.to_owned()));
    assert(attempt_views(r@) =~= (if file && loader {
        seq![None]
    } else {
        seq![]
    }) + candidates(family@, system@).map_values(|name: Seq<char>| Some(name)));
    r
}

/// Whether a family that was found is another than the one that was asked for.
pub fn is_fallback(found: &str, requested: &str) -> (r: bool)
    ensures
        r == !same_ignoring_case(found@, requested@),
{
    let chars = chars_of(found);
    !equal_ignoring_case(chars.as_slice(), requested)
}

/// Whether a text comes before another or is equal to it, by the numbers of their characters.
pub open spec fn text_le(a: Seq<char>, b: Seq<char>) -> bool
    decreases a.len(),
{
    if a.len() == 0 {
        true
    } else if b.len() == 0 {
        false
    } else if a[0] == b[0] {
        text_le(a.drop_first(), b.drop_first())
    } else {
        a[0] < b[0]
    }
}

/// Whether a family comes before another or is equal to it: by its name in lower case, and then
/// by its name.
pub open spec fn family_le(a: Seq<char>, b: Seq<char>) -> bool {
    if unicode_lower(a) == unicode_lower(b) {
        text_le(a, b)
    } else {
        text_le(unicode_lower(a), unicode_lower(b))
    }
}

fn not_after(a: &[char], b: &[char]) -> (r: bool)
    ensures
        r == text_le(a@, b@),
{
    let mut i: usize = 0;
    assert(a@.skip(0) =~= a@);
    assert(b@.skip(0) =~= b@);
    loop
        invariant
            i <= a@.len(),
            i <= b@.len(),
            text_le(a@, b@) == text_le(a@.skip(i as int), b@.skip(i as int)),
        decreases a@.len() - i,
    {
        if i == a.len() {
            return true;
        }
        if i == b.len() {
            return false;
        }
        assert(a@.skip(i as int)[0] == a@[i as int]);
        assert(b@.skip(i as int)[0] == b@[i as int]);
        if a[i] != b[i] {
            return a[i] < b[i];
        }
        assert(a@.skip(i as int).drop_first() =~= a@.skip(i + 1));
        assert(b@.skip(i as int).drop_first() =~= b@.skip(i + 1));
        i = i + 1;
    }
}

fn family_not_after(a: &String, b: &String) -> (r: bool)
    ensures
        r == family_le(a@, b@),
{
    let first = lower_unicode(a.as_str());
    let second = lower_unicode(b.as_str());
    if same_str(first.as_str(), second.as_str()) {
        let first = chars_of(a.as_str());
        let second = chars_of(b.as_str());
        not_after(first.as_slice(), second.as_slice())
    } else {
        let first = chars_of(first.as_str());
        let second = chars_of(second.as_str());
        not_after(first.as_slice(), second.as_slice())
    }
}

proof fn text_le_reflexive(a: Seq<char>)
    ensures
        text_le(a, a),
    decreases a.len(),
{
    if a.len() > 0 {
        text_le_reflexive(a.drop_first());
    }
}

proof fn text_le_total(a: Seq<char>, b: Seq<char>)
    ensures
        text_le(a, b) || text_le(b, a),
    decreases a.len(),
{
    if a.len() > 0 && b.len() > 0 {
        if a[0] == b[0] {
            text_le_total(a.drop_first(), b.drop_first());
        }
    }
}

proof fn text_le_transitive(a: Seq<char>, b: Seq<char>, c: Seq<char>)
    requires
        text_le(a, b),
        text_le(b, c),
    ensures
        text_le(a, c),
    decreases a.len(),
{
    if a.len() > 0 && b.len() > 0 && c.len() > 0 {
        if a[0] == b[0] && b[0] == c[0] {
            text_le_transitive(a.drop_first(), b.drop_first(), c.drop_first());
        }
    }
}

proof fn text_le_antisymmetric(a: Seq<char>, b: Seq<char>)
    requires
        text_le(a, b),
        text_le(b, a),
    ensures
        a == b,
    decreases a.len(),
{
    if a.len() > 0 && b.len() > 0 {
        if a[0] == b[0] {
            text_le_antisymmetric(a.drop_first(), b.drop_first());
            assert(a =~= seq![a[0]] + a.drop_first());
            assert(b =~= seq![b[0]] + b.drop_first());
        }
    } else {
        assert(a =~= b);
    }
}

proof fn family_le_transitive(a: Seq<char>, b: Seq<char>, c: Seq<char>)
    requires
        family_le(a, b),
        family_le(b, c),
    ensures
        family_le(a, c),
{
    let x = unicode_lower(a);
    let y = unicode_lower(b);
    let z = unicode_lower(c);
    if x == y && y == z {
        text_le_transitive(a, b, c);
    } else {
        text_le_reflexive(x);
        text_le_reflexive(z);
        text_le_transitive(x, y, z);
        if x == z {
            text_le_antisymmetric(x, y);
        }
    }
}

proof fn family_le_total(a: Seq<char>, b: Seq<char>)
    ensures
        family_le(a, b) || family_le(b, a),
        family_le(a, a),
{
    text_le_total(a, b);
    text_le_total(unicode_lower(a), unicode_lower(b));
    text_le_reflexive(a);
}

/// The family of a font file that is used where the one that was asked for is not in it: the
/// first by name, without regard to case.
pub fn first_family(families: &Vec<String>) -> (r: String)
    requires
        families@.len() > 0,
    ensures
        strings(families@).contains(r@),
        forall|i: int| 0 <= i < families@.len() ==> family_le(r@, (#[trigger] families@[i])@),
{
    let mut best: usize = 0;
    proof {
        family_le_total(families@[0]@, families@[0]@);
    }
    let mut i: usize = 1;
    while i < families.len()
        invariant
            1 <= i <= families@.len(),
            best < i,
            forall|k: int|
                0 <= k < i ==> family_le(families@[best as int]@, (#[trigger] families@[k])@),
        decreases families@.len() - i,
    {
        let ghost old_best = best as int;
        proof {
            family_le_total(families@[old_best]@, families@[i as int]@);
            family_le_total(families@[i as int]@, families@[i as int]@);
        }
        if !family_not_after(&families[best], &families[i]) {
            proof {
                assert forall|k: int| 0 <= k < i implies family_le(
                    families@[i as int]@,
                    (#[trigger] families@[k])@,
                ) by {
                    family_le_transitive(
                        families@[i as int]@,
                        families@[old_best]@,
                        families@[k]@,
                    );
                }
            }
            best = i;
        }
        i = i + 1;
    }
    assert(strings(families@)[best as int] == families@[best as int]@);
    families[best].clone()
}

/// Why a font file gives no family.
#[derive(Debug, Clone, Copy, PartialEq, Eq, Structural)]
pub enum FamilyError {
    /// The file has no family, or too many.
    Count,
    /// The name of a family is empty or too long.
    Length,
    /// The name of a family is no text.
    Text,
}

/// What is wrong with the name of a family.
pub open spec fn name_fault(units: Seq<u16>) -> Option<FamilyError> {
    if !(1 <= units.len() <= MAX_FAMILY_UNITS) {
        Some(FamilyError::Length)
    } else if decode_utf16(units) is None {
        Some(FamilyError::Text)
    } else {
        None
    }
}

/// The first thing that is wrong with the families of a font file.
pub open spec fn families_fault(names: Seq<Vec<u16>>) -> Option<FamilyError> {
    if !(1 <= names.len() <= MAX_FAMILIES) {
        Some(FamilyError::Count)
    } else {
        first_fault(names)
    }
}

/// The fault of the first name that has one.
pub open spec fn first_fault(names: Seq<Vec<u16>>) -> Option<FamilyError>
    decreases names.len(),
{
    if names.len() == 0 {
        None
    } else {
        match first_fault(names.drop_last()) {
            Some(fault) => Some(fault),
            None => name_fault(names.last()@),
        }
    }
}

proof fn first_fault_stays(names: Seq<Vec<u16>>, count: int)
    requires
        0 <= count <= names.len(),
        first_fault(names.take(count)) is Some,
    ensures
        first_fault(names) == first_fault(names.take(count)),
    decreases names.len(),
{
    if count == names.len() {
        assert(names.take(count) =~= names);
    } else {
        assert(names.drop_last().take(count) =~= names.take(count));
        first_fault_stays(names.drop_last(), count);
    }
}

/// The family of a font file that is used: the one that was asked for, where `found` says that the
/// file has it, and otherwise the first of its families by name. `names` are the names of the
/// families in UTF-16.
pub fn private_family(requested: &str, found: bool, names: &Vec<Vec<u16>>) -> (r: Result<
    String,
    FamilyError,
>)
    ensures
        if found {
            r is Ok && r->Ok_0@ == requested@
        } else {
            match families_fault(names@) {
                Some(fault) => r is Err && r->Err_0 == fault,
                None => {
                    &&& r is Ok
                    &&& exists|i: int|
                        0 <= i < names@.len() && decode_utf16((#[trigger] names@[i])@) == Some(
                            r->Ok_0@,
                        )
                    &&& forall|i: int|
                        0 <= i < names@.len() ==> family_le(
                            r->Ok_0@,
                            decode_utf16((#[trigger] names@[i])@)->0,
                        )
                },
            }
        },
{
    if found {
        return Ok(requested.to_owned());
    }
    if names.len() < 1 || names.len() > MAX_FAMILIES as usize {
        return Err(FamilyError::Count);
    }
    let mut families: Vec<String> = Vec::new();
    for i in 0..names.len()
        invariant
            !found,
            1 <= names@.len() <= MAX_FAMILIES,
            families@.len() == i,
            first_fault(names@.take(i as int)) is None,
            forall|k: int|
                #![trigger names@[k]]
                #![trigger families@[k]]
                0 <= k < i ==> decode_utf16(names@[k]@) == Some(families@[k]@),
    {
        let units = names[i].as_slice();
        assert(names@.take(i + 1).drop_last() =~= names@.take(i as int));
        assert(names@.take(i + 1).last() == names@[i as int]);
        proof {
            if name_fault(names@[i as int]@) is Some {
                first_fault_stays(names@, i + 1);
            }
        }
        if units.len() < 1 || units.len() > MAX_FAMILY_UNITS as usize {
            return Err(FamilyError::Length);
        }
        match text_of_units(units) {
            Some(name) => {
                families.push(name);
            },
            None => {
                return Err(FamilyError::Text);
            },
        }
    }
    assert(names@.take(names@.len() as int) =~= names@);
    let family = first_family(&families);
    proof {
        let at = strings(families@).index_of(family@);
        assert(strings(families@)[at] == families@[at]@);
        assert(decode_utf16(names@[at]@) == Some(family@));
        assert forall|i: int| 0 <= i < names@.len() implies family_le(
            family@,
            decode_utf16((#[trigger] names@[i])@)->0,
        ) by {
            assert(decode_utf16(names@[i]@) == Some(families@[i]@));
        }
    }
    Ok(family)
}

/// Number of units before the first zero.
pub open spec fn until_zero(units: Seq<u16>) -> int
    decreases units.len(),
{
    if units.len() == 0 || units[0] == 0 {
        0
    } else {
        1 + until_zero(units.drop_first())
    }
}

/// The text of UTF-16 units; a surrogate that stands alone becomes the replacement character.
pub open spec fn lossy_text(units: Seq<u16>) -> Seq<char>
    decreases units.len(),
{
    if units.len() == 0 {
        seq![]
    } else if !is_high(units[0]) && !is_low(units[0]) {
        seq![units[0] as char] + lossy_text(units.drop_first())
    } else if is_high(units[0]) && units.len() > 1 && is_low(units[1]) {
        seq![pair_char(units[0], units[1])] + lossy_text(units.skip(2))
    } else {
        seq!['\u{fffd}'] + lossy_text(units.drop_first())
    }
}

/// `String::from_utf16_lossy` decodes UTF-16; each surrogate that is not part of a pair becomes
/// the replacement character.
#[verifier::external_body]
fn decode_lossy(units: &[u16]) -> (r: String)
    ensures
        r@ == lossy_text(units@),
{
    String::from_utf16_lossy(units)
}

/// The family of the user interface by the name field of the system: the text up to the first
/// zero, or the family that every system has where that is blank.
pub fn system_family(name: &[u16]) -> (r: String)
    ensures
        ({
            let text = lossy_text(name@.take(until_zero(name@)));
            r@ == (if trimmed(text).len() > 0 {
                text
            } else {
                "Segoe UI"@
            })
        }),
{
    let mut length: usize = 0;
    assert(name@.skip(0) =~= name@);
    while length < name.len() && name[length] != 0
        invariant
            length <= name@.len(),
            until_zero(name@) == length + until_zero(name@.skip(length as int)),
        decreases name@.len() - length,
    {
        assert(name@.skip(length as int).drop_first() =~= name@.skip(length + 1));
        length = length + 1;
    }
    let units = vstd::slice::slice_subrange(name, 0, length);
    assert(units@ =~= name@.take(until_zero(name@)));
    let text = decode_lossy(units);
    let chars = chars_of(text.as_str());
    let shown = trim(chars.as_slice());
    if shown.len() > 0 {
        text
    } else {
        FALLBACK_FAMILY.to_owned()
    }
}

/// The family that a font file falls back to does not depend on the order of its families.
pub proof fn first_family_is_unique(families: Seq<Seq<char>>, a: Seq<char>, b: Seq<char>)
    requires
        families.contains(a),
        families.contains(b),
        forall|i: int| 0 <= i < families.len() ==> family_le(a, #[trigger] families[i]),
        forall|i: int| 0 <= i < families.len() ==> family_le(b, #[trigger] families[i]),
    ensures
        a == b,
{
    let i = families.index_of(a);
    let j = families.index_of(b);
    assert(families[i] == a);
    assert(families[j] == b);
    assert(family_le(a, b));
    assert(family_le(b, a));
    if unicode_lower(a) == unicode_lower(b) {
        text_le_antisymmetric(a, b);
    } else {
        text_le_antisymmetric(unicode_lower(a), unicode_lower(b));
    }
}

/// Whatever is asked for, the families of the system are tried afterwards.
pub proof fn system_families_are_tried(family: Seq<char>, system: Seq<char>)
    ensures
        candidates(family, system).len() == 3,
        candidates(family, system)[1] == system,
        candidates(family, system)[2] == "Segoe UI"@,
{
}

/// The family `auto` stands for that of the system; any other is asked for by its name, and tried
/// first.
pub proof fn families_that_are_asked_for(family: Seq<char>, system: Seq<char>)
    ensures
        requested_family(seq!['a', 'u', 't', 'o'], system) == system,
        family != seq!['a', 'u', 't', 'o'] ==> requested_family(family, system) == family,
        candidates(family, system)[0] == requested_family(family, system),
{
    reveal_strlit("auto");
    assert("auto"@ =~= seq!['a', 'u', 't', 'o']);
}

/// Texts are ordered as in a dictionary: by their first difference, and a beginning comes before the
/// whole.
pub proof fn texts_are_in_dictionary_order(
    common: Seq<char>,
    a: Seq<char>,
    b: Seq<char>,
    first: char,
    second: char,
)
    requires
        first < second,
    ensures
        text_le(common, common + a),
        a.len() > 0 ==> !text_le(common + a, common),
        text_le(common + seq![first] + a, common + seq![second] + b),
        !text_le(common + seq![second] + b, common + seq![first] + a),
    decreases common.len(),
{
    let x = common + seq![first] + a;
    let y = common + seq![second] + b;
    if common.len() > 0 {
        let rest = common.drop_first();
        texts_are_in_dictionary_order(rest, a, b, first, second);
        assert((common + a).drop_first() =~= rest + a);
        assert(x.drop_first() =~= rest + seq![first] + a);
        assert(y.drop_first() =~= rest + seq![second] + b);
        assert(x[0] == common[0] && y[0] == common[0]);
    } else {
        assert(common + a =~= a);
        assert(x[0] == first && y[0] == second);
    }
}

/// Families are ordered without regard to case first; only of those that are alike so, the case
/// decides. Any two families can be compared, and the order is one.
pub proof fn families_are_ordered(a: Seq<char>, b: Seq<char>, c: Seq<char>)
    ensures
        unicode_lower(a) != unicode_lower(b) ==> (family_le(a, b) <==> text_le(
            unicode_lower(a),
            unicode_lower(b),
        )),
        unicode_lower(a) == unicode_lower(b) ==> (family_le(a, b) <==> text_le(a, b)),
        family_le(a, b) || family_le(b, a),
        family_le(a, b) && family_le(b, c) ==> family_le(a, c),
        family_le(a, b) && family_le(b, a) ==> a == b,
{
    family_le_total(a, b);
    if family_le(a, b) && family_le(b, c) {
        family_le_transitive(a, b, c);
    }
    if family_le(a, b) && family_le(b, a) {
        if unicode_lower(a) == unicode_lower(b) {
            text_le_antisymmetric(a, b);
        } else {
            text_le_antisymmetric(unicode_lower(a), unicode_lower(b));
        }
    }
}

/// The names of a font file are accepted where there are from one to 128, each of one to 128 UTF-16
/// units that are text. Of several faults that of the first name counts.
pub proof fn names_that_are_accepted(names: Seq<Vec<u16>>, more: Vec<u16>)
    ensures
        families_fault(names) == Some(FamilyError::Count) <==> names.len() == 0 || names.len() > 128,
        names.len() == 0 || names.len() > 128 || families_fault(names) == first_fault(names),
        first_fault(Seq::<Vec<u16>>::empty()) is None,
        first_fault(names) is Some ==> first_fault(names.push(more)) == first_fault(names),
        first_fault(names) is None ==> {
            let fault = first_fault(names.push(more));
            &&& fault == Some(FamilyError::Length) <==> more@.len() == 0 || more@.len() > 128
            &&& fault is None <==> 1 <= more@.len() <= 128 && decode_utf16(more@) is Some
            &&& fault is Some ==> fault->0 == FamilyError::Length || fault->0 == FamilyError::Text
        },
{
    assert(names.push(more).drop_last() =~= names);
    faults_of_names(names);
}

proof fn faults_of_names(names: Seq<Vec<u16>>)
    ensures
        first_fault(names) != Some(FamilyError::Count),
    decreases names.len(),
{
    if names.len() > 0 {
        faults_of_names(names.drop_last());
    }
}

/// A name field ends before its first zero, and is used as a whole where it has none.
pub proof fn fields_end_at_zero(units: Seq<u16>)
    ensures
        0 <= until_zero(units) <= units.len(),
        until_zero(units) < units.len() ==> units[until_zero(units)] == 0,
        forall|i: int| 0 <= i < until_zero(units) ==> #[trigger] units[i] != 0,
    decreases units.len(),
{
    if units.len() > 0 && units[0] != 0 {
        let rest = units.drop_first();
        fields_end_at_zero(rest);
        assert forall|i: int| 0 <= i < until_zero(units) implies #[trigger] units[i] != 0 by {
            if i > 0 {
                assert(units[i] == rest[i - 1]);
            }
        }
    }
}

/// Units that are text are read as that text; nothing in it is replaced.
pub proof fn sound_units_are_kept(units: Seq<u16>)
    requires
        decode_utf16(units) is Some,
    ensures
        lossy_text(units) == decode_utf16(units)->0,
    decreases units.len(),
{
    if units.len() > 0 {
        if !is_high(units[0]) && !is_low(units[0]) {
            sound_units_are_kept(units.drop_first());
        } else {
            sound_units_are_kept(units.skip(2));
        }
    }
}

}
