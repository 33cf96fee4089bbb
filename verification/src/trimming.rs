//! White space around a text never changes the trimmed pieces of the text.

use vstd::prelude::*;

use crate::text::{
    is_white, pair_pieces, pieces, trimmed, trimmed_end, trimmed_ends, trimmed_start, until,
    until_pair, until_range,
};

verus! {

/// Whether two lists agree but for white space around their items.
pub open spec fn same_trimmed(a: Seq<Seq<char>>, b: Seq<Seq<char>>) -> bool {
    &&& a.len() == b.len()
    &&& forall|i: int| 0 <= i < a.len() ==> trimmed(#[trigger] a[i]) == trimmed(#[trigger] b[i])
}

proof fn start_of_longer(x: Seq<char>, c: char)
    requires
        is_white(c),
    ensures
        trimmed_start(x).len() == 0 ==> trimmed_start(x.push(c)).len() == 0,
        trimmed_start(x).len() > 0 ==> trimmed_start(x.push(c)) == trimmed_start(x).push(c),
    decreases x.len(),
{
    if x.len() == 0 {
        assert(x.push(c).drop_first() =~= x);
    } else if is_white(x[0]) {
        start_of_longer(x.drop_first(), c);
        assert(x.push(c).drop_first() =~= x.drop_first().push(c));
    }
}

/// White space behind a text is trimmed.
pub proof fn white_end_is_trimmed(x: Seq<char>, c: char)
    requires
        is_white(c),
    ensures
        trimmed(x.push(c)) == trimmed(x),
{
    start_of_longer(x, c);
    let start = trimmed_start(x);
    if start.len() == 0 {
        assert(trimmed_start(x.push(c)) =~= start);
    } else {
        assert(start.push(c).drop_last() =~= start);
    }
}

/// White space before a text is trimmed.
pub proof fn white_start_is_trimmed(x: Seq<char>, c: char)
    requires
        is_white(c),
    ensures
        trimmed(seq![c] + x) == trimmed(x),
{
    assert((seq![c] + x).drop_first() =~= x);
}

/// A trimmed text stays as it is.
pub proof fn trimmed_stays(x: Seq<char>)
    ensures
        trimmed(trimmed(x)) == trimmed(x),
{
    trimmed_ends(x);
}

proof fn pieces_of_longer(s: Seq<char>, a: char, b: char, c: char)
    requires
        is_white(c),
        c != a,
        c != b,
    ensures
        same_trimmed(pieces(seq![c] + s, a, b), pieces(s, a, b)),
        same_trimmed(pieces(s.push(c), a, b), pieces(s, a, b)),
    decreases s.len(),
{
    let before = seq![c] + s;
    let behind = s.push(c);
    let i = until(s, a, b);
    until_range(s, a, b);
    assert(before.drop_first() =~= s);
    assert(until(before, a, b) == 1 + i);
    until_of_longer(s, a, b, c);
    if i < s.len() {
        assert(before.take(i + 1) =~= seq![c] + s.take(i));
        assert(before.skip(i + 2) =~= s.skip(i + 1));
        white_start_is_trimmed(s.take(i), c);
        assert(behind.take(i) =~= s.take(i));
        assert(behind.skip(i + 1) =~= s.skip(i + 1).push(c));
        pieces_of_longer(s.skip(i + 1), a, b, c);
        let rest = pieces(s.skip(i + 1), a, b);
        let other = pieces(s.skip(i + 1).push(c), a, b);
        assert(pieces(behind, a, b) == seq![s.take(i)] + other);
        assert(pieces(before, a, b) == seq![seq![c] + s.take(i)] + rest);
        assert(pieces(s, a, b) == seq![s.take(i)] + rest);
        assert forall|k: int| 0 <= k < pieces(behind, a, b).len() implies trimmed(
            #[trigger] pieces(behind, a, b)[k],
        ) == trimmed(pieces(s, a, b)[k]) by {
            if k > 0 {
                assert(trimmed(other[k - 1]) == trimmed(rest[k - 1]));
            }
        }
    } else {
        white_start_is_trimmed(s, c);
        white_end_is_trimmed(s, c);
    }
}

proof fn until_of_longer(s: Seq<char>, a: char, b: char, c: char)
    requires
        c != a,
        c != b,
    ensures
        until(s.push(c), a, b) == (if until(s, a, b) < s.len() {
            until(s, a, b)
        } else {
            s.len() as int + 1
        }),
    decreases s.len(),
{
    let all = s.push(c);
    until_range(s, a, b);
    if s.len() == 0 {
        assert(all.drop_first().len() == 0);
        assert(until(all.drop_first(), a, b) == 0);
    } else if s[0] != a && s[0] != b {
        until_of_longer(s.drop_first(), a, b, c);
        assert(all.drop_first() =~= s.drop_first().push(c));
        until_range(s.drop_first(), a, b);
    }
}

proof fn until_pair_range(s: Seq<char>, d: char)
    ensures
        0 <= until_pair(s, d) <= s.len(),
        until_pair(s, d) != s.len() - 1,
    decreases s.len(),
{
    if s.len() >= 2 && !(s[0] == d && s[1] == d) {
        until_pair_range(s.drop_first(), d);
    }
}

proof fn until_pair_of_longer(s: Seq<char>, d: char, c: char)
    requires
        c != d,
    ensures
        until_pair(s.push(c), d) == (if until_pair(s, d) < s.len() {
            until_pair(s, d)
        } else {
            s.len() as int + 1
        }),
    decreases s.len(),
{
    let all = s.push(c);
    until_pair_range(s, d);
    if s.len() == 1 {
        assert(all.drop_first().len() == 1);
        assert(until_pair(all.drop_first(), d) == 1);
    } else if s.len() >= 2 && !(s[0] == d && s[1] == d) {
        until_pair_of_longer(s.drop_first(), d, c);
        assert(all.drop_first() =~= s.drop_first().push(c));
    }
}

proof fn pair_pieces_of_longer(s: Seq<char>, d: char, c: char)
    requires
        is_white(c),
        c != d,
    ensures
        same_trimmed(pair_pieces(seq![c] + s, d), pair_pieces(s, d)),
        same_trimmed(pair_pieces(s.push(c), d), pair_pieces(s, d)),
    decreases s.len(),
{
    let before = seq![c] + s;
    let behind = s.push(c);
    let i = until_pair(s, d);
    until_pair_range(s, d);
    assert(before.drop_first() =~= s);
    assert(until_pair(before, d) == 1 + i);
    until_pair_of_longer(s, d, c);
    if i < s.len() {
        assert(before.take(i + 1) =~= seq![c] + s.take(i));
        assert(before.skip(i + 3) =~= s.skip(i + 2));
        white_start_is_trimmed(s.take(i), c);
        assert(behind.take(i) =~= s.take(i));
        assert(behind.skip(i + 2) =~= s.skip(i + 2).push(c));
        pair_pieces_of_longer(s.skip(i + 2), d, c);
        let rest = pair_pieces(s.skip(i + 2), d);
        let other = pair_pieces(s.skip(i + 2).push(c), d);
        assert(pair_pieces(behind, d) == seq![s.take(i)] + other);
        assert(pair_pieces(before, d) == seq![seq![c] + s.take(i)] + rest);
        assert(pair_pieces(s, d) == seq![s.take(i)] + rest);
        assert forall|k: int| 0 <= k < pair_pieces(behind, d).len() implies trimmed(
            #[trigger] pair_pieces(behind, d)[k],
        ) == trimmed(pair_pieces(s, d)[k]) by {
            if k > 0 {
                assert(trimmed(other[k - 1]) == trimmed(rest[k - 1]));
            }
        }
    } else {
        white_start_is_trimmed(s, c);
        white_end_is_trimmed(s, c);
    }
}

proof fn same_trimmed_chain(a: Seq<Seq<char>>, b: Seq<Seq<char>>, c: Seq<Seq<char>>)
    requires
        same_trimmed(a, b),
        same_trimmed(b, c),
    ensures
        same_trimmed(a, c),
{
    assert forall|i: int| 0 <= i < a.len() implies trimmed(#[trigger] a[i]) == trimmed(
        #[trigger] c[i],
    ) by {
        assert(trimmed(a[i]) == trimmed(b[i]));
    }
}

/// White space around a text changes no piece between separators but for white space.
pub proof fn trimmed_pieces(s: Seq<char>, a: char, b: char)
    requires
        !is_white(a),
        !is_white(b),
    ensures
        same_trimmed(pieces(s, a, b), pieces(trimmed(s), a, b)),
{
    pieces_without_start(s, a, b);
    pieces_without_end(trimmed_start(s), a, b);
    same_trimmed_chain(
        pieces(s, a, b),
        pieces(trimmed_start(s), a, b),
        pieces(trimmed(s), a, b),
    );
}

proof fn pieces_without_start(s: Seq<char>, a: char, b: char)
    requires
        !is_white(a),
        !is_white(b),
    ensures
        same_trimmed(pieces(s, a, b), pieces(trimmed_start(s), a, b)),
    decreases s.len(),
{
    if s.len() > 0 && is_white(s[0]) {
        let rest = s.drop_first();
        pieces_of_longer(rest, a, b, s[0]);
        assert(seq![s[0]] + rest =~= s);
        pieces_without_start(rest, a, b);
        same_trimmed_chain(
            pieces(s, a, b),
            pieces(rest, a, b),
            pieces(trimmed_start(s), a, b),
        );
    }
}

proof fn pieces_without_end(s: Seq<char>, a: char, b: char)
    requires
        !is_white(a),
        !is_white(b),
    ensures
        same_trimmed(pieces(s, a, b), pieces(trimmed_end(s), a, b)),
    decreases s.len(),
{
    if s.len() > 0 && is_white(s.last()) {
        let rest = s.drop_last();
        pieces_of_longer(rest, a, b, s.last());
        assert(rest.push(s.last()) =~= s);
        pieces_without_end(rest, a, b);
        same_trimmed_chain(pieces(s, a, b), pieces(rest, a, b), pieces(trimmed_end(s), a, b));
    }
}

/// White space around a text changes no piece between doubled characters but for white space.
pub proof fn trimmed_pair_pieces(s: Seq<char>, d: char)
    requires
        !is_white(d),
    ensures
        same_trimmed(pair_pieces(s, d), pair_pieces(trimmed(s), d)),
{
    pair_pieces_without_start(s, d);
    pair_pieces_without_end(trimmed_start(s), d);
    same_trimmed_chain(
        pair_pieces(s, d),
        pair_pieces(trimmed_start(s), d),
        pair_pieces(trimmed(s), d),
    );
}

proof fn pair_pieces_without_start(s: Seq<char>, d: char)
    requires
        !is_white(d),
    ensures
        same_trimmed(pair_pieces(s, d), pair_pieces(trimmed_start(s), d)),
    decreases s.len(),
{
    if s.len() > 0 && is_white(s[0]) {
        let rest = s.drop_first();
        pair_pieces_of_longer(rest, d, s[0]);
        assert(seq![s[0]] + rest =~= s);
        pair_pieces_without_start(rest, d);
        same_trimmed_chain(
            pair_pieces(s, d),
            pair_pieces(rest, d),
            pair_pieces(trimmed_start(s), d),
        );
    }
}

proof fn pair_pieces_without_end(s: Seq<char>, d: char)
    requires
        !is_white(d),
    ensures
        same_trimmed(pair_pieces(s, d), pair_pieces(trimmed_end(s), d)),
    decreases s.len(),
{
    if s.len() > 0 && is_white(s.last()) {
        let rest = s.drop_last();
        pair_pieces_of_longer(rest, d, s.last());
        assert(rest.push(s.last()) =~= s);
        pair_pieces_without_end(rest, d);
        same_trimmed_chain(
            pair_pieces(s, d),
            pair_pieces(rest, d),
            pair_pieces(trimmed_end(s), d),
        );
    }
}

}
