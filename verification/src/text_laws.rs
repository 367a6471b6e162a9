//! What the functions on texts are for, stated on the characters themselves.

use crate::statistics::{ascii_raised, columns_named, find_from};
use crate::text::{
    ascii_lower, ascii_upper, decimal, has_crlf, is_white_space, law_normal_text_stays,
    line_endings_normalized, list_items, quotes_doubled, split_on, sql_literal, trim, trim_end,
    trim_start,
};
use vstd::prelude::*;

verus! {

/// The characters other than `c`.
pub open spec fn other_than(c: char) -> spec_fn(char) -> bool {
    |x: char| x != c
}

/// The character `c`.
pub open spec fn same_as(c: char) -> spec_fn(char) -> bool {
    |x: char| x == c
}

/// What is left of a text without a character.
pub open spec fn without(s: Seq<char>, c: char) -> Seq<char> {
    s.filter(other_than(c))
}

/// What is left of a text with no other character.
pub open spec fn only(s: Seq<char>, c: char) -> Seq<char> {
    s.filter(same_as(c))
}

proof fn lemma_filter_front(s: Seq<char>, pred: spec_fn(char) -> bool)
    requires
        s.len() > 0,
    ensures
        s.filter(pred) == (if pred(s[0]) {
            seq![s[0]]
        } else {
            Seq::empty()
        }) + s.drop_first().filter(pred),
{
    let first = seq![s[0]];
    assert(s =~= first + s.drop_first());
    Seq::filter_distributes_over_add(first, s.drop_first(), pred);
    assert(first =~= Seq::empty().push(s[0]));
    Seq::<char>::empty().lemma_filter_push(s[0], pred);
    reveal(Seq::filter);
    assert(Seq::<char>::empty().filter(pred) =~= Seq::empty());
    if pred(s[0]) {
        assert(Seq::<char>::empty().push(s[0]) =~= first);
    }
}

/// Normalizing takes out carriage returns and nothing else: without them both
/// texts are the same, and every line feed stays.
pub proof fn law_normalizing_takes_carriage_returns(s: Seq<char>)
    ensures
        without(line_endings_normalized(s), '\r') == without(s, '\r'),
        only(line_endings_normalized(s), '\n').len() == only(s, '\n').len(),
        line_endings_normalized(s).len() <= s.len(),
    decreases s.len(),
{
    let (other, feed) = (other_than('\r'), same_as('\n'));
    let out = line_endings_normalized(s);
    if s.len() > 0 {
        let rest = s.drop_first();
        law_normalizing_takes_carriage_returns(rest);
        lemma_filter_front(s, other);
        lemma_filter_front(s, feed);
        if s.len() > 1 && s[0] == '\r' && s[1] == '\n' {
            assert(without(s, '\r') =~= without(rest, '\r'));
            assert(only(s, '\n') =~= only(rest, '\n'));
        } else {
            lemma_filter_front(out, other);
            lemma_filter_front(out, feed);
            assert(out.drop_first() =~= line_endings_normalized(rest));
        }
    }
}

proof fn lemma_normalized_add(a: Seq<char>, b: Seq<char>)
    requires
        !(a.len() > 0 && b.len() > 0 && a.last() == '\r' && b[0] == '\n'),
    ensures
        line_endings_normalized(a + b) == line_endings_normalized(a) + line_endings_normalized(b),
    decreases a.len(),
{
    if a.len() == 0 {
        assert(a + b =~= b);
        assert(line_endings_normalized(a) + line_endings_normalized(b) =~= line_endings_normalized(
            b,
        ));
    } else {
        let rest = a.drop_first();
        assert((a + b).drop_first() =~= rest + b);
        if rest.len() > 0 {
            assert(rest.last() == a.last());
            assert((a + b)[1] == a[1]);
        } else {
            assert(a[0] == a.last());
        }
        lemma_normalized_add(rest, b);
        assert(line_endings_normalized(a + b) =~= line_endings_normalized(a)
            + line_endings_normalized(b));
    }
}

/// Each CR LF becomes LF and what stands around it is normalized on its own.
pub proof fn law_line_by_line(a: Seq<char>, b: Seq<char>)
    ensures
        line_endings_normalized(a + seq!['\r', '\n'] + b) == line_endings_normalized(a)
            + seq!['\n'] + line_endings_normalized(b),
{
    let ending = seq!['\r', '\n'];
    lemma_normalized_add(a + ending, b);
    lemma_normalized_add(a, ending);
    assert(ending.drop_first() =~= seq!['\n']);
    assert(seq!['\n'].drop_first() =~= Seq::empty());
    reveal_with_fuel(line_endings_normalized, 3);
    assert(line_endings_normalized(seq!['\n']) =~= seq!['\n']);
    assert(line_endings_normalized(ending) =~= seq!['\n']);
}

/// A text in which no carriage return stands before a line feed stays, and a
/// text with such a pair does not.
pub proof fn law_only_crlf_changes(s: Seq<char>)
    ensures
        (forall|i: int|
            #![trigger s[i]]
            0 <= i && i + 1 < s.len() ==> !(s[i] == '\r' && s[i + 1] == '\n'))
            <==> line_endings_normalized(s) == s,
        has_crlf(s) <==> line_endings_normalized(s) != s,
    decreases s.len(),
{
    if forall|i: int|
        #![trigger s[i]]
        0 <= i && i + 1 < s.len() ==> !(s[i] == '\r' && s[i + 1] == '\n') {
        assert(!has_crlf(s));
        law_normal_text_stays(s);
    } else {
        let i = choose|i: int|
            #![trigger s[i]]
            0 <= i && i + 1 < s.len() && s[i] == '\r' && s[i + 1] == '\n';
        let (a, b) = (s.take(i), s.skip(i + 2));
        assert(s =~= a + seq!['\r', '\n'] + b);
        law_line_by_line(a, b);
        law_normalizing_takes_carriage_returns(a);
        law_normalizing_takes_carriage_returns(b);
        assert(s[i] == '\r' && s[i + 1] == '\n');
        assert(has_crlf(s));
    }
}

/// The number that decimal digits stand for.
pub open spec fn number_of(digits: Seq<char>) -> int
    decreases digits.len(),
{
    if digits.len() == 0 {
        0
    } else {
        10 * number_of(digits.drop_last()) + (digits.last() as int - '0' as int)
    }
}

/// A number is written with digits that stand for it, and without leading zeros.
pub proof fn law_decimal_stands_for_its_number(n: nat)
    ensures
        number_of(decimal(n)) == n,
        decimal(n).len() > 0,
        decimal(n).len() > 1 ==> decimal(n)[0] != '0',
        n > 0 ==> decimal(n)[0] != '0',
        forall|i: int| 0 <= i < decimal(n).len() ==> '0' <= #[trigger] decimal(n)[i] <= '9',
    decreases n,
{
    reveal_with_fuel(number_of, 2);
    let s = decimal(n);
    if n < 10 {
        assert(s.drop_last() =~= Seq::empty());
    } else {
        law_decimal_stands_for_its_number(n / 10);
        assert(s.drop_last() =~= decimal(n / 10));
        assert forall|i: int| 0 <= i < s.len() implies '0' <= #[trigger] s[i] <= '9' by {
            if i < s.len() - 1 {
                assert(s[i] == decimal(n / 10)[i]);
            }
        }
        assert(s[0] == decimal(n / 10)[0]);
    }
}

/// White space: tab to carriage return, the blank, and the blanks of Unicode.
pub proof fn law_white_space(c: char)
    ensures
        is_white_space(c) <==> '\t' <= c <= '\r' || c == ' ' || c == '\u{85}' || c == '\u{a0}' || c
            == '\u{1680}' || '\u{2000}' <= c <= '\u{200a}' || c == '\u{2028}' || c == '\u{2029}' || c
            == '\u{202f}' || c == '\u{205f}' || c == '\u{3000}',
{
}

proof fn lemma_trim_start(s: Seq<char>) -> (before: Seq<char>)
    ensures
        s == before + trim_start(s),
        forall|i: int| 0 <= i < before.len() ==> is_white_space(#[trigger] before[i]),
        trim_start(s).len() > 0 ==> !is_white_space(trim_start(s)[0]),
    decreases s.len(),
{
    if s.len() > 0 && is_white_space(s[0]) {
        let rest = lemma_trim_start(s.drop_first());
        let before = seq![s[0]] + rest;
        assert(s =~= seq![s[0]] + s.drop_first());
        assert(trim_start(s) == trim_start(s.drop_first()));
        assert(s =~= before + trim_start(s));
        before
    } else {
        assert(s =~= Seq::empty() + s);
        Seq::empty()
    }
}

proof fn lemma_trim_end(s: Seq<char>) -> (after: Seq<char>)
    ensures
        s == trim_end(s) + after,
        forall|i: int| 0 <= i < after.len() ==> is_white_space(#[trigger] after[i]),
        trim_end(s).len() > 0 ==> !is_white_space(trim_end(s).last()),
    decreases s.len(),
{
    if s.len() > 0 && is_white_space(s.last()) {
        let rest = lemma_trim_end(s.drop_last());
        let after = rest.push(s.last());
        assert(s =~= s.drop_last().push(s.last()));
        assert(trim_end(s) == trim_end(s.drop_last()));
        assert(s =~= trim_end(s) + after);
        after
    } else {
        assert(s =~= s + Seq::empty());
        Seq::empty()
    }
}

/// Trimming cuts white space off both ends, all of it and nothing else.
pub proof fn law_trim_cuts_the_ends(s: Seq<char>) -> (ends: (Seq<char>, Seq<char>))
    ensures
        s == ends.0 + trim(s) + ends.1,
        forall|i: int| 0 <= i < ends.0.len() ==> is_white_space(#[trigger] ends.0[i]),
        forall|i: int| 0 <= i < ends.1.len() ==> is_white_space(#[trigger] ends.1[i]),
        trim(s).len() > 0 ==> !is_white_space(trim(s)[0]) && !is_white_space(trim(s).last()),
{
    let before = lemma_trim_start(s);
    let after = lemma_trim_end(trim_start(s));
    assert(s =~= before + trim(s) + after);
    if trim(s).len() > 0 {
        assert(trim_start(s)[0] == trim(s)[0]);
    }
    (before, after)
}

/// The parts with a separator between each two.
pub open spec fn joined(parts: Seq<Seq<char>>, sep: char) -> Seq<char>
    decreases parts.len(),
{
    if parts.len() == 0 {
        Seq::empty()
    } else if parts.len() == 1 {
        parts[0]
    } else {
        joined(parts.drop_last(), sep).push(sep) + parts.last()
    }
}

/// Splitting and joining undo each other, and no part holds a separator.
pub proof fn law_split_parts_join(s: Seq<char>, sep: char)
    ensures
        joined(split_on(s, sep), sep) == s,
        split_on(s, sep).len() > 0,
        forall|i: int| 0 <= i < split_on(s, sep).len() ==> !(#[trigger] split_on(s, sep)[i]).contains(sep),
    decreases s.len(),
{
    let parts = split_on(s, sep);
    if s.len() == 0 {
        assert(joined(parts, sep) =~= s);
    } else {
        let before = split_on(s.drop_last(), sep);
        law_split_parts_join(s.drop_last(), sep);
        assert(s =~= s.drop_last().push(s.last()));
        if s.last() == sep {
            assert(parts.drop_last() =~= before);
            assert(joined(parts, sep) =~= s);
            assert forall|i: int| 0 <= i < parts.len() implies !(#[trigger] parts[i]).contains(sep) by {
                if i < before.len() {
                    assert(parts[i] == before[i]);
                }
            }
        } else {
            assert(parts.drop_last() =~= before.drop_last());
            assert(joined(parts, sep) =~= s);
            assert forall|i: int| 0 <= i < parts.len() implies !(#[trigger] parts[i]).contains(sep) by {
                if i < before.len() - 1 {
                    assert(parts[i] == before[i]);
                } else {
                    let last = before[before.len() - 1];
                    assert(parts[i] == last.push(s.last()));
                    if parts[i].contains(sep) {
                        let k = choose|k: int| 0 <= k < parts[i].len() && parts[i][k] == sep;
                        assert(last[k] == sep);
                    }
                }
            }
        }
    }
}

proof fn lemma_split_tail(s: Seq<char>, tail: Seq<char>, sep: char)
    requires
        !tail.contains(sep),
    ensures
        split_on(s.push(sep) + tail, sep) == split_on(s, sep).push(tail),
    decreases tail.len(),
{
    let all = s.push(sep) + tail;
    if tail.len() == 0 {
        assert(all =~= s.push(sep));
        assert(all.drop_last() =~= s);
        assert(tail =~= Seq::empty());
    } else {
        let rest = tail.drop_last();
        assert(!rest.contains(sep)) by {
            if rest.contains(sep) {
                let k = choose|k: int| 0 <= k < rest.len() && rest[k] == sep;
                assert(tail[k] == sep);
            }
        }
        assert(tail[tail.len() - 1] != sep);
        lemma_split_tail(s, rest, sep);
        assert(all.drop_last() =~= s.push(sep) + rest);
        assert(rest.push(tail.last()) =~= tail);
        assert(split_on(s, sep).push(rest).drop_last() =~= split_on(s, sep));
    }
}

proof fn lemma_split_single(part: Seq<char>, sep: char)
    requires
        !part.contains(sep),
    ensures
        split_on(part, sep) == seq![part],
    decreases part.len(),
{
    if part.len() == 0 {
        assert(part =~= Seq::empty());
    } else {
        let rest = part.drop_last();
        assert(!rest.contains(sep)) by {
            if rest.contains(sep) {
                let k = choose|k: int| 0 <= k < rest.len() && rest[k] == sep;
                assert(part[k] == sep);
            }
        }
        assert(part[part.len() - 1] != sep);
        lemma_split_single(rest, sep);
        assert(rest.push(part.last()) =~= part);
        assert(seq![rest].drop_last().push(part) =~= seq![part]);
    }
}

proof fn lemma_split_joined(parts: Seq<Seq<char>>, sep: char)
    requires
        parts.len() > 0,
        forall|i: int| 0 <= i < parts.len() ==> !(#[trigger] parts[i]).contains(sep),
    ensures
        split_on(joined(parts, sep), sep) == parts,
    decreases parts.len(),
{
    if parts.len() == 1 {
        lemma_split_single(parts[0], sep);
        assert(seq![parts[0]] =~= parts);
    } else {
        let rest = parts.drop_last();
        assert forall|i: int| 0 <= i < rest.len() implies !(#[trigger] rest[i]).contains(sep) by {
            assert(rest[i] == parts[i]);
        }
        assert(!parts[parts.len() - 1].contains(sep));
        lemma_split_joined(rest, sep);
        lemma_split_tail(joined(rest, sep), parts.last(), sep);
        assert(rest.push(parts.last()) =~= parts);
    }
}

/// The items of a comma-separated list are its parts, trimmed, in order; parts
/// of white space alone are none.
pub proof fn law_list_items_are_its_parts(parts: Seq<Seq<char>>)
    requires
        parts.len() > 0,
        forall|i: int| 0 <= i < parts.len() ==> !(#[trigger] parts[i]).contains(','),
    ensures
        list_items(joined(parts, ',')) == parts.map_values(|part: Seq<char>| trim(part)).filter(
            |part: Seq<char>| part.len() > 0,
        ),
{
    lemma_split_joined(parts, ',');
}

/// Small and capital letters of ASCII differ by case alone, and no other
/// character has a case.
pub proof fn law_ascii_case(c: char, d: char)
    ensures
        ascii_upper(c) == ascii_upper(d) <==> c == d || ('a' <= c <= 'z' && d as int == c as int - 32)
            || ('a' <= d <= 'z' && c as int == d as int - 32),
        ascii_lower(c) == ascii_lower(d) <==> ascii_upper(c) == ascii_upper(d),
        !('a' <= ascii_upper(c) <= 'z'),
        !('A' <= ascii_lower(c) <= 'Z'),
{
}

/// ` ON ` stands in `s` at `k`, in any case of letters.
pub open spec fn on_at(s: Seq<char>, k: int) -> bool {
    &&& k + 4 <= s.len()
    &&& s[k] == ' '
    &&& s[k + 1] == 'O' || s[k + 1] == 'o'
    &&& s[k + 2] == 'N' || s[k + 2] == 'n'
    &&& s[k + 3] == ' '
}

/// ` FROM ` stands in `s` at `k`, in any case of letters.
pub open spec fn from_at(s: Seq<char>, k: int) -> bool {
    &&& k + 6 <= s.len()
    &&& s[k] == ' '
    &&& s[k + 1] == 'F' || s[k + 1] == 'f'
    &&& s[k + 2] == 'R' || s[k + 2] == 'r'
    &&& s[k + 3] == 'O' || s[k + 3] == 'o'
    &&& s[k + 4] == 'M' || s[k + 4] == 'm'
    &&& s[k + 5] == ' '
}

proof fn lemma_on_at(s: Seq<char>, k: int)
    requires
        0 <= k,
        k + 4 <= s.len(),
    ensures
        ascii_raised(s).subrange(k, k + 4) == " ON "@ <==> on_at(s, k),
{
    reveal_strlit(" ON ");
    let part = ascii_raised(s).subrange(k, k + 4);
    assert(part[0] == ascii_upper(s[k]) && part[1] == ascii_upper(s[k + 1]) && part[2]
        == ascii_upper(s[k + 2]) && part[3] == ascii_upper(s[k + 3]));
    if on_at(s, k) {
        assert(part =~= " ON "@);
    }
}

proof fn lemma_from_at(s: Seq<char>, k: int)
    requires
        0 <= k,
        k + 6 <= s.len(),
    ensures
        ascii_raised(s).subrange(k, k + 6) == " FROM "@ <==> from_at(s, k),
{
    reveal_strlit(" FROM ");
    let part = ascii_raised(s).subrange(k, k + 6);
    assert(part[0] == ascii_upper(s[k]) && part[1] == ascii_upper(s[k + 1]) && part[2]
        == ascii_upper(s[k + 2]) && part[3] == ascii_upper(s[k + 3]) && part[4] == ascii_upper(
        s[k + 4],
    ) && part[5] == ascii_upper(s[k + 5]));
    if from_at(s, k) {
        assert(part =~= " FROM "@);
    }
}

proof fn lemma_find(s: Seq<char>, pattern: Seq<char>, from: int, at: int)
    requires
        0 <= from <= at,
        at + pattern.len() <= s.len(),
        s.subrange(at, at + pattern.len()) == pattern,
        forall|k: int| from <= k < at ==> #[trigger] s.subrange(k, k + pattern.len()) != pattern,
    ensures
        find_from(s, pattern, from) == Some(at),
    decreases at - from,
{
    if from < at {
        assert(s.subrange(from, from + pattern.len()) != pattern);
        lemma_find(s, pattern, from + 1, at);
    }
}

proof fn lemma_find_none(s: Seq<char>, pattern: Seq<char>, from: int)
    requires
        0 <= from,
        forall|k: int|
            from <= k && k + pattern.len() <= s.len() ==> #[trigger] s.subrange(k, k + pattern.len())
                != pattern,
    ensures
        find_from(s, pattern, from) is None,
    decreases s.len() + 1 - from,
{
    if from + pattern.len() <= s.len() {
        assert(s.subrange(from, from + pattern.len()) != pattern);
        lemma_find_none(s, pattern, from + 1);
    }
}

/// The columns of extended statistics are the items between the first `ON` and
/// the first `FROM` behind it, whatever the case of the two words.
pub proof fn law_columns_between_on_and_from(def: Seq<char>, on: int, from: int)
    requires
        0 <= on,
        on_at(def, on),
        forall|k: int| 0 <= k < on ==> !#[trigger] on_at(def, k),
        on + 4 <= from,
        from_at(def, from),
        forall|k: int| on + 4 <= k < from ==> !#[trigger] from_at(def, k),
    ensures
        columns_named(def) == list_items(def.subrange(on + 4, from)),
{
    reveal_strlit(" ON ");
    reveal_strlit(" FROM ");
    let raised = ascii_raised(def);
    lemma_on_at(def, on);
    assert forall|k: int| 0 <= k < on implies #[trigger] raised.subrange(k, k + " ON "@.len())
        != " ON "@ by {
        lemma_on_at(def, k);
        assert(!on_at(def, k));
    }
    lemma_find(raised, " ON "@, 0, on);
    let rest = def.skip(on + 4);
    let rest_raised = ascii_raised(rest);
    let m = from - on - 4;
    assert(rest_raised =~= raised.skip(on + 4));
    assert forall|k: int| 0 <= k <= m implies from_at(rest, k) == #[trigger] from_at(
        def,
        k + on + 4,
    ) by {}
    assert(from_at(def, m + on + 4));
    lemma_from_at(rest, m);
    assert forall|k: int| 0 <= k < m implies #[trigger] rest_raised.subrange(
        k,
        k + " FROM "@.len(),
    ) != " FROM "@ by {
        lemma_from_at(rest, k);
        assert(!from_at(def, k + on + 4));
    }
    lemma_find(rest_raised, " FROM "@, 0, m);
}

/// There are no columns where `ON` is missing, or where no `FROM` follows it.
pub proof fn law_no_columns_without_on_and_from(def: Seq<char>, on: int)
    requires
        0 <= on <= def.len(),
        on < def.len() ==> on_at(def, on),
        forall|k: int| 0 <= k < on ==> !#[trigger] on_at(def, k),
        forall|k: int| on + 4 <= k < def.len() ==> !#[trigger] from_at(def, k),
    ensures
        columns_named(def) == Seq::<Seq<char>>::empty(),
{
    reveal_strlit(" ON ");
    reveal_strlit(" FROM ");
    let raised = ascii_raised(def);
    assert forall|k: int|
        0 <= k < on && k + " ON "@.len() <= raised.len() implies #[trigger] raised.subrange(
        k,
        k + " ON "@.len(),
    ) != " ON "@ by {
        lemma_on_at(def, k);
        assert(!on_at(def, k));
    }
    if on == def.len() {
        lemma_find_none(raised, " ON "@, 0);
    } else {
        lemma_on_at(def, on);
        lemma_find(raised, " ON "@, 0, on);
        let rest = def.skip(on + 4);
        let rest_raised = ascii_raised(rest);
        assert forall|k: int|
            0 <= k && k + " FROM "@.len() <= rest_raised.len() implies #[trigger] rest_raised.subrange(
            k,
            k + " FROM "@.len(),
        ) != " FROM "@ by {
            lemma_from_at(rest, k);
            assert(!from_at(def, k + on + 4));
            assert(from_at(rest, k) == from_at(def, k + on + 4));
        }
        lemma_find_none(rest_raised, " FROM "@, 0);
    }
}

/// A literal stands between quotes, and inside it quotes come in pairs that
/// stand for one: the text is left when every second quote goes.
pub proof fn law_literal_quotes(s: Seq<char>)
    ensures
        sql_literal(s)[0] == '\'',
        sql_literal(s).last() == '\'',
        without(sql_literal(s), '\'') == without(s, '\''),
        only(sql_literal(s), '\'').len() == 2 * only(s, '\'').len() + 2,
{
    let (other, quote) = (other_than('\''), same_as('\''));
    let (a, b) = (seq!['\''], quotes_doubled(s));
    lemma_doubled_quotes(s);
    Seq::filter_distributes_over_add(a, b, other);
    Seq::filter_distributes_over_add(a, b, quote);
    Seq::filter_distributes_over_add(a + b, a, other);
    Seq::filter_distributes_over_add(a + b, a, quote);
    lemma_filter_front(a, other);
    lemma_filter_front(a, quote);
    assert(a.drop_first() =~= Seq::empty());
    reveal(Seq::filter);
    assert(Seq::<char>::empty().filter(other) =~= Seq::empty());
    assert(Seq::<char>::empty().filter(quote) =~= Seq::empty());
    assert(without(sql_literal(s), '\'') =~= without(s, '\''));
}

proof fn lemma_doubled_quotes(s: Seq<char>)
    ensures
        without(quotes_doubled(s), '\'') == without(s, '\''),
        only(quotes_doubled(s), '\'').len() == 2 * only(s, '\'').len(),
    decreases s.len(),
{
    let (other, quote) = (other_than('\''), same_as('\''));
    reveal(Seq::filter);
    if s.len() == 0 {
        assert(quotes_doubled(s) =~= s);
    } else {
        let rest = s.drop_last();
        lemma_doubled_quotes(rest);
        assert(s =~= rest.push(s.last()));
        let inner = quotes_doubled(rest);
        rest.lemma_filter_push(s.last(), other);
        rest.lemma_filter_push(s.last(), quote);
        inner.lemma_filter_push(s.last(), other);
        inner.lemma_filter_push(s.last(), quote);
        inner.push('\'').lemma_filter_push('\'', other);
        inner.push('\'').lemma_filter_push('\'', quote);
    }
}

} // verus!
