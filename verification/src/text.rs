//! Characters and strings: splitting, trimming, decimal numerals and line
//! endings, each stated over sequences of characters.

use vstd::prelude::*;
use vstd::utf8::is_ascii_chars;

verus! {

broadcast use vstd::string::group_string_axioms;

/// `String::push` of std: appends one character and changes nothing else.
pub assume_specification[ String::push ](s: &mut String, c: char)
    ensures
        final(s)@ == old(s)@.push(c),
;

/// What `str::to_lowercase` of std makes of a text (the Unicode lowercase mapping).
pub uninterp spec fn lowercase(s: Seq<char>) -> Seq<char>;

/// The lowercase letter of an ASCII capital; any other character as it is.
pub open spec fn ascii_lower(c: char) -> char {
    if 'A' <= c && c <= 'Z' {
        (c as u32 + 32) as char
    } else {
        c
    }
}

/// The capital of an ASCII lowercase letter; any other character as it is.
pub open spec fn ascii_upper(c: char) -> char {
    if 'a' <= c && c <= 'z' {
        (c as u32 - 32) as char
    } else {
        c
    }
}

/// `str::to_lowercase` of std: the result depends on the text alone, and on
/// ASCII text it lowers the capital letters and keeps every other character.
pub assume_specification[ str::to_lowercase ](s: &str) -> (r: String)
    ensures
        r@ == lowercase(s@),
        is_ascii_chars(s@) ==> r@ == s@.map_values(|c: char| ascii_lower(c)),
;

/// The texts of a list of strings.
pub open spec fn texts(list: Seq<String>) -> Seq<Seq<char>> {
    list.map_values(|s: String| s@)
}

/// The characters of `s`, in order.
pub fn chars_of(s: &str) -> (r: Vec<char>)
    ensures
        r@ == s@,
{
    let mut chars: Vec<char> = Vec::new();
    for c in it: s.chars()
        invariant
            it.seq() == s@,
            chars@ == it.seq().take(it.index() as int),
    {
        chars.push(c);
    }
    chars
}

/// The string made of the characters from `from` up to, not including, `to`.
pub fn text_between(chars: &Vec<char>, from: usize, to: usize) -> (r: String)
    requires
        from <= to <= chars@.len(),
    ensures
        r@ == chars@.subrange(from as int, to as int),
{
    let mut out = String::new();
    let mut i: usize = from;
    while i < to
        invariant
            from <= i <= to <= chars@.len(),
            out@ == chars@.subrange(from as int, i as int),
        decreases to - i,
    {
        out.push(chars[i]);
        i += 1;
        assert(chars@.subrange(from as int, i as int) =~= chars@.subrange(from as int, i - 1).push(
            chars@[i - 1],
        ));
    }
    out
}

/// Whether two strings hold the same text.
pub fn same_text(a: &str, b: &str) -> (r: bool)
    ensures
        r == (a@ == b@),
{
    let x = chars_of(a);
    let y = chars_of(b);
    if x.len() != y.len() {
        return false;
    }
    let mut i: usize = 0;
    while i < x.len()
        invariant
            i <= x@.len() == y@.len(),
            x@ == a@,
            y@ == b@,
            forall|k: int| 0 <= k < i ==> x@[k] == y@[k],
        decreases x@.len() - i,
    {
        if x[i] != y[i] {
            return false;
        }
        i += 1;
    }
    assert(x@ =~= y@);
    true
}

/// The numeral of one decimal digit.
pub open spec fn digit(d: nat) -> char {
    (48 + d) as char
}

/// `n` in decimal, without leading zeros.
pub open spec fn decimal(n: nat) -> Seq<char>
    decreases n,
{
    if n < 10 {
        seq![digit(n)]
    } else {
        decimal(n / 10).push(digit(n % 10))
    }
}

/// Appends `n` in decimal.
pub fn append_decimal(out: &mut String, n: u64)
    ensures
        final(out)@ == old(out)@ + decimal(n as nat),
    decreases n,
{
    if n >= 10 {
        append_decimal(out, n / 10);
    }
    let d: u8 = (n % 10) as u8;
    out.push((48 + d) as char);
    assert(out@ =~= old(out)@ + decimal(n as nat));
}

/// The characters that Unicode counts as white space.
pub open spec fn is_white_space(c: char) -> bool {
    let u = c as u32;
    ||| 0x9 <= u <= 0xd
    ||| u == 0x20
    ||| u == 0x85
    ||| u == 0xa0
    ||| u == 0x1680
    ||| 0x2000 <= u <= 0x200a
    ||| u == 0x2028
    ||| u == 0x2029
    ||| u == 0x202f
    ||| u == 0x205f
    ||| u == 0x3000
}

/// Whether `c` is white space.
pub fn white_space(c: char) -> (r: bool)
    ensures
        r == is_white_space(c),
{
    let u: u32 = c as u32;
    (0x9 <= u && u <= 0xd) || u == 0x20 || u == 0x85 || u == 0xa0 || u == 0x1680 || (0x2000 <= u && u
        <= 0x200a) || u == 0x2028 || u == 0x2029 || u == 0x202f || u == 0x205f || u == 0x3000
}

/// `s` without its leading white space.
pub open spec fn trim_start(s: Seq<char>) -> Seq<char>
    decreases s.len(),
{
    if s.len() > 0 && is_white_space(s[0]) {
        trim_start(s.drop_first())
    } else {
        s
    }
}

/// `s` without its trailing white space.
pub open spec fn trim_end(s: Seq<char>) -> Seq<char>
    decreases s.len(),
{
    if s.len() > 0 && is_white_space(s.last()) {
        trim_end(s.drop_last())
    } else {
        s
    }
}

/// `s` without leading and trailing white space.
pub open spec fn trim(s: Seq<char>) -> Seq<char> {
    trim_end(trim_start(s))
}

/// The part of `chars` from `from` up to `to`, trimmed.
pub fn trimmed_between(chars: &Vec<char>, from: usize, to: usize) -> (r: String)
    requires
        from <= to <= chars@.len(),
    ensures
        r@ == trim(chars@.subrange(from as int, to as int)),
{
    let ghost whole = chars@.subrange(from as int, to as int);
    let mut i: usize = from;
    while i < to && white_space(chars[i])
        invariant
            from <= i <= to <= chars@.len(),
            whole == chars@.subrange(from as int, to as int),
            trim_start(whole) == trim_start(chars@.subrange(i as int, to as int)),
        decreases to - i,
    {
        assert(chars@.subrange(i as int, to as int).drop_first() =~= chars@.subrange(
            i + 1,
            to as int,
        ));
        i += 1;
    }
    assert(trim_start(whole) == chars@.subrange(i as int, to as int));
    let mut j: usize = to;
    while i < j && white_space(chars[j - 1])
        invariant
            i <= j <= chars@.len(),
            trim(whole) == trim_end(chars@.subrange(i as int, j as int)),
        decreases j - i,
    {
        assert(chars@.subrange(i as int, j as int).drop_last() =~= chars@.subrange(
            i as int,
            j - 1,
        ));
        j -= 1;
    }
    text_between(chars, i, j)
}

/// The parts of `s` between separators; always at least one part.
pub open spec fn split_on(s: Seq<char>, sep: char) -> Seq<Seq<char>>
    decreases s.len(),
{
    if s.len() == 0 {
        seq![Seq::empty()]
    } else {
        let before = split_on(s.drop_last(), sep);
        if s.last() == sep {
            before.push(Seq::empty())
        } else {
            before.drop_last().push(before.last().push(s.last()))
        }
    }
}

/// The non-empty trimmed parts of a comma-separated list.
pub open spec fn list_items(s: Seq<char>) -> Seq<Seq<char>> {
    kept_items(split_on(s, ','))
}

/// The parts, trimmed, without those that are empty after trimming.
pub open spec fn kept_items(parts: Seq<Seq<char>>) -> Seq<Seq<char>> {
    parts.map_values(|part: Seq<char>| trim(part)).filter(|part: Seq<char>| part.len() > 0)
}

proof fn lemma_kept_push(parts: Seq<Seq<char>>, part: Seq<char>)
    ensures
        kept_items(parts.push(part)) == if trim(part).len() > 0 {
            kept_items(parts).push(trim(part))
        } else {
            kept_items(parts)
        },
{
    let nonempty = |p: Seq<char>| p.len() > 0;
    let mapped = parts.map_values(|p: Seq<char>| trim(p));
    assert(parts.push(part).map_values(|p: Seq<char>| trim(p)) =~= mapped.push(trim(part)));
    mapped.lemma_filter_push(trim(part), nonempty);
}

/// The last part of a split: `s` from `from` on holds no separator, and a
/// separator stands before it unless it begins the text.
proof fn lemma_split_last(s: Seq<char>, sep: char, from: int)
    requires
        0 <= from <= s.len(),
        from > 0 ==> s[from - 1] == sep,
        forall|k: int| from <= k < s.len() ==> s[k] != sep,
    ensures
        split_on(s, sep).last() == s.subrange(from, s.len() as int),
        split_on(s, sep).len() > 0,
        split_on(s, sep).drop_last() == if from == 0 {
            Seq::<Seq<char>>::empty()
        } else {
            split_on(s.subrange(0, from - 1), sep)
        },
    decreases s.len(),
{
    if s.len() == 0 {
        assert(split_on(s, sep).drop_last() =~= Seq::<Seq<char>>::empty());
        assert(s.subrange(0, 0) =~= Seq::<char>::empty());
    } else if from == s.len() {
        assert(s.subrange(from, s.len() as int) =~= Seq::<char>::empty());
        assert(s.drop_last() =~= s.subrange(0, from - 1));
        assert(split_on(s, sep).drop_last() =~= split_on(s.drop_last(), sep));
    } else {
        lemma_split_last(s.drop_last(), sep, from);
        assert(s.subrange(from, s.len() as int) =~= s.drop_last().subrange(
            from,
            s.len() - 1,
        ).push(s.last()));
        let before = split_on(s.drop_last(), sep);
        assert(split_on(s, sep).drop_last() =~= before.drop_last());
        if from > 0 {
            assert(s.drop_last().subrange(0, from - 1) =~= s.subrange(0, from - 1));
        }
    }
}

/// The non-empty trimmed items of a comma-separated list, in order.
pub fn split_list(s: &str) -> (r: Vec<String>)
    ensures
        texts(r@) == list_items(s@),
{
    let chars = chars_of(s);
    let mut items: Vec<String> = Vec::new();
    let mut from: usize = 0;
    let mut i: usize = 0;
    proof {
        assert(kept_items(Seq::empty()) =~= Seq::empty()) by {
            reveal(Seq::filter);
        }
    }
    while i < chars.len()
        invariant
            chars@ == s@,
            from <= i <= chars@.len(),
            from > 0 ==> chars@[from - 1] == ',',
            forall|k: int| from <= k < i ==> chars@[k] != ',',
            texts(items@) == if from == 0 {
                Seq::<Seq<char>>::empty()
            } else {
                kept_items(split_on(chars@.subrange(0, from - 1), ','))
            },
            kept_items(Seq::empty()) == Seq::<Seq<char>>::empty(),
        decreases chars@.len() - i,
    {
        if chars[i] == ',' {
            push_item(&mut items, &chars, from, i);
            from = i + 1;
        }
        i += 1;
    }
    push_item(&mut items, &chars, from, i);
    assert(chars@.subrange(0, i as int) =~= s@);
    items
}

/// Appends the trimmed part between two separators, unless it is empty.
fn push_item(items: &mut Vec<String>, chars: &Vec<char>, from: usize, to: usize)
    requires
        from <= to <= chars@.len(),
        from > 0 ==> chars@[from - 1] == ',',
        forall|k: int| from <= k < to ==> chars@[k] != ',',
        kept_items(Seq::empty()) == Seq::<Seq<char>>::empty(),
        texts(old(items)@) == if from == 0 {
            Seq::<Seq<char>>::empty()
        } else {
            kept_items(split_on(chars@.subrange(0, from - 1), ','))
        },
    ensures
        texts(final(items)@) == kept_items(split_on(chars@.subrange(0, to as int), ',')),
{
    let item = trimmed_between(chars, from, to);
    proof {
        let s = chars@.subrange(0, to as int);
        lemma_split_last(s, ',', from as int);
        let parts = split_on(s, ',');
        assert(parts =~= parts.drop_last().push(parts.last()));
        lemma_kept_push(parts.drop_last(), parts.last());
        assert(s.subrange(from as int, to as int) =~= chars@.subrange(from as int, to as int));
        if from > 0 {
            assert(s.subrange(0, from - 1) =~= chars@.subrange(0, from - 1));
        }
    }
    let ghost before = items@;
    if !item.as_str().is_empty() {
        items.push(item);
        assert(texts(items@) =~= texts(before).push(item@));
    }
}

/// `s` with every single quote doubled.
pub open spec fn quotes_doubled(s: Seq<char>) -> Seq<char>
    decreases s.len(),
{
    if s.len() == 0 {
        Seq::empty()
    } else if s.last() == '\'' {
        quotes_doubled(s.drop_last()).push('\'').push('\'')
    } else {
        quotes_doubled(s.drop_last()).push(s.last())
    }
}

/// The SQL string literal of `s`: in single quotes, inner quotes doubled.
pub open spec fn sql_literal(s: Seq<char>) -> Seq<char> {
    seq!['\''] + quotes_doubled(s) + seq!['\'']
}

/// Appends the SQL string literal of `s`.
pub fn append_sql_literal(out: &mut String, s: &str)
    ensures
        final(out)@ == old(out)@ + sql_literal(s@),
{
    let chars = chars_of(s);
    out.push('\'');
    let mut i: usize = 0;
    while i < chars.len()
        invariant
            i <= chars@.len(),
            chars@ == s@,
            out@ == old(out)@ + seq!['\''] + quotes_doubled(chars@.take(i as int)),
        decreases chars@.len() - i,
    {
        proof {
            assert(chars@.take(i + 1).drop_last() =~= chars@.take(i as int));
        }
        let ghost before = out@;
        let c = chars[i];
        if c == '\'' {
            out.push('\'');
        }
        out.push(c);
        i += 1;
        assert(out@ =~= old(out)@ + seq!['\''] + quotes_doubled(chars@.take(i as int)));
    }
    out.push('\'');
    assert(chars@.take(i as int) =~= s@);
    assert(out@ =~= old(out)@ + sql_literal(s@));
}

/// Reads the inside of an SQL string literal up to its closing quote: what it
/// stands for, and what follows it.
pub open spec fn read_quoted(s: Seq<char>) -> Option<(Seq<char>, Seq<char>)>
    decreases s.len(),
{
    if s.len() == 0 {
        None
    } else if s[0] == '\'' && s.len() > 1 && s[1] == '\'' {
        match read_quoted(s.skip(2)) {
            Some((value, rest)) => Some((seq!['\''] + value, rest)),
            None => None,
        }
    } else if s[0] == '\'' {
        Some((Seq::empty(), s.skip(1)))
    } else {
        match read_quoted(s.skip(1)) {
            Some((value, rest)) => Some((seq![s[0]] + value, rest)),
            None => None,
        }
    }
}

/// Reads the SQL string literal that `s` begins with: what it stands for, and
/// what follows it.
pub open spec fn read_literal(s: Seq<char>) -> Option<(Seq<char>, Seq<char>)> {
    if s.len() > 0 && s[0] == '\'' {
        read_quoted(s.skip(1))
    } else {
        None
    }
}

proof fn lemma_doubled_front(s: Seq<char>)
    requires
        s.len() > 0,
    ensures
        quotes_doubled(s) == if s[0] == '\'' {
            seq!['\'', '\''] + quotes_doubled(s.skip(1))
        } else {
            seq![s[0]] + quotes_doubled(s.skip(1))
        },
    decreases s.len(),
{
    let rest = s.skip(1);
    if s.len() == 1 {
        assert(rest =~= Seq::empty());
        assert(s.drop_last() =~= Seq::empty());
        assert(quotes_doubled(s.drop_last()) =~= Seq::empty());
        assert(quotes_doubled(s) =~= if s[0] == '\'' {
            seq!['\'', '\''] + quotes_doubled(rest)
        } else {
            seq![s[0]] + quotes_doubled(rest)
        });
    } else {
        lemma_doubled_front(s.drop_last());
        assert(s.drop_last().skip(1) =~= rest.drop_last());
        assert(quotes_doubled(s) =~= if s[0] == '\'' {
            seq!['\'', '\''] + quotes_doubled(rest)
        } else {
            seq![s[0]] + quotes_doubled(rest)
        });
    }
}

proof fn lemma_quoted_reads_back(s: Seq<char>, rest: Seq<char>)
    requires
        rest.len() == 0 || rest[0] != '\'',
    ensures
        read_quoted(quotes_doubled(s) + seq!['\''] + rest) == Some((s, rest)),
    decreases s.len(),
{
    let tail = seq!['\''] + rest;
    let all = quotes_doubled(s) + seq!['\''] + rest;
    if s.len() == 0 {
        assert(s =~= Seq::empty());
        assert(all =~= tail);
        assert(all.skip(1) =~= rest);
    } else {
        lemma_doubled_front(s);
        lemma_quoted_reads_back(s.skip(1), rest);
        let inner = quotes_doubled(s.skip(1)) + seq!['\''] + rest;
        assert(s =~= seq![s[0]] + s.skip(1));
        if s[0] == '\'' {
            assert(all =~= seq!['\'', '\''] + inner);
            assert(all.skip(2) =~= inner);
        } else {
            assert(all =~= seq![s[0]] + inner);
            assert(all.skip(1) =~= inner);
        }
    }
}

/// A text written as an SQL literal is read back as that text, whatever
/// follows, unless what follows begins with a quote.
pub proof fn law_literal_reads_back(s: Seq<char>, rest: Seq<char>)
    requires
        rest.len() == 0 || rest[0] != '\'',
    ensures
        read_literal(sql_literal(s) + rest) == Some((s, rest)),
{
    let inner = quotes_doubled(s) + seq!['\''] + rest;
    assert(sql_literal(s) + rest =~= seq!['\''] + inner);
    assert((sql_literal(s) + rest).skip(1) =~= inner);
    lemma_quoted_reads_back(s, rest);
}

/// Whether a carriage return followed by a line feed occurs in `s`.
pub open spec fn has_crlf(s: Seq<char>) -> bool {
    exists|i: int| 0 <= i < s.len() - 1 && #[trigger] s[i] == '\r' && s[i + 1] == '\n'
}

/// `s` with every carriage return that a line feed follows left out.
pub open spec fn line_endings_normalized(s: Seq<char>) -> Seq<char>
    decreases s.len(),
{
    if s.len() == 0 {
        s
    } else if s.len() > 1 && s[0] == '\r' && s[1] == '\n' {
        line_endings_normalized(s.drop_first())
    } else {
        seq![s[0]] + line_endings_normalized(s.drop_first())
    }
}

/// Whether `s` holds a CR LF line ending.
pub fn contains_crlf(s: &str) -> (r: bool)
    ensures
        r == has_crlf(s@),
{
    let chars = chars_of(s);
    let mut i: usize = 1;
    while i < chars.len()
        invariant
            1 <= i,
            i <= chars@.len() || i == 1,
            chars@ == s@,
            forall|k: int| 0 <= k < i - 1 && k < s@.len() - 1 ==> !(#[trigger] s@[k] == '\r' && s@[k + 1] == '\n'),
        decreases chars@.len() - i,
    {
        if chars[i - 1] == '\r' && chars[i] == '\n' {
            assert(s@[i - 1] == '\r' && s@[i - 1 + 1] == '\n');
            return true;
        }
        i += 1;
    }
    false
}

/// The text with CR LF line endings turned into LF.
pub fn normalize_line_endings(s: &str) -> (r: String)
    ensures
        r@ == line_endings_normalized(s@),
{
    let chars = chars_of(s);
    let mut out = String::new();
    let mut i: usize = 0;
    assert(chars@.skip(0) =~= s@);
    assert(out@ + line_endings_normalized(s@) =~= line_endings_normalized(s@));
    while i < chars.len()
        invariant
            i <= chars@.len(),
            chars@ == s@,
            line_endings_normalized(s@) == out@ + line_endings_normalized(chars@.skip(i as int)),
        decreases chars@.len() - i,
    {
        let ghost before = out@;
        let ghost rest = chars@.skip(i as int);
        let drop = i + 1 < chars.len() && chars[i] == '\r' && chars[i + 1] == '\n';
        proof {
            assert(rest.drop_first() =~= chars@.skip(i + 1));
        }
        if !drop {
            out.push(chars[i]);
        }
        i += 1;
        assert(out@ + line_endings_normalized(chars@.skip(i as int)) =~= before
            + line_endings_normalized(rest));
    }
    assert(chars@.skip(i as int) =~= Seq::<char>::empty());
    assert(out@ + Seq::<char>::empty() =~= out@);
    out
}

/// A text without CR LF line endings is left as it is.
pub proof fn law_normal_text_stays(s: Seq<char>)
    requires
        !has_crlf(s),
    ensures
        line_endings_normalized(s) == s,
    decreases s.len(),
{
    if s.len() > 0 {
        let rest = s.drop_first();
        assert(!has_crlf(rest)) by {
            if has_crlf(rest) {
                let i = choose|i: int| 0 <= i < rest.len() - 1 && #[trigger] rest[i] == '\r' && rest[i
                    + 1] == '\n';
                assert(s[i + 1] == '\r' && s[i + 1 + 1] == '\n');
            }
        }
        law_normal_text_stays(rest);
        assert(!(s.len() > 1 && s[0] == '\r' && s[1] == '\n'));
        assert(seq![s[0]] + rest =~= s);
    }
}

/// No CR LF line ending is left, provided that no CR LF follows a carriage
/// return. In `CR CR LF` one carriage return goes and `CR LF` stays.
pub proof fn law_no_crlf_left(s: Seq<char>)
    requires
        forall|i: int|
            0 <= i < s.len() - 2 ==> !(#[trigger] s[i] == '\r' && s[i + 1] == '\r' && s[i + 2]
                == '\n'),
    ensures
        !has_crlf(line_endings_normalized(s)),
    decreases s.len(),
{
    let out = line_endings_normalized(s);
    if s.len() > 0 {
        let rest = s.drop_first();
        assert forall|i: int| 0 <= i < rest.len() - 2 implies !(#[trigger] rest[i] == '\r' && rest[i
            + 1] == '\r' && rest[i + 2] == '\n') by {
            assert(rest[i] == s[i + 1] && rest[i + 1] == s[i + 1 + 1] && rest[i + 2] == s[i + 1
                + 2]);
        }
        law_no_crlf_left(rest);
        let tail = line_endings_normalized(rest);
        if !(s.len() > 1 && s[0] == '\r' && s[1] == '\n') && has_crlf(out) {
            let i = choose|i: int| 0 <= i < out.len() - 1 && #[trigger] out[i] == '\r' && out[i + 1]
                == '\n';
            if i > 0 {
                assert(tail[i - 1] == '\r' && tail[i - 1 + 1] == '\n');
            } else {
                assert(tail[0] == '\n');
                assert(s[0] == '\r');
                assert(rest[0] == s[1]);
                if rest.len() > 1 && rest[0] == '\r' && rest[1] == '\n' {
                    assert(s[0] == '\r' && s[1] == '\r' && s[2] == '\n');
                }
            }
        }
    }
}

/// Normalizing twice is normalizing once, under the same proviso.
pub proof fn law_normalizing_again(s: Seq<char>)
    requires
        forall|i: int|
            0 <= i < s.len() - 2 ==> !(#[trigger] s[i] == '\r' && s[i + 1] == '\r' && s[i + 2]
                == '\n'),
    ensures
        line_endings_normalized(line_endings_normalized(s)) == line_endings_normalized(s),
{
    law_no_crlf_left(s);
    law_normal_text_stays(line_endings_normalized(s));
}

/// Equal up to the case of ASCII letters.
pub open spec fn same_ignoring_ascii_case(a: Seq<char>, b: Seq<char>) -> bool {
    a.map_values(|c: char| ascii_lower(c)) == b.map_values(|c: char| ascii_lower(c))
}

/// The lowercase letter of an ASCII capital; any other character as it is.
pub fn ascii_lowered(c: char) -> (r: char)
    ensures
        r == ascii_lower(c),
{
    if 'A' <= c && c <= 'Z' {
        let u: u8 = c as u8;
        (u + 32) as char
    } else {
        c
    }
}

/// The capital of an ASCII lowercase letter; any other character as it is.
pub fn ascii_upped(c: char) -> (r: char)
    ensures
        r == ascii_upper(c),
{
    if 'a' <= c && c <= 'z' {
        let u: u8 = c as u8;
        (u - 32) as char
    } else {
        c
    }
}

/// Whether `a` and `b` agree up to the case of ASCII letters.
pub fn same_text_ignoring_ascii_case(a: &str, b: &str) -> (r: bool)
    ensures
        r == same_ignoring_ascii_case(a@, b@),
{
    let x = chars_of(a);
    let y = chars_of(b);
    let ghost lx = a@.map_values(|c: char| ascii_lower(c));
    let ghost ly = b@.map_values(|c: char| ascii_lower(c));
    if x.len() != y.len() {
        assert(lx.len() != ly.len());
        return false;
    }
    let mut i: usize = 0;
    while i < x.len()
        invariant
            i <= x@.len() == y@.len(),
            x@ == a@,
            y@ == b@,
            lx == a@.map_values(|c: char| ascii_lower(c)),
            ly == b@.map_values(|c: char| ascii_lower(c)),
            forall|k: int| 0 <= k < i ==> lx[k] == ly[k],
        decreases x@.len() - i,
    {
        if ascii_lowered(x[i]) != ascii_lowered(y[i]) {
            assert(lx[i as int] != ly[i as int]);
            return false;
        }
        i += 1;
    }
    assert(lx =~= ly);
    true
}

/// Whether `s` begins with `prefix`.
pub fn starts_with(s: &str, prefix: &str) -> (r: bool)
    ensures
        r == prefix@.is_prefix_of(s@),
{
    let x = chars_of(s);
    let y = chars_of(prefix);
    if x.len() < y.len() {
        return false;
    }
    let mut i: usize = 0;
    while i < y.len()
        invariant
            i <= y@.len() <= x@.len(),
            x@ == s@,
            y@ == prefix@,
            forall|k: int| 0 <= k < i ==> x@[k] == y@[k],
        decreases y@.len() - i,
    {
        if x[i] != y[i] {
            assert(s@.subrange(0, prefix@.len() as int)[i as int] != prefix@[i as int]);
            return false;
        }
        i += 1;
    }
    assert(prefix@ =~= s@.subrange(0, prefix@.len() as int));
    true
}

} // verus!
