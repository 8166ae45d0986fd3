//! Character-level operations on text.
//!
//! A string is modelled by the sequence of its Unicode scalar values; every
//! length and limit below counts those, never bytes.

use vstd::prelude::*;

verus! {

/// The character that marks text as cut off.
pub const ELLIPSIS: char = '…';

/// `String::push` appends one character.
pub assume_specification[ String::push ](s: &mut String, c: char)
    ensures
        final(s)@ == old(s)@.push(c),
;

/// Whether a character has the Unicode property `White_Space`.
pub open spec fn is_white_space(c: char) -> bool {
    let code = c as u32;
    ||| 0x09 <= code <= 0x0d
    ||| code == 0x20
    ||| code == 0x85
    ||| code == 0xa0
    ||| code == 0x1680
    ||| 0x2000 <= code <= 0x200a
    ||| code == 0x2028
    ||| code == 0x2029
    ||| code == 0x202f
    ||| code == 0x205f
    ||| code == 0x3000
}

/// `char::is_whitespace` decides the Unicode property `White_Space`.
pub assume_specification[ char::is_whitespace ](c: char) -> (r: bool)
    ensures
        r == is_white_space(c),
;

/// The text without its leading white space.
pub open spec fn trimmed_start(s: Seq<char>) -> Seq<char>
    decreases s.len(),
{
    if s.len() > 0 && is_white_space(s[0]) {
        trimmed_start(s.drop_first())
    } else {
        s
    }
}

/// The text without its trailing white space.
pub open spec fn trimmed_end(s: Seq<char>) -> Seq<char>
    decreases s.len(),
{
    if s.len() > 0 && is_white_space(s.last()) {
        trimmed_end(s.drop_last())
    } else {
        s
    }
}

/// The text without the white space around it.
pub open spec fn trimmed(s: Seq<char>) -> Seq<char> {
    trimmed_end(trimmed_start(s))
}

/// At most `max` characters of the text, with an ellipsis after them where
/// something was cut off.
pub open spec fn truncated(s: Seq<char>, max: nat) -> Seq<char> {
    if s.len() <= max {
        s
    } else {
        s.take(max as int).push(ELLIPSIS)
    }
}

/// The text cut to at most `max` characters, where the ellipsis that marks a
/// cut counts as one of them.
pub open spec fn truncated_within(s: Seq<char>, max: nat) -> Seq<char> {
    if s.len() <= max {
        s
    } else if max == 0 {
        Seq::empty()
    } else {
        s.take(max - 1).push(ELLIPSIS)
    }
}

/// Cuts a text after `max` characters and marks the cut.
pub fn truncate_chars(s: &str, max: usize) -> (r: String)
    ensures
        r@ == truncated(s@, max as nat),
{
    if s.unicode_len() <= max {
        s.to_owned()
    } else {
        let mut out = s.substring_char(0, max).to_owned();
        out.push(ELLIPSIS);
        out
    }
}

/// Cuts a text so that it has at most `max_chars` characters, the mark of the
/// cut included.
pub fn truncate_within_char_limit(text: &str, max_chars: usize) -> (r: String)
    ensures
        r@ == truncated_within(text@, max_chars as nat),
{
    if text.unicode_len() <= max_chars {
        return text.to_owned();
    }
    if max_chars == 0 {
        return String::new();
    }
    let mut output = text.substring_char(0, max_chars - 1).to_owned();
    output.push(ELLIPSIS);
    output
}

/// The characters of a text.
pub fn chars_of(s: &str) -> (r: Vec<char>)
    ensures
        r@ == s@,
{
    let mut out: Vec<char> = Vec::new();
    for c in it: s.chars()
        invariant
            it.seq() == s@,
            out@ == s@.take(it.index()),
    {
        out.push(c);
    }
    assert(s@.take(s@.len() as int) =~= s@);
    out
}

/// Removes the white space around a text.
pub fn trim(s: &str) -> (r: &str)
    ensures
        r@ == trimmed(s@),
{
    let chars = chars_of(s);
    let mut start: usize = 0;
    assert(s@.skip(0) =~= s@);
    while start < chars.len() && chars[start].is_whitespace()
        invariant
            chars@ == s@,
            start <= chars.len(),
            trimmed_start(s@) == trimmed_start(s@.skip(start as int)),
        decreases chars.len() - start,
    {
        assert(s@.skip(start as int).drop_first() =~= s@.skip(start + 1));
        start = start + 1;
    }
    let mut end: usize = chars.len();
    assert(s@.subrange(start as int, end as int) =~= s@.skip(start as int));
    while start < end && chars[end - 1].is_whitespace()
        invariant
            chars@ == s@,
            start <= end <= chars.len(),
            trimmed(s@) == trimmed_end(s@.subrange(start as int, end as int)),
        decreases end - start,
    {
        assert(s@.subrange(start as int, end as int).drop_last() =~= s@.subrange(
            start as int,
            end - 1,
        ));
        end = end - 1;
    }
    s.substring_char(start, end)
}

/// A cut text never exceeds its limit by more than the ellipsis.
pub proof fn truncated_length(s: Seq<char>, max: nat)
    ensures
        truncated(s, max).len() <= max + 1,
        s.len() > max ==> truncated(s, max).last() == ELLIPSIS,
{
}

/// A text cut within a limit never exceeds the limit, and cutting it again at
/// the same limit changes nothing.
pub proof fn truncated_within_limit(s: Seq<char>, max: nat)
    ensures
        truncated_within(s, max).len() <= max,
        truncated_within(truncated_within(s, max), max) == truncated_within(s, max),
        s.len() > max && max > 0 ==> truncated_within(s, max).last() == ELLIPSIS,
{
}

/// Trimmed text has no white space left to trim.
pub proof fn trimmed_is_stable(s: Seq<char>)
    ensures
        trimmed(trimmed(s)) == trimmed(s),
{
    trimmed_start_has_no_leading_space(s);
    let t = trimmed_start(s);
    trimmed_end_has_no_trailing_space(t);
    trimmed_end_keeps_the_front(t);
}

proof fn trimmed_start_has_no_leading_space(s: Seq<char>)
    ensures
        trimmed_start(s).len() > 0 ==> !is_white_space(trimmed_start(s)[0]),
    decreases s.len(),
{
    if s.len() > 0 && is_white_space(s[0]) {
        trimmed_start_has_no_leading_space(s.drop_first());
    }
}

proof fn trimmed_end_has_no_trailing_space(s: Seq<char>)
    ensures
        trimmed_end(s).len() > 0 ==> !is_white_space(trimmed_end(s).last()),
    decreases s.len(),
{
    if s.len() > 0 && is_white_space(s.last()) {
        trimmed_end_has_no_trailing_space(s.drop_last());
    }
}

proof fn trimmed_end_keeps_the_front(s: Seq<char>)
    ensures
        trimmed_end(s).len() > 0 ==> s.len() > 0 && trimmed_end(s)[0] == s[0],
    decreases s.len(),
{
    if s.len() > 0 && is_white_space(s.last()) {
        trimmed_end_keeps_the_front(s.drop_last());
    }
}

/// Whether two texts are the same.
pub fn same_text(a: &str, b: &str) -> (r: bool)
    ensures
        r == (a@ == b@),
{
    let n: usize = a.unicode_len();
    assert(a@.subrange(0, a@.len() as int) =~= a@);
    n == b.unicode_len() && starts_with(a, b)
}

/// Whether a text starts with another one.
pub fn starts_with(s: &str, prefix: &str) -> (r: bool)
    ensures
        r == prefix@.is_prefix_of(s@),
{
    let n: usize = prefix.unicode_len();
    if s.unicode_len() < n {
        return false;
    }
    let mut i: usize = 0;
    while i < n
        invariant
            n == prefix@.len(),
            n <= s@.len(),
            i <= n,
            prefix@.take(i as int) == s@.take(i as int),
        decreases n - i,
    {
        if s.get_char(i) != prefix.get_char(i) {
            proof {
                assert(prefix@[i as int] != s@.subrange(0, n as int)[i as int]);
            }
            return false;
        }
        assert(prefix@.take(i + 1) =~= prefix@.take(i as int).push(prefix@[i as int]));
        assert(s@.take(i + 1) =~= s@.take(i as int).push(s@[i as int]));
        i = i + 1;
    }
    assert(prefix@.take(n as int) =~= prefix@);
    true
}

/// Whether a text ends with another one.
pub fn ends_with(s: &str, suffix: &str) -> (r: bool)
    ensures
        r == suffix@.is_suffix_of(s@),
{
    let n: usize = s.unicode_len();
    let k: usize = suffix.unicode_len();
    k <= n && same_text(s.substring_char(n - k, n), suffix)
}

/// The models of texts.
pub open spec fn texts(s: Seq<String>) -> Seq<Seq<char>> {
    s.map_values(|text: String| text@)
}

/// The parts of a text between the occurrences of a separator.
pub open spec fn split(s: Seq<char>, separator: char) -> Seq<Seq<char>>
    decreases s.len(),
{
    if s.len() == 0 {
        seq![Seq::empty()]
    } else {
        let parts = split(s.drop_last(), separator);
        if s.last() == separator {
            parts.push(Seq::empty())
        } else {
            parts.drop_last().push(parts.last().push(s.last()))
        }
    }
}

/// Texts put together, with a separator between each and the next.
pub open spec fn joined(parts: Seq<Seq<char>>, separator: Seq<char>) -> Seq<char>
    decreases parts.len(),
{
    if parts.len() == 0 {
        Seq::empty()
    } else if parts.len() == 1 {
        parts[0]
    } else {
        joined(parts.drop_last(), separator) + separator + parts.last()
    }
}

proof fn split_is_not_empty(s: Seq<char>, separator: char)
    ensures
        split(s, separator).len() > 0,
    decreases s.len(),
{
    if s.len() > 0 {
        split_is_not_empty(s.drop_last(), separator);
    }
}

/// Putting the parts of a text together again gives back the text.
pub proof fn split_parts_make_the_text(s: Seq<char>, separator: char)
    ensures
        joined(split(s, separator), seq![separator]) == s,
    decreases s.len(),
{
    let sep = seq![separator];
    if s.len() > 0 {
        let before = split(s.drop_last(), separator);
        let parts = split(s, separator);
        split_is_not_empty(s.drop_last(), separator);
        split_parts_make_the_text(s.drop_last(), separator);
        if s.last() == separator {
            assert(parts.drop_last() =~= before);
            assert(joined(before, sep) + sep + Seq::<char>::empty() =~= s);
        } else if before.len() == 1 {
            assert(parts =~= seq![before.last().push(s.last())]);
            assert(before.last().push(s.last()) =~= s);
        } else {
            assert(parts.drop_last() =~= before.drop_last());
            let front = joined(before.drop_last(), sep) + sep;
            assert(front + before.last() == s.drop_last());
            assert(front + before.last().push(s.last()) =~= s.drop_last().push(s.last()));
            assert(s.drop_last().push(s.last()) =~= s);
        }
    }
}

/// Splits a text at each occurrence of a separator.
pub fn split_at_each(s: &str, separator: char) -> (r: Vec<String>)
    ensures
        texts(r@) == split(s@, separator),
{
    let mut out: Vec<String> = Vec::new();
    let mut part = String::new();
    assert(s@.take(0) =~= Seq::empty());
    for c in it: s.chars()
        invariant
            it.seq() == s@,
            texts(out@).push(part@) == split(s@.take(it.index()), separator),
    {
        let ghost i = it.index();
        let ghost before = texts(out@);
        proof {
            assert(s@.take(i + 1).drop_last() =~= s@.take(i));
            assert(s@.take(i + 1).last() == c);
            assert(before.push(part@).drop_last() =~= before);
        }
        if c == separator {
            out.push(part);
            part = String::new();
            assert(texts(out@) =~= before.push(split(s@.take(i), separator).last()));
        } else {
            part.push(c);
        }
    }
    let ghost before = texts(out@);
    out.push(part);
    assert(s@.take(s@.len() as int) =~= s@);
    assert(texts(out@) =~= before.push(part@));
    out
}

/// Puts texts together, with a separator between each and the next.
pub fn join(parts: &Vec<String>, separator: &str) -> (r: String)
    ensures
        r@ == joined(texts(parts@), separator@),
{
    let mut out = String::new();
    let mut i: usize = 0;
    assert(texts(parts@).take(0) =~= Seq::empty());
    while i < parts.len()
        invariant
            i <= parts@.len(),
            out@ == joined(texts(parts@).take(i as int), separator@),
        decreases parts@.len() - i,
    {
        proof {
            let parts = texts(parts@);
            assert(parts.take(i + 1).drop_last() =~= parts.take(i as int));
            assert(parts.take(i + 1).last() == parts[i as int]);
        }
        if i > 0 {
            out.append(separator);
        }
        out.append(parts[i].as_str());
        assert(out@ =~= joined(texts(parts@).take(i + 1), separator@));
        i = i + 1;
    }
    assert(texts(parts@).take(i as int) =~= texts(parts@));
    out
}

/// A line without the carriage return that ends it.
pub open spec fn without_carriage_return(line: Seq<char>) -> Seq<char> {
    if line.len() > 0 && line.last() == '\r' {
        line.drop_last()
    } else {
        line
    }
}

/// The lines of a text. Each ends in a line feed, or in a carriage return and a
/// line feed; the last one may end without either.
pub open spec fn lines(s: Seq<char>) -> Seq<Seq<char>> {
    let parts = split(s, '\n');
    let ended = parts.drop_last().map_values(|line: Seq<char>| without_carriage_return(line));
    if parts.last().len() == 0 {
        ended
    } else {
        ended.push(parts.last())
    }
}

/// The lines of a text, in order.
pub fn lines_of(s: &str) -> (r: Vec<String>)
    ensures
        texts(r@) == lines(s@),
{
    let parts = split_at_each(s, '\n');
    let ghost all = split(s@, '\n');
    let ghost ended = all.drop_last().map_values(
        |line: Seq<char>| without_carriage_return(line),
    );
    proof {
        split_is_not_empty(s@, '\n');
        assert(parts@.len() == texts(parts@).len());
    }
    let last: usize = parts.len() - 1;
    let mut out: Vec<String> = Vec::new();
    let mut i: usize = 0;
    assert(texts(out@) =~= ended.take(0));
    while i < last
        invariant
            last + 1 == parts@.len(),
            all == texts(parts@),
            ended == all.drop_last().map_values(|line: Seq<char>| without_carriage_return(line)),
            i <= last,
            texts(out@) == ended.take(i as int),
        decreases last - i,
    {
        let line = parts[i].as_str();
        let n: usize = line.unicode_len();
        let ghost before = texts(out@);
        assert(line@ == all[i as int]);
        if n > 0 && line.get_char(n - 1) == '\r' {
            out.push(line.substring_char(0, n - 1).to_owned());
            assert(out@.last()@ =~= line@.drop_last());
        } else {
            out.push(line.to_owned());
        }
        assert(texts(out@) =~= before.push(out@.last()@));
        assert(ended.take(i + 1) =~= ended.take(i as int).push(ended[i as int]));
        i = i + 1;
    }
    assert(ended.take(i as int) =~= ended);
    assert(parts@[last as int]@ == all.last());
    if !parts[last].as_str().is_empty() {
        let ghost before = texts(out@);
        out.push(parts[last].clone());
        assert(texts(out@) =~= before.push(all.last()));
    }
    out
}

/// No part of a split text holds the separator.
pub proof fn split_parts_have_no_separator(s: Seq<char>, separator: char)
    ensures
        forall|i: int|
            0 <= i < split(s, separator).len() ==> !(#[trigger] split(s, separator)[i]).contains(
                separator,
            ),
    decreases s.len(),
{
    if s.len() > 0 {
        let before = split(s.drop_last(), separator);
        let parts = split(s, separator);
        split_is_not_empty(s.drop_last(), separator);
        split_parts_have_no_separator(s.drop_last(), separator);
        assert forall|i: int| 0 <= i < parts.len() implies !(#[trigger] parts[i]).contains(
            separator,
        ) by {
            if i < parts.len() - 1 {
                assert(parts[i] == before[i]);
            } else if s.last() != separator {
                let part = before.last();
                assert(!part.contains(separator));
                assert forall|j: int| 0 <= j < parts[i].len() implies parts[i][j] != separator by {
                    if j < part.len() {
                        assert(part[j] == parts[i][j]);
                        assert(part.contains(part[j]));
                    }
                }
            }
        }
    }
}

proof fn split_without_separator(s: Seq<char>, separator: char)
    requires
        !s.contains(separator),
    ensures
        split(s, separator) == seq![s],
    decreases s.len(),
{
    if s.len() > 0 {
        let front = s.drop_last();
        assert(s.contains(s.last()));
        assert forall|i: int| 0 <= i < front.len() implies front[i] != separator by {
            assert(s.contains(s[i]));
        }
        split_without_separator(front, separator);
        assert(split(s, separator) =~= seq![s]) by {
            assert(front.push(s.last()) =~= s);
        }
    } else {
        assert(s =~= Seq::empty());
    }
}

proof fn split_of_both(a: Seq<char>, b: Seq<char>, separator: char)
    ensures
        split(a + seq![separator] + b, separator) == split(a, separator) + split(b, separator),
    decreases b.len(),
{
    let s = a + seq![separator] + b;
    if b.len() == 0 {
        assert(s.drop_last() =~= a);
        assert(split(s, separator) =~= split(a, separator) + split(b, separator));
    } else {
        split_of_both(a, b.drop_last(), separator);
        split_is_not_empty(b.drop_last(), separator);
        assert(s.drop_last() =~= a + seq![separator] + b.drop_last());
        assert(s.last() == b.last());
        assert(split(s, separator) =~= split(a, separator) + split(b, separator));
    }
}

/// Splitting a text that was put together from parts gives back the parts, as
/// long as none of them holds the separator.
pub proof fn joined_parts_are_split_again(parts: Seq<Seq<char>>, separator: char)
    requires
        parts.len() > 0,
        forall|i: int| 0 <= i < parts.len() ==> !(#[trigger] parts[i]).contains(separator),
    ensures
        split(joined(parts, seq![separator]), separator) == parts,
    decreases parts.len(),
{
    if parts.len() == 1 {
        split_without_separator(parts[0], separator);
        assert(seq![parts[0]] =~= parts);
    } else {
        let front = parts.drop_last();
        assert forall|i: int| 0 <= i < front.len() implies !(#[trigger] front[i]).contains(
            separator,
        ) by {
            assert(front[i] == parts[i]);
        }
        joined_parts_are_split_again(front, separator);
        split_without_separator(parts.last(), separator);
        split_of_both(joined(front, seq![separator]), parts.last(), separator);
        assert(front + seq![parts.last()] =~= parts);
    }
}

/// Whether a text is nothing but white space.
pub open spec fn is_blank(s: Seq<char>) -> bool {
    forall|i: int| 0 <= i < s.len() ==> is_white_space(#[trigger] s[i])
}

proof fn trimmed_start_takes_white_space_off(s: Seq<char>) -> (n: int)
    ensures
        0 <= n <= s.len(),
        trimmed_start(s) == s.skip(n),
        is_blank(s.take(n)),
    decreases s.len(),
{
    if s.len() > 0 && is_white_space(s[0]) {
        let n = trimmed_start_takes_white_space_off(s.drop_first());
        assert(s.drop_first().skip(n) =~= s.skip(n + 1));
        assert forall|i: int| 0 <= i < n + 1 implies is_white_space(#[trigger] s.take(n + 1)[i]) by {
            if i > 0 {
                assert(s.drop_first().take(n)[i - 1] == s[i]);
            }
        }
        n + 1
    } else {
        assert(s.skip(0) =~= s);
        0
    }
}

proof fn trimmed_end_takes_white_space_off(s: Seq<char>) -> (n: int)
    ensures
        0 <= n <= s.len(),
        trimmed_end(s) == s.take(n),
        is_blank(s.skip(n)),
    decreases s.len(),
{
    if s.len() > 0 && is_white_space(s.last()) {
        let n = trimmed_end_takes_white_space_off(s.drop_last());
        assert(s.drop_last().take(n) =~= s.take(n));
        assert forall|i: int| 0 <= i < s.len() - n implies is_white_space(#[trigger] s.skip(n)[i]) by {
            if i < s.len() - n - 1 {
                assert(s.drop_last().skip(n)[i] == s.skip(n)[i]);
            }
        }
        n
    } else {
        assert(s.take(s.len() as int) =~= s);
        s.len() as int
    }
}

/// Trimming takes nothing but white space off a text, and leaves none at either
/// end: the text is what is left of it, between two stretches of white space.
pub proof fn only_white_space_is_trimmed(s: Seq<char>) -> (r: (Seq<char>, Seq<char>))
    ensures
        is_blank(r.0),
        is_blank(r.1),
        s == r.0 + trimmed(s) + r.1,
        trimmed(s).len() > 0 ==> !is_white_space(trimmed(s)[0]) && !is_white_space(
            trimmed(s).last(),
        ),
        is_blank(s) ==> trimmed(s).len() == 0,
{
    let n = trimmed_start_takes_white_space_off(s);
    let t = trimmed_start(s);
    let k = trimmed_end_takes_white_space_off(t);
    trimmed_start_has_no_leading_space(s);
    trimmed_end_has_no_trailing_space(t);
    trimmed_end_keeps_the_front(t);
    assert(s =~= s.take(n) + t.take(k) + t.skip(k));
    if is_blank(s) && trimmed(s).len() > 0 {
        assert(trimmed(s)[0] == s[n]);
    }
    (s.take(n), t.skip(k))
}

/// A cut text starts like the text, has so many characters of it, and then an
/// ellipsis. A text that fits is not cut.
pub proof fn cut_text_keeps_its_front(s: Seq<char>, max: nat, i: int)
    ensures
        s.len() <= max ==> truncated(s, max) == s && truncated_within(s, max) == s,
        s.len() > max ==> {
            &&& truncated(s, max).len() == max + 1
            &&& 0 <= i < max ==> truncated(s, max)[i] == s[i]
            &&& truncated(s, max)[max as int] == '…'
            &&& truncated_within(s, max).len() == max
            &&& 0 <= i < max - 1 ==> truncated_within(s, max)[i] == s[i]
            &&& max > 0 ==> truncated_within(s, max)[max - 1] == '…'
        },
{
}

/// Texts are put together in their order, with one separator between any two of
/// them and none around them.
pub proof fn parts_are_joined_in_order(
    front: Seq<Seq<char>>,
    back: Seq<Seq<char>>,
    part: Seq<char>,
    separator: Seq<char>,
)
    ensures
        joined(Seq::<Seq<char>>::empty(), separator) == Seq::<char>::empty(),
        joined(seq![part], separator) == part,
        front.len() > 0 && back.len() > 0 ==> joined(front + back, separator) == joined(
            front,
            separator,
        ) + separator + joined(back, separator),
    decreases back.len(),
{
    if front.len() > 0 && back.len() > 0 {
        let all = front + back;
        assert(all.drop_last() =~= front + back.drop_last());
        if back.len() == 1 {
            assert(all.drop_last() =~= front);
        } else {
            parts_are_joined_in_order(front, back.drop_last(), part, separator);
            assert(joined(all, separator) =~= joined(front, separator) + separator + joined(
                back,
                separator,
            ));
        }
    }
}

/// A text without a separator is its only part, and putting a separator between
/// two texts makes the parts of the one be followed by those of the other.
pub proof fn text_is_split_at_each_separator(a: Seq<char>, b: Seq<char>, separator: char)
    ensures
        split(a + seq![separator] + b, separator) == split(a, separator) + split(b, separator),
        !a.contains(separator) ==> split(a, separator) == seq![a],
{
    split_of_both(a, b, separator);
    if !a.contains(separator) {
        split_without_separator(a, separator);
    }
}

/// A text begins with its first line, which ends at the first line feed and
/// leaves out the carriage return before it; the lines of the rest follow. What
/// comes after the last line feed is a line unless it is empty.
pub proof fn lines_come_one_by_one(line: Seq<char>, rest: Seq<char>)
    requires
        !line.contains('\n'),
    ensures
        lines(line + seq!['\n'] + rest) == seq![
            if line.len() > 0 && line.last() == '\r' {
                line.drop_last()
            } else {
                line
            },
        ] + lines(rest),
        line.len() > 0 ==> lines(line) == seq![line],
        line.len() == 0 ==> lines(line) == Seq::<Seq<char>>::empty(),
{
    let all = line + seq!['\n'] + rest;
    split_of_both(line, rest, '\n');
    split_without_separator(line, '\n');
    split_is_not_empty(rest, '\n');
    let parts = split(rest, '\n');
    assert(split(all, '\n') =~= seq![line] + parts);
    assert(split(all, '\n').last() == parts.last());
    let first = if line.len() > 0 && line.last() == '\r' {
        line.drop_last()
    } else {
        line
    };
    assert(lines(all) =~= seq![first] + lines(rest));
    assert(seq![line].last() == line);
    if line.len() > 0 {
        assert(lines(line) =~= seq![line]);
    } else {
        assert(lines(line) =~= Seq::<Seq<char>>::empty());
    }
}

/// The models of texts are those of each of them, in their order.
pub proof fn texts_are_taken_one_for_one(s: Seq<String>, i: int)
    ensures
        texts(s).len() == s.len(),
        0 <= i < s.len() ==> texts(s)[i] == s[i]@,
{
}

/// Among the ASCII characters the space, the tabulators, the line and form feeds
/// and the carriage return are white space, and no others.
pub proof fn ascii_white_space_is_six_characters(c: char)
    requires
        (c as u32) < 0x80,
    ensures
        is_white_space(c) == (c == ' ' || c == '\t' || c == '\n' || c == '\x0b' || c == '\x0c' || c
            == '\r'),
{
}

} // verus!
