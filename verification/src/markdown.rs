//! Text made to appear literally in Markdown.

use vstd::prelude::*;

verus! {

/// Whether a character is escaped with a backslash.
pub open spec fn is_markup(c: char) -> bool {
    ||| c == '\\'
    ||| c == '`'
    ||| c == '*'
    ||| c == '_'
    ||| c == '['
    ||| c == '^'
    ||| c == '$'
    ||| c == '~'
    ||| c == '&'
    ||| c == '#'
    ||| c == '+'
    ||| c == '='
    ||| c == '-'
}

/// What stands for a character in the escaped text: angle brackets become
/// HTML entities, so that no tag or quotation is opened, and markup is
/// preceded by a backslash.
pub open spec fn escaped_char(c: char) -> Seq<char> {
    if c == '<' {
        seq!['&', 'l', 't', ';']
    } else if c == '>' {
        seq!['&', 'g', 't', ';']
    } else if is_markup(c) {
        seq!['\\', c]
    } else {
        seq![c]
    }
}

/// The text as it is written in Markdown in order to appear literally.
pub open spec fn escaped(s: Seq<char>) -> Seq<char>
    decreases s.len(),
{
    if s.len() == 0 {
        Seq::empty()
    } else {
        escaped(s.drop_last()) + escaped_char(s.last())
    }
}

/// A text without markup and angle brackets is written as it is.
pub proof fn plain_text_is_kept(s: Seq<char>)
    requires
        forall|i: int| 0 <= i < s.len() ==> !is_markup(#[trigger] s[i]) && s[i] != '<' && s[i] != '>',
    ensures
        escaped(s) == s,
    decreases s.len(),
{
    if s.len() > 0 {
        assert forall|i: int| 0 <= i < s.drop_last().len() implies !is_markup(
            #[trigger] s.drop_last()[i],
        ) && s.drop_last()[i] != '<' && s.drop_last()[i] != '>' by {
            assert(s.drop_last()[i] == s[i]);
        }
        plain_text_is_kept(s.drop_last());
        assert(escaped(s) =~= s);
    } else {
        assert(escaped(s) =~= s);
    }
}

/// In an escaped text every markup character that is not itself a backslash
/// or the start of an entity follows a backslash, and no angle bracket is left.
pub proof fn escaped_text_has_no_bare_markup(s: Seq<char>, i: int)
    requires
        0 <= i < escaped(s).len(),
    ensures
        escaped(s)[i] != '<' && escaped(s)[i] != '>',
        is_markup(escaped(s)[i]) && escaped(s)[i] != '\\' && escaped(s)[i] != '&' ==> i > 0
            && escaped(s)[i - 1] == '\\',
    decreases s.len(),
{
    let head = escaped(s.drop_last());
    let tail = escaped_char(s.last());
    if i < head.len() {
        escaped_text_has_no_bare_markup(s.drop_last(), i);
        assert(escaped(s)[i] == head[i]);
        if i > 0 {
            assert(escaped(s)[i - 1] == head[i - 1]);
        }
    } else {
        assert(escaped(s)[i] == tail[i - head.len()]);
        if i > head.len() {
            assert(escaped(s)[i - 1] == tail[i - 1 - head.len()]);
        }
    }
}

fn is_markup_char(c: char) -> (r: bool)
    ensures
        r == is_markup(c),
{
    c == '\\' || c == '`' || c == '*' || c == '_' || c == '[' || c == '^' || c == '$' || c == '~'
        || c == '&' || c == '#' || c == '+' || c == '=' || c == '-'
}

/// Writes a text so that it appears literally in Markdown.
pub fn markdown_escaped(s: &str) -> (r: String)
    ensures
        r@ == escaped(s@),
{
    let mut out = String::new();
    for c in it: s.chars()
        invariant
            it.seq() == s@,
            out@ == escaped(s@.take(it.index())),
    {
        let ghost before = out@;
        if c == '<' {
            out.push('&');
            out.push('l');
            out.push('t');
            out.push(';');
        } else if c == '>' {
            out.push('&');
            out.push('g');
            out.push('t');
            out.push(';');
        } else {
            if is_markup_char(c) {
                out.push('\\');
            }
            out.push(c);
        }
        proof {
            let i = it.index();
            assert(s@.take(i + 1).drop_last() =~= s@.take(i));
            assert(out@ =~= before + escaped_char(c));
        }
    }
    assert(s@.take(s@.len() as int) =~= s@);
    out
}

proof fn escaped_of_both(a: Seq<char>, b: Seq<char>)
    ensures
        escaped(a + b) == escaped(a) + escaped(b),
    decreases b.len(),
{
    if b.len() == 0 {
        assert(a + b =~= a);
        assert(escaped(a) + escaped(b) =~= escaped(a));
    } else {
        assert((a + b).drop_last() =~= a + b.drop_last());
        escaped_of_both(a, b.drop_last());
        assert(escaped(a + b) =~= escaped(a) + escaped(b));
    }
}

/// A text is escaped character by character, in order: angle brackets become
/// entities, what Markdown gives a meaning gets a backslash before it, and
/// every other character is kept.
pub proof fn text_is_escaped_by_character(before: Seq<char>, c: char, after: Seq<char>)
    ensures
        escaped(Seq::<char>::empty()) == Seq::<char>::empty(),
        escaped(before + seq![c] + after) == escaped(before) + escaped(seq![c]) + escaped(after),
        escaped(seq!['<']) == seq!['&', 'l', 't', ';'],
        escaped(seq!['>']) == seq!['&', 'g', 't', ';'],
        seq!['\\', '`', '*', '_', '[', '^', '$', '~', '&', '#', '+', '=', '-'].contains(c)
            ==> escaped(seq![c]) == seq!['\\', c],
        !seq!['\\', '`', '*', '_', '[', '^', '$', '~', '&', '#', '+', '=', '-', '<', '>'].contains(
            c,
        ) ==> escaped(seq![c]) == seq![c],
{
    escaped_of_both(before + seq![c], after);
    escaped_of_both(before, seq![c]);
    escaped_of_one('<');
    escaped_of_one('>');
    escaped_of_one(c);
    let marked = seq!['\\', '`', '*', '_', '[', '^', '$', '~', '&', '#', '+', '=', '-'];
    let special = seq!['\\', '`', '*', '_', '[', '^', '$', '~', '&', '#', '+', '=', '-', '<', '>'];
    if marked.contains(c) {
        let i = choose|i: int| 0 <= i < marked.len() && marked[i] == c;
        assert(is_markup(c));
    }
    if !special.contains(c) {
        assert forall|i: int| 0 <= i < special.len() implies special[i] != c by {}
        assert(special[0] == '\\' && special[1] == '`' && special[2] == '*' && special[3] == '_');
        assert(special[4] == '[' && special[5] == '^' && special[6] == '$' && special[7] == '~');
        assert(special[8] == '&' && special[9] == '#' && special[10] == '+' && special[11] == '=');
        assert(special[12] == '-' && special[13] == '<' && special[14] == '>');
    }
}

proof fn escaped_of_one(c: char)
    ensures
        escaped(seq![c]) == escaped_char(c),
{
    assert(seq![c].drop_last() =~= Seq::<char>::empty());
    assert(escaped(seq![c].drop_last()) =~= Seq::<char>::empty());
    assert(seq![c].last() == c);
    assert(escaped(seq![c]) =~= escaped_char(c));
}

} // verus!
