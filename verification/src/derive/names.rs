//! The names and titles that declarations give.
use vstd::prelude::*;

use crate::config::elements::{clean_char, name_char, sanitized};
use crate::text::{chars, join, joined, slice, trim, trimmed, views};

verus! {

/// A character as the first of a word.
pub open spec fn upper(c: char) -> char {
    if 'a' <= c <= 'z' {
        (c as u32 - 32) as char
    } else {
        c
    }
}

fn to_upper(c: char) -> (r: char)
    ensures
        r == upper(c),
{
    if c >= 'a' && c <= 'z' {
        (c as u8 - 32u8) as char
    } else {
        c
    }
}

/// The title that a field name gives: underscores become spaces, and the first
/// character of each word a capital.
pub open spec fn titled(s: Seq<char>) -> Seq<char>
    decreases s.len(),
{
    if s.len() == 0 {
        Seq::empty()
    } else if s.last() == '_' {
        titled(s.drop_last()).push(' ')
    } else if s.len() == 1 || s[s.len() - 2] == '_' {
        titled(s.drop_last()).push(upper(s.last()))
    } else {
        titled(s.drop_last()).push(s.last())
    }
}

/// The title that a field name gives.
pub fn title_case(field_name: &str) -> (r: String)
    ensures
        r@ == titled(field_name@),
{
    let v = chars(field_name);
    let mut r = String::new();
    let mut i: usize = 0;
    assert(v@.take(0) =~= Seq::empty());
    assert(r@ =~= Seq::empty());
    while i < v.len()
        invariant
            i <= v@.len(),
            r@ == titled(v@.take(i as int)),
        decreases v@.len() - i,
    {
        let ghost t = v@.take(i as int + 1);
        proof {
            assert(t.drop_last() =~= v@.take(i as int));
            assert(t.last() == v@[i as int]);
            if i > 0 {
                assert(t[t.len() - 2] == v@[i as int - 1]);
            }
        }
        let c = v[i];
        if c == '_' {
            r.push(' ');
        } else if i == 0 || v[i - 1] == '_' {
            r.push(to_upper(c));
        } else {
            r.push(c);
        }
        i += 1;
    }
    assert(v@.take(v@.len() as int) =~= v@);
    r
}

/// Whether a character is a capital of the alphabet.
pub open spec fn is_capital(c: char) -> bool {
    'A' <= c <= 'Z'
}

/// Whether a character is a small letter of the alphabet or a digit.
pub open spec fn is_small(c: char) -> bool {
    'a' <= c <= 'z' || '0' <= c <= '9'
}

/// The text that a variant gives: a space stands before every capital that follows a
/// small letter or a digit.
pub open spec fn spaced(s: Seq<char>) -> Seq<char>
    decreases s.len(),
{
    if s.len() == 0 {
        Seq::empty()
    } else {
        let before = spaced(s.drop_last());
        if is_capital(s.last()) && s.len() >= 2 && is_small(s[s.len() - 2]) {
            before.push(' ').push(s.last())
        } else {
            before.push(s.last())
        }
    }
}

/// The text that a variant gives.
pub fn camel_to_title(variant: &str) -> (r: String)
    ensures
        r@ == spaced(variant@),
{
    let v = chars(variant);
    let mut r = String::new();
    let mut small = false;
    let mut i: usize = 0;
    assert(v@.take(0) =~= Seq::empty());
    assert(r@ =~= Seq::empty());
    while i < v.len()
        invariant
            i <= v@.len(),
            r@ == spaced(v@.take(i as int)),
            small == (i > 0 && is_small(v@[i as int - 1])),
        decreases v@.len() - i,
    {
        let ghost t = v@.take(i as int + 1);
        proof {
            assert(t.drop_last() =~= v@.take(i as int));
            assert(t.last() == v@[i as int]);
            if i > 0 {
                assert(t[t.len() - 2] == v@[i as int - 1]);
            }
        }
        let c = v[i];
        if c >= 'A' && c <= 'Z' && small {
            r.push(' ');
        }
        small = (c >= 'a' && c <= 'z') || (c >= '0' && c <= '9');
        r.push(c);
        i += 1;
    }
    assert(v@.take(v@.len() as int) =~= v@);
    r
}

/// Whether a character can stand in a key.
pub open spec fn key_mark(c: char) -> bool {
    c == ' ' || c == '-' || c == '_' || is_capital(c) || is_small(c)
}

/// Whether a text can be a key: letters, digits, dashes, underscores and spaces.
pub fn check_key(key: &str) -> (r: bool)
    ensures
        r == forall|i: int| 0 <= i < key@.len() ==> key_mark(#[trigger] key@[i]),
{
    let v = chars(key);
    let mut i: usize = 0;
    while i < v.len()
        invariant
            i <= v@.len(),
            v@ == key@,
            forall|j: int| 0 <= j < i ==> key_mark(#[trigger] v@[j]),
        decreases v@.len() - i,
    {
        let c = v[i];
        if !(c == ' ' || c == '-' || c == '_' || (c >= 'A' && c <= 'Z') || (c >= 'a' && c <= 'z')
            || (c >= '0' && c <= '9')) {
            assert(!key_mark(key@[i as int]));
            return false;
        }
        i += 1;
    }
    true
}

/// A line of a comment without the space that it begins with.
pub open spec fn unspaced(line: Seq<char>) -> Seq<char> {
    if line.len() > 0 && line[0] == ' ' {
        line.skip(1)
    } else {
        line
    }
}

/// The text of a comment.
pub open spec fn comment_text(lines: Seq<String>) -> Seq<char> {
    trimmed(joined(Seq::new(lines.len(), |i: int| unspaced(lines[i]@)), "\n"@))
}

/// The text of a comment, from its lines; nothing if it is blank.
pub fn doc_comment(lines: &Vec<String>) -> (r: Option<String>)
    ensures
        match r {
            Some(t) => t@ == comment_text(lines@) && t@.len() > 0,
            None => comment_text(lines@).len() == 0,
        },
{
    let mut bare: Vec<String> = Vec::new();
    let mut i: usize = 0;
    while i < lines.len()
        invariant
            i <= lines@.len(),
            bare@.len() == i,
            forall|j: int| 0 <= j < i ==> (#[trigger] bare@[j])@ == unspaced(lines@[j]@),
        decreases lines@.len() - i,
    {
        let v = chars(lines[i].as_str());
        if v.len() > 0 && v[0] == ' ' {
            let rest = slice(&v, 1, v.len());
            assert(rest@ =~= lines@[i as int]@.skip(1));
            bare.push(rest);
        } else {
            bare.push(lines[i].clone());
        }
        i += 1;
    }
    assert(views(bare@) =~= Seq::new(lines@.len(), |i: int| unspaced(lines@[i]@)));
    let text = trim(join(&bare, "\n").as_str());
    if chars(text.as_str()).len() > 0 {
        Some(text)
    } else {
        None
    }
}

// ---- laws ------------------------------------------------------------------------------

/// The title of a field name gives the field name back as its key, if the name is made
/// of small letters, digits and underscores.
pub proof fn law_titles_name_their_fields(s: Seq<char>)
    requires
        forall|i: int| 0 <= i < s.len() ==> name_char(#[trigger] s[i]),
    ensures
        sanitized(titled(s)) == s,
    decreases s.len(),
{
    if s.len() > 0 {
        let d = s.drop_last();
        assert forall|i: int| 0 <= i < d.len() implies name_char(#[trigger] d[i]) by {
            assert(d[i] == s[i]);
        }
        law_titles_name_their_fields(d);
        let t = titled(s);
        assert(name_char(s[s.len() - 1]));
        assert(t.drop_last() =~= titled(d));
        assert(clean_char(t.last()) == Some(s.last()));
        assert(sanitized(t) == s.drop_last().push(s.last()));
        assert(s.drop_last().push(s.last()) =~= s);
    } else {
        assert(s =~= Seq::empty());
    }
}

/// The characters of a text that are no spaces.
pub open spec fn without_spaces(s: Seq<char>) -> Seq<char>
    decreases s.len(),
{
    if s.len() == 0 {
        Seq::empty()
    } else if s.last() == ' ' {
        without_spaces(s.drop_last())
    } else {
        without_spaces(s.drop_last()).push(s.last())
    }
}

/// The text of a variant differs from its name only in spaces.
pub proof fn law_variants_keep_their_letters(s: Seq<char>)
    ensures
        without_spaces(spaced(s)) == without_spaces(s),
    decreases s.len(),
{
    if s.len() > 0 {
        law_variants_keep_their_letters(s.drop_last());
        let before = spaced(s.drop_last());
        let all = spaced(s);
        if is_capital(s.last()) && s.len() >= 2 && is_small(s[s.len() - 2]) {
            assert(all.drop_last() =~= before.push(' '));
            assert(before.push(' ').drop_last() =~= before);
            assert(without_spaces(before.push(' ')) == without_spaces(before));
            assert(all.last() == s.last());
        } else {
            assert(all.drop_last() =~= before);
        }
    }
}

/// A title is the field name character by character: underscores become spaces, and the
/// letter at the start of each word becomes a capital.
pub proof fn law_titles_start_words_with_capitals(s: Seq<char>, i: int)
    requires
        0 <= i < s.len(),
    ensures
        titled(s).len() == s.len(),
        s[i] == '_' ==> titled(s)[i] == ' ',
        s[i] != '_' && i > 0 && s[i - 1] != '_' ==> titled(s)[i] == s[i],
        s[i] != '_' && (i == 0 || s[i - 1] == '_') ==> titled(s)[i] == (if 'a' <= s[i] <= 'z' {
            (s[i] as u32 - ('a' as u32 - 'A' as u32)) as char
        } else {
            s[i]
        }),
    decreases s.len(),
{
    let d = s.drop_last();
    lemma_titled_len(s);
    lemma_titled_len(d);
    if i < d.len() {
        law_titles_start_words_with_capitals(d, i);
        assert(titled(s)[i] == titled(d)[i]);
    }
}

proof fn lemma_titled_len(s: Seq<char>)
    ensures
        titled(s).len() == s.len(),
    decreases s.len(),
{
    if s.len() > 0 {
        lemma_titled_len(s.drop_last());
    }
}

/// The text of a variant has a space exactly where a small letter or a digit comes before a
/// capital, and is its name otherwise.
pub proof fn law_variants_are_spaced_at_capitals(a: Seq<char>, b: Seq<char>)
    requires
        a.len() > 0,
        b.len() > 0,
    ensures
        spaced(a + b) == (if ('a' <= a.last() <= 'z' || '0' <= a.last() <= '9') && 'A' <= b[0]
            <= 'Z' {
            spaced(a) + seq![' '] + spaced(b)
        } else {
            spaced(a) + spaced(b)
        }),
        spaced(seq![a[0]]) == seq![a[0]],
    decreases b.len(),
{
    reveal_with_fuel(spaced, 2);
    assert(seq![a[0]].drop_last() =~= Seq::empty());
    assert(spaced(seq![a[0]]) =~= seq![a[0]]);
    let c = a + b;
    let d = b.drop_last();
    assert(c.drop_last() =~= a + d);
    if b.len() == 1 {
        assert(a + d =~= a);
        assert(d =~= Seq::empty());
        assert(spaced(b) =~= seq![b[0]]);
        assert(c[c.len() - 2] == a.last());
    } else {
        law_variants_are_spaced_at_capitals(a, d);
        assert(c[c.len() - 2] == b[b.len() - 2]);
    }
    assert(spaced(c) =~= (if ('a' <= a.last() <= 'z' || '0' <= a.last() <= '9') && 'A' <= b[0]
        <= 'Z' {
        spaced(a) + seq![' '] + spaced(b)
    } else {
        spaced(a) + spaced(b)
    }));
}

/// A comment is its lines, each without one space at its front, with line breaks between them
/// and nothing around them.
pub proof fn law_comments_are_their_lines(lines: Seq<String>, a: String, s: Seq<char>)
    ensures
        comment_text(seq![a]) == trimmed(unspaced(a@)),
        comment_text(Seq::empty()).len() == 0,
        unspaced(seq![' '] + s) == s,
        s.len() > 0 && s[0] != ' ' ==> unspaced(s) == s,
        lines.len() > 0 ==> comment_text(lines.push(a)) == trimmed(
            joined(Seq::new(lines.len(), |i: int| unspaced(lines[i]@)), "\n"@) + "\n"@ + unspaced(
                a@,
            ),
        ),
{
    let one = Seq::new(1, |i: int| unspaced(seq![a][i]@));
    assert(Seq::new(seq![a].len(), |i: int| unspaced(seq![a][i]@)) =~= one);
    assert(one[0] == unspaced(a@));
    assert((seq![' '] + s).skip(1) =~= s);
    let none = Seq::new(0, |i: int| unspaced(Seq::<String>::empty()[i]@));
    assert(Seq::new(Seq::<String>::empty().len(), |i: int| unspaced(Seq::<String>::empty()[i]@))
        =~= none);
    if lines.len() > 0 {
        let more = lines.push(a);
        let all = Seq::new(more.len(), |i: int| unspaced(more[i]@));
        assert(all.drop_last() =~= Seq::new(lines.len(), |i: int| unspaced(lines[i]@)));
    }
}

} // verus!
