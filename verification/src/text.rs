//! Text: characters, white space, decimal numbers, splitting and joining.
use vstd::prelude::*;

verus! {

/// `String::push` appends the character.
pub assume_specification[ std::string::String::push ](s: &mut std::string::String, ch: char)
    ensures
        final(s)@ == old(s)@.push(ch),
;

/// The text that `{:?}` writes for a string: quoted, with its escapes.
pub uninterp spec fn debug_text(s: Seq<char>) -> Seq<char>;

/// The `Debug` text of a `str`: the same string always gives the same text.
#[verifier::external_body]
pub(crate) fn quoted(s: &str) -> (text: String)
    ensures
        text@ == debug_text(s@),
{
    format!("{s:?}")
}

// ---- characters -------------------------------------------------------------

/// The characters of a string that may be missing.
pub open spec fn opt_chars(s: Option<String>) -> Option<Seq<char>> {
    match s {
        Some(t) => Some(t@),
        None => None,
    }
}

/// A copy of a string that may be missing.
pub fn copy_opt(s: &Option<String>) -> (r: Option<String>)
    ensures
        opt_chars(r) == opt_chars(*s),
{
    match s {
        Some(t) => Some(t.clone()),
        None => None,
    }
}

/// The characters of a string.
pub fn chars(s: &str) -> (v: Vec<char>)
    ensures
        v@ == s@,
{
    let mut v: Vec<char> = Vec::new();
    for c in it: s.chars()
        invariant
            it.seq() == s@,
            v@ == s@.take(it.index() as int),
    {
        v.push(c);
    }
    assert(s@.take(s@.len() as int) =~= s@);
    v
}

/// The string of the characters from `from` up to `to`.
pub fn slice(v: &Vec<char>, from: usize, to: usize) -> (s: String)
    requires
        from <= to <= v@.len(),
    ensures
        s@ == v@.subrange(from as int, to as int),
{
    let mut s = String::new();
    let mut i: usize = from;
    while i < to
        invariant
            from <= i <= to <= v@.len(),
            s@ == v@.subrange(from as int, i as int),
        decreases to - i,
    {
        s.push(v[i]);
        assert(v@.subrange(from as int, i as int + 1) =~= v@.subrange(from as int, i as int).push(
            v@[i as int],
        ));
        i += 1;
    }
    s
}

/// The string of the given characters.
pub fn string(v: &Vec<char>) -> (s: String)
    ensures
        s@ == v@,
{
    let s = slice(v, 0, v.len());
    assert(v@.subrange(0, v@.len() as int) =~= v@);
    s
}

/// Whether two strings hold the same characters.
pub fn same(a: &str, b: &str) -> (r: bool)
    ensures
        r == (a@ == b@),
{
    a.to_owned() == b.to_owned()
}

/// The two strings, one after the other.
pub fn concat(a: &str, b: &str) -> (s: String)
    ensures
        s@ == a@ + b@,
{
    let mut s = a.to_owned();
    s.append(b);
    s
}

/// Whether `part` stands in `s` from position `i` on.
pub open spec fn stands_at(s: Seq<char>, part: Seq<char>, i: int) -> bool {
    0 <= i && i + part.len() <= s.len() && s.subrange(i, i + part.len()) == part
}

/// Whether `part` stands somewhere in `s`.
pub open spec fn holds(s: Seq<char>, part: Seq<char>) -> bool {
    exists|i: int| #[trigger] stands_at(s, part, i)
}

fn is_at(v: &Vec<char>, p: &Vec<char>, i: usize) -> (r: bool)
    ensures
        r == stands_at(v@, p@, i as int),
{
    if p.len() > v.len() || i > v.len() - p.len() {
        return false;
    }
    let mut j: usize = 0;
    while j < p.len()
        invariant
            j <= p@.len(),
            i + p@.len() <= v@.len(),
            v@.len() <= usize::MAX,
            forall|k: int| 0 <= k < j ==> v@[i + k] == #[trigger] p@[k],
        decreases p@.len() - j,
    {
        if v[i + j] != p[j] {
            proof {
                let s = v@.subrange(i as int, i + p@.len());
                assert(s[j as int] != p@[j as int]);
            }
            return false;
        }
        j += 1;
    }
    assert(v@.subrange(i as int, i + p@.len()) =~= p@);
    true
}

/// Whether `part` stands somewhere in `s`.
pub fn has(s: &str, part: &str) -> (r: bool)
    ensures
        r == holds(s@, part@),
{
    let v = chars(s);
    let p = chars(part);
    let mut i: usize = 0;
    while i < v.len()
        invariant
            i <= v@.len(),
            v@ == s@,
            p@ == part@,
            forall|j: int| 0 <= j < i ==> !#[trigger] stands_at(s@, part@, j),
        decreases v@.len() - i,
    {
        if is_at(&v, &p, i) {
            return true;
        }
        i += 1;
    }
    is_at(&v, &p, i)
}

/// Whether `s` begins with `part`.
pub fn begins(s: &str, part: &str) -> (r: bool)
    ensures
        r == stands_at(s@, part@, 0),
{
    let v = chars(s);
    let p = chars(part);
    is_at(&v, &p, 0)
}

/// `s` with every occurrence of `part` replaced, scanned from the front.
pub open spec fn replaced(s: Seq<char>, part: Seq<char>, by: Seq<char>) -> Seq<char>
    decreases s.len(),
{
    if s.len() == 0 || part.len() == 0 {
        s
    } else if stands_at(s, part, 0) {
        by + replaced(s.skip(part.len() as int), part, by)
    } else {
        seq![s[0]] + replaced(s.skip(1), part, by)
    }
}

/// A part that stands once in a text is replaced there and nothing else is; a text that
/// has not even its first character is left as it is.
pub proof fn law_replacing(before: Seq<char>, part: Seq<char>, after: Seq<char>, by: Seq<char>)
    requires
        part.len() > 0,
        !before.contains(part[0]),
        !after.contains(part[0]),
    ensures
        replaced(before + part + after, part, by) == before + by + after,
        replaced(before, part, by) == before,
    decreases before.len(),
{
    lemma_nothing_to_replace(before, part, by);
    lemma_nothing_to_replace(after, part, by);
    let s = before + part + after;
    if before.len() == 0 {
        assert(s.subrange(0, part.len() as int) =~= part);
        assert(s.skip(part.len() as int) =~= after);
        assert(before + by + after =~= by + after);
    } else {
        assert(s[0] == before[0]);
        assert(before.contains(before[0]));
        if stands_at(s, part, 0) {
            assert(s.subrange(0, part.len() as int)[0] == part[0]);
        }
        let rest = before.skip(1);
        assert forall|i: int| 0 <= i < rest.len() implies rest[i] != part[0] by {
            assert(before.contains(before[i + 1]));
        }
        assert(s.skip(1) =~= rest + part + after);
        law_replacing(rest, part, after, by);
        assert(seq![s[0]] + (rest + by + after) =~= before + by + after);
    }
}

proof fn lemma_nothing_to_replace(s: Seq<char>, part: Seq<char>, by: Seq<char>)
    requires
        part.len() > 0,
        !s.contains(part[0]),
    ensures
        replaced(s, part, by) == s,
    decreases s.len(),
{
    if s.len() > 0 {
        assert(s.contains(s[0]));
        if stands_at(s, part, 0) {
            assert(s.subrange(0, part.len() as int)[0] == part[0]);
        }
        let rest = s.skip(1);
        assert forall|i: int| 0 <= i < rest.len() implies rest[i] != part[0] by {
            assert(s.contains(s[i + 1]));
        }
        lemma_nothing_to_replace(rest, part, by);
        assert(seq![s[0]] + rest =~= s);
    }
}

/// Replaces every occurrence of `part`, scanned from the front.
pub fn replace(s: &str, part: &str, by: &str) -> (r: String)
    requires
        part@.len() > 0,
    ensures
        r@ == replaced(s@, part@, by@),
{
    let v = chars(s);
    let p = chars(part);
    let mut r = String::new();
    let mut i: usize = 0;
    assert(s@.skip(0) =~= s@);
    assert(r@ + replaced(s@, part@, by@) =~= replaced(s@, part@, by@));
    while i < v.len()
        invariant
            i <= v@.len(),
            v@ == s@,
            p@ == part@,
            part@.len() > 0,
            r@ + replaced(s@.skip(i as int), part@, by@) == replaced(s@, part@, by@),
        decreases v@.len() - i,
    {
        let ghost rest = s@.skip(i as int);
        let here = is_at(&v, &p, i);
        proof {
            if i + part@.len() <= s@.len() {
                assert(rest.subrange(0, part@.len() as int) =~= s@.subrange(
                    i as int,
                    i + part@.len(),
                ));
            }
        }
        let ghost before = r@;
        if here {
            r.append(by);
            proof {
                assert(rest.skip(part@.len() as int) =~= s@.skip(i + part@.len()));
                assert(before + (by@ + replaced(rest.skip(part@.len() as int), part@, by@)) =~= r@
                    + replaced(s@.skip(i + part@.len()), part@, by@));
            }
            i += p.len();
        } else {
            r.push(v[i]);
            proof {
                assert(rest.skip(1) =~= s@.skip(i + 1));
                assert(before + (seq![rest[0]] + replaced(rest.skip(1), part@, by@)) =~= r@
                    + replaced(s@.skip(i + 1), part@, by@));
            }
            i += 1;
        }
    }
    assert(s@.skip(i as int) =~= Seq::empty());
    assert(r@ + Seq::<char>::empty() =~= r@);
    r
}

// ---- white space --------------------------------------------------------------

/// The characters that Unicode counts as white space.
pub open spec fn is_white(c: char) -> bool {
    let n = c as u32;
    ||| 0x09 <= n <= 0x0d
    ||| n == 0x20 || n == 0x85 || n == 0xa0 || n == 0x1680
    ||| 0x2000 <= n <= 0x200a
    ||| n == 0x2028 || n == 0x2029 || n == 0x202f || n == 0x205f || n == 0x3000
}

fn white(c: char) -> (r: bool)
    ensures
        r == is_white(c),
{
    let n: u32 = c as u32;
    (0x09 <= n && n <= 0x0d) || n == 0x20 || n == 0x85 || n == 0xa0 || n == 0x1680 || (0x2000 <= n
        && n <= 0x200a) || n == 0x2028 || n == 0x2029 || n == 0x202f || n == 0x205f || n == 0x3000
}

/// `s` without the white space at its front.
pub open spec fn trimmed_front(s: Seq<char>) -> Seq<char>
    decreases s.len(),
{
    if s.len() > 0 && is_white(s[0]) {
        trimmed_front(s.drop_first())
    } else {
        s
    }
}

/// `s` without the white space at its end.
pub open spec fn trimmed_back(s: Seq<char>) -> Seq<char>
    decreases s.len(),
{
    if s.len() > 0 && is_white(s.last()) {
        trimmed_back(s.drop_last())
    } else {
        s
    }
}

/// `s` without the white space at either end.
pub open spec fn trimmed(s: Seq<char>) -> Seq<char> {
    trimmed_back(trimmed_front(s))
}

proof fn lemma_front_padding(before: Seq<char>, s: Seq<char>)
    requires
        forall|i: int| 0 <= i < before.len() ==> is_white(#[trigger] before[i]),
    ensures
        trimmed_front(before + s) == trimmed_front(s),
    decreases before.len(),
{
    if before.len() == 0 {
        assert(before + s =~= s);
    } else {
        assert((before + s)[0] == before[0]);
        assert((before + s).drop_first() =~= before.drop_first() + s);
        lemma_front_padding(before.drop_first(), s);
    }
}

proof fn lemma_back_padding(s: Seq<char>, after: Seq<char>)
    requires
        forall|i: int| 0 <= i < after.len() ==> is_white(#[trigger] after[i]),
    ensures
        trimmed_back(s + after) == trimmed_back(s),
    decreases after.len(),
{
    if after.len() == 0 {
        assert(s + after =~= s);
    } else {
        assert((s + after).last() == after.last());
        assert((s + after).drop_last() =~= s + after.drop_last());
        lemma_back_padding(s, after.drop_last());
    }
}

proof fn lemma_front_of_joined(s: Seq<char>, after: Seq<char>)
    ensures
        trimmed_front(s + after) == (if trimmed_front(s).len() == 0 {
            trimmed_front(after)
        } else {
            trimmed_front(s) + after
        }),
    decreases s.len(),
{
    if s.len() == 0 {
        assert(s + after =~= after);
    } else if is_white(s[0]) {
        assert((s + after).drop_first() =~= s.drop_first() + after);
        lemma_front_of_joined(s.drop_first(), after);
    }
}

/// White space put around a text is cut off again.
pub proof fn lemma_trimmed_padding(before: Seq<char>, s: Seq<char>, after: Seq<char>)
    requires
        forall|i: int| 0 <= i < before.len() ==> is_white(#[trigger] before[i]),
        forall|i: int| 0 <= i < after.len() ==> is_white(#[trigger] after[i]),
    ensures
        trimmed(before + s + after) == trimmed(s),
{
    assert(before + s + after =~= before + (s + after));
    lemma_front_padding(before, s + after);
    lemma_front_of_joined(s, after);
    let none = Seq::<char>::empty();
    assert(after + none =~= after);
    lemma_front_padding(after, none);
    lemma_back_padding(trimmed_front(s), after);
}

/// A text without white space at its ends is left as it is.
pub proof fn lemma_trim_keeps(s: Seq<char>)
    requires
        s.len() > 0 ==> !is_white(s[0]) && !is_white(s.last()),
    ensures
        trimmed(s) == s,
{
}

proof fn lemma_trimmed_front_starts(s: Seq<char>)
    ensures
        trimmed_front(s).len() > 0 ==> !is_white(trimmed_front(s)[0]),
    decreases s.len(),
{
    if s.len() > 0 && is_white(s[0]) {
        lemma_trimmed_front_starts(s.drop_first());
    }
}

proof fn lemma_trimmed_back_ends(s: Seq<char>)
    ensures
        trimmed_back(s).len() > 0 ==> !is_white(trimmed_back(s).last()) && s.len() > 0
            && trimmed_back(s)[0] == s[0],
    decreases s.len(),
{
    if s.len() > 0 && is_white(s.last()) {
        lemma_trimmed_back_ends(s.drop_last());
    }
}

/// Cutting white space off twice is cutting it off once.
pub proof fn lemma_trimmed_twice(s: Seq<char>)
    ensures
        trimmed(trimmed(s)) == trimmed(s),
{
    lemma_trimmed_front_starts(s);
    lemma_trimmed_back_ends(trimmed_front(s));
    lemma_trim_keeps(trimmed(s));
}

/// Cuts the white space off both ends.
pub fn trim(s: &str) -> (r: String)
    ensures
        r@ == trimmed(s@),
{
    let v = chars(s);
    let mut from: usize = 0;
    assert(s@.subrange(0, s@.len() as int) =~= s@);
    while from < v.len() && white(v[from])
        invariant
            from <= v@.len(),
            v@ == s@,
            trimmed_front(s@) == trimmed_front(s@.subrange(from as int, s@.len() as int)),
        decreases v@.len() - from,
    {
        assert(s@.subrange(from as int, s@.len() as int).drop_first() =~= s@.subrange(
            from as int + 1,
            s@.len() as int,
        ));
        from += 1;
    }
    let ghost front = s@.subrange(from as int, s@.len() as int);
    assert(trimmed_front(s@) == front);
    let mut to: usize = v.len();
    while to > from && white(v[to - 1])
        invariant
            from <= to <= v@.len(),
            v@ == s@,
            trimmed_back(front) == trimmed_back(s@.subrange(from as int, to as int)),
        decreases to,
    {
        assert(s@.subrange(from as int, to as int).drop_last() =~= s@.subrange(
            from as int,
            to as int - 1,
        ));
        to -= 1;
    }
    slice(&v, from, to)
}

// ---- splitting and joining -------------------------------------------------------

/// The pieces between the separators.
pub open spec fn pieces(s: Seq<char>, sep: char) -> Seq<Seq<char>>
    decreases s.len(),
{
    if s.len() == 0 {
        seq![Seq::empty()]
    } else {
        let before = pieces(s.drop_last(), sep);
        if s.last() == sep {
            before.push(Seq::empty())
        } else {
            before.drop_last().push(before.last().push(s.last()))
        }
    }
}

/// The views of a list of strings.
pub open spec fn views(list: Seq<String>) -> Seq<Seq<char>> {
    Seq::new(list.len(), |i: int| list[i]@)
}

/// A copy of the strings.
pub fn copy_all(list: &Vec<String>) -> (out: Vec<String>)
    ensures
        views(out@) == views(list@),
{
    let mut out: Vec<String> = Vec::new();
    let mut i: usize = 0;
    while i < list.len()
        invariant
            i <= list@.len(),
            views(out@) == views(list@).take(i as int),
        decreases list@.len() - i,
    {
        let ghost before = views(out@);
        out.push(list[i].clone());
        assert(views(out@) =~= before.push(list@[i as int]@));
        assert(views(list@).take(i as int + 1) =~= before.push(list@[i as int]@));
        i += 1;
    }
    assert(views(list@).take(list@.len() as int) =~= views(list@));
    out
}

/// Splits at every separator.
pub fn split(s: &str, sep: char) -> (list: Vec<String>)
    ensures
        views(list@) == pieces(s@, sep),
{
    let v = chars(s);
    let mut list: Vec<String> = Vec::new();
    let mut piece = String::new();
    let mut i: usize = 0;
    assert(views(list@).push(piece@) =~= pieces(s@.take(0), sep));
    while i < v.len()
        invariant
            i <= v@.len(),
            v@ == s@,
            views(list@).push(piece@) == pieces(s@.take(i as int), sep),
        decreases v@.len() - i,
    {
        let ghost before = views(list@).push(piece@);
        proof {
            assert(s@.take(i as int + 1).drop_last() =~= s@.take(i as int));
            assert(before.drop_last() =~= views(list@));
        }
        if v[i] == sep {
            list.push(piece);
            piece = String::new();
            assert(views(list@).push(piece@) =~= before.push(Seq::empty()));
        } else {
            piece.push(v[i]);
            assert(views(list@).push(piece@) =~= before.drop_last().push(before.last().push(v@[i as int])));
        }
        i += 1;
    }
    assert(s@.take(s@.len() as int) =~= s@);
    list.push(piece);
    assert(views(list@) =~= pieces(s@, sep));
    list
}

/// The pieces with a separator between each two.
pub open spec fn joined(list: Seq<Seq<char>>, sep: Seq<char>) -> Seq<char>
    decreases list.len(),
{
    if list.len() == 0 {
        Seq::empty()
    } else if list.len() == 1 {
        list[0]
    } else {
        joined(list.drop_last(), sep) + sep + list.last()
    }
}

/// Joins the strings with a separator between each two.
pub fn join(list: &Vec<String>, sep: &str) -> (s: String)
    ensures
        s@ == joined(views(list@), sep@),
{
    let mut s = String::new();
    let mut i: usize = 0;
    assert(views(list@).take(0) =~= Seq::<Seq<char>>::empty());
    while i < list.len()
        invariant
            i <= list@.len(),
            s@ == joined(views(list@).take(i as int), sep@),
        decreases list@.len() - i,
    {
        proof {
            let upto = views(list@).take(i as int + 1);
            assert(upto.drop_last() =~= views(list@).take(i as int));
            assert(upto.last() == list@[i as int]@);
            assert(s@ + sep@ + list@[i as int]@ =~= (s@ + sep@) + list@[i as int]@);
            assert(i == 0 ==> Seq::<char>::empty() + list@[0]@ =~= list@[0]@);
        }
        if i > 0 {
            s.append(sep);
        }
        s.append(list[i].as_str());
        i += 1;
    }
    assert(views(list@).take(list@.len() as int) =~= views(list@));
    s
}

// ---- decimal numbers -----------------------------------------------------------

/// The decimal digit of a number below ten.
pub open spec fn digit(d: nat) -> char {
    (48 + d) as char
}

/// The decimal text of a natural number.
pub open spec fn decimal(n: nat) -> Seq<char>
    decreases n,
{
    if n < 10 {
        seq![digit(n)]
    } else {
        decimal(n / 10).push(digit(n % 10))
    }
}

/// The decimal text of an integer.
pub open spec fn decimal_int(n: int) -> Seq<char> {
    if n < 0 {
        seq!['-'] + decimal((-n) as nat)
    } else {
        decimal(n as nat)
    }
}

fn digit_char(d: u64) -> (c: char)
    requires
        d < 10,
    ensures
        c == digit(d as nat),
{
    let b: u8 = 48 + d as u8;
    b as char
}

/// The decimal text of an unsigned number.
pub fn write_u64(n: u64) -> (s: String)
    ensures
        s@ == decimal(n as nat),
    decreases n,
{
    if n < 10 {
        let mut s = String::new();
        s.push(digit_char(n));
        assert(s@ =~= seq![digit(n as nat)]);
        s
    } else {
        let mut s = write_u64(n / 10);
        s.push(digit_char(n % 10));
        s
    }
}

/// The decimal text of a signed number.
pub fn write_i64(n: i64) -> (s: String)
    ensures
        s@ == decimal_int(n as int),
{
    if n < 0 {
        let mut s = String::new();
        s.push('-');
        let size: u64 = (-(n as i128)) as u64;
        let digits = write_u64(size);
        s.append(digits.as_str());
        assert(s@ =~= seq!['-'] + decimal((-n) as nat));
        s
    } else {
        write_u64(n as u64)
    }
}

/// Whether a character is one of `0` to `9`.
pub open spec fn is_digit(c: char) -> bool {
    '0' <= c <= '9'
}

/// Whether a text is one or more digits.
pub open spec fn is_digits(s: Seq<char>) -> bool {
    s.len() > 0 && forall|i: int| 0 <= i < s.len() ==> is_digit(#[trigger] s[i])
}

/// The number that digits stand for.
pub open spec fn digits_value(s: Seq<char>) -> nat
    decreases s.len(),
{
    if s.len() == 0 {
        0
    } else {
        digits_value(s.drop_last()) * 10 + (s.last() as u32 - 48) as nat
    }
}

/// The number a text stands for: digits, with an optional `+` before them.
pub open spec fn natural(s: Seq<char>) -> Option<nat> {
    let digits = if s.len() > 0 && s[0] == '+' {
        s.drop_first()
    } else {
        s
    };
    if is_digits(digits) {
        Some(digits_value(digits))
    } else {
        None
    }
}

/// The number a text stands for: digits, with an optional sign before them.
pub open spec fn integer(s: Seq<char>) -> Option<int> {
    if s.len() > 0 && s[0] == '-' {
        if is_digits(s.drop_first()) {
            Some(-(digits_value(s.drop_first()) as int))
        } else {
            None
        }
    } else {
        match natural(s) {
            Some(n) => Some(n as int),
            None => None,
        }
    }
}

/// Reading back the text of a natural number gives that number.
pub proof fn lemma_decimal_reads_back(n: nat)
    ensures
        is_digits(decimal(n)),
        digits_value(decimal(n)) == n,
        decimal(n).len() > 0,
        decimal(n)[0] != '+',
        decimal(n)[0] != '-',
    decreases n,
{
    if n < 10 {
        assert(decimal(n).drop_last() =~= Seq::empty());
        assert(decimal(n).last() == digit(n));
        reveal_with_fuel(digits_value, 2);
    } else {
        lemma_decimal_reads_back(n / 10);
        assert(decimal(n).drop_last() =~= decimal(n / 10));
        assert(decimal(n).last() == digit(n % 10));
        assert forall|i: int| 0 <= i < decimal(n).len() implies is_digit(#[trigger] decimal(n)[i]) by {
            if i < decimal(n / 10).len() {
                assert(decimal(n)[i] == decimal(n / 10)[i]);
            }
        }
        assert(decimal(n)[0] == decimal(n / 10)[0]);
    }
}

/// Reading back the text of any integer gives that integer.
pub proof fn law_integers_read_back(n: int)
    ensures
        integer(decimal_int(n)) == Some(n),
        n >= 0 ==> natural(decimal_int(n)) == Some(n as nat),
{
    if n < 0 {
        lemma_decimal_reads_back((-n) as nat);
        assert(decimal_int(n).drop_first() =~= decimal((-n) as nat));
    } else {
        lemma_decimal_reads_back(n as nat);
    }
}

proof fn lemma_digits_monotone(s: Seq<char>, k: int)
    requires
        0 <= k <= s.len(),
        is_digits(s),
    ensures
        digits_value(s.take(k)) <= digits_value(s),
    decreases s.len() - k,
{
    if k < s.len() {
        lemma_digits_monotone(s, k + 1);
        assert(s.take(k + 1).drop_last() =~= s.take(k));
        assert(is_digit(s[k]));
    } else {
        assert(s.take(k) =~= s);
    }
}

fn read_digits(v: &Vec<char>, from: usize) -> (r: Option<u64>)
    requires
        from <= v@.len(),
    ensures
        ({
            let s = v@.skip(from as int);
            match r {
                Some(n) => is_digits(s) && digits_value(s) == n,
                None => !is_digits(s) || digits_value(s) > u64::MAX,
            }
        }),
{
    let ghost s = v@.skip(from as int);
    if from == v.len() {
        return None;
    }
    let mut n: u64 = 0;
    let mut i: usize = from;
    assert(s.take(0) =~= Seq::empty());
    while i < v.len()
        invariant
            from <= i <= v@.len(),
            from < v@.len(),
            s == v@.skip(from as int),
            forall|j: int| 0 <= j < i - from ==> is_digit(#[trigger] s[j]),
            n == digits_value(s.take(i - from)),
        decreases v@.len() - i,
    {
        let c = v[i];
        let ghost k = (i - from) as int;
        assert(c == s[k]);
        if !('0' <= c && c <= '9') {
            assert(!is_digit(s[k]));
            return None;
        }
        let d: u64 = (c as u32 - 48) as u64;
        proof {
            assert(s.take(k + 1).drop_last() =~= s.take(k));
            assert(s.take(k + 1).last() == c);
            assert(digits_value(s.take(k + 1)) == n * 10 + d);
            if is_digits(s) {
                lemma_digits_monotone(s, k + 1);
            }
        }
        let shifted = match n.checked_mul(10) {
            Some(x) => x,
            None => {
                return None;
            },
        };
        n = match shifted.checked_add(d) {
            Some(x) => x,
            None => {
                return None;
            },
        };
        i += 1;
    }
    assert(s.take(s.len() as int) =~= s);
    Some(n)
}

/// Reads an unsigned number.
pub fn read_u64(s: &str) -> (r: Option<u64>)
    ensures
        match r {
            Some(n) => natural(s@) == Some(n as nat),
            None => !(natural(s@) matches Some(n) && n <= u64::MAX),
        },
{
    let v = chars(s);
    assert(s@.skip(0) =~= s@);
    if v.len() > 0 && v[0] == '+' {
        assert(s@.skip(1) =~= s@.drop_first());
        read_digits(&v, 1)
    } else {
        read_digits(&v, 0)
    }
}

/// Reads a signed number.
pub fn read_i64(s: &str) -> (r: Option<i64>)
    ensures
        match r {
            Some(n) => integer(s@) == Some(n as int),
            None => !(integer(s@) matches Some(n) && i64::MIN <= n <= i64::MAX),
        },
{
    let v = chars(s);
    if v.len() > 0 && v[0] == '-' {
        assert(s@.skip(1) =~= s@.drop_first());
        match read_digits(&v, 1) {
            Some(n) => {
                if n <= 0x7fff_ffff_ffff_ffff {
                    Some(-(n as i64))
                } else if n == 0x8000_0000_0000_0000 {
                    Some(i64::MIN)
                } else {
                    None
                }
            },
            None => None,
        }
    } else {
        match read_u64(s) {
            Some(n) => {
                if n <= 0x7fff_ffff_ffff_ffff {
                    Some(n as i64)
                } else {
                    None
                }
            },
            None => None,
        }
    }
}

/// The pieces of a text, put together again with the separator between each two, are the
/// text, and no piece holds the separator.
pub proof fn law_pieces_join_back(s: Seq<char>, sep: char)
    ensures
        joined(pieces(s, sep), seq![sep]) == s,
        pieces(s, sep).len() > 0,
        forall|i: int| 0 <= i < pieces(s, sep).len() ==> !(#[trigger] pieces(s, sep)[i]).contains(
            sep,
        ),
    decreases s.len(),
{
    if s.len() == 0 {
        assert(pieces(s, sep)[0] =~= s);
    } else {
        let d = s.drop_last();
        let before = pieces(d, sep);
        let now = pieces(s, sep);
        law_pieces_join_back(d, sep);
        assert(s =~= d.push(s.last()));
        if s.last() == sep {
            assert(now.drop_last() =~= before);
            assert(joined(now, seq![sep]) =~= joined(before, seq![sep]) + seq![sep]);
            assert forall|i: int| 0 <= i < now.len() implies !(#[trigger] now[i]).contains(
                sep,
            ) by {
                if i < before.len() {
                    assert(now[i] == before[i]);
                }
            }
        } else {
            assert(now.drop_last() =~= before.drop_last());
            if before.len() == 1 {
                assert(joined(now, seq![sep]) =~= s);
            } else {
                assert(joined(now, seq![sep]) =~= joined(before, seq![sep]).push(s.last()));
            }
            assert forall|i: int| 0 <= i < now.len() implies !(#[trigger] now[i]).contains(
                sep,
            ) by {
                let b = before[i];
                if i == now.len() - 1 && now[i].contains(sep) {
                    let k = choose|k: int| 0 <= k < now[i].len() && now[i][k] == sep;
                    if k < b.len() {
                        assert(b[k] == sep);
                    }
                }
            }
        }
    }
}

/// Trimming takes white space away at both ends and nothing else, and leaves none there.
pub proof fn law_trimming_takes_white_space_away(s: Seq<char>)
    ensures
        trimmed(s).len() > 0 ==> !is_white(trimmed(s)[0]) && !is_white(trimmed(s).last()),
        exists|before: Seq<char>, after: Seq<char>|
            #[trigger] (before + trimmed(s) + after) == s && (forall|i: int|
                0 <= i < before.len() ==> is_white(#[trigger] before[i])) && (forall|i: int|
                0 <= i < after.len() ==> is_white(#[trigger] after[i])),
        is_white(' '),
        is_white('\t'),
        is_white('\n'),
        forall|c: char| #[trigger] is_white(c) ==> !('!' <= c <= '~'),
{
    let before = lemma_front_taken(s);
    let f = trimmed_front(s);
    let after = lemma_back_taken(f);
    lemma_trimmed_front_starts(s);
    assert(before + trimmed(s) + after =~= s);
    assert(trimmed(s) + after == f);
    if trimmed(s).len() > 0 {
        assert(trimmed(s)[0] == f[0]);
    }
}

proof fn lemma_front_taken(s: Seq<char>) -> (before: Seq<char>)
    ensures
        before + trimmed_front(s) == s,
        forall|i: int| 0 <= i < before.len() ==> is_white(#[trigger] before[i]),
        trimmed_front(s).len() > 0 ==> !is_white(trimmed_front(s)[0]),
    decreases s.len(),
{
    if s.len() > 0 && is_white(s[0]) {
        let rest = lemma_front_taken(s.drop_first());
        let before = seq![s[0]] + rest;
        assert(before + trimmed_front(s) =~= seq![s[0]] + s.drop_first());
        assert(seq![s[0]] + s.drop_first() =~= s);
        before
    } else {
        assert(Seq::<char>::empty() + s =~= s);
        Seq::empty()
    }
}

proof fn lemma_back_taken(s: Seq<char>) -> (after: Seq<char>)
    ensures
        trimmed_back(s) + after == s,
        forall|i: int| 0 <= i < after.len() ==> is_white(#[trigger] after[i]),
        trimmed_back(s).len() > 0 ==> !is_white(trimmed_back(s).last()),
    decreases s.len(),
{
    if s.len() > 0 && is_white(s.last()) {
        let rest = lemma_back_taken(s.drop_last());
        let after = rest + seq![s.last()];
        assert(trimmed_back(s) + after =~= s.drop_last() + seq![s.last()]);
        assert(s.drop_last() + seq![s.last()] =~= s);
        after
    } else {
        assert(s + Seq::<char>::empty() =~= s);
        Seq::empty()
    }
}

} // verus!
