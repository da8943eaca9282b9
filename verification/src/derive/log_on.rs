//! The triggers in a tag declaration: their grammar, and the code that makes them.
//!
//! A trigger is a name, alone or with arguments in parentheses: `any_change`,
//! `cross(15.0, deadband = 1.0)`, `delta(percent = 10.0)`. Lists are separated by
//! commas, and one may follow the last item.
use vstd::prelude::*;

use crate::text::{concat, join, joined, opt_chars, same, views};

verus! {

// ---- tokens ----------------------------------------------------------------------------

/// A token.
#[derive(Debug)]
pub enum Tok {
    Ident(String),
    /// A mark, and whether the next token stands right behind it, as in `::`.
    Punct(char, bool),
    Lit(String),
    /// What stands in parentheses.
    Paren(Vec<Tok>),
    /// A group in other brackets, by its text.
    Group(String),
}

/// The text of a token.
pub open spec fn tok_text(t: Tok) -> Seq<char>
    decreases t,
{
    match t {
        Tok::Ident(s) => s@,
        Tok::Punct(c, _) => seq![c],
        Tok::Lit(s) => s@,
        Tok::Paren(inner) => "("@ + toks_text(inner@) + ")"@,
        Tok::Group(s) => s@,
    }
}

/// What stands between a token and the next one.
pub open spec fn gap(t: Tok) -> Seq<char> {
    if t matches Tok::Punct(_, true) {
        Seq::empty()
    } else {
        " "@
    }
}

/// The text of tokens.
pub open spec fn toks_text(list: Seq<Tok>) -> Seq<char>
    decreases list,
{
    if list.len() == 0 {
        Seq::empty()
    } else if list.len() == 1 {
        tok_text(list[0])
    } else {
        toks_text(list.drop_last()) + gap(list[list.len() - 2]) + tok_text(list.last())
    }
}

fn stands_close(t: &Tok) -> (r: bool)
    ensures
        r == (t matches Tok::Punct(_, true)),
        r ==> gap(*t) == Seq::<char>::empty(),
        !r ==> gap(*t) == " "@,
{
    match t {
        Tok::Punct(_, close) => *close,
        _ => false,
    }
}

fn write_tok(t: &Tok) -> (s: String)
    ensures
        s@ == tok_text(*t),
    decreases t,
{
    match t {
        Tok::Ident(s) => s.clone(),
        Tok::Punct(c, _) => {
            let mut s = String::new();
            s.push(*c);
            assert(s@ =~= seq![*c]);
            s
        },
        Tok::Lit(s) => s.clone(),
        Tok::Paren(inner) => {
            assert(inner@.subrange(0, inner@.len() as int) =~= inner@);
            let mut s = concat("(", write_toks(inner, 0, inner.len()).as_str());
            s.append(")");
            s
        },
        Tok::Group(s) => s.clone(),
    }
}

fn write_toks(list: &Vec<Tok>, from: usize, to: usize) -> (s: String)
    requires
        from <= to <= list@.len(),
    ensures
        s@ == toks_text(list@.subrange(from as int, to as int)),
    decreases list,
{
    let mut s = String::new();
    let mut i: usize = from;
    assert(list@.subrange(from as int, from as int) =~= Seq::empty());
    assert(s@ =~= Seq::empty());
    while i < to
        invariant
            from <= i <= to <= list@.len(),
            s@ == toks_text(list@.subrange(from as int, i as int)),
        decreases to - i,
    {
        let ghost more = list@.subrange(from as int, i as int + 1);
        proof {
            assert(decreases_to!(*list => list@[i as int]));
            assert(more.drop_last() =~= list@.subrange(from as int, i as int));
            assert(more.last() == list@[i as int]);
        }
        let one = write_tok(&list[i]);
        if i == from {
            s = one;
            assert(more.len() == 1 && more[0] == list@[i as int]);
        } else {
            assert(more[more.len() - 2] == list@[i as int - 1]);
            if !stands_close(&list[i - 1]) {
                s.append(" ");
            } else {
                assert(s@ + Seq::<char>::empty() =~= s@);
            }
            s.append(one.as_str());
        }
        i += 1;
    }
    s
}

// ---- lists -----------------------------------------------------------------------------

/// Whether a token is a comma.
pub open spec fn comma(t: Tok) -> bool {
    t matches Tok::Punct(',', _)
}

/// The pieces between commas.
pub open spec fn comma_pieces(list: Seq<Tok>) -> Seq<Seq<Tok>>
    decreases list.len(),
{
    if list.len() == 0 {
        seq![Seq::empty()]
    } else {
        let before = comma_pieces(list.drop_last());
        if comma(list.last()) {
            before.push(Seq::empty())
        } else {
            before.drop_last().push(before.last().push(list.last()))
        }
    }
}

/// The items of a list: the pieces between commas, without the empty one that follows a
/// last comma.
pub open spec fn list_items(list: Seq<Tok>) -> Seq<Seq<Tok>> {
    let p = comma_pieces(list);
    if p.last().len() == 0 {
        p.drop_last()
    } else {
        p
    }
}

/// The pieces that ranges of a list are.
pub open spec fn cut_out(list: Seq<Tok>, ranges: Seq<(usize, usize)>) -> Seq<Seq<Tok>> {
    Seq::new(ranges.len(), |i: int| list.subrange(ranges[i].0 as int, ranges[i].1 as int))
}

fn is_comma(t: &Tok) -> (r: bool)
    ensures
        r == comma(*t),
{
    match t {
        Tok::Punct(c, _) => *c == ',',
        _ => false,
    }
}

fn item_ranges(list: &Vec<Tok>) -> (ranges: Vec<(usize, usize)>)
    ensures
        forall|i: int|
            0 <= i < ranges@.len() ==> (#[trigger] ranges@[i]).0 <= ranges@[i].1 <= list@.len(),
        cut_out(list@, ranges@) == list_items(list@),
{
    let mut ranges: Vec<(usize, usize)> = Vec::new();
    let mut start: usize = 0;
    let mut i: usize = 0;
    proof {
        assert(list@.take(0) =~= Seq::empty());
        assert(list@.subrange(0, 0) =~= Seq::empty());
        assert(cut_out(list@, ranges@).push(list@.subrange(0, 0)) =~= comma_pieces(list@.take(0)));
    }
    while i < list.len()
        invariant
            start <= i <= list@.len(),
            forall|j: int|
                0 <= j < ranges@.len() ==> (#[trigger] ranges@[j]).0 <= ranges@[j].1 <= list@.len(),
            cut_out(list@, ranges@).push(list@.subrange(start as int, i as int)) == comma_pieces(
                list@.take(i as int),
            ),
        decreases list@.len() - i,
    {
        let ghost done = cut_out(list@, ranges@);
        let ghost piece = list@.subrange(start as int, i as int);
        proof {
            assert(list@.take(i as int + 1).drop_last() =~= list@.take(i as int));
            assert(list@.take(i as int + 1).last() == list@[i as int]);
            assert(done.push(piece).drop_last() =~= done);
        }
        if is_comma(&list[i]) {
            ranges.push((start, i));
            start = i + 1;
            proof {
                assert(cut_out(list@, ranges@) =~= done.push(piece));
                assert(list@.subrange(start as int, start as int) =~= Seq::empty());
            }
        } else {
            proof {
                assert(list@.subrange(start as int, i as int + 1) =~= piece.push(list@[i as int]));
            }
        }
        i += 1;
    }
    let ghost done = cut_out(list@, ranges@);
    let ghost piece = list@.subrange(start as int, i as int);
    proof {
        assert(list@.take(i as int) =~= list@);
        assert(done.push(piece).drop_last() =~= done);
        assert(done.push(piece).last() == piece);
    }
    if start < i {
        ranges.push((start, i));
        assert(cut_out(list@, ranges@) =~= done.push(piece));
    }
    ranges
}

// ---- triggers --------------------------------------------------------------------------

/// A trigger in a declaration. Its arguments are the texts of expressions.
#[derive(Debug)]
pub struct TriggerSpec {
    pub name: String,
    pub positional: Vec<String>,
    pub named: Vec<(String, String)>,
}

/// The model of a trigger in a declaration.
#[verifier::ext_equal]
pub struct SpecView {
    pub name: Seq<char>,
    pub positional: Seq<Seq<char>>,
    pub named: Seq<(Seq<char>, Seq<char>)>,
}

/// The model of named arguments.
pub open spec fn named_views(list: Seq<(String, String)>) -> Seq<(Seq<char>, Seq<char>)> {
    Seq::new(list.len(), |i: int| (list[i].0@, list[i].1@))
}

impl View for TriggerSpec {
    type V = SpecView;

    open spec fn view(&self) -> SpecView {
        SpecView {
            name: self.name@,
            positional: views(self.positional@),
            named: named_views(self.named@),
        }
    }
}

/// Calls `syn::parse_str` for an expression. Nothing is promised of the result: which
/// texts read as expressions, and what is said of one that does not, rest with `syn` and
/// with the lexer that the process has, which inside a macro is the compiler's.
#[verifier::external_body]
fn read_expression(text: &str) -> (r: Result<(), String>) {
    syn::parse_str::<syn::Expr>(text).map(|_| ()).map_err(|e| e.to_string())
}

/// The words that are no names, as they stand in a text.
#[verifier::opaque]
pub open spec fn keyword(s: Seq<char>) -> bool {
    ||| s == "_"@ || s == "abstract"@ || s == "as"@ || s == "async"@ || s == "await"@
    ||| s == "become"@ || s == "box"@ || s == "break"@ || s == "const"@ || s == "continue"@
    ||| s == "crate"@ || s == "do"@ || s == "dyn"@ || s == "else"@ || s == "enum"@
    ||| s == "extern"@ || s == "false"@ || s == "final"@ || s == "fn"@ || s == "for"@
    ||| s == "if"@ || s == "impl"@ || s == "in"@ || s == "let"@ || s == "loop"@
    ||| s == "macro"@ || s == "match"@ || s == "mod"@ || s == "move"@ || s == "mut"@
    ||| s == "override"@ || s == "priv"@ || s == "pub"@ || s == "ref"@ || s == "return"@
    ||| s == "Self"@ || s == "self"@ || s == "static"@ || s == "struct"@ || s == "super"@
    ||| s == "trait"@ || s == "true"@ || s == "try"@ || s == "type"@ || s == "typeof"@
    ||| s == "unsafe"@ || s == "unsized"@ || s == "use"@ || s == "virtual"@ || s == "where"@
    ||| s == "while"@ || s == "yield"@
}

fn is_keyword(s: &str) -> (r: bool)
    ensures
        r == keyword(s@),
{
    proof {
        reveal(keyword);
    }
    same(s, "_") || same(s, "abstract") || same(s, "as") || same(s, "async") || same(s, "await")
        || same(s, "become") || same(s, "box") || same(s, "break") || same(s, "const")
        || same(s, "continue") || same(s, "crate") || same(s, "do") || same(s, "dyn")
        || same(s, "else") || same(s, "enum") || same(s, "extern") || same(s, "false")
        || same(s, "final") || same(s, "fn") || same(s, "for") || same(s, "if")
        || same(s, "impl") || same(s, "in") || same(s, "let") || same(s, "loop")
        || same(s, "macro") || same(s, "match") || same(s, "mod") || same(s, "move")
        || same(s, "mut") || same(s, "override") || same(s, "priv") || same(s, "pub")
        || same(s, "ref") || same(s, "return") || same(s, "Self") || same(s, "self")
        || same(s, "static") || same(s, "struct") || same(s, "super") || same(s, "trait")
        || same(s, "true") || same(s, "try") || same(s, "type") || same(s, "typeof")
        || same(s, "unsafe") || same(s, "unsized") || same(s, "use") || same(s, "virtual")
        || same(s, "where") || same(s, "while") || same(s, "yield")
}

/// Whether an argument is a named one: a name and an equals sign.
pub open spec fn is_named(list: Seq<Tok>, from: int) -> bool {
    from + 1 < list.len() && (list[from] matches Tok::Ident(k) && !keyword(k@)) && list[from + 1]
        matches Tok::Punct('=', _)
}

/// Where the expression of an argument begins.
pub open spec fn value_start(list: Seq<Tok>, from: int) -> int {
    if is_named(list, from) {
        from + 2
    } else {
        from
    }
}

/// The first place, from the given one on, where an argument can end: a comma, or the
/// end of the list.
pub open spec fn next_cut(list: Seq<Tok>, n: int) -> int
    decreases list.len() - n,
{
    if n < 0 || n >= list.len() || comma(list[n]) {
        n
    } else {
        next_cut(list, n + 1)
    }
}

/// Where an argument begins: behind the comma that ends the one before.
pub open spec fn argument_start(ends: Seq<int>, k: int) -> int {
    if k == 0 {
        0
    } else {
        ends[k - 1] + 1
    }
}

/// Whether places can be the ends of arguments.
pub open spec fn are_ends(list: Seq<Tok>, ends: Seq<int>) -> bool {
    forall|k: int|
        0 <= k < ends.len() ==> value_start(list, argument_start(ends, k)) <= #[trigger] ends[k]
            <= list.len()
}

/// Whether places cut a list into arguments: each of them ends at a comma or with the
/// list, and nothing is left.
pub open spec fn cuts(list: Seq<Tok>, ends: Seq<int>) -> bool {
    &&& are_ends(list, ends)
    &&& forall|k: int|
        0 <= k < ends.len() ==> (#[trigger] ends[k] == list.len() || comma(list[ends[k]]))
    &&& argument_start(ends, ends.len() as int) >= list.len()
}

/// How far the arguments of a list were read.
#[verifier::ext_equal]
pub enum ScanView {
    /// The arguments up to here have these ends. The next one is to be read up to the
    /// given place.
    Read { ends: Seq<int>, upto: int },
    /// All arguments were read.
    Done(Seq<int>),
    /// One of them could not be read.
    Refused(Seq<char>),
}

/// How far the arguments were read once those with the given ends were.
pub open spec fn scan_from(list: Seq<Tok>, ends: Seq<int>) -> ScanView {
    let from = argument_start(ends, ends.len() as int);
    if from >= list.len() {
        ScanView::Done(ends)
    } else {
        ScanView::Read { ends, upto: next_cut(list, value_start(list, from)) }
    }
}

/// What is said of an argument that cannot be read. One that is followed by something
/// wants a comma there; anything else is what was said of its expression.
pub open spec fn refusal(m: Seq<char>) -> Seq<char> {
    if m == "unexpected token"@ {
        "expected `,`"@
    } else {
        m
    }
}

/// How far the arguments were read, once it is known whether the tokens up to a place
/// read as an expression. An expression that is none up to a comma may go on behind it.
pub open spec fn scan_step(
    list: Seq<Tok>,
    ends: Seq<int>,
    upto: int,
    read: Result<(), Seq<char>>,
) -> ScanView {
    match read {
        Ok(_) => scan_from(list, ends.push(upto)),
        Err(m) => if upto >= list.len() {
            ScanView::Refused(refusal(m))
        } else {
            ScanView::Read { ends, upto: next_cut(list, upto + 1) }
        },
    }
}

/// How far the arguments were read after some readings.
pub open spec fn scanned(list: Seq<Tok>, reads: Seq<Result<(), Seq<char>>>) -> ScanView
    decreases reads.len(),
{
    if reads.len() == 0 {
        scan_from(list, Seq::empty())
    } else {
        match scanned(list, reads.drop_last()) {
            ScanView::Read { ends, upto } => scan_step(list, ends, upto, reads.last()),
            other => other,
        }
    }
}

/// The end of a scan: the ends of the arguments, or what is said of one that cannot be
/// read.
pub open spec fn scan_end(r: Result<Seq<int>, Seq<char>>) -> ScanView {
    match r {
        Ok(ends) => ScanView::Done(ends),
        Err(m) => ScanView::Refused(m),
    }
}

/// Whether something can come out of reading the arguments of a list.
pub open spec fn can_be_read(list: Seq<Tok>, r: Result<Seq<int>, Seq<char>>) -> bool {
    exists|reads: Seq<Result<(), Seq<char>>>| #[trigger] scanned(list, reads) == scan_end(r)
}

/// The trigger with the first `n` arguments, which end at the given places.
pub open spec fn with_arguments(s: SpecView, list: Seq<Tok>, ends: Seq<int>, n: int) -> SpecView
    decreases n,
{
    if n <= 0 {
        s
    } else {
        let before = with_arguments(s, list, ends, n - 1);
        let from = argument_start(ends, n - 1);
        let text = toks_text(list.subrange(value_start(list, from), ends[n - 1]));
        if is_named(list, from) {
            SpecView { named: before.named.push((list[from]->Ident_0@, text)), ..before }
        } else {
            SpecView { positional: before.positional.push(text), ..before }
        }
    }
}

/// The model of places.
pub open spec fn places(list: Seq<usize>) -> Seq<int> {
    Seq::new(list.len(), |i: int| list[i] as int)
}

/// A trigger without arguments.
pub open spec fn bare_trigger(name: Seq<char>) -> SpecView {
    SpecView { name, positional: Seq::empty(), named: Seq::empty() }
}

/// The arguments of an item, if it has any.
pub open spec fn arguments_of(item: Seq<Tok>) -> Option<Seq<Tok>> {
    if item.len() >= 2 && item[1] is Paren {
        Some(item[1]->Paren_0@)
    } else {
        None
    }
}

/// The trigger that an item is, or what is wrong with it. `reading` is what came out of
/// reading its arguments.
pub open spec fn trigger_of(item: Seq<Tok>, reading: Result<Seq<int>, Seq<char>>) -> Result<
    SpecView,
    Seq<char>,
> {
    if item.len() == 0 || !(item[0] is Ident) {
        Err("expected identifier"@)
    } else if keyword(item[0]->Ident_0@) {
        Err("expected identifier, found keyword `"@ + item[0]->Ident_0@ + "`"@)
    } else {
        let bare = bare_trigger(item[0]->Ident_0@);
        match arguments_of(item) {
            Some(list) => match reading {
                Ok(ends) => if item.len() == 2 {
                    Ok(with_arguments(bare, list, ends, ends.len() as int))
                } else {
                    Err("expected `,`"@)
                },
                Err(m) => Err(m),
            },
            None => if item.len() == 1 {
                Ok(bare)
            } else {
                Err("expected `,`"@)
            },
        }
    }
}

/// The triggers that items are, or what is wrong with the first that is none.
pub open spec fn triggers_of(
    items: Seq<Seq<Tok>>,
    readings: Seq<Result<Seq<int>, Seq<char>>>,
) -> Result<Seq<SpecView>, Seq<char>>
    decreases items.len(),
{
    if items.len() == 0 {
        Ok(Seq::empty())
    } else {
        match triggers_of(items.drop_last(), readings) {
            Ok(before) => match trigger_of(items.last(), readings[items.len() - 1]) {
                Ok(t) => Ok(before.push(t)),
                Err(m) => Err(m),
            },
            Err(m) => Err(m),
        }
    }
}

/// The triggers of a tag, or what is wrong with them. There has to be at least one.
pub open spec fn log_on_of(list: Seq<Tok>, readings: Seq<Result<Seq<int>, Seq<char>>>) -> Result<
    Seq<SpecView>,
    Seq<char>,
> {
    match triggers_of(list_items(list), readings) {
        Ok(v) => if v.len() > 0 {
            Ok(v)
        } else {
            Err("log_on(...) needs at least one trigger"@)
        },
        Err(m) => Err(m),
    }
}

/// Whether a reading fits an item: the ends of its arguments lie in them.
pub open spec fn reading_fits(item: Seq<Tok>, reading: Result<Seq<int>, Seq<char>>) -> bool {
    match (arguments_of(item), reading) {
        (Some(list), Ok(ends)) => are_ends(list, ends),
        _ => true,
    }
}

/// Whether readings fit items.
pub open spec fn readings_fit(
    items: Seq<Seq<Tok>>,
    readings: Seq<Result<Seq<int>, Seq<char>>>,
) -> bool {
    &&& readings.len() == items.len()
    &&& forall|i: int|
        0 <= i < items.len() ==> reading_fits(#[trigger] items[i], readings[i])
}

/// Whether readings can come out of reading the arguments of items.
pub open spec fn can_be_readings(
    items: Seq<Seq<Tok>>,
    readings: Seq<Result<Seq<int>, Seq<char>>>,
) -> bool {
    &&& readings.len() == items.len()
    &&& forall|i: int|
        0 <= i < items.len() ==> (arguments_of(#[trigger] items[i]) matches Some(list)
            ==> can_be_read(list, readings[i]))
}

proof fn lemma_triggers_fault(
    items: Seq<Seq<Tok>>,
    readings: Seq<Result<Seq<int>, Seq<char>>>,
    n: int,
)
    requires
        0 <= n <= items.len(),
        triggers_of(items.take(n), readings) is Err,
    ensures
        triggers_of(items, readings) == triggers_of(items.take(n), readings),
    decreases items.len(),
{
    if n == items.len() {
        assert(items.take(n) =~= items);
    } else {
        assert(items.drop_last().take(n) =~= items.take(n));
        lemma_triggers_fault(items.drop_last(), readings, n);
    }
}

proof fn lemma_next_cut(list: Seq<Tok>, n: int)
    requires
        0 <= n <= list.len(),
    ensures
        n <= next_cut(list, n) <= list.len(),
        next_cut(list, n) == list.len() || comma(list[next_cut(list, n)]),
    decreases list.len() - n,
{
    if n < list.len() && !comma(list[n]) {
        lemma_next_cut(list, n + 1);
    }
}

fn key_at(list: &Vec<Tok>, from: usize) -> (r: Option<String>)
    requires
        from < list@.len(),
    ensures
        match r {
            Some(k) => is_named(list@, from as int) && k@ == list@[from as int]->Ident_0@,
            None => !is_named(list@, from as int),
        },
{
    if list.len() - from < 2 {
        return None;
    }
    match (&list[from], &list[from + 1]) {
        (Tok::Ident(k), Tok::Punct(c, _)) => {
            if *c == '=' && !is_keyword(k.as_str()) {
                Some(k.clone())
            } else {
                None
            }
        },
        _ => None,
    }
}

/// How far the arguments of a list were read.
#[derive(Debug, PartialEq, Eq)]
pub enum Scan {
    /// The arguments up to here have these ends. The next one is to be read up to the
    /// given place.
    Read { ends: Vec<usize>, upto: usize },
    /// All arguments were read.
    Done(Vec<usize>),
    /// One of them could not be read.
    Refused(String),
}

impl View for Scan {
    type V = ScanView;

    open spec fn view(&self) -> ScanView {
        match self {
            Scan::Read { ends, upto } => ScanView::Read { ends: places(ends@), upto: *upto as int },
            Scan::Done(ends) => ScanView::Done(places(ends@)),
            Scan::Refused(m) => ScanView::Refused(m@),
        }
    }
}

/// Whether a scan is one of a list.
pub open spec fn scans(v: ScanView, list: Seq<Tok>) -> bool {
    match v {
        ScanView::Read { ends, upto } => {
            let from = argument_start(ends, ends.len() as int);
            &&& are_ends(list, ends)
            &&& forall|k: int| 0 <= k < ends.len() ==> comma(list[#[trigger] ends[k]])
            &&& 0 <= from < list.len()
            &&& value_start(list, from) <= upto <= list.len()
            &&& upto == list.len() || comma(list[upto])
        },
        ScanView::Done(ends) => cuts(list, ends),
        ScanView::Refused(_) => true,
    }
}

fn find_cut(list: &Vec<Tok>, start: usize) -> (r: usize)
    requires
        start <= list@.len(),
    ensures
        r == next_cut(list@, start as int),
{
    let mut n: usize = start;
    while n < list.len() && !is_comma(&list[n])
        invariant
            start <= n <= list@.len(),
            next_cut(list@, start as int) == next_cut(list@, n as int),
        decreases list@.len() - n,
    {
        n += 1;
    }
    n
}

proof fn lemma_more_ends(list: Seq<Tok>, ends: Seq<int>, upto: int)
    requires
        scans(ScanView::Read { ends, upto }, list),
    ensures
        are_ends(list, ends.push(upto)),
        argument_start(ends.push(upto), ends.len() as int + 1) == upto + 1,
        scans(scan_from(list, ends.push(upto)), list),
        upto < list.len() ==> scans(
            ScanView::Read { ends, upto: next_cut(list, upto + 1) },
            list,
        ),
{
    let more = ends.push(upto);
    assert forall|k: int| 0 <= k < more.len() implies value_start(list, argument_start(more, k))
        <= #[trigger] more[k] <= list.len() by {
        assert(argument_start(more, k) == argument_start(ends, k));
        if k < ends.len() {
            assert(more[k] == ends[k]);
        }
    }
    assert forall|k: int| 0 <= k < more.len() implies (#[trigger] more[k] == list.len() || comma(
        list[more[k]],
    )) by {
        if k < ends.len() {
            assert(more[k] == ends[k]);
        }
    }
    if upto + 1 < list.len() {
        lemma_next_cut(list, value_start(list, upto + 1));
        assert forall|k: int| 0 <= k < more.len() implies comma(list[#[trigger] more[k]]) by {
            if k < ends.len() {
                assert(more[k] == ends[k]);
            }
        }
    }
    if upto < list.len() {
        lemma_next_cut(list, upto + 1);
    }
}

fn go_on(list: &Vec<Tok>, ends: Vec<usize>, from: usize) -> (s: Scan)
    requires
        from == argument_start(places(ends@), ends@.len() as int),
    ensures
        s@ == scan_from(list@, places(ends@)),
{
    if from >= list.len() {
        return Scan::Done(ends);
    }
    let start = match key_at(list, from) {
        Some(_) => from + 2,
        None => from,
    };
    let upto = find_cut(list, start);
    Scan::Read { ends, upto }
}

/// Before anything was read.
pub fn start_scan(list: &Vec<Tok>) -> (s: Scan)
    ensures
        s@ == scan_from(list@, Seq::empty()),
        scans(s@, list@),
{
    let ends: Vec<usize> = Vec::new();
    assert(places(ends@) =~= Seq::<int>::empty());
    let s = go_on(list, ends, 0);
    proof {
        if list@.len() > 0 {
            lemma_next_cut(list@, value_start(list@, 0));
        }
    }
    s
}

/// The text that is to be read next: that of the tokens from where the expression of the
/// next argument begins up to the given place.
pub fn next_text(list: &Vec<Tok>, ends: &Vec<usize>, upto: usize) -> (text: String)
    requires
        scans((ScanView::Read { ends: places(ends@), upto: upto as int }), list@),
    ensures
        text@ == toks_text(
            list@.subrange(
                value_start(list@, argument_start(places(ends@), ends@.len() as int)),
                upto as int,
            ),
        ),
{
    let from: usize = if ends.len() == 0 {
        0
    } else {
        assert(places(ends@)[ends@.len() - 1] == ends@[ends@.len() - 1]);
        ends[ends.len() - 1] + 1
    };
    let start = match key_at(list, from) {
        Some(_) => from + 2,
        None => from,
    };
    write_toks(list, start, upto)
}

/// What follows once it is known whether the tokens up to a place read as an expression.
pub fn after_reading(
    list: &Vec<Tok>,
    ends: Vec<usize>,
    upto: usize,
    read: Result<(), String>,
) -> (s: Scan)
    requires
        scans((ScanView::Read { ends: places(ends@), upto: upto as int }), list@),
    ensures
        s@ == scan_step(list@, places(ends@), upto as int, said(read)),
        scans(s@, list@),
{
    proof {
        lemma_more_ends(list@, places(ends@), upto as int);
    }
    match read {
        Ok(_) => {
            let ghost before = places(ends@);
            let mut ends = ends;
            ends.push(upto);
            assert(places(ends@) =~= before.push(upto as int));
            if upto == list.len() {
                Scan::Done(ends)
            } else {
                go_on(list, ends, upto + 1)
            }
        },
        Err(m) => {
            if upto == list.len() {
                if same(m.as_str(), "unexpected token") {
                    Scan::Refused("expected `,`".to_owned())
                } else {
                    Scan::Refused(m)
                }
            } else {
                let next = find_cut(list, upto + 1);
                Scan::Read { ends, upto: next }
            }
        },
    }
}

/// What was said of a text.
pub open spec fn said(read: Result<(), String>) -> Result<(), Seq<char>> {
    match read {
        Ok(_) => Ok(()),
        Err(m) => Err(m@),
    }
}

/// The model of a reading.
pub open spec fn reading_view(r: Result<Vec<usize>, String>) -> Result<Seq<int>, Seq<char>> {
    match r {
        Ok(ends) => Ok(places(ends@)),
        Err(m) => Err(m@),
    }
}

/// Finds where the arguments of a trigger end, or says what is wrong with the first that
/// is none.
pub fn find_ends(list: &Vec<Tok>) -> (r: Result<Vec<usize>, String>)
    ensures
        can_be_read(list@, reading_view(r)),
        r matches Ok(ends) ==> cuts(list@, places(ends@)),
        list@.len() == 0 ==> (r matches Ok(ends) && ends@.len() == 0),
{
    let ghost mut reads: Seq<Result<(), Seq<char>>> = Seq::empty();
    let mut scan = start_scan(list);
    loop
        invariant
            scans(scan@, list@),
            scan@ == scanned(list@, reads),
            list@.len() == 0 ==> scan@ == ScanView::Done(Seq::empty()),
        decreases scan_left(scan@, list@), scan_ahead(scan@, list@),
    {
        match scan {
            Scan::Read { ends, upto } => {
                let read = read_expression(next_text(list, &ends, upto).as_str());
                proof {
                    let more = reads.push(said(read));
                    assert(more.drop_last() =~= reads);
                    reads = more;
                    if upto < list@.len() {
                        lemma_next_cut(list@, upto + 1);
                    }
                }
                scan = after_reading(list, ends, upto, read);
            },
            Scan::Done(ends) => {
                assert(scanned(list@, reads) == scan_end(reading_view(Ok(ends))));
                return Ok(ends);
            },
            Scan::Refused(m) => {
                assert(scanned(list@, reads) == scan_end(reading_view(Err(m))));
                return Err(m);
            },
        }
    }
}

spec fn scan_left(v: ScanView, list: Seq<Tok>) -> int {
    match v {
        ScanView::Read { ends, upto } => list.len() + 2 - argument_start(ends, ends.len() as int),
        _ => 0,
    }
}

spec fn scan_ahead(v: ScanView, list: Seq<Tok>) -> int {
    match v {
        ScanView::Read { ends, upto } => list.len() + 1 - upto,
        _ => 0,
    }
}

/// Adds the arguments of a list, which end at the given places, to a trigger.
pub fn take_arguments(bare: TriggerSpec, list: &Vec<Tok>, ends: &Vec<usize>) -> (r: TriggerSpec)
    requires
        are_ends(list@, places(ends@)),
    ensures
        r@ == with_arguments(bare@, list@, places(ends@), ends@.len() as int),
{
    let ghost at = places(ends@);
    let ghost start = bare@;
    let mut spec = bare;
    let mut k: usize = 0;
    while k < ends.len()
        invariant
            k <= ends@.len(),
            start == bare@,
            at == places(ends@),
            are_ends(list@, at),
            spec@ == with_arguments(start, list@, at, k as int),
        decreases ends@.len() - k,
    {
        let end = ends[k];
        let ghost before = spec@;
        proof {
            assert(at[k as int] == end);
        }
        let from: usize = if k == 0 {
            0
        } else {
            assert(at[k as int - 1] == ends@[k as int - 1]);
            ends[k - 1] + 1
        };
        let key = if from < list.len() {
            key_at(list, from)
        } else {
            None
        };
        match key {
            Some(name) => {
                let value = write_toks(list, from + 2, end);
                let ghost pair = (name@, value@);
                spec.named.push((name, value));
                assert(spec@ =~= (SpecView { named: before.named.push(pair), ..before }));
            },
            None => {
                let text = write_toks(list, from, end);
                let ghost t = text@;
                spec.positional.push(text);
                assert(spec@ =~= (SpecView { positional: before.positional.push(t), ..before }));
            },
        }
        k += 1;
    }
    spec
}

/// The models of readings.
pub open spec fn reading_views(list: Seq<Result<Vec<usize>, String>>) -> Seq<
    Result<Seq<int>, Seq<char>>,
> {
    Seq::new(list.len(), |i: int| reading_view(list[i]))
}

fn read_trigger(
    list: &Vec<Tok>,
    from: usize,
    to: usize,
    reading: &Result<Vec<usize>, String>,
) -> (r: Result<TriggerSpec, String>)
    requires
        from <= to <= list@.len(),
        reading_fits(list@.subrange(from as int, to as int), reading_view(*reading)),
    ensures
        match (trigger_of(list@.subrange(from as int, to as int), reading_view(*reading)), r) {
            (Ok(v), Ok(s)) => s@ == v,
            (Err(t), Err(m)) => m@ == t,
            _ => false,
        },
{
    let ghost item = list@.subrange(from as int, to as int);
    if to == from {
        return Err("expected identifier".to_owned());
    }
    assert(item[0] == list@[from as int]);
    match &list[from] {
        Tok::Ident(name) => {
            if is_keyword(name.as_str()) {
                let mut m = concat("expected identifier, found keyword `", name.as_str());
                m.append("`");
                return Err(m);
            }
            let spec = TriggerSpec {
                name: name.clone(),
                positional: Vec::new(),
                named: Vec::new(),
            };
            assert(spec@ =~= bare_trigger(name@));
            if to - from == 1 {
                return Ok(spec);
            }
            assert(item[1] == list@[from as int + 1]);
            match &list[from + 1] {
                Tok::Paren(inner) => match reading {
                    Ok(ends) => {
                        if to - from == 2 {
                            Ok(take_arguments(spec, inner, ends))
                        } else {
                            Err("expected `,`".to_owned())
                        }
                    },
                    Err(m) => Err(m.clone()),
                },
                _ => Err("expected `,`".to_owned()),
            }
        },
        _ => Err("expected identifier".to_owned()),
    }
}

/// The models of triggers.
pub open spec fn spec_views(list: Seq<TriggerSpec>) -> Seq<SpecView> {
    Seq::new(list.len(), |i: int| list[i]@)
}

/// Whether triggers or a message are the expected ones.
pub open spec fn is_log_on(
    r: Result<Vec<TriggerSpec>, String>,
    expected: Result<Seq<SpecView>, Seq<char>>,
) -> bool {
    match (r, expected) {
        (Ok(specs), Ok(v)) => spec_views(specs@) == v,
        (Err(m), Err(t)) => m@ == t,
        _ => false,
    }
}

/// Reads the arguments of the items of a list.
pub fn read_items(list: &Vec<Tok>) -> (readings: Vec<Result<Vec<usize>, String>>)
    ensures
        readings_fit(list_items(list@), reading_views(readings@)),
        can_be_readings(list_items(list@), reading_views(readings@)),
{
    let ranges = item_ranges(list);
    let ghost items = list_items(list@);
    let mut readings: Vec<Result<Vec<usize>, String>> = Vec::new();
    let mut i: usize = 0;
    while i < ranges.len()
        invariant
            i <= ranges@.len(),
            readings@.len() == i,
            items == cut_out(list@, ranges@),
            forall|j: int|
                0 <= j < ranges@.len() ==> (#[trigger] ranges@[j]).0 <= ranges@[j].1 <= list@.len(),
            forall|j: int|
                0 <= j < i ==> reading_fits(#[trigger] items[j], reading_view(readings@[j])) && (
                arguments_of(items[j]) matches Some(inner) ==> can_be_read(
                    inner,
                    reading_view(readings@[j]),
                )),
        decreases ranges@.len() - i,
    {
        let (from, to) = ranges[i];
        let none: Vec<usize> = Vec::new();
        let ghost item = items[i as int];
        proof {
            assert(ranges@[i as int].0 <= ranges@[i as int].1);
            assert(item == list@.subrange(from as int, to as int));
        }
        let reading = if to - from >= 2 {
            assert(item[1] == list@[from as int + 1]);
            match &list[from + 1] {
                Tok::Paren(inner) => find_ends(inner),
                _ => Ok(none),
            }
        } else {
            Ok(none)
        };
        let ghost before = readings@;
        readings.push(reading);
        assert forall|j: int| 0 <= j < i + 1 implies reading_fits(
            #[trigger] items[j],
            reading_view(readings@[j]),
        ) && (arguments_of(items[j]) matches Some(inner) ==> can_be_read(
            inner,
            reading_view(readings@[j]),
        )) by {
            if j < i {
                assert(readings@[j] == before[j]);
            }
        }
        i += 1;
    }
    readings
}

/// The triggers of a tag. `readings` are what came out of reading the arguments of each
/// item.
pub fn triggers_with(list: &Vec<Tok>, readings: &Vec<Result<Vec<usize>, String>>) -> (r: Result<
    Vec<TriggerSpec>,
    String,
>)
    requires
        readings_fit(list_items(list@), reading_views(readings@)),
    ensures
        is_log_on(r, log_on_of(list@, reading_views(readings@))),
{
    let ranges = item_ranges(list);
    let ghost items = list_items(list@);
    let ghost known = reading_views(readings@);
    let mut specs: Vec<TriggerSpec> = Vec::new();
    let mut i: usize = 0;
    assert(items.take(0) =~= Seq::empty());
    assert(spec_views(specs@) =~= Seq::empty());
    while i < ranges.len()
        invariant
            i <= ranges@.len(),
            specs@.len() == i,
            forall|j: int|
                0 <= j < ranges@.len() ==> (#[trigger] ranges@[j]).0 <= ranges@[j].1 <= list@.len(),
            items == cut_out(list@, ranges@),
            items == list_items(list@),
            known == reading_views(readings@),
            readings_fit(items, known),
            triggers_of(items.take(i as int), known) == Ok::<Seq<SpecView>, Seq<char>>(
                spec_views(specs@),
            ),
        decreases ranges@.len() - i,
    {
        let (from, to) = ranges[i];
        proof {
            assert(ranges@[i as int].0 <= ranges@[i as int].1);
            assert(items[i as int] == list@.subrange(from as int, to as int));
            assert(items.take(i as int + 1).drop_last() =~= items.take(i as int));
            assert(items.take(i as int + 1).last() == items[i as int]);
            assert(known[i as int] == reading_view(readings@[i as int]));
        }
        match read_trigger(list, from, to, &readings[i]) {
            Ok(spec) => {
                let ghost before = spec_views(specs@);
                let ghost v = spec@;
                specs.push(spec);
                assert(spec_views(specs@) =~= before.push(v));
            },
            Err(m) => {
                proof {
                    lemma_triggers_fault(items, known, i as int + 1);
                }
                return Err(m);
            },
        }
        i += 1;
    }
    assert(items.take(items.len() as int) =~= items);
    if specs.len() == 0 {
        return Err("log_on(...) needs at least one trigger".to_owned());
    }
    Ok(specs)
}

/// Reads the triggers of a tag. There has to be at least one.
pub fn parse_log_on(list: &Vec<Tok>) -> (r: Result<Vec<TriggerSpec>, String>)
    ensures
        exists|readings: Seq<Result<Seq<int>, Seq<char>>>|
            can_be_readings(list_items(list@), readings) && is_log_on(
                r,
                #[trigger] log_on_of(list@, readings),
            ),
{
    let readings = read_items(list);
    let r = triggers_with(list, &readings);
    assert(is_log_on(r, log_on_of(list@, reading_views(readings@))));
    r
}

// ---- the code of a trigger -----------------------------------------------------------------

/// Whether a trigger is for numbers, for truth values and strings, or not known.
pub open spec fn kind_of_trigger(name: Seq<char>) -> Option<bool> {
    if name == "cross"@ || name == "rise"@ || name == "fall"@ || name == "delta"@ {
        Some(true)
    } else if name == "any_change"@ || name == "enter"@ || name == "exit"@ {
        Some(false)
    } else {
        None
    }
}

/// An expression as a number.
pub open spec fn as_number(e: Seq<char>) -> Seq<char> {
    "("@ + e + ") as f64"@
}

/// Expressions as numbers.
pub open spec fn as_numbers(list: Seq<Seq<char>>) -> Seq<Seq<char>> {
    Seq::new(list.len(), |i: int| as_number(list[i]))
}

/// The deadband among named arguments, or the first that is none. Of two the later
/// wins.
pub open spec fn deadband_of(named: Seq<(Seq<char>, Seq<char>)>) -> Result<
    Option<Seq<char>>,
    Seq<char>,
>
    decreases named.len(),
{
    if named.len() == 0 {
        Ok(None)
    } else {
        match deadband_of(named.drop_last()) {
            Err(k) => Err(k),
            Ok(_) => if named.last().0 == "deadband"@ {
                Ok(Some(named.last().1))
            } else {
                Err(named.last().0)
            },
        }
    }
}

proof fn lemma_deadband_fault(named: Seq<(Seq<char>, Seq<char>)>, n: int)
    requires
        0 <= n <= named.len(),
        deadband_of(named.take(n)) is Err,
    ensures
        deadband_of(named) == deadband_of(named.take(n)),
    decreases named.len(),
{
    if n == named.len() {
        assert(named.take(n) =~= named);
    } else {
        assert(named.drop_last().take(n) =~= named.take(n));
        lemma_deadband_fault(named.drop_last(), n);
    }
}

/// The code of a trigger, or what is wrong with it.
pub open spec fn trigger_code(s: SpecView) -> Result<Seq<char>, Seq<char>> {
    if s.name == "cross"@ || s.name == "rise"@ || s.name == "fall"@ {
        if s.positional.len() == 0 {
            Err("log_on: "@ + s.name + "(...) requires at least one threshold"@)
        } else {
            match deadband_of(s.named) {
                Err(k) => Err(
                    "log_on: unknown "@ + s.name + "() option `"@ + k + "`; expected `deadband`"@,
                ),
                Ok(d) => {
                    let base = "::doover::tags::LogTrigger::"@ + s.name + "(::std::vec!["@ + joined(
                        as_numbers(s.positional),
                        ", "@,
                    ) + "])"@;
                    match d {
                        Some(d) => Ok(base + ".deadband("@ + as_number(d) + ")"@),
                        None => Ok(base),
                    }
                },
            }
        }
    } else if s.name == "delta"@ {
        if s.positional.len() > 0 || s.named.len() != 1 {
            Err("log_on: delta requires exactly one of `amount = ...` or `percent = ...`"@)
        } else if s.named[0].0 == "amount"@ {
            Ok("::doover::tags::LogTrigger::delta_amount("@ + as_number(s.named[0].1) + ")"@)
        } else if s.named[0].0 == "percent"@ {
            Ok("::doover::tags::LogTrigger::delta_percent("@ + as_number(s.named[0].1) + ")"@)
        } else {
            Err(
                "log_on: unknown delta option `"@ + s.named[0].0
                    + "`; expected `amount` or `percent`"@,
            )
        }
    } else if s.name == "any_change"@ {
        if s.positional.len() > 0 || s.named.len() > 0 {
            Err("log_on: any_change takes no arguments"@)
        } else {
            Ok("::doover::tags::LogTrigger::any_change()"@)
        }
    } else if s.name == "enter"@ || s.name == "exit"@ {
        if s.positional.len() != 1 || s.named.len() > 0 {
            Err("log_on: "@ + s.name + "(...) takes exactly one value"@)
        } else {
            Ok(
                "::doover::tags::LogTrigger::"@ + s.name + "(::doover::__private::serde_json::json!("@
                    + s.positional[0] + "))"@,
            )
        }
    } else {
        Err(
            "log_on: unknown trigger `"@ + s.name
                + "`; expected one of cross, rise, fall, delta, any_change, enter, exit"@,
        )
    }
}

/// Whether the code of a trigger, or the message, is the expected one.
pub open spec fn is_code(r: Result<String, String>, expected: Result<Seq<char>, Seq<char>>) -> bool {
    match (r, expected) {
        (Ok(s), Ok(e)) => s@ == e,
        (Err(m), Err(e)) => m@ == e,
        _ => false,
    }
}

fn write_number(e: &str) -> (s: String)
    ensures
        s@ == as_number(e@),
{
    let mut s = concat("(", e);
    s.append(") as f64");
    s
}

impl TriggerSpec {
    /// Whether the trigger is for numbers, for truth values and strings, or not known.
    pub fn numeric_kind(&self) -> (r: Option<bool>)
        ensures
            r == kind_of_trigger(self@.name),
    {
        let name = self.name.as_str();
        if same(name, "cross") || same(name, "rise") || same(name, "fall") || same(name, "delta") {
            Some(true)
        } else if same(name, "any_change") || same(name, "enter") || same(name, "exit") {
            Some(false)
        } else {
            None
        }
    }

    fn deadband(&self) -> (r: Result<Option<String>, String>)
        ensures
            match (deadband_of(self@.named), r) {
                (Ok(d), Ok(e)) => opt_chars(e) == d,
                (Err(k), Err(m)) => m@ == k,
                _ => false,
            },
    {
        let ghost all = self@.named;
        let mut found: Option<String> = None;
        let mut i: usize = 0;
        assert(all.take(0) =~= Seq::empty());
        while i < self.named.len()
            invariant
                i <= self.named@.len(),
                all == named_views(self.named@),
                all == self@.named,
                deadband_of(all.take(i as int)) == Ok::<Option<Seq<char>>, Seq<char>>(
                    opt_chars(found),
                ),
            decreases self.named@.len() - i,
        {
            proof {
                assert(all.take(i as int + 1).drop_last() =~= all.take(i as int));
                assert(all.take(i as int + 1).last() == all[i as int]);
            }
            if same(self.named[i].0.as_str(), "deadband") {
                found = Some(self.named[i].1.clone());
            } else {
                proof {
                    lemma_deadband_fault(all, i as int + 1);
                }
                return Err(self.named[i].0.clone());
            }
            i += 1;
        }
        assert(all.take(all.len() as int) =~= all);
        Ok(found)
    }

    fn thresholds(&self) -> (s: String)
        ensures
            s@ == joined(as_numbers(self@.positional), ", "@),
    {
        let mut list: Vec<String> = Vec::new();
        let mut i: usize = 0;
        while i < self.positional.len()
            invariant
                i <= self.positional@.len(),
                list@.len() == i,
                forall|j: int|
                    0 <= j < i ==> (#[trigger] list@[j])@ == as_number(self.positional@[j]@),
            decreases self.positional@.len() - i,
        {
            list.push(write_number(self.positional[i].as_str()));
            i += 1;
        }
        assert(views(list@) =~= as_numbers(self@.positional));
        join(&list, ", ")
    }

    /// The code of the trigger, or what is wrong with it.
    pub fn to_tokens(&self) -> (r: Result<String, String>)
        ensures
            is_code(r, trigger_code(self@)),
    {
        let name = self.name.as_str();
        if same(name, "cross") || same(name, "rise") || same(name, "fall") {
            if self.positional.len() == 0 {
                let mut m = concat("log_on: ", name);
                m.append("(...) requires at least one threshold");
                return Err(m);
            }
            match self.deadband() {
                Err(key) => {
                    let mut m = concat("log_on: unknown ", name);
                    m.append("() option `");
                    m.append(key.as_str());
                    m.append("`; expected `deadband`");
                    Err(m)
                },
                Ok(deadband) => {
                    let mut s = concat("::doover::tags::LogTrigger::", name);
                    s.append("(::std::vec![");
                    s.append(self.thresholds().as_str());
                    s.append("])");
                    if let Some(d) = deadband {
                        s.append(".deadband(");
                        s.append(write_number(d.as_str()).as_str());
                        s.append(")");
                    }
                    Ok(s)
                },
            }
        } else if same(name, "delta") {
            if self.positional.len() > 0 || self.named.len() != 1 {
                return Err(
                    "log_on: delta requires exactly one of `amount = ...` or `percent = ...`".to_owned(),
                );
            }
            let key = self.named[0].0.as_str();
            let value = write_number(self.named[0].1.as_str());
            if same(key, "amount") {
                let mut s = concat("::doover::tags::LogTrigger::delta_amount(", value.as_str());
                s.append(")");
                Ok(s)
            } else if same(key, "percent") {
                let mut s = concat("::doover::tags::LogTrigger::delta_percent(", value.as_str());
                s.append(")");
                Ok(s)
            } else {
                let mut m = concat("log_on: unknown delta option `", key);
                m.append("`; expected `amount` or `percent`");
                Err(m)
            }
        } else if same(name, "any_change") {
            if self.positional.len() > 0 || self.named.len() > 0 {
                return Err("log_on: any_change takes no arguments".to_owned());
            }
            Ok("::doover::tags::LogTrigger::any_change()".to_owned())
        } else if same(name, "enter") || same(name, "exit") {
            if self.positional.len() != 1 || self.named.len() > 0 {
                let mut m = concat("log_on: ", name);
                m.append("(...) takes exactly one value");
                return Err(m);
            }
            let mut s = concat("::doover::tags::LogTrigger::", name);
            s.append("(::doover::__private::serde_json::json!(");
            s.append(self.positional[0].as_str());
            s.append("))");
            Ok(s)
        } else {
            let mut m = concat("log_on: unknown trigger `", name);
            m.append("`; expected one of cross, rise, fall, delta, any_change, enter, exit");
            Err(m)
        }
    }
}

/// A trigger that is not known has no code, and one that has code is known.
pub proof fn law_only_known_triggers_have_code(s: SpecView)
    ensures
        kind_of_trigger(s.name) is None ==> trigger_code(s) is Err,
        trigger_code(s) is Ok ==> kind_of_trigger(s.name) is Some,
{
}

proof fn lemma_scanned(list: Seq<Tok>, reads: Seq<Result<(), Seq<char>>>)
    ensures
        scans(scanned(list, reads), list),
    decreases reads.len(),
{
    if reads.len() == 0 {
        if list.len() > 0 {
            lemma_next_cut(list, value_start(list, 0));
        }
    } else {
        lemma_scanned(list, reads.drop_last());
        if let ScanView::Read { ends, upto } = scanned(list, reads.drop_last()) {
            lemma_more_ends(list, ends, upto);
        }
    }
}

/// Whatever reads as an expression, arguments that are accepted cut their list: each
/// ends at a comma or with the list, and no token is left. A list without tokens has no
/// arguments and is accepted.
pub proof fn law_arguments_cut_their_list(list: Seq<Tok>, r: Result<Seq<int>, Seq<char>>)
    requires
        can_be_read(list, r),
    ensures
        r matches Ok(ends) ==> cuts(list, ends),
        list.len() == 0 ==> r == Ok::<Seq<int>, Seq<char>>(Seq::empty()),
{
    let reads = choose|reads: Seq<Result<(), Seq<char>>>|
        #[trigger] scanned(list, reads) == scan_end(r);
    lemma_scanned(list, reads);
    if list.len() == 0 {
        lemma_nothing_to_scan(list, reads);
    }
}

proof fn lemma_nothing_to_scan(list: Seq<Tok>, reads: Seq<Result<(), Seq<char>>>)
    requires
        list.len() == 0,
    ensures
        scanned(list, reads) == ScanView::Done(Seq::empty()),
    decreases reads.len(),
{
    if reads.len() > 0 {
        lemma_nothing_to_scan(list, reads.drop_last());
    }
}

/// A trigger without arguments is itself, whatever `syn` says of expressions.
pub proof fn law_bare_triggers_need_no_reading(
    item: Seq<Tok>,
    one: Result<Seq<int>, Seq<char>>,
    other: Result<Seq<int>, Seq<char>>,
)
    requires
        arguments_of(item) is None,
    ensures
        trigger_of(item, one) == trigger_of(item, other),
        item.len() == 1 && (item[0] matches Tok::Ident(k) && !keyword(k@)) ==> trigger_of(item, one)
            == Ok::<SpecView, Seq<char>>(bare_trigger(item[0]->Ident_0@)),
{
}

} // verus!
