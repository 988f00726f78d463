//! Text as sequences of characters: decimal notation, and splitting at a
//! separator.

use itertools::Itertools;
use vstd::prelude::*;

verus! {

/// The character that writes the digit `d`.
pub open spec fn digit(d: nat) -> char
    recommends
        d < 10,
{
    ('0' as nat + d) as char
}

/// Whether `c` is one of `0` to `9`.
pub open spec fn is_digit(c: char) -> bool {
    '0' <= c <= '9'
}

/// The number that the digit `c` stands for.
pub open spec fn digit_value(c: char) -> nat
    recommends
        is_digit(c),
{
    (c as int - '0' as int) as nat
}

/// `n` in decimal notation, without leading zeros.
pub open spec fn decimal(n: nat) -> Seq<char>
    decreases n,
{
    if n < 10 {
        seq![digit(n)]
    } else {
        decimal(n / 10).push(digit(n % 10))
    }
}

/// `i` in decimal notation, with a minus sign in front where it is negative.
pub open spec fn signed_decimal(i: int) -> Seq<char> {
    if i < 0 {
        seq!['-'] + decimal((-i) as nat)
    } else {
        decimal(i as nat)
    }
}

/// Whether `s` is a non-empty run of digits.
pub open spec fn is_numeral(s: Seq<char>) -> bool {
    s.len() > 0 && forall|i: int| 0 <= i < s.len() ==> is_digit(#[trigger] s[i])
}

/// The number that a run of digits writes in decimal notation.
pub open spec fn numeral_value(s: Seq<char>) -> nat
    decreases s.len(),
{
    if s.len() == 0 {
        0
    } else {
        numeral_value(s.drop_last()) * 10 + digit_value(s.last())
    }
}

/// The number that `s` writes, where `s` is a numeral of a value up to `max`.
pub open spec fn numeral(s: Seq<char>, max: nat) -> Option<nat> {
    if is_numeral(s) && numeral_value(s) <= max {
        Some(numeral_value(s))
    } else {
        None
    }
}

/// The pieces of `s` between its separators: one more piece than `s` has
/// separators, each as long as the run between two of them, so that two
/// separators in a row give an empty piece.
pub open spec fn split(s: Seq<char>, sep: char) -> Seq<Seq<char>>
    decreases s.len(),
{
    if s.len() == 0 {
        seq![Seq::empty()]
    } else {
        let before = split(s.drop_last(), sep);
        if s.last() == sep {
            before.push(Seq::empty())
        } else {
            before.drop_last().push(before.last().push(s.last()))
        }
    }
}

/// The pieces in one text, with `sep` between each two of them.
pub open spec fn joined(pieces: Seq<Seq<char>>, sep: Seq<char>) -> Seq<char>
    decreases pieces.len(),
{
    if pieces.len() == 0 {
        Seq::empty()
    } else if pieces.len() == 1 {
        pieces[0]
    } else {
        joined(pieces.drop_last(), sep) + sep + pieces.last()
    }
}

/// What each of the strings holds.
pub open spec fn texts(strings: Seq<String>) -> Seq<Seq<char>> {
    Seq::new(strings.len(), |i: int| strings[i]@)
}

/// What each of the vectors holds.
pub open spec fn runs(pieces: Seq<Vec<char>>) -> Seq<Seq<char>> {
    Seq::new(pieces.len(), |i: int| pieces[i]@)
}

/// `String::push` appends one character to the end of the string.
pub assume_specification[ String::push ](s: &mut String, c: char)
    ensures
        final(s)@ == old(s)@.push(c),
;

/// `itertools::Itertools::join` on the strings of `lines`: the text that
/// holds them in order, with `sep` between each two, and nothing for no
/// string at all. Before it writes, `join` reserves room for the separator's
/// length in bytes times the number of strings behind the first. With a
/// separator of at most one character this is less than what `lines` itself
/// occupies, so the product cannot overflow.
#[verifier::external_body]
pub(crate) fn join_lines(lines: &Vec<String>, sep: &str) -> (text: String)
    requires
        sep@.len() <= 1,
    ensures
        text@ == joined(texts(lines@), sep@),
{
    lines.iter().join(sep)
}

/// The characters of `s`, in order.
pub fn chars_of(s: &str) -> (v: Vec<char>)
    ensures
        v@ == s@,
{
    broadcast use vstd::string::group_string_axioms;

    let mut v: Vec<char> = Vec::new();
    for c in it: s.chars()
        invariant
            it.seq() == s@,
            v@ == s@.take(it.index()),
    {
        v.push(c);
    }
    v
}

/// The character of one digit.
pub fn digit_char(d: u8) -> (c: char)
    requires
        d < 10,
    ensures
        c == digit(d as nat),
{
    let code: u8 = d + 48;
    code as char
}

/// Appends `n` in decimal notation to `out`.
pub fn push_decimal(out: &mut String, n: usize)
    ensures
        final(out)@ == old(out)@ + decimal(n as nat),
    decreases n,
{
    if n >= 10 {
        push_decimal(out, n / 10);
    }
    let last: u8 = (n % 10) as u8;
    out.push(digit_char(last));
    assert(out@ =~= old(out)@ + decimal(n as nat));
}

/// Appends `i` in decimal notation to `out`, with its sign where it is
/// negative.
pub fn push_signed_decimal(out: &mut String, i: i32)
    ensures
        final(out)@ == old(out)@ + signed_decimal(i as int),
{
    if i < 0 {
        out.push('-');
        let wide: i64 = i as i64;
        let size: i64 = -wide;
        push_decimal(out, size as usize);
        assert(out@ =~= old(out)@ + signed_decimal(i as int));
    } else {
        push_decimal(out, i as usize);
    }
}

/// Splits `s` at each `sep`.
pub fn split_chars(s: &[char], sep: char) -> (pieces: Vec<Vec<char>>)
    ensures
        runs(pieces@) == split(s@, sep),
{
    let mut pieces: Vec<Vec<char>> = Vec::new();
    let mut current: Vec<char> = Vec::new();
    let mut at: usize = 0;
    while at < s.len()
        invariant
            at <= s.len(),
            runs(pieces@).push(current@) == split(s@.take(at as int), sep),
        decreases s.len() - at,
    {
        assert(s@.take(at + 1).drop_last() =~= s@.take(at as int));
        if s[at] == sep {
            pieces.push(current);
            current = Vec::new();
        } else {
            current.push(s[at]);
        }
        at += 1;
    }
    assert(s@.take(at as int) =~= s@);
    pieces.push(current);
    pieces
}

/// Reads `word` as a numeral of a value up to `max`.
pub fn parse_numeral(word: &[char], max: usize) -> (r: Option<usize>)
    ensures
        match r {
            Some(value) => numeral(word@, max as nat) == Some(value as nat),
            None => numeral(word@, max as nat) is None,
        },
{
    if word.len() == 0 {
        return None;
    }
    let mut value: usize = 0;
    let mut at: usize = 0;
    while at < word.len()
        invariant
            at <= word.len(),
            value <= max,
            value == numeral_value(word@.take(at as int)),
            forall|i: int| 0 <= i < at ==> is_digit(#[trigger] word@[i]),
        decreases word.len() - at,
    {
        let c: char = word[at];
        if c < '0' || c > '9' {
            return None;
        }
        let d: usize = (c as u8 - 48) as usize;
        proof {
            assert(word@.take(at + 1).drop_last() =~= word@.take(at as int));
            lemma_numeral_value_grows(word@, at + 1);
        }
        if d > max || value > (max - d) / 10 {
            return None;
        }
        value = value * 10 + d;
        at += 1;
    }
    assert(word@.take(at as int) =~= word@);
    Some(value)
}

/// A run of digits writes at least what any of its beginnings writes.
pub proof fn lemma_numeral_value_grows(s: Seq<char>, n: int)
    requires
        0 <= n <= s.len(),
    ensures
        numeral_value(s.take(n)) <= numeral_value(s),
    decreases s.len(),
{
    if n < s.len() {
        assert(s.drop_last().take(n) =~= s.take(n));
        lemma_numeral_value_grows(s.drop_last(), n);
    } else {
        assert(s.take(n) =~= s);
    }
}

/// Decimal notation is a numeral, and the numeral writes the number.
pub proof fn lemma_decimal_reads_back(n: nat)
    ensures
        is_numeral(decimal(n)),
        numeral_value(decimal(n)) == n,
    decreases n,
{
    if n < 10 {
        assert(numeral_value(decimal(n).drop_last()) == 0);
    } else {
        lemma_decimal_reads_back(n / 10);
        assert(decimal(n).drop_last() =~= decimal(n / 10));
    }
}

/// A text without separators is one piece.
pub proof fn lemma_split_one(t: Seq<char>, sep: char)
    requires
        !t.contains(sep),
    ensures
        split(t, sep) == seq![t],
    decreases t.len(),
{
    if t.len() == 0 {
        assert(t =~= Seq::<char>::empty());
    } else {
        lemma_split_one(t.drop_last(), sep);
        assert(t.drop_last().push(t.last()) =~= t);
    }
}

/// Behind a separator, a text without separators is one more piece.
pub proof fn lemma_split_append(s: Seq<char>, t: Seq<char>, sep: char)
    requires
        !t.contains(sep),
    ensures
        split(s.push(sep) + t, sep) == split(s, sep).push(t),
    decreases t.len(),
{
    let whole = s.push(sep) + t;
    if t.len() == 0 {
        assert(whole.drop_last() =~= s);
        assert(t =~= Seq::<char>::empty());
    } else {
        lemma_split_append(s, t.drop_last(), sep);
        assert(whole.drop_last() =~= s.push(sep) + t.drop_last());
        assert(t.drop_last().push(t.last()) =~= t);
    }
}

/// Decimal notation holds digits only.
pub proof fn lemma_decimal_holds_no(n: nat, c: char)
    requires
        !is_digit(c),
    ensures
        !decimal(n).contains(c),
{
    lemma_decimal_reads_back(n);
}

/// Splitting loses nothing: a text has at least one piece, no piece holds the
/// separator, and the pieces with the separator between each two of them are
/// the text again.
pub proof fn law_split_joins_back(s: Seq<char>, sep: char)
    ensures
        split(s, sep).len() > 0,
        forall|i: int| 0 <= i < split(s, sep).len() ==> !(#[trigger] split(s, sep)[i]).contains(sep),
        joined(split(s, sep), seq![sep]) == s,
    decreases s.len(),
{
    let pieces = split(s, sep);
    if s.len() > 0 {
        let before = split(s.drop_last(), sep);
        law_split_joins_back(s.drop_last(), sep);
        if s.last() == sep {
            assert(pieces.drop_last() =~= before);
        } else {
            let open = before.last();
            let grown = open.push(s.last());
            if before.len() > 1 {
                assert(pieces.drop_last() =~= before.drop_last());
                let start = joined(before.drop_last(), seq![sep]) + seq![sep];
                assert(start + grown =~= (start + open).push(s.last()));
            }
        }
    }
}

} // verus!
