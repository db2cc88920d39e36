//! Text helpers shared by the matcher: comparisons, prefixes, splitting and
//! joining, all stated over character sequences.

use vstd::prelude::*;
use vstd::string::*;

verus! {

/// The characters of every string of a list, in order.
pub open spec fn texts(list: Seq<String>) -> Seq<Seq<char>> {
    Seq::new(list.len(), |i: int| list[i]@)
}

/// The characters of every borrowed token of a list, in order.
pub open spec fn tokens(list: Seq<&str>) -> Seq<Seq<char>> {
    Seq::new(list.len(), |i: int| list[i]@)
}

/// A token that begins with a dash.
pub open spec fn dashed(word: Seq<char>) -> bool {
    word.len() > 0 && word[0] == '-'
}

/// A token that begins with two dashes.
pub open spec fn double_dashed(word: Seq<char>) -> bool {
    word.len() > 1 && word[0] == '-' && word[1] == '-'
}

/// The position of the first item equal to `mark`, or the length of `list`
/// when there is none.
pub open spec fn first_index_of<T>(list: Seq<T>, mark: T) -> int
    decreases list.len(),
{
    if list.len() == 0 {
        0
    } else if list[0] == mark {
        0
    } else {
        1 + first_index_of(list.drop_first(), mark)
    }
}

/// `items` joined with `sep` between neighbours.
pub open spec fn joined(items: Seq<Seq<char>>, sep: Seq<char>) -> Seq<char>
    decreases items.len(),
{
    if items.len() == 0 {
        Seq::empty()
    } else if items.len() == 1 {
        items[0]
    } else {
        joined(items.drop_last(), sep) + sep + items.last()
    }
}

/// The decimal digit for a value below ten.
pub open spec fn digit(d: nat) -> char {
    if d == 0 {
        '0'
    } else if d == 1 {
        '1'
    } else if d == 2 {
        '2'
    } else if d == 3 {
        '3'
    } else if d == 4 {
        '4'
    } else if d == 5 {
        '5'
    } else if d == 6 {
        '6'
    } else if d == 7 {
        '7'
    } else if d == 8 {
        '8'
    } else {
        '9'
    }
}

/// The decimal numeral of `n`, without leading zeros.
pub open spec fn decimal(n: nat) -> Seq<char>
    decreases n,
{
    if n < 10 {
        seq![digit(n)]
    } else {
        decimal(n / 10).push(digit(n % 10))
    }
}

/// `first_index_of` names a position of `list` or its length; the position
/// holds `mark`, and no position before it does.
pub proof fn lemma_first_index_of<T>(list: Seq<T>, mark: T)
    ensures
        0 <= first_index_of(list, mark) <= list.len(),
        first_index_of(list, mark) < list.len() ==> list[first_index_of(list, mark)] == mark,
        forall|j: int| 0 <= j < first_index_of(list, mark) ==> list[j] != mark,
    decreases list.len(),
{
    if list.len() > 0 && list[0] != mark {
        let rest = list.drop_first();
        lemma_first_index_of(rest, mark);
        assert forall|j: int| 0 <= j < first_index_of(list, mark) implies list[j] != mark by {
            if j > 0 {
                assert(list[j] == rest[j - 1]);
            }
        }
    }
}

/// The first position that holds `mark` with none before it is the one
/// `first_index_of` names.
pub proof fn lemma_first_index_unique<T>(list: Seq<T>, mark: T, at: int)
    requires
        0 <= at <= list.len(),
        at < list.len() ==> list[at] == mark,
        forall|j: int| 0 <= j < at ==> list[j] != mark,
    ensures
        first_index_of(list, mark) == at,
{
    lemma_first_index_of(list, mark);
    let found = first_index_of(list, mark);
    if found < at {
        assert(list[found] == mark);
    } else if at < found {
        assert(list[at] == mark);
    }
}

/// `str`'s `==`: two slices are equal exactly when they hold the same
/// characters.
#[verifier::external_body]
pub(crate) fn str_eq(a: &str, b: &str) -> (same: bool)
    ensures
        same == (a@ == b@),
{
    a == b
}

/// The characters of `s`, in order.
pub fn chars_of(s: &str) -> (list: Vec<char>)
    ensures
        list@ == s@,
{
    broadcast use vstd::string::group_string_axioms;

    let mut list: Vec<char> = Vec::new();
    for c in it: s.chars()
        invariant
            it.seq() == s@,
            list@.len() == it.index(),
            forall|j: int| 0 <= j < list@.len() ==> list@[j] == it.seq()[j],
    {
        list.push(c);
    }
    proof {
        assert(list@ =~= s@);
    }
    list
}

/// `String::from_iter` over a slice of characters: the string that holds
/// exactly those characters, in order.
#[verifier::external_body]
pub(crate) fn string_of(list: &Vec<char>) -> (s: String)
    ensures
        s@ == list@,
{
    String::from_iter(list.iter())
}

pub fn starts_with_dash(word: &str) -> (yes: bool)
    ensures
        yes == dashed(word@),
{
    !word.is_empty() && word.get_char(0) == '-'
}

pub fn starts_with_double_dash(word: &str) -> (yes: bool)
    ensures
        yes == double_dashed(word@),
{
    word.unicode_len() > 1 && word.get_char(0) == '-' && word.get_char(1) == '-'
}

/// Splits `word` at its first `=`: the part before it and the part after it,
/// or `None` when `word` holds no `=`.
pub fn split_assign<'a>(word: &'a str) -> (parts: Option<(&'a str, &'a str)>)
    ensures
        parts is Some <==> first_index_of(word@, '=') < word@.len(),
        parts matches Some(p) ==> {
            &&& p.0@ == word@.subrange(0, first_index_of(word@, '='))
            &&& p.1@ == word@.subrange(first_index_of(word@, '=') + 1, word@.len() as int)
        },
{
    let n: usize = word.unicode_len();
    let mut i: usize = 0;
    while i < n
        invariant
            n == word@.len(),
            i <= n,
            forall|j: int| 0 <= j < i ==> word@[j] != '=',
        decreases n - i,
    {
        if word.get_char(i) == '=' {
            proof {
                lemma_first_index_unique(word@, '=', i as int);
            }
            return Some((word.substring_char(0, i), word.substring_char(i + 1, n)));
        }
        i += 1;
    }
    proof {
        lemma_first_index_unique(word@, '=', n as int);
    }
    None
}

/// Appends the items of `items`, separated by `sep`, to a fresh string.
pub fn join(items: &Vec<String>, sep: &str) -> (out: String)
    ensures
        out@ == joined(texts(items@), sep@),
{
    let mut out = String::new();
    let mut i: usize = 0;
    while i < items.len()
        invariant
            i <= items@.len(),
            out@ == joined(texts(items@).take(i as int), sep@),
        decreases items@.len() - i,
    {
        proof {
            let before = texts(items@).take(i as int);
            let after = texts(items@).take(i + 1);
            assert(after.drop_last() =~= before);
            assert(after.last() == items@[i as int]@);
            if i == 0 {
                assert(before.len() == 0);
            }
        }
        if i > 0 {
            out.append(sep);
        }
        out.append(items[i].as_str());
        proof {
            if i == 0 {
                assert(out@ =~= items@[0]@);
            }
        }
        i += 1;
    }
    proof {
        assert(texts(items@).take(items@.len() as int) =~= texts(items@));
    }
    out
}

fn digit_char(d: usize) -> (c: char)
    requires
        d < 10,
    ensures
        c == digit(d as nat),
{
    if d == 0 {
        '0'
    } else if d == 1 {
        '1'
    } else if d == 2 {
        '2'
    } else if d == 3 {
        '3'
    } else if d == 4 {
        '4'
    } else if d == 5 {
        '5'
    } else if d == 6 {
        '6'
    } else if d == 7 {
        '7'
    } else if d == 8 {
        '8'
    } else {
        '9'
    }
}

fn push_decimal(n: usize, out: &mut Vec<char>)
    ensures
        final(out)@ == old(out)@ + decimal(n as nat),
    decreases n,
{
    if n >= 10 {
        push_decimal(n / 10, out);
    }
    out.push(digit_char(n % 10));
    proof {
        assert(out@ =~= old(out)@ + decimal(n as nat));
    }
}

/// The decimal numeral of `n`.
pub fn decimal_string(n: usize) -> (out: String)
    ensures
        out@ == decimal(n as nat),
{
    let mut digits: Vec<char> = Vec::new();
    push_decimal(n, &mut digits);
    proof {
        assert(digits@ =~= decimal(n as nat));
    }
    string_of(&digits)
}

/// A copy of `list`.
pub fn clone_strings(list: &Vec<String>) -> (copy: Vec<String>)
    ensures
        texts(copy@) == texts(list@),
{
    let mut copy: Vec<String> = Vec::new();
    let mut i: usize = 0;
    while i < list.len()
        invariant
            i <= list@.len(),
            copy@.len() == i,
            forall|j: int| 0 <= j < i ==> copy@[j]@ == list@[j]@,
        decreases list@.len() - i,
    {
        copy.push(list[i].clone());
        i += 1;
    }
    proof {
        assert(texts(copy@) =~= texts(list@));
    }
    copy
}

/// The tokens of `list` as strings of their own.
pub fn to_strings(list: &Vec<&str>) -> (copy: Vec<String>)
    ensures
        texts(copy@) == tokens(list@),
{
    let mut copy: Vec<String> = Vec::new();
    let mut i: usize = 0;
    while i < list.len()
        invariant
            i <= list@.len(),
            copy@.len() == i,
            forall|j: int| 0 <= j < i ==> copy@[j]@ == list@[j]@,
        decreases list@.len() - i,
    {
        copy.push(String::from_str(list[i]));
        i += 1;
    }
    proof {
        assert(texts(copy@) =~= tokens(list@));
    }
    copy
}

/// Whether `list` holds `word`.
pub fn contains_text(list: &Vec<String>, word: &str) -> (yes: bool)
    ensures
        yes == texts(list@).contains(word@),
{
    let mut i: usize = 0;
    while i < list.len()
        invariant
            i <= list@.len(),
            forall|j: int| 0 <= j < i ==> texts(list@)[j] != word@,
        decreases list@.len() - i,
    {
        if str_eq(list[i].as_str(), word) {
            assert(texts(list@)[i as int] == word@);
            return true;
        }
        i += 1;
    }
    false
}

} // verus!
