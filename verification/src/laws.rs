//! What holds of the formatter on every text, and of the watcher that uses it.

use vstd::prelude::*;
use crate::monitor::{next_content, text_to_write};
use crate::name::{
    first_four, first_index, first_token, formatted, is_blank, is_first_at, last_token, lemma_first_index,
    lemma_last_index, lemma_occurrences, segment,
};

verus! {

/// A text without a comma has no code.
pub proof fn lemma_no_comma_no_code(s: Seq<char>)
    requires
        !s.contains(','),
    ensures
        formatted(s) is None,
{
}

/// A code never holds a comma and has at most eight characters.
pub proof fn lemma_code_shape(s: Seq<char>)
    requires
        formatted(s) is Some,
    ensures
        !formatted(s)->0.contains(','),
        formatted(s)->0.len() <= 8,
{
    lemma_occurrences(s, ',');
    let seg = segment(s);
    assert(forall|j: int| 0 <= j < seg.len() ==> seg[j] == s[j]);
    let first = first_token(seg);
    let last = last_token(seg);
    if seg.contains(' ') {
        lemma_occurrences(seg, ' ');
    }
    assert(forall|j: int| 0 <= j < first.len() ==> first[j] != ',');
    assert(forall|j: int| 0 <= j < last.len() ==> last[j] != ',');
    let code = first_four(last) + first_four(first);
    assert(forall|j: int| 0 <= j < code.len() ==> code[j] != ',');
}

/// Formatting a code again changes nothing: a code has no code of its own.
pub proof fn lemma_code_is_left_alone(s: Seq<char>)
    requires
        formatted(s) is Some,
    ensures
        formatted(formatted(s)->0) is None,
{
    lemma_code_shape(s);
}

/// `First Last, rest`: the code is the start of the last name, then the start of
/// the first name. Neither name holds a space or a comma, and not both are
/// empty; further names may stand between the two.
pub proof fn lemma_last_then_first(
    first: Seq<char>,
    middle: Seq<char>,
    last: Seq<char>,
    rest: Seq<char>,
)
    requires
        !first.contains(' ') && !first.contains(','),
        !last.contains(' ') && !last.contains(','),
        !middle.contains(','),
        first.len() > 0 || last.len() > 0,
    ensures
        formatted(first + seq![' '] + middle + seq![' '] + last + seq![','] + rest) == Some(
            first_four(last) + first_four(first),
        ),
        formatted(first + seq![' '] + last + seq![','] + rest) == Some(
            first_four(last) + first_four(first),
        ),
{
    lemma_cut(first, middle + seq![' '] + last, rest);
    assert(first + seq![' '] + (middle + seq![' '] + last) =~= first + seq![' '] + middle + seq![' '] + last);
    lemma_cut(first + seq![' '] + middle, last, rest);
    lemma_cut(first, last, rest);
    let long = first + seq![' '] + middle + seq![' '] + last;
    let short = first + seq![' '] + last;
    if first.len() > 0 {
        assert(first[0] != ' ');
        assert(long[0] == first[0] && short[0] == first[0]);
    } else {
        assert(last.last() != ' ');
        assert(long.last() == last.last() && short.last() == last.last());
    }
    assert(!is_blank(long));
    assert(!is_blank(short));
}

/// One way to cut `head rest_of_names, rest` settles either the first or the last name.
proof fn lemma_cut(head: Seq<char>, tail: Seq<char>, rest: Seq<char>)
    requires
        !head.contains(','),
        !tail.contains(','),
    ensures
        segment(head + seq![' '] + tail + seq![','] + rest) == head + seq![' '] + tail,
        (head + seq![' '] + tail + seq![','] + rest).contains(','),
        !head.contains(' ') ==> first_token(head + seq![' '] + tail) == head,
        !tail.contains(' ') ==> last_token(head + seq![' '] + tail) == tail,
{
    let seg = head + seq![' '] + tail;
    let s = seg + seq![','] + rest;
    let end = seg.len() as int;
    assert forall|j: int| 0 <= j < end implies s[j] != ',' by {
        if j < head.len() {
            assert(head[j] == s[j]);
        } else if j > head.len() {
            assert(tail[j - head.len() - 1] == s[j]);
        }
    }
    assert(is_first_at(s, ',', end));
    lemma_first_index(s, ',', end);
    assert(segment(s) =~= seg);
    let k = head.len() as int;
    assert(seg[k] == ' ');
    if !head.contains(' ') {
        assert forall|j: int| 0 <= j < k implies seg[j] != ' ' by {
            assert(head[j] == seg[j]);
        }
        lemma_first_index(seg, ' ', k);
        assert(seg.subrange(0, k) =~= head);
    }
    if !tail.contains(' ') {
        assert forall|j: int| k < j < seg.len() implies seg[j] != ' ' by {
            assert(tail[j - k - 1] == seg[j]);
        }
        lemma_last_index(seg, ' ', k);
        assert(seg.subrange(k + 1, seg.len() as int) =~= tail);
    }
}

/// A text with nothing but spaces before its first comma has no code, whatever
/// follows the comma.
pub proof fn lemma_blank_has_no_code(blank: Seq<char>, rest: Seq<char>)
    requires
        is_blank(blank),
    ensures
        formatted(blank + seq![','] + rest) is None,
{
    let s = blank + seq![','] + rest;
    let end = blank.len() as int;
    assert forall|j: int| 0 <= j < end implies s[j] != ',' by {
        assert(blank[j] == s[j]);
    }
    assert(is_first_at(s, ',', end));
    lemma_first_index(s, ',', end);
    assert(segment(s) =~= blank);
}

/// Every code comes from a name: a text has a code exactly where it holds a
/// comma and something other than a space before the first one.
pub proof fn lemma_code_needs_a_name(s: Seq<char>)
    ensures
        formatted(s) is Some <==> s.contains(',') && exists|j: int|
            0 <= j < first_index(s, ',') && s[j] != ' ',
{
    if s.contains(',') {
        lemma_occurrences(s, ',');
        let seg = segment(s);
        assert(forall|j: int| 0 <= j < seg.len() ==> seg[j] == s[j]);
        if !is_blank(seg) {
            let j = choose|j: int| 0 <= j < seg.len() && seg[j] != ' ';
            assert(0 <= j < first_index(s, ',') && s[j] != ' ');
        }
    }
}

/// `Name, rest` with a single name before the comma: that name is the first and
/// the last piece at once, so the code holds its start twice.
pub proof fn lemma_single_name_twice(name: Seq<char>, rest: Seq<char>)
    requires
        name.len() > 0,
        !name.contains(' ') && !name.contains(','),
    ensures
        formatted(name + seq![','] + rest) == Some(first_four(name) + first_four(name)),
{
    let s = name + seq![','] + rest;
    let end = name.len() as int;
    assert forall|j: int| 0 <= j < end implies s[j] != ',' by {
        assert(name[j] == s[j]);
    }
    assert(is_first_at(s, ',', end));
    lemma_first_index(s, ',', end);
    assert(segment(s) =~= name);
    assert(name[0] != ' ');
}

/// `Last, First` with two single names: what follows the comma never reaches the
/// code, which holds the start of `Last` twice. It is the start of `Last`
/// followed by the start of `First` only where the two names start alike.
pub proof fn lemma_after_comma_is_dropped(last: Seq<char>, first: Seq<char>)
    requires
        last.len() > 0 && first.len() > 0,
        !last.contains(' ') && !last.contains(','),
        !first.contains(' ') && !first.contains(','),
    ensures
        formatted(last + seq![',', ' '] + first) == Some(first_four(last) + first_four(last)),
        formatted(last + seq![',', ' '] + first) == Some(first_four(last) + first_four(first))
            ==> first_four(first) == first_four(last),
{
    lemma_single_name_twice(last, seq![' '] + first);
    assert(last + seq![','] + (seq![' '] + first) =~= last + seq![',', ' '] + first);
    let a = first_four(last);
    let b = first_four(first);
    if a + a == a + b {
        assert((a + a).subrange(a.len() as int, (a + a).len() as int) =~= a);
        assert((a + b).subrange(a.len() as int, (a + b).len() as int) =~= b);
    }
}

/// `Last, First` with two single names that start alike: the code is the start
/// of `Last` followed by the start of `First`.
pub proof fn lemma_last_comma_first(last: Seq<char>, first: Seq<char>)
    requires
        last.len() > 0 && first.len() > 0,
        !last.contains(' ') && !last.contains(','),
        !first.contains(' ') && !first.contains(','),
        first_four(first) == first_four(last),
    ensures
        formatted(last + seq![',', ' '] + first) == Some(first_four(last) + first_four(first)),
{
    lemma_after_comma_is_dropped(last, first);
}

/// The watcher does not answer its own writing. Once it has put a code on the
/// clipboard, reading that code back writes nothing and changes nothing; and a
/// watcher that remembers anything else leaves the code alone as well.
pub proof fn lemma_write_back_settles(
    last: Option<Seq<char>>,
    read: Seq<char>,
    other: Option<Seq<char>>,
)
    requires
        text_to_write(last, Some(read)) is Some,
    ensures
        next_content(last, Some(read)) == text_to_write(last, Some(read)),
        text_to_write(next_content(last, Some(read)), text_to_write(last, Some(read))) is None,
        next_content(next_content(last, Some(read)), text_to_write(last, Some(read)))
            == next_content(last, Some(read)),
        text_to_write(other, text_to_write(last, Some(read))) is None,
{
    lemma_code_is_left_alone(read);
}

/// A watcher that has seen nothing looks at whatever it reads first.
pub proof fn lemma_first_reading_is_new(read: Seq<char>)
    ensures
        text_to_write(None, Some(read)) == formatted(read),
        next_content(None, Some(read)) is Some,
{
}

} // verus!
