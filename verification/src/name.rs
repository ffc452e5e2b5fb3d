//! The name formatter: from `First Last, extra` to the code made of the first
//! four characters of the last name followed by the first four of the first name.

use vstd::prelude::*;
use vstd::std_specs::iter::IteratorSpec;
use vstd::string::*;

verus! {

/// `i` is the position of the first `c` in `s`.
pub open spec fn is_first_at(s: Seq<char>, c: char, i: int) -> bool {
    &&& 0 <= i < s.len()
    &&& s[i] == c
    &&& forall|j: int| 0 <= j < i ==> s[j] != c
}

/// `i` is the position of the last `c` in `s`.
pub open spec fn is_last_at(s: Seq<char>, c: char, i: int) -> bool {
    &&& 0 <= i < s.len()
    &&& s[i] == c
    &&& forall|j: int| i < j < s.len() ==> s[j] != c
}

/// The position of the first `c` in `s`; meaningful where `s` holds one.
pub open spec fn first_index(s: Seq<char>, c: char) -> int {
    choose|i: int| is_first_at(s, c, i)
}

/// The position of the last `c` in `s`; meaningful where `s` holds one.
pub open spec fn last_index(s: Seq<char>, c: char) -> int {
    choose|i: int| is_last_at(s, c, i)
}

/// At most the first four characters of `s`: counted in characters, never padded.
pub open spec fn first_four(s: Seq<char>) -> Seq<char> {
    if s.len() <= 4 {
        s
    } else {
        s.subrange(0, 4)
    }
}

/// What stands before the first comma of `s`; meaningful where `s` holds a comma.
pub open spec fn segment(s: Seq<char>) -> Seq<char> {
    s.subrange(0, first_index(s, ','))
}

/// The first of the pieces that the spaces cut `seg` into (it may be empty).
pub open spec fn first_token(seg: Seq<char>) -> Seq<char> {
    if seg.contains(' ') {
        seg.subrange(0, first_index(seg, ' '))
    } else {
        seg
    }
}

/// The last of the pieces that the spaces cut `seg` into (it may be empty).
/// Without a space it is the one piece there is, the same as the first.
pub open spec fn last_token(seg: Seq<char>) -> Seq<char> {
    if seg.contains(' ') {
        seg.subrange(last_index(seg, ' ') + 1, seg.len() as int)
    } else {
        seg
    }
}

/// `seg` holds no name: it is empty or made of spaces alone.
pub open spec fn is_blank(seg: Seq<char>) -> bool {
    forall|j: int| 0 <= j < seg.len() ==> seg[j] == ' '
}

/// The code for a copied text, or `None` where the text is left alone: it holds
/// no comma, or no name stands before its first comma.
pub open spec fn formatted(s: Seq<char>) -> Option<Seq<char>> {
    if !s.contains(',') || is_blank(segment(s)) {
        None
    } else {
        Some(first_four(last_token(segment(s))) + first_four(first_token(segment(s))))
    }
}

/// Only one position is the first occurrence.
pub proof fn lemma_first_index(s: Seq<char>, c: char, i: int)
    requires
        is_first_at(s, c, i),
    ensures
        first_index(s, c) == i,
        s.contains(c),
{
    let k = first_index(s, c);
    assert(is_first_at(s, c, k));
    if k < i {
        assert(s[k] == c);
    }
    if i < k {
        assert(s[i] == c);
    }
}

/// Only one position is the last occurrence.
pub proof fn lemma_last_index(s: Seq<char>, c: char, i: int)
    requires
        is_last_at(s, c, i),
    ensures
        last_index(s, c) == i,
        s.contains(c),
{
    let k = last_index(s, c);
    assert(is_last_at(s, c, k));
    if k < i {
        assert(s[i] == c);
    }
    if i < k {
        assert(s[k] == c);
    }
}

/// Where `c` occurs at `i`, it occurs somewhere first.
proof fn lemma_first_below(s: Seq<char>, c: char, i: int)
    requires
        0 <= i < s.len(),
        s[i] == c,
    ensures
        exists|k: int| is_first_at(s, c, k),
    decreases i,
{
    if exists|j: int| 0 <= j < i && s[j] == c {
        let j = choose|j: int| 0 <= j < i && s[j] == c;
        lemma_first_below(s, c, j);
    } else {
        assert(is_first_at(s, c, i));
    }
}

/// Where `c` occurs at `i`, it occurs somewhere last.
proof fn lemma_last_above(s: Seq<char>, c: char, i: int)
    requires
        0 <= i < s.len(),
        s[i] == c,
    ensures
        exists|k: int| is_last_at(s, c, k),
    decreases s.len() - i,
{
    if exists|j: int| i < j < s.len() && s[j] == c {
        let j = choose|j: int| i < j < s.len() && s[j] == c;
        lemma_last_above(s, c, j);
    } else {
        assert(is_last_at(s, c, i));
    }
}

/// A sequence that holds `c` has a first and a last occurrence of it.
pub proof fn lemma_occurrences(s: Seq<char>, c: char)
    requires
        s.contains(c),
    ensures
        is_first_at(s, c, first_index(s, c)),
        is_last_at(s, c, last_index(s, c)),
        first_index(s, c) <= last_index(s, c),
{
    let i = choose|i: int| 0 <= i < s.len() && s[i] == c;
    lemma_first_below(s, c, i);
    lemma_last_above(s, c, i);
    if last_index(s, c) < first_index(s, c) {
        assert(s[last_index(s, c)] == c);
    }
}

/// How many characters of `s` belong to its code: four, or all where there are fewer.
fn count_up_to_four(s: &str) -> (taken: usize)
    ensures
        taken <= s@.len(),
        s@.take(taken as int) == first_four(s@),
{
    let mut it = s.chars();
    let mut taken: usize = 0;
    while taken < 4
        invariant
            taken <= 4,
            taken <= s@.len(),
            it.remaining() == s@.skip(taken as int),
            it.obeys_prophetic_iter_laws(),
        ensures
            taken <= s@.len(),
            taken == 4 || taken == s@.len(),
        decreases 4 - taken,
    {
        broadcast use next_postcondition;

        match it.next() {
            None => {
                break ;
            },
            Some(_) => {
                assert(s@.skip(taken as int).drop_first() == s@.skip(taken + 1));
                taken = taken + 1;
            },
        }
    }
    assert(s@.take(taken as int) == first_four(s@));
    taken
}

/// The part of `s` that goes into a code.
fn first_four_of(s: &str) -> (part: &str)
    ensures
        part@ == first_four(s@),
{
    let taken = count_up_to_four(s);
    s.substring_char(0, taken)
}

/// The first four characters of a single name, fewer where the name is shorter.
pub fn format_individual_name(name: String) -> (code: String)
    ensures
        code@ == first_four(name@),
{
    String::from_str(first_four_of(name.as_str()))
}

/// Where the first comma of a text stands, the first and the last space before
/// it, and whether anything but spaces stands before it.
struct Marks {
    comma: Option<usize>,
    named: bool,
    first_space: Option<usize>,
    last_space: Option<usize>,
}

impl Marks {
    /// The marks are those of `s`. Without a comma the spaces are of no account.
    spec fn of(self, s: Seq<char>) -> bool {
        match self.comma {
            None => !s.contains(','),
            Some(i) => {
                &&& is_first_at(s, ',', i as int)
                &&& self.named == !is_blank(s.subrange(0, i as int))
                &&& match self.first_space {
                    Some(k) => is_first_at(s.subrange(0, i as int), ' ', k as int),
                    None => !s.subrange(0, i as int).contains(' '),
                }
                &&& match self.last_space {
                    Some(k) => is_last_at(s.subrange(0, i as int), ' ', k as int),
                    None => !s.subrange(0, i as int).contains(' '),
                }
            },
        }
    }
}

/// Walks `s` once, up to its first comma.
fn find_marks(s: &str) -> (marks: Marks)
    ensures
        marks.of(s@),
{
    let n = s.unicode_len();
    let mut it = s.chars();
    let mut i: usize = 0;
    let mut comma: Option<usize> = None;
    let mut named = false;
    let mut first_space: Option<usize> = None;
    let mut last_space: Option<usize> = None;
    while i < n && comma.is_none()
        invariant
            i <= n == s@.len(),
            it.obeys_prophetic_iter_laws(),
            comma is None ==> it.remaining() == s@.skip(i as int),
            forall|j: int| 0 <= j < i ==> s@[j] != ',',
            comma is Some ==> comma == Some(i) && i < n && s@[i as int] == ',',
            named == exists|j: int| 0 <= j < i && s@[j] != ' ',
            match first_space {
                Some(k) => k < i && s@[k as int] == ' ' && forall|j: int| 0 <= j < k ==> s@[j] != ' ',
                None => forall|j: int| 0 <= j < i ==> s@[j] != ' ',
            },
            match last_space {
                Some(k) => k < i && s@[k as int] == ' ' && forall|j: int| k < j < i ==> s@[j] != ' ',
                None => forall|j: int| 0 <= j < i ==> s@[j] != ' ',
            },
        decreases n - i + (if comma is None { 1int } else { 0int }),
    {
        broadcast use next_postcondition;

        match it.next() {
            None => {
                assert(false);
            },
            Some(c) => {
                assert(c == s@[i as int]);
                assert(s@.skip(i as int).drop_first() == s@.skip(i + 1));
                if c == ',' {
                    comma = Some(i);
                } else {
                    if c == ' ' {
                        if first_space.is_none() {
                            first_space = Some(i);
                        }
                        last_space = Some(i);
                    } else {
                        named = true;
                    }
                    i = i + 1;
                }
            },
        }
    }
    proof {
        if comma is Some {
            let seg = s@.subrange(0, i as int);
            assert(forall|j: int| 0 <= j < i ==> seg[j] == s@[j]);
            if named {
                let j = choose|j: int| 0 <= j < i && s@[j] != ' ';
                assert(seg[j] != ' ');
            }
        }
    }
    Marks { comma, named, first_space, last_space }
}

/// The code for a copied text: what stands before the first comma is cut at its
/// spaces, and the code is the first four characters of the last piece followed
/// by the first four of the first piece. Without a comma, or with nothing but
/// spaces before the first one, there is no code and the text is left alone.
pub fn format_full_name(name: String) -> (code: Option<String>)
    ensures
        match code {
            Some(c) => formatted(name@) == Some(c@),
            None => formatted(name@) is None,
        },
        code is None <==> !name@.contains(',') || forall|j: int|
            0 <= j < first_index(name@, ',') ==> name@[j] == ' ',
{
    let s = name.as_str();
    let marks = find_marks(s);
    let end = match marks.comma {
        None => {
            return None;
        },
        Some(end) => end,
    };
    proof {
        lemma_first_index(s@, ',', end as int);
        assert(segment(s@) == s@.subrange(0, end as int));
        assert(forall|j: int| 0 <= j < end ==> segment(s@)[j] == s@[j]);
    }
    if !marks.named {
        return None;
    }
    let seg = s.substring_char(0, end);
    let first_name = match marks.first_space {
        None => seg,
        Some(k) => {
            proof {
                lemma_first_index(seg@, ' ', k as int);
            }
            seg.substring_char(0, k)
        },
    };
    let last_name = match marks.last_space {
        None => seg,
        Some(k) => {
            proof {
                lemma_last_index(seg@, ' ', k as int);
            }
            seg.substring_char(k + 1, end)
        },
    };
    let code = String::from_str(first_four_of(last_name)).concat(first_four_of(first_name));
    Some(code)
}

} // verus!
