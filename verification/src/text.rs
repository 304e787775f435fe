//! Characters of a text: finding one, cutting around it, comparing two texts.
use vstd::prelude::*;

verus! {

/// Where `c` first stands in `s`; the length of `s` where it does not occur.
pub open spec fn find(s: Seq<char>, c: char) -> int
    decreases s.len(),
{
    if s.len() == 0 || s[0] == c {
        0
    } else {
        1 + find(s.drop_first(), c)
    }
}

/// Whether `c` occurs in `s`.
pub open spec fn occurs(s: Seq<char>, c: char) -> bool {
    find(s, c) < s.len()
}

/// What stands before the first `c` of `s`; all of `s` where there is none.
pub open spec fn before(s: Seq<char>, c: char) -> Seq<char> {
    s.take(find(s, c))
}

/// What stands after the first `c` of `s`.
pub open spec fn after(s: Seq<char>, c: char) -> Seq<char>
    recommends
        occurs(s, c),
{
    s.skip(find(s, c) + 1)
}

/// `find` stays inside the text, stops at a `c` where there is one, and skips none.
pub proof fn lemma_find(s: Seq<char>, c: char)
    ensures
        0 <= find(s, c) <= s.len(),
        forall|j: int| 0 <= j < find(s, c) ==> #[trigger] s[j] != c,
        find(s, c) < s.len() ==> s[find(s, c)] == c,
        occurs(s, c) <==> s.contains(c),
    decreases s.len(),
{
    if s.len() != 0 && s[0] != c {
        let rest = s.drop_first();
        lemma_find(rest, c);
        assert forall|j: int| 0 <= j < find(s, c) implies #[trigger] s[j] != c by {
            if j > 0 {
                assert(s[j] == rest[j - 1]);
            }
        }
    }
    if s.contains(c) {
        let j = choose|j: int| 0 <= j < s.len() && s[j] == c;
        assert(s[j] == c);
    }
}

/// The first place of `c` is the only one with no `c` before it.
pub proof fn lemma_find_is(s: Seq<char>, c: char, i: int)
    requires
        0 <= i <= s.len(),
        forall|j: int| 0 <= j < i ==> #[trigger] s[j] != c,
        i < s.len() ==> s[i] == c,
    ensures
        find(s, c) == i,
{
    lemma_find(s, c);
    if find(s, c) < i {
        assert(s[find(s, c)] != c);
    } else if i < find(s, c) {
        assert(s[i] != c);
    }
}

/// The characters of `s`, in order.
pub(crate) fn char_vec(s: &str) -> (chars: Vec<char>)
    ensures
        chars@ == s@,
{
    let mut chars: Vec<char> = Vec::new();
    for c in it: s.chars()
        invariant
            it.seq() == s@,
            chars@ == s@.take(it.index()),
    {
        chars.push(c);
    }
    chars
}

/// The first place of `c` among `chars[from..to]`; `to` where there is none.
pub(crate) fn position(chars: &Vec<char>, c: char, from: usize, to: usize) -> (at: usize)
    requires
        from <= to <= chars@.len(),
    ensures
        from <= at <= to,
        at == from + find(chars@.subrange(from as int, to as int), c),
{
    let ghost part = chars@.subrange(from as int, to as int);
    let mut at: usize = from;
    while at < to && chars[at] != c
        invariant
            from <= at <= to <= chars@.len(),
            part == chars@.subrange(from as int, to as int),
            forall|j: int| 0 <= j < at - from ==> #[trigger] part[j] != c,
        decreases to - at,
    {
        at = at + 1;
    }
    proof {
        lemma_find_is(part, c, at - from);
    }
    at
}

/// Whether two texts hold the same characters.
pub(crate) fn same_text(a: &str, b: &str) -> (same: bool)
    ensures
        same == (a@ == b@),
{
    let left = char_vec(a);
    let right = char_vec(b);
    if left.len() != right.len() {
        return false;
    }
    let mut i: usize = 0;
    while i < left.len()
        invariant
            i <= left@.len(),
            left@ == a@,
            right@ == b@,
            left@.len() == right@.len(),
            left@.take(i as int) == right@.take(i as int),
        decreases left@.len() - i,
    {
        if left[i] != right[i] {
            assert(a@[i as int] != b@[i as int]);
            return false;
        }
        assert(left@.take(i + 1) == left@.take(i as int).push(left@[i as int]));
        assert(right@.take(i + 1) == right@.take(i as int).push(right@[i as int]));
        i = i + 1;
    }
    assert(left@.take(i as int) == left@);
    assert(right@.take(i as int) == right@);
    true
}

/// A text is cut in two at the first place of a character that it holds: what stands before it does
/// not hold the character, and the three parts together are the text. One that does not hold it is
/// not cut.
pub proof fn law_text_is_cut_at_the_first_place(s: Seq<char>, c: char)
    ensures
        occurs(s, c) <==> exists|i: int| 0 <= i < s.len() && #[trigger] s[i] == c,
        occurs(s, c) ==> s == before(s, c) + seq![c] + after(s, c),
        forall|i: int| 0 <= i < before(s, c).len() ==> #[trigger] before(s, c)[i] != c,
        !occurs(s, c) ==> before(s, c) == s,
{
    lemma_find(s, c);
    if occurs(s, c) {
        assert(s[find(s, c)] == c);
        assert(s =~= before(s, c) + seq![c] + after(s, c));
    }
}

} // verus!
