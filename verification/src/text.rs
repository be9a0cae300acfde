//! Small verified building blocks for working with text as sequences of characters.

use crate::chars::{is_white_space, push_char, white_space};
use vstd::prelude::*;
use vstd::string::*;
use vstd::utf8::*;

verus! {

/// The characters of `s` that are neither `a` nor `b`, in the order in which they stand.
pub open spec fn without(s: Seq<char>, a: char, b: char) -> Seq<char> {
    s.filter(|c: char| c != a && c != b)
}

/// True when neither `a` nor `b` occurs in `s`.
pub open spec fn free_of(s: Seq<char>, a: char, b: char) -> bool {
    forall|i: int| 0 <= i < s.len() ==> s[i] != a && s[i] != b
}

/// The position of the first occurrence of `c` in `s`, or the length of `s` when there is none.
pub open spec fn first_index_of(s: Seq<char>, c: char) -> int
    decreases s.len(),
{
    if s.len() == 0 {
        0
    } else if s[0] == c {
        0
    } else {
        1 + first_index_of(s.drop_first(), c)
    }
}

/// `s` wrapped in double quotes.
pub open spec fn quoted(s: Seq<char>) -> Seq<char> {
    seq!['"'] + s + seq!['"']
}

/// A text that holds neither character is left as it is.
pub proof fn lemma_without_of_free(s: Seq<char>, a: char, b: char)
    requires
        free_of(s, a, b),
    ensures
        without(s, a, b) == s,
    decreases s.len(),
{
    reveal(Seq::filter);
    if s.len() > 0 {
        lemma_without_of_free(s.drop_last(), a, b);
        assert(s.drop_last().push(s.last()) =~= s);
    }
}

/// Stripping distributes over appending one character.
pub proof fn lemma_without_push(s: Seq<char>, c: char, a: char, b: char)
    ensures
        without(s.push(c), a, b) == if c != a && c != b {
            without(s, a, b).push(c)
        } else {
            without(s, a, b)
        },
{
    reveal(Seq::filter);
    assert(s.push(c).drop_last() =~= s);
}

/// The first occurrence of `c` lies within the text or at its end, and nothing before it is `c`.
pub proof fn lemma_first_index_of(s: Seq<char>, c: char)
    ensures
        0 <= first_index_of(s, c) <= s.len(),
        first_index_of(s, c) < s.len() ==> s[first_index_of(s, c)] == c,
        forall|i: int| 0 <= i < first_index_of(s, c) ==> s[i] != c,
    decreases s.len(),
{
    if s.len() > 0 && s[0] != c {
        let rest = s.drop_first();
        lemma_first_index_of(rest, c);
        assert forall|i: int| 0 <= i < first_index_of(s, c) implies s[i] != c by {
            if i > 0 {
                assert(s[i] == rest[i - 1]);
            }
        }
    }
}

/// Any position that holds the first `c`, with no `c` before it, is `first_index_of`.
pub proof fn lemma_first_index_of_unique(s: Seq<char>, c: char, k: int)
    requires
        0 <= k <= s.len(),
        k < s.len() ==> s[k] == c,
        forall|i: int| 0 <= i < k ==> s[i] != c,
    ensures
        first_index_of(s, c) == k,
{
    lemma_first_index_of(s, c);
    let f = first_index_of(s, c);
    if f < k {
        assert(s[f] == c);
    } else if k < f {
        assert(s[k] == c);
    }
}

/// Tells whether two texts hold the same characters.
pub fn same_text(a: &str, b: &str) -> (same: bool)
    ensures
        same == (a@ == b@),
{
    let x = a.as_bytes();
    let y = b.as_bytes();
    proof {
        encode_utf8_decode_utf8(a@);
        encode_utf8_decode_utf8(b@);
    }
    if x.len() != y.len() {
        return false;
    }
    let n: usize = x.len();
    let mut i: usize = 0;
    while i < n
        invariant
            i <= n,
            n == x@.len(),
            n == y@.len(),
            x@ == encode_utf8(a@),
            y@ == encode_utf8(b@),
            forall|j: int| 0 <= j < i ==> x@[j] == y@[j],
        decreases n - i,
    {
        if x[i] != y[i] {
            assert(x@[i as int] != y@[i as int]);
            return false;
        }
        i += 1;
    }
    assert(x@ =~= y@);
    true
}

/// Copies `from`, leaving out every occurrence of `a` and of `b`.
pub fn strip(from: &str, a: char, b: char) -> (out: String)
    ensures
        out@ == without(from@, a, b),
{
    broadcast use vstd::string::axiom_spec_iter;

    let mut out = String::new();
    proof {
        reveal(Seq::filter);
    }
    for c in it: from.chars()
        invariant
            it.seq() == from@,
            out@ == without(from@.take(it.index()), a, b),
    {
        proof {
            assert(from@.take(it.index() + 1) =~= from@.take(it.index()).push(c));
            lemma_without_push(from@.take(it.index()), c, a, b);
        }
        if c != a && c != b {
            push_char(&mut out, c);
        }
    }
    assert(from@.take(from@.len() as int) =~= from@);
    out
}

/// Splits `from` at the first occurrence of `c`: the text before it, and the text from it on.
/// Gives `None` when `c` does not occur.
pub fn split_at_first(from: &str, c: char) -> (parts: Option<(String, String)>)
    ensures
        match parts {
            Some((head, tail)) => {
                &&& first_index_of(from@, c) < from@.len()
                &&& head@ == from@.take(first_index_of(from@, c))
                &&& tail@ == from@.skip(first_index_of(from@, c))
            },
            None => first_index_of(from@, c) == from@.len(),
        },
{
    broadcast use vstd::string::axiom_spec_iter;

    let mut head = String::new();
    let mut tail = String::new();
    let mut found = false;
    let ghost mut at: int = 0;
    for x in it: from.chars()
        invariant
            it.seq() == from@,
            !found ==> {
                &&& head@ == from@.take(it.index())
                &&& tail@.len() == 0
                &&& forall|i: int| 0 <= i < it.index() ==> from@[i] != c
            },
            found ==> {
                &&& 0 <= at < it.index()
                &&& from@[at] == c
                &&& forall|i: int| 0 <= i < at ==> from@[i] != c
                &&& head@ == from@.take(at)
                &&& tail@ == from@.subrange(at, it.index())
            },
    {
        let ghost k = it.index();
        if found {
            push_char(&mut tail, x);
            assert(from@.subrange(at, k + 1) =~= from@.subrange(at, k).push(x));
        } else if x == c {
            found = true;
            proof {
                at = k;
            }
            push_char(&mut tail, x);
            assert(from@.subrange(at, k + 1) =~= Seq::<char>::empty().push(x));
            assert(tail@ =~= Seq::<char>::empty().push(x));
        } else {
            push_char(&mut head, x);
            assert(from@.take(k + 1) =~= from@.take(k).push(x));
        }
    }
    if found {
        proof {
            lemma_first_index_of_unique(from@, c, at);
            assert(from@.subrange(at, from@.len() as int) =~= from@.skip(at));
        }
        Some((head, tail))
    } else {
        proof {
            lemma_first_index_of_unique(from@, c, from@.len() as int);
        }
        None
    }
}

/// The parts put together, with `separator` between every two of them.
pub open spec fn joined(parts: Seq<Seq<char>>, separator: Seq<char>) -> Seq<char>
    decreases parts.len(),
{
    if parts.len() == 0 {
        Seq::empty()
    } else if parts.len() == 1 {
        parts[0]
    } else {
        joined(parts.drop_last(), separator) + separator + parts.last()
    }
}

/// Puts the parts together, with `separator` between every two of them.
pub fn join(parts: &Vec<String>, separator: &str) -> (whole: String)
    ensures
        whole@ == joined(parts.deep_view(), separator@),
{
    let ghost views = parts.deep_view();
    let mut whole = String::new();
    let mut i: usize = 0;
    assert(views.take(0) =~= Seq::empty());
    while i < parts.len()
        invariant
            i <= parts.len(),
            views == parts.deep_view(),
            whole@ == joined(views.take(i as int), separator@),
        decreases parts.len() - i,
    {
        let ghost before = whole@;
        if i > 0 {
            whole.append(separator);
        }
        whole.append(parts[i].as_str());
        proof {
            let now = views.take(i + 1);
            assert(now.drop_last() =~= views.take(i as int));
            assert(now.last() == views[i as int]);
            assert(views[i as int] == parts@[i as int]@);
            if i == 0 {
                assert(before =~= Seq::<char>::empty());
                assert(whole@ =~= now[0]);
            }
        }
        i += 1;
    }
    assert(views.take(views.len() as int) =~= views);
    whole
}

/// The text without the white space that it begins with.
pub open spec fn trimmed_start(s: Seq<char>) -> Seq<char>
    decreases s.len(),
{
    if s.len() > 0 && white_space(s[0]) {
        trimmed_start(s.drop_first())
    } else {
        s
    }
}

/// The text without the white space that it ends with.
pub open spec fn trimmed_end(s: Seq<char>) -> Seq<char>
    decreases s.len(),
{
    if s.len() > 0 && white_space(s.last()) {
        trimmed_end(s.drop_last())
    } else {
        s
    }
}

/// The text without the white space around it.
pub open spec fn trimmed(s: Seq<char>) -> Seq<char> {
    trimmed_end(trimmed_start(s))
}

/// Where the white space at the start of a text ends, the rest of the text begins.
pub proof fn lemma_trimmed_start(s: Seq<char>, k: int)
    requires
        0 <= k <= s.len(),
        forall|i: int| 0 <= i < k ==> white_space(s[i]),
        k < s.len() ==> !white_space(s[k]),
    ensures
        trimmed_start(s) == s.skip(k),
    decreases k,
{
    if k == 0 {
        assert(s.skip(0) =~= s);
    } else {
        let rest = s.drop_first();
        assert forall|i: int| 0 <= i < k - 1 implies white_space(rest[i]) by {
            assert(rest[i] == s[i + 1]);
        }
        lemma_trimmed_start(rest, k - 1);
        assert(rest.skip(k - 1) =~= s.skip(k));
    }
}

/// Where the white space at the end of a text begins, the text before it ends.
pub proof fn lemma_trimmed_end(s: Seq<char>, k: int)
    requires
        0 <= k <= s.len(),
        forall|i: int| k <= i < s.len() ==> white_space(s[i]),
        k > 0 ==> !white_space(s[k - 1]),
    ensures
        trimmed_end(s) == s.take(k),
    decreases s.len() - k,
{
    if k == s.len() {
        assert(s.take(k) =~= s);
    } else {
        let rest = s.drop_last();
        lemma_trimmed_end(rest, k);
        assert(rest.take(k) =~= s.take(k));
    }
}

/// Copies `from` without the white space around it.
pub fn trim(from: &str) -> (out: String)
    ensures
        out@ == trimmed(from@),
{
    broadcast use vstd::string::axiom_spec_iter;

    let mut chars: Vec<char> = Vec::new();
    for c in it: from.chars()
        invariant
            it.seq() == from@,
            chars@ == from@.take(it.index()),
    {
        chars.push(c);
        assert(from@.take(it.index() + 1) =~= from@.take(it.index()).push(c));
    }
    assert(from@.take(from@.len() as int) =~= from@);
    let n: usize = chars.len();
    let mut start: usize = 0;
    while start < n && is_white_space(chars[start])
        invariant
            start <= n,
            n == chars@.len(),
            forall|i: int| 0 <= i < start ==> white_space(chars@[i]),
        decreases n - start,
    {
        start += 1;
    }
    let mut end: usize = n;
    while end > start && is_white_space(chars[end - 1])
        invariant
            start <= end <= n,
            n == chars@.len(),
            forall|i: int| end <= i < n ==> white_space(chars@[i]),
        decreases end,
    {
        end -= 1;
    }
    let ghost rest = chars@.skip(start as int);
    proof {
        lemma_trimmed_start(chars@, start as int);
        assert forall|i: int| end - start <= i < rest.len() implies white_space(rest[i]) by {
            assert(rest[i] == chars@[i + start]);
        }
        if end > start {
            assert(rest[end - start - 1] == chars@[end - 1]);
        }
        lemma_trimmed_end(rest, end - start);
        assert(rest.take(end - start) =~= chars@.subrange(start as int, end as int));
    }
    let mut out = String::new();
    let mut i: usize = start;
    while i < end
        invariant
            start <= i <= end,
            end <= chars@.len(),
            out@ == chars@.subrange(start as int, i as int),
        decreases end - i,
    {
        push_char(&mut out, chars[i]);
        assert(chars@.subrange(start as int, i + 1) =~= chars@.subrange(start as int, i as int).push(
            chars@[i as int],
        ));
        i += 1;
    }
    out
}

} // verus!
