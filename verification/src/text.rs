use vstd::prelude::*;
use vstd::string::*;

verus! {

/// Whether the two-character delimiter `::` starts at position `i` of `s`.
pub open spec fn delimiter_at(s: Seq<char>, i: int) -> bool {
    0 <= i && i + 1 < s.len() && s[i] == ':' && s[i + 1] == ':'
}

/// Whether `i` is where the first `::` of `s` starts.
pub open spec fn first_delimiter_at(s: Seq<char>, i: int) -> bool {
    delimiter_at(s, i) && forall|j: int| 0 <= j < i ==> !delimiter_at(s, j)
}

/// Whether `s` holds a `::` anywhere.
pub open spec fn has_delimiter(s: Seq<char>) -> bool {
    exists|i: int| delimiter_at(s, i)
}

/// `s` cut at its first `::`: what stands before it and what stands after
/// it. `None` when `s` holds no `::`.
pub open spec fn split_first(s: Seq<char>) -> Option<(Seq<char>, Seq<char>)> {
    if exists|i: int| first_delimiter_at(s, i) {
        let i = choose|i: int| first_delimiter_at(s, i);
        Some((s.subrange(0, i), s.subrange(i + 2, s.len() as int)))
    } else {
        None
    }
}

/// `names` written one after another with `sep` between neighbours.
pub open spec fn joined(names: Seq<Seq<char>>, sep: Seq<char>) -> Seq<char>
    decreases names.len(),
{
    if names.len() == 0 {
        Seq::empty()
    } else if names.len() == 1 {
        names[0]
    } else {
        joined(names.drop_last(), sep) + sep + names.last()
    }
}

/// A string has at most one first delimiter.
pub proof fn lemma_first_delimiter_unique(s: Seq<char>, i: int, j: int)
    requires
        first_delimiter_at(s, i),
        first_delimiter_at(s, j),
    ensures
        i == j,
{
    if i < j {
        assert(!delimiter_at(s, i));
    } else if j < i {
        assert(!delimiter_at(s, j));
    }
}

/// Knowing where the first delimiter starts fixes the split.
pub proof fn lemma_split_at(s: Seq<char>, i: int)
    requires
        first_delimiter_at(s, i),
    ensures
        split_first(s) == Some((s.subrange(0, i), s.subrange(i + 2, s.len() as int))),
{
    let k = choose|k: int| first_delimiter_at(s, k);
    lemma_first_delimiter_unique(s, i, k);
}

/// A string without any delimiter does not split.
pub proof fn lemma_no_split(s: Seq<char>)
    requires
        !has_delimiter(s),
    ensures
        split_first(s) is None,
{
    if exists|i: int| first_delimiter_at(s, i) {
        let i = choose|i: int| first_delimiter_at(s, i);
        assert(delimiter_at(s, i));
    }
}

/// Whether `target` can stand in front of a `::`: it holds no `::` and does
/// not end in `:`, so that the first `::` of the whole is the one that
/// follows it.
pub open spec fn plain_target(target: Seq<char>) -> bool {
    forall|j: int| 0 <= j < target.len() ==> !delimiter_at(target + seq![':'], j)
}

/// Joining a plain `target`, `::` and `body` and splitting again gives both
/// back.
pub proof fn lemma_split_of_joined(target: Seq<char>, body: Seq<char>)
    requires
        plain_target(target),
    ensures
        split_first(target + seq![':', ':'] + body) == Some((target, body)),
{
    let s = target + seq![':', ':'] + body;
    let n = target.len() as int;
    assert(s[n] == ':' && s[n + 1] == ':');
    assert forall|j: int| 0 <= j < n implies !delimiter_at(s, j) by {
        let t = target + seq![':'];
        assert(!delimiter_at(t, j));
        assert(t[j] == s[j]);
        assert(t[j + 1] == s[j + 1]);
    }
    lemma_split_at(s, n);
    assert(s.subrange(0, n) =~= target);
    assert(s.subrange(n + 2, s.len() as int) =~= body);
}

/// The characters of `s`, in order.
pub fn chars_of(s: &str) -> (v: Vec<char>)
    ensures
        v@ == s@,
{
    let mut v: Vec<char> = Vec::new();
    for c in it: s.chars()
        invariant
            v@ == it.seq().take(it.index() as int),
            it.seq() == s@,
    {
        v.push(c);
    }
    v
}

/// Whether two strings hold the same characters.
pub fn same_text(a: &str, b: &str) -> (r: bool)
    ensures
        r == (a@ == b@),
{
    let x = String::from_str(a);
    let y = String::from_str(b);
    x == y
}

/// Where the first `::` of `chars` starts, if there is one.
pub fn find_delimiter(chars: &Vec<char>) -> (r: Option<usize>)
    ensures
        match r {
            Some(i) => first_delimiter_at(chars@, i as int),
            None => !has_delimiter(chars@),
        },
{
    let n: usize = chars.len();
    if n < 2 {
        return None;
    }
    let mut i: usize = 0;
    while i < n - 1
        invariant
            n == chars.len(),
            2 <= n,
            i <= n - 1,
            forall|j: int| 0 <= j < i ==> !delimiter_at(chars@, j),
        decreases n - i,
    {
        if chars[i] == ':' && chars[i + 1] == ':' {
            return Some(i);
        }
        i += 1;
    }
    None
}

/// Cuts `line` at its first `::` into the text before and the text after.
pub fn split_line(line: &str) -> (r: Option<(String, String)>)
    ensures
        match r {
            Some((head, tail)) => split_first(line@) == Some((head@, tail@)),
            None => split_first(line@) is None,
        },
{
    let chars = chars_of(line);
    let n: usize = chars.len();
    match find_delimiter(&chars) {
        Some(i) => {
            proof {
                assert(delimiter_at(chars@, i as int));
                lemma_split_at(line@, i as int);
            }
            let head = String::from_str(line.substring_char(0, i));
            let tail = String::from_str(line.substring_char(i + 2, n));
            Some((head, tail))
        },
        None => {
            proof {
                lemma_no_split(line@);
            }
            None
        },
    }
}

/// `head` followed by `tail`.
pub fn followed_by(head: &str, tail: &str) -> (r: String)
    ensures
        r@ == head@ + tail@,
{
    let mut r = String::from_str(head);
    r.append(tail);
    r
}

} // verus!
