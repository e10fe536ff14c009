use vstd::prelude::*;
use vstd::string::*;

verus! {

/// The whitespace characters that trimming removes from either end of a
/// configuration token.
pub open spec fn is_space(c: char) -> bool {
    c == ' ' || c == '\t' || c == '\n' || c == '\r'
}

/// `s` with its leading whitespace removed.
pub open spec fn trim_front(s: Seq<char>) -> Seq<char>
    decreases s.len(),
{
    if s.len() > 0 && is_space(s[0]) {
        trim_front(s.drop_first())
    } else {
        s
    }
}

/// `s` with its trailing whitespace removed.
pub open spec fn trim_back(s: Seq<char>) -> Seq<char>
    decreases s.len(),
{
    if s.len() > 0 && is_space(s.last()) {
        trim_back(s.drop_last())
    } else {
        s
    }
}

/// `s` with whitespace removed from both ends.
pub open spec fn trim_spec(s: Seq<char>) -> Seq<char> {
    trim_back(trim_front(s))
}

/// The literal token that clears the stored repository pattern:
/// `none`, compared without regard to letter case.
pub open spec fn clears_pattern(s: Seq<char>) -> bool {
    &&& s.len() == 4
    &&& (s[0] == 'n' || s[0] == 'N')
    &&& (s[1] == 'o' || s[1] == 'O')
    &&& (s[2] == 'n' || s[2] == 'N')
    &&& (s[3] == 'e' || s[3] == 'E')
}

pub(crate) fn is_space_char(c: char) -> (r: bool)
    ensures
        r == is_space(c),
{
    c == ' ' || c == '\t' || c == '\n' || c == '\r'
}

/// Character-for-character string equality.
pub fn str_eq(a: &str, b: &str) -> (r: bool)
    ensures
        r == (a@ == b@),
{
    let n = a.unicode_len();
    if n != b.unicode_len() {
        return false;
    }
    let mut i: usize = 0;
    while i < n
        invariant
            i <= n,
            n == a@.len(),
            n == b@.len(),
            forall|k: int| 0 <= k < i ==> a@[k] == b@[k],
        decreases n - i,
    {
        if a.get_char(i) != b.get_char(i) {
            return false;
        }
        i += 1;
    }
    proof {
        assert(a@ =~= b@);
    }
    true
}

/// Whether `s` is the clearing token `none`, in any letter case.
pub fn is_clear_keyword(s: &str) -> (r: bool)
    ensures
        r == clears_pattern(s@),
{
    if s.unicode_len() != 4 {
        return false;
    }
    let c0 = s.get_char(0);
    let c1 = s.get_char(1);
    let c2 = s.get_char(2);
    let c3 = s.get_char(3);
    (c0 == 'n' || c0 == 'N') && (c1 == 'o' || c1 == 'O') && (c2 == 'n' || c2 == 'N') && (c3 == 'e'
        || c3 == 'E')
}

proof fn lemma_trim_front_is_subrange(s: Seq<char>, i: int)
    requires
        0 <= i <= s.len(),
        forall|k: int| 0 <= k < i ==> is_space(s[k]),
        i == s.len() || !is_space(s[i]),
    ensures
        trim_front(s) == s.subrange(i, s.len() as int),
    decreases i,
{
    if i == 0 {
        if s.len() == 0 {
            assert(s.subrange(0, 0) =~= s);
        } else {
            assert(s.subrange(0, s.len() as int) =~= s);
        }
    } else {
        assert(is_space(s[0]));
        let t = s.drop_first();
        assert(forall|k: int| 0 <= k < i - 1 ==> is_space(t[k]));
        lemma_trim_front_is_subrange(t, i - 1);
        assert(t.subrange(i - 1, t.len() as int) =~= s.subrange(i, s.len() as int));
    }
}

proof fn lemma_trim_back_is_subrange(s: Seq<char>, j: int)
    requires
        0 <= j <= s.len(),
        forall|k: int| j <= k < s.len() ==> is_space(s[k]),
        j == 0 || !is_space(s[j - 1]),
    ensures
        trim_back(s) == s.subrange(0, j),
    decreases s.len(),
{
    if j == s.len() {
        if s.len() == 0 {
            assert(s.subrange(0, 0) =~= s);
        } else {
            assert(!is_space(s.last()));
            assert(s.subrange(0, j) =~= s);
        }
    } else {
        assert(is_space(s.last()));
        let t = s.drop_last();
        assert(forall|k: int| j <= k < t.len() ==> is_space(t[k]));
        lemma_trim_back_is_subrange(t, j);
        assert(t.subrange(0, j) =~= s.subrange(0, j));
    }
}

/// `s` cut at every comma, in order; a string with no comma yields itself as
/// its only piece, so the result always holds at least one piece.
pub open spec fn split_spec(s: Seq<char>) -> Seq<Seq<char>>
    decreases s.len(),
{
    if s.len() == 0 {
        seq![Seq::<char>::empty()]
    } else if s[0] == ',' {
        seq![Seq::<char>::empty()] + split_spec(s.drop_first())
    } else {
        let rest = split_spec(s.drop_first());
        seq![seq![s[0]] + rest[0]] + rest.drop_first()
    }
}

/// The comma-separated pieces of `s`, each with its surrounding whitespace
/// removed.
pub open spec fn split_trimmed(s: Seq<char>) -> Seq<Seq<char>> {
    split_spec(s).map_values(|p: Seq<char>| trim_spec(p))
}

/// The views of a sequence of owned strings.
pub open spec fn views_of(v: Seq<String>) -> Seq<Seq<char>> {
    v.map_values(|t: String| t@)
}

proof fn lemma_split_spec_len(s: Seq<char>)
    ensures
        split_spec(s).len() >= 1,
    decreases s.len(),
{
    if s.len() == 0 {
    } else {
        lemma_split_spec_len(s.drop_first());
    }
}

proof fn lemma_split_no_comma(s: Seq<char>)
    requires
        forall|k: int| 0 <= k < s.len() ==> s[k] != ',',
    ensures
        split_spec(s) == seq![s],
    decreases s.len(),
{
    if s.len() == 0 {
        assert(Seq::<char>::empty() =~= s);
        assert(split_spec(s) =~= seq![s]);
    } else {
        let t = s.drop_first();
        lemma_split_no_comma(t);
        lemma_split_spec_len(t);
        assert(seq![s[0]] + t =~= s);
        assert(split_spec(s) =~= seq![s]);
    }
}

proof fn lemma_split_at_first_comma(piece: Seq<char>, rest: Seq<char>)
    requires
        forall|k: int| 0 <= k < piece.len() ==> piece[k] != ',',
    ensures
        split_spec(piece + seq![','] + rest) == seq![piece] + split_spec(rest),
    decreases piece.len(),
{
    let s = piece + seq![','] + rest;
    if piece.len() == 0 {
        assert(s.len() > 0 && s[0] == ',');
        assert(s.drop_first() =~= rest);
        assert(piece =~= Seq::<char>::empty());
        assert(split_spec(s) =~~= seq![piece] + split_spec(rest));
    } else {
        assert(s[0] == piece[0] && s[0] != ',');
        assert(s.drop_first() =~= piece.drop_first() + seq![','] + rest);
        lemma_split_at_first_comma(piece.drop_first(), rest);
        let inner = split_spec(s.drop_first());
        assert(inner == seq![piece.drop_first()] + split_spec(rest));
        lemma_split_spec_len(rest);
        assert(inner[0] == piece.drop_first());
        assert(seq![s[0]] + inner[0] =~= piece);
        assert(inner.drop_first() =~= split_spec(rest));
        assert(split_spec(s) == seq![seq![s[0]] + inner[0]] + inner.drop_first());
        assert(split_spec(s) =~~= seq![piece] + split_spec(rest));
    }
}

/// The comma-separated pieces of `s`, each trimmed, as owned strings.
pub fn split_and_trim(s: &str) -> (r: Vec<String>)
    ensures
        views_of(r@) == split_trimmed(s@),
{
    let n = s.unicode_len();
    let mut r: Vec<String> = Vec::new();
    let mut start: usize = 0;
    let mut i: usize = 0;
    proof {
        assert(s@.subrange(0, n as int) =~= s@);
    }
    while i < n
        invariant
            start <= i <= n,
            n == s@.len(),
            forall|k: int| start <= k < i ==> s@[k] != ',',
            split_trimmed(s@) == views_of(r@) + split_spec(
                s@.subrange(start as int, n as int),
            ).map_values(|p: Seq<char>| trim_spec(p)),
        decreases n - i,
    {
        if s.get_char(i) == ',' {
            let piece = s.substring_char(start, i);
            let trimmed = trim_str(piece);
            proof {
                let tail = s@.subrange(start as int, n as int);
                let head = s@.subrange(start as int, i as int);
                let after = s@.subrange(i as int + 1, n as int);
                assert(tail =~= head + seq![','] + after);
                lemma_split_at_first_comma(head, after);
                assert((seq![head] + split_spec(after)).map_values(|p: Seq<char>| trim_spec(p))
                    =~= seq![trim_spec(head)] + split_spec(after).map_values(
                    |p: Seq<char>| trim_spec(p),
                ));
                assert(views_of(r@.push(trimmed)) =~= views_of(r@).push(trimmed@));
                assert(views_of(r@) + (seq![head] + split_spec(after)).map_values(
                    |p: Seq<char>| trim_spec(p),
                ) =~= views_of(r@.push(trimmed)) + split_spec(after).map_values(
                    |p: Seq<char>| trim_spec(p),
                ));
            }
            r.push(trimmed);
            start = i + 1;
        }
        i += 1;
    }
    let piece = s.substring_char(start, n);
    let trimmed = trim_str(piece);
    proof {
        let tail = s@.subrange(start as int, n as int);
        lemma_split_no_comma(tail);
        assert(seq![tail].map_values(|p: Seq<char>| trim_spec(p)) =~= seq![trim_spec(tail)]);
        assert(views_of(r@.push(trimmed)) =~= views_of(r@).push(trimmed@));
        assert(views_of(r@) + seq![tail].map_values(|p: Seq<char>| trim_spec(p)) =~= views_of(
            r@.push(trimmed),
        ));
    }
    r.push(trimmed);
    r
}

/// `s` with whitespace removed from both ends, as an owned string.
pub fn trim_str(s: &str) -> (r: String)
    ensures
        r@ == trim_spec(s@),
{
    let n = s.unicode_len();
    let mut i: usize = 0;
    while i < n && is_space_char(s.get_char(i))
        invariant
            i <= n,
            n == s@.len(),
            forall|k: int| 0 <= k < i ==> is_space(s@[k]),
        decreases n - i,
    {
        i += 1;
    }
    if i == n {
        proof {
            lemma_trim_front_is_subrange(s@, n as int);
            assert(trim_front(s@) =~= Seq::<char>::empty());
        }
        return String::new();
    }
    let mut j: usize = n;
    while is_space_char(s.get_char(j - 1))
        invariant
            i < j <= n,
            n == s@.len(),
            !is_space(s@[i as int]),
            forall|k: int| j <= k < n ==> is_space(s@[k]),
        decreases j,
    {
        j -= 1;
    }
    let piece = s.substring_char(i, j);
    proof {
        lemma_trim_front_is_subrange(s@, i as int);
        let sub = s@.subrange(i as int, n as int);
        assert(forall|k: int| j - i <= k < sub.len() ==> is_space(sub[k]));
        assert(!is_space(sub[j - i - 1]));
        lemma_trim_back_is_subrange(sub, j - i);
        assert(sub.subrange(0, j - i) =~= s@.subrange(i as int, j as int));
    }
    String::from_str(piece)
}

} // verus!
