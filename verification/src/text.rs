use vstd::prelude::*;

verus! {

/// The whitespace characters recognised when trimming and tokenising the
/// proxy utilities' output (their values are plain ASCII text).
pub open spec fn is_space(c: char) -> bool {
    c == ' ' || c == '\t' || c == '\r' || c == '\n'
}

/// The needle `n` occurs in `h` starting at position `i`.
pub open spec fn contains_at(h: Seq<char>, n: Seq<char>, i: int) -> bool {
    0 <= i && i + n.len() <= h.len() && h.subrange(i, i + n.len()) == n
}

/// The needle `n` occurs somewhere in `h`.
pub open spec fn has_sub(h: Seq<char>, n: Seq<char>) -> bool {
    exists|i: int| contains_at(h, n, i)
}

/// `c` occurs in `s` first at position `i`.
pub open spec fn first_at(s: Seq<char>, c: char, i: int) -> bool {
    &&& 0 <= i < s.len()
    &&& s[i] == c
    &&& forall|j: int| 0 <= j < i ==> s[j] != c
}

/// The position of the first occurrence of `c` in `s`, if any.
pub open spec fn first_index_of(s: Seq<char>, c: char) -> Option<int> {
    if exists|i: int| first_at(s, c, i) {
        Some(choose|i: int| first_at(s, c, i))
    } else {
        None
    }
}

/// A first occurrence is unique.
pub proof fn lemma_first_at_unique(s: Seq<char>, c: char, i: int, j: int)
    requires
        first_at(s, c, i),
        first_at(s, c, j),
    ensures
        i == j,
{
}

/// `s` split at every newline; the separators are dropped and the segments
/// keep their other characters, so a trailing newline yields a final empty
/// segment.
pub open spec fn lines_of(s: Seq<char>) -> Seq<Seq<char>>
    decreases s.len(),
{
    match first_index_of(s, '\n') {
        Some(i) => seq![s.subrange(0, i)] + lines_of(s.subrange(i + 1, s.len() as int)),
        None => seq![s],
    }
}

/// `s` with every leading and trailing whitespace character removed.
pub open spec fn trimmed(s: Seq<char>) -> Seq<char>
    decreases s.len(),
{
    if s.len() > 0 && is_space(s[0]) {
        trimmed(s.drop_first())
    } else if s.len() > 0 && is_space(s.last()) {
        trimmed(s.drop_last())
    } else {
        s
    }
}

/// The maximal whitespace-free suffix of `s`.
pub open spec fn nonspace_suffix(s: Seq<char>) -> Seq<char>
    decreases s.len(),
{
    if s.len() == 0 || is_space(s.last()) {
        Seq::empty()
    } else {
        nonspace_suffix(s.drop_last()).push(s.last())
    }
}

/// The last whitespace-separated token of `s`, if `s` holds any non-space
/// character.
pub open spec fn last_token(s: Seq<char>) -> Option<Seq<char>>
    decreases s.len(),
{
    if s.len() == 0 {
        None
    } else if is_space(s.last()) {
        last_token(s.drop_last())
    } else {
        Some(nonspace_suffix(s))
    }
}

/// The view of an optional borrowed text.
pub open spec fn opt_str_view(o: Option<&str>) -> Option<Seq<char>> {
    match o {
        Some(s) => Some(s@),
        None => None,
    }
}

/// The view of an optional owned text.
pub open spec fn opt_string_view(o: Option<String>) -> Option<Seq<char>> {
    match o {
        Some(s) => Some(s@),
        None => None,
    }
}

/// Whether `c` is one of the recognised whitespace characters.
fn is_space_char(c: char) -> (r: bool)
    ensures
        r == is_space(c),
{
    c == ' ' || c == '\t' || c == '\r' || c == '\n'
}

/// Whether `n` occurs in `h` starting exactly at position `i`.
fn matches_at(h: &str, n: &str, i: usize) -> (r: bool)
    requires
        i + n@.len() <= h@.len(),
    ensures
        r == contains_at(h@, n@, i as int),
{
    let hlen = h.unicode_len();
    let nlen = n.unicode_len();
    let mut j: usize = 0;
    while j < nlen
        invariant
            hlen == h@.len(),
            nlen == n@.len(),
            i + nlen <= h@.len(),
            j <= nlen,
            forall|k: int| 0 <= k < j ==> h@[i + k] == n@[k],
        decreases nlen - j,
    {
        if h.get_char(i + j) != n.get_char(j) {
            proof {
                assert(h@.subrange(i as int, i + n@.len())[j as int] == h@[i + j]);
            }
            return false;
        }
        j += 1;
    }
    proof {
        assert(h@.subrange(i as int, i + n@.len()) =~= n@);
    }
    true
}

/// Whether the needle occurs anywhere in the haystack.
pub fn has_substring(h: &str, n: &str) -> (r: bool)
    ensures
        r == has_sub(h@, n@),
{
    let hlen = h.unicode_len();
    let nlen = n.unicode_len();
    if nlen > hlen {
        proof {
            assert(forall|i: int| !contains_at(h@, n@, i));
        }
        return false;
    }
    if nlen == 0 {
        proof {
            assert(h@.subrange(0, 0) =~= n@);
            assert(contains_at(h@, n@, 0));
        }
        return true;
    }
    let mut i: usize = 0;
    while i <= hlen - nlen
        invariant
            hlen == h@.len(),
            nlen == n@.len(),
            1 <= nlen <= hlen,
            i <= hlen - nlen + 1,
            forall|k: int| 0 <= k < i ==> !contains_at(h@, n@, k),
        decreases hlen - i,
    {
        if matches_at(h, n, i) {
            return true;
        }
        i += 1;
    }
    proof {
        assert(forall|k: int| contains_at(h@, n@, k) ==> 0 <= k <= hlen - nlen);
    }
    false
}

/// The position of the first occurrence of `c` in `s` at or after `from`.
pub fn find_char_from(s: &str, c: char, from: usize) -> (r: Option<usize>)
    requires
        from <= s@.len(),
    ensures
        r matches Some(i) ==> from <= i < s@.len() && s@[i as int] == c && (forall|j: int|
            from <= j < i ==> s@[j] != c),
        r is None ==> forall|j: int| from <= j < s@.len() ==> s@[j] != c,
{
    let n = s.unicode_len();
    let mut i: usize = from;
    while i < n
        invariant
            n == s@.len(),
            from <= i <= n,
            forall|j: int| from <= j < i ==> s@[j] != c,
        decreases n - i,
    {
        if s.get_char(i) == c {
            return Some(i);
        }
        i += 1;
    }
    None
}

/// Splitting `s` at the first newline, when it has one, takes off the first
/// line.
proof fn lemma_lines_of_step(s: Seq<char>, i: int)
    requires
        first_at(s, '\n', i),
    ensures
        lines_of(s) == seq![s.subrange(0, i)] + lines_of(s.subrange(i + 1, s.len() as int)),
{
    let k = choose|k: int| first_at(s, '\n', k);
    lemma_first_at_unique(s, '\n', i, k);
}

/// A newline-free text is its own single line.
proof fn lemma_lines_of_whole(s: Seq<char>)
    requires
        forall|j: int| 0 <= j < s.len() ==> s[j] != '\n',
    ensures
        lines_of(s) == seq![s],
{
    assert(forall|i: int| !first_at(s, '\n', i));
}

/// Splits a text into its newline-separated lines.
pub fn split_lines(s: &str) -> (r: Vec<String>)
    ensures
        r@.len() == lines_of(s@).len(),
        forall|i: int| 0 <= i < r@.len() ==> r@[i]@ == lines_of(s@)[i],
{
    let n = s.unicode_len();
    let mut r: Vec<String> = Vec::new();
    let mut start: usize = 0;
    let mut i: usize = 0;
    proof {
        assert(s@.subrange(0, n as int) =~= s@);
    }
    while i < n
        invariant
            n == s@.len(),
            start <= i <= n,
            forall|j: int| start <= j < i ==> s@[j] != '\n',
            lines_of(s@).len() == r@.len() + lines_of(
                s@.subrange(start as int, n as int),
            ).len(),
            forall|k: int|
                0 <= k < r@.len() ==> r@[k]@ == lines_of(s@)[k],
            forall|k: int|
                0 <= k < lines_of(s@.subrange(start as int, n as int)).len() ==> lines_of(
                    s@.subrange(start as int, n as int),
                )[k] == lines_of(s@)[r@.len() + k],
        decreases n - i,
    {
        if s.get_char(i) == '\n' {
            let ghost old_r = r@;
            let ghost old_start = start as int;
            let ghost rest = s@.subrange(start as int, n as int);
            let ghost rest2 = s@.subrange(i + 1int, n as int);
            let line = s.substring_char(start, i).to_owned();
            proof {
                assert(first_at(rest, '\n', i - old_start)) by {
                    assert(rest[i - old_start] == s@[i as int]);
                    assert(forall|j: int|
                        0 <= j < i - old_start ==> rest[j] == s@[old_start + j] && s@[old_start + j]
                            != '\n');
                }
                lemma_lines_of_step(rest, i - old_start);
                assert(rest.subrange(0, i - old_start) =~= s@.subrange(old_start, i as int));
                assert(rest.subrange(i - old_start + 1, rest.len() as int) =~= rest2);
            }
            r.push(line);
            start = i + 1;
            proof {
                assert(lines_of(rest) == seq![line@] + lines_of(rest2));
                assert(lines_of(rest)[0] == line@);
                assert(lines_of(s@).len() == r@.len() + lines_of(rest2).len());
                assert forall|k: int| 0 <= k < r@.len() implies r@[k]@ == lines_of(s@)[k] by {
                    if k == old_r.len() {
                        assert(lines_of(rest)[0] == lines_of(s@)[old_r.len() as int]);
                    }
                }
                assert forall|k: int| 0 <= k < lines_of(rest2).len() implies lines_of(rest2)[k]
                    == lines_of(s@)[r@.len() + k] by {
                    assert(lines_of(rest)[k + 1] == lines_of(rest2)[k]);
                    assert(lines_of(rest)[k + 1] == lines_of(s@)[old_r.len() + k + 1]);
                }
            }
        }
        i += 1;
    }
    let ghost tail_seq = s@.subrange(start as int, n as int);
    let ghost old_r = r@;
    let last = s.substring_char(start, n).to_owned();
    proof {
        lemma_lines_of_whole(tail_seq);
    }
    r.push(last);
    proof {
        assert forall|k: int| 0 <= k < r@.len() implies r@[k]@ == lines_of(s@)[k] by {
            if k == old_r.len() {
                assert(lines_of(tail_seq)[0] == lines_of(s@)[k]);
            }
        }
    }
    r
}

/// Dropping leading whitespace, then trailing whitespace, is all that
/// trimming does: the trimmed text is the segment between the two.
proof fn lemma_trimmed_subrange(s: Seq<char>, a: int, b: int)
    requires
        0 <= a <= b <= s.len(),
        forall|j: int| 0 <= j < a ==> is_space(#[trigger] s[j]),
        forall|j: int| b <= j < s.len() ==> is_space(#[trigger] s[j]),
        a < b ==> !is_space(s[a]) && !is_space(s[b - 1]),
    ensures
        trimmed(s) == s.subrange(a, b),
    decreases s.len(),
{
    if a == b {
        if s.len() == 0 {
            assert(trimmed(s) =~= s.subrange(a, b));
        } else {
            assert(is_space(s[0]));
            let t = s.drop_first();
            assert(t =~= s.subrange(1, s.len() as int));
            lemma_trimmed_subrange(t, if a > 0 { a - 1 } else { 0 }, if b > 0 { b - 1 } else { 0 });
            assert(t.subrange(
                if a > 0 { a - 1 } else { 0 },
                if b > 0 { b - 1 } else { 0 },
            ) =~= s.subrange(a, b));
        }
    } else if a > 0 {
        assert(is_space(s[0]));
        let t = s.drop_first();
        assert(t =~= s.subrange(1, s.len() as int));
        lemma_trimmed_subrange(t, a - 1, b - 1);
        assert(t.subrange(a - 1, b - 1) =~= s.subrange(a, b));
    } else if b < s.len() {
        assert(is_space(s.last()));
        assert(!is_space(s[0]));
        let t = s.drop_last();
        assert(t =~= s.subrange(0, s.len() - 1));
        lemma_trimmed_subrange(t, a, b);
        assert(t.subrange(a, b) =~= s.subrange(a, b));
    } else {
        assert(!is_space(s[0]) && !is_space(s[s.len() - 1]));
        assert(trimmed(s) == s);
        assert(s.subrange(0, s.len() as int) =~= s);
    }
}

/// Removes leading and trailing whitespace.
pub fn trim_spaces(s: &str) -> (r: String)
    ensures
        r@ == trimmed(s@),
{
    let n = s.unicode_len();
    let mut a: usize = 0;
    while a < n && is_space_char(s.get_char(a))
        invariant
            n == s@.len(),
            a <= n,
            forall|j: int| 0 <= j < a ==> is_space(#[trigger] s@[j]),
        decreases n - a,
    {
        a += 1;
    }
    let mut b: usize = n;
    while b > a && is_space_char(s.get_char(b - 1))
        invariant
            n == s@.len(),
            a <= b <= n,
            forall|j: int| 0 <= j < a ==> is_space(#[trigger] s@[j]),
            forall|j: int| b <= j < n ==> is_space(#[trigger] s@[j]),
            a < n ==> !is_space(s@[a as int]),
        decreases b,
    {
        b -= 1;
    }
    proof {
        lemma_trimmed_subrange(s@, a as int, b as int);
    }
    s.substring_char(a, b).to_owned()
}

/// The position after the final whitespace-free token, and that token's
/// start, pin the token down.
proof fn lemma_last_token(s: Seq<char>, a: int, b: int)
    requires
        0 <= a < b <= s.len(),
        forall|j: int| b <= j < s.len() ==> is_space(#[trigger] s[j]),
        forall|j: int| a <= j < b ==> !is_space(#[trigger] s[j]),
        a == 0 || is_space(s[a - 1]),
    ensures
        last_token(s) == Some(s.subrange(a, b)),
    decreases s.len(),
{
    if b < s.len() {
        let t = s.drop_last();
        assert(t =~= s.subrange(0, s.len() - 1));
        lemma_last_token(t, a, b);
        assert(t.subrange(a, b) =~= s.subrange(a, b));
    } else {
        assert(!is_space(s.last()));
        lemma_nonspace_suffix(s, a);
    }
}

/// On a text ending in its token, the whitespace-free suffix is the token.
proof fn lemma_nonspace_suffix(s: Seq<char>, a: int)
    requires
        0 <= a <= s.len(),
        forall|j: int| a <= j < s.len() ==> !is_space(#[trigger] s[j]),
        a == 0 || is_space(s[a - 1]),
    ensures
        nonspace_suffix(s) == s.subrange(a, s.len() as int),
    decreases s.len() - a,
{
    if a == s.len() {
        if s.len() == 0 || is_space(s.last()) {
            assert(nonspace_suffix(s) =~= s.subrange(a, s.len() as int));
        } else {
            assert(a > 0 && is_space(s[a - 1]) && !is_space(s.last()));
            assert(false);
        }
    } else {
        assert(!is_space(s.last()));
        let t = s.drop_last();
        assert(t =~= s.subrange(0, s.len() - 1));
        lemma_nonspace_suffix_drop(s, a);
    }
}

/// Helper for `lemma_nonspace_suffix`: peeling the last character off.
proof fn lemma_nonspace_suffix_drop(s: Seq<char>, a: int)
    requires
        0 <= a < s.len(),
        forall|j: int| a <= j < s.len() ==> !is_space(#[trigger] s[j]),
        a == 0 || is_space(s[a - 1]),
    ensures
        nonspace_suffix(s) == s.subrange(a, s.len() as int),
    decreases s.len() - a,
{
    let t = s.drop_last();
    assert(t =~= s.subrange(0, s.len() - 1));
    if a == s.len() - 1 {
        assert(t.len() == 0 || is_space(t.last())) by {
            if t.len() > 0 {
                assert(t.last() == s[a - 1]);
            }
        }
        assert(nonspace_suffix(t) =~= Seq::<char>::empty());
        assert(nonspace_suffix(s) =~= s.subrange(a, s.len() as int));
    } else {
        lemma_nonspace_suffix_drop(t, a);
        assert(nonspace_suffix(t).push(s.last()) =~= s.subrange(a, s.len() as int));
    }
}

/// The last whitespace-separated token of a line, when the line holds one.
pub fn last_token_of(s: &str) -> (r: Option<String>)
    ensures
        r is Some <==> last_token(s@) is Some,
        r matches Some(t) ==> Some(t@) == last_token(s@),
{
    let n = s.unicode_len();
    let mut b: usize = n;
    while b > 0 && is_space_char(s.get_char(b - 1))
        invariant
            n == s@.len(),
            b <= n,
            forall|j: int| b <= j < n ==> is_space(#[trigger] s@[j]),
        decreases b,
    {
        b -= 1;
    }
    if b == 0 {
        proof {
            lemma_last_token_none(s@);
        }
        return None;
    }
    let mut a: usize = b;
    while a > 0 && !is_space_char(s.get_char(a - 1))
        invariant
            n == s@.len(),
            a <= b <= n,
            forall|j: int| a <= j < b ==> !is_space(#[trigger] s@[j]),
            forall|j: int| b <= j < n ==> is_space(#[trigger] s@[j]),
            b > 0 && !is_space(s@[b - 1]),
        decreases a,
    {
        a -= 1;
    }
    proof {
        lemma_last_token(s@, a as int, b as int);
    }
    Some(s.substring_char(a, b).to_owned())
}

/// An all-whitespace text has no token.
proof fn lemma_last_token_none(s: Seq<char>)
    requires
        forall|j: int| 0 <= j < s.len() ==> is_space(#[trigger] s[j]),
    ensures
        last_token(s) is None,
    decreases s.len(),
{
    if s.len() > 0 {
        let t = s.drop_last();
        assert(t =~= s.subrange(0, s.len() - 1));
        lemma_last_token_none(t);
    }
}

} // verus!
