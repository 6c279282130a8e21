use vstd::prelude::*;

verus! {

/// ASCII uppercase of one character; every other character is kept.
pub open spec fn ascii_upper(c: char) -> char {
    if 'a' <= c && c <= 'z' {
        ((c as u32) - 32) as char
    } else {
        c
    }
}

/// A key with its first character in ASCII uppercase; the rest is unchanged.
pub open spec fn capitalize(key: Seq<char>) -> Seq<char> {
    if key.len() == 0 {
        key
    } else {
        key.update(0, ascii_upper(key[0]))
    }
}

/// The token `<Key>` that a key fills in a pattern.
pub open spec fn placeholder(key: Seq<char>) -> Seq<char> {
    seq!['<'] + capitalize(key) + seq!['>']
}

/// `token` stands in `text` starting at index `i`.
pub open spec fn occurs_at(text: Seq<char>, i: int, token: Seq<char>) -> bool {
    0 <= i && i + token.len() <= text.len() && text.subrange(i, i + token.len()) == token
}

/// `a` is a prefix of `b`.
pub open spec fn is_prefix(a: Seq<char>, b: Seq<char>) -> bool {
    a.len() <= b.len() && b.subrange(0, a.len() as int) == a
}

/// The view of a list of key/value string pairs.
pub open spec fn pairs_view(pairs: Seq<(String, String)>) -> Seq<(Seq<char>, Seq<char>)> {
    pairs.map_values(|p: (String, String)| (p.0@, p.1@))
}

/// Index of the first entry from `j` on whose placeholder stands at index `i`
/// of `text`, or the number of entries when there is none.
pub open spec fn first_match(
    text: Seq<char>,
    entries: Seq<(Seq<char>, Seq<char>)>,
    i: int,
    j: int,
) -> int
    decreases entries.len() - j,
{
    if j < 0 || j >= entries.len() {
        entries.len() as int
    } else if occurs_at(text, i, placeholder(entries[j].0)) {
        j
    } else {
        first_match(text, entries, i, j + 1)
    }
}

/// `text` from index `i` on, read left to right: where the placeholder of an
/// entry stands, the entry's value is written in its place; every other
/// character is copied. Written values are not read again.
pub open spec fn resolve_from(text: Seq<char>, entries: Seq<(Seq<char>, Seq<char>)>, i: int) -> Seq<
    char,
>
    decreases text.len() - i,
{
    if i < 0 || i >= text.len() {
        Seq::empty()
    } else {
        let j = first_match(text, entries, i, 0);
        if 0 <= j < entries.len() && i + entries[j].0.len() + 2 <= text.len() {
            entries[j].1 + resolve_from(text, entries, i + entries[j].0.len() + 2)
        } else {
            seq![text[i]] + resolve_from(text, entries, i + 1)
        }
    }
}

/// The pattern with every placeholder of an entry replaced by the entry's value.
pub open spec fn resolve(text: Seq<char>, entries: Seq<(Seq<char>, Seq<char>)>) -> Seq<char> {
    resolve_from(text, entries, 0)
}

/// No two different entries have placeholders of which one is a prefix of
/// the other (so at most one entry can match at any place of a pattern).
pub open spec fn placeholders_disjoint(entries: Seq<(Seq<char>, Seq<char>)>) -> bool {
    forall|a: int, b: int|
        0 <= a < entries.len() && 0 <= b < entries.len() && #[trigger] is_prefix(
            placeholder(entries[a].0),
            placeholder(entries[b].0),
        ) ==> entries[a] == entries[b]
}

proof fn lemma_placeholder_shape(key: Seq<char>)
    ensures
        capitalize(key).len() == key.len(),
        placeholder(key).len() == key.len() + 2,
        placeholder(key)[0] == '<',
        placeholder(key)[key.len() + 1int] == '>',
        forall|q: int| 0 <= q < key.len() ==> #[trigger] placeholder(key)[q + 1] == capitalize(key)[q],
        forall|q: int| 0 < q < key.len() ==> #[trigger] capitalize(key)[q] == key[q],
        key.len() > 0 ==> capitalize(key)[0] == ascii_upper(key[0]),
{
}

proof fn lemma_first_match(text: Seq<char>, entries: Seq<(Seq<char>, Seq<char>)>, i: int, j: int)
    requires
        0 <= j <= entries.len(),
    ensures
        j <= first_match(text, entries, i, j) <= entries.len(),
        first_match(text, entries, i, j) < entries.len() ==> occurs_at(
            text,
            i,
            placeholder(entries[first_match(text, entries, i, j)].0),
        ),
        forall|q: int|
            j <= q < first_match(text, entries, i, j) ==> !occurs_at(
                text,
                i,
                #[trigger] placeholder(entries[q].0),
            ),
    decreases entries.len() - j,
{
    if j < entries.len() && !occurs_at(text, i, placeholder(entries[j].0)) {
        lemma_first_match(text, entries, i, j + 1);
    }
}

/// Two keys give the same placeholder exactly when they have the same
/// length, their first characters are equal after ASCII uppercasing, and
/// they agree on every later character. So a key and the same key with
/// another casing of any character after the first fill different
/// placeholders: only the first character is capitalized.
pub proof fn lemma_placeholder_eq(k1: Seq<char>, k2: Seq<char>)
    ensures
        placeholder(k1) == placeholder(k2) <==> (k1.len() == k2.len() && (k1.len() > 0
            ==> ascii_upper(k1[0]) == ascii_upper(k2[0])) && forall|q: int|
            0 < q < k1.len() ==> k1[q] == k2[q]),
{
    lemma_placeholder_shape(k1);
    lemma_placeholder_shape(k2);
    if placeholder(k1) == placeholder(k2) {
        assert forall|q: int| 0 < q < k1.len() implies k1[q] == k2[q] by {
            assert(placeholder(k1)[q + 1] == placeholder(k2)[q + 1]);
        }
        if k1.len() > 0 {
            assert(placeholder(k1)[1int] == placeholder(k2)[1int]);
        }
    }
    if k1.len() == k2.len() && (k1.len() > 0 ==> ascii_upper(k1[0]) == ascii_upper(k2[0]))
        && forall|q: int| 0 < q < k1.len() ==> k1[q] == k2[q] {
        assert(capitalize(k1) =~= capitalize(k2));
    }
}

proof fn lemma_occurs_prefix(text: Seq<char>, i: int, a: Seq<char>, b: Seq<char>)
    requires
        occurs_at(text, i, a),
        occurs_at(text, i, b),
        a.len() <= b.len(),
    ensures
        is_prefix(a, b),
{
    assert forall|m: int| 0 <= m < a.len() implies b.subrange(0, a.len() as int)[m] == a[m] by {
        assert(text.subrange(i, i + a.len())[m] == text[i + m]);
        assert(text.subrange(i, i + b.len())[m] == text[i + m]);
    }
    assert(b.subrange(0, a.len() as int) =~= a);
}

/// Two entries whose placeholders both stand at index `i` are equal.
proof fn lemma_one_match(
    text: Seq<char>,
    entries: Seq<(Seq<char>, Seq<char>)>,
    i: int,
    a: int,
    b: int,
)
    requires
        placeholders_disjoint(entries),
        0 <= a < entries.len(),
        0 <= b < entries.len(),
        occurs_at(text, i, placeholder(entries[a].0)),
        occurs_at(text, i, placeholder(entries[b].0)),
    ensures
        entries[a] == entries[b],
{
    let pa = placeholder(entries[a].0);
    let pb = placeholder(entries[b].0);
    if pa.len() <= pb.len() {
        lemma_occurs_prefix(text, i, pa, pb);
        assert(is_prefix(pa, pb));
    } else {
        lemma_occurs_prefix(text, i, pb, pa);
        assert(is_prefix(pb, pa));
    }
}

proof fn lemma_resolve_from_same_entries(
    text: Seq<char>,
    e1: Seq<(Seq<char>, Seq<char>)>,
    e2: Seq<(Seq<char>, Seq<char>)>,
    i: int,
)
    requires
        placeholders_disjoint(e1),
        forall|x: (Seq<char>, Seq<char>)| e1.contains(x) <==> e2.contains(x),
    ensures
        resolve_from(text, e1, i) == resolve_from(text, e2, i),
    decreases text.len() - i,
{
    if 0 <= i < text.len() {
        lemma_first_match(text, e1, i, 0);
        lemma_first_match(text, e2, i, 0);
        let j1 = first_match(text, e1, i, 0);
        let j2 = first_match(text, e2, i, 0);
        if j1 < e1.len() {
            let x = e1[j1];
            assert(e1.contains(x));
            let q = choose|q: int| 0 <= q < e2.len() && e2[q] == x;
            assert(occurs_at(text, i, placeholder(e2[q].0)));
            assert(j2 < e2.len());
            let y = e2[j2];
            assert(e2.contains(y));
            let r = choose|r: int| 0 <= r < e1.len() && e1[r] == y;
            lemma_one_match(text, e1, i, j1, r);
            lemma_resolve_from_same_entries(text, e1, e2, i + x.0.len() + 2);
        } else {
            if j2 < e2.len() {
                let y = e2[j2];
                assert(e2.contains(y));
                let r = choose|r: int| 0 <= r < e1.len() && e1[r] == y;
                assert(!occurs_at(text, i, placeholder(e1[r].0)));
            }
            lemma_resolve_from_same_entries(text, e1, e2, i + 1);
        }
    }
}

/// Filling placeholders does not depend on the order of the entries: any
/// permutation of the entries gives the same text, as long as no two
/// different entries have placeholders of which one is a prefix of the other.
pub proof fn lemma_resolve_order_independent(
    text: Seq<char>,
    e1: Seq<(Seq<char>, Seq<char>)>,
    e2: Seq<(Seq<char>, Seq<char>)>,
)
    requires
        placeholders_disjoint(e1),
        e1.to_multiset() == e2.to_multiset(),
    ensures
        resolve(text, e1) == resolve(text, e2),
{
    broadcast use vstd::seq_lib::group_to_multiset_ensures;

    assert forall|x: (Seq<char>, Seq<char>)| e1.contains(x) <==> e2.contains(x) by {
        assert(e1.contains(x) <==> e1.to_multiset().count(x) > 0);
        assert(e2.contains(x) <==> e2.to_multiset().count(x) > 0);
    }
    lemma_resolve_from_same_entries(text, e1, e2, 0);
}

fn upper_char(c: char) -> (r: char)
    ensures
        r == ascii_upper(c),
{
    if 'a' <= c && c <= 'z' {
        ((c as u8) - 32) as char
    } else {
        c
    }
}

/// Whether the placeholder of `key` stands in `pattern` at index `i`.
fn placeholder_at(pattern: &str, n: usize, i: usize, key: &str) -> (r: bool)
    requires
        n == pattern@.len(),
        i < n,
    ensures
        r == occurs_at(pattern@, i as int, placeholder(key@)),
{
    let ghost tok = placeholder(key@);
    proof {
        lemma_placeholder_shape(key@);
    }
    let k = key.unicode_len();
    if k >= n || i >= n - k - 1 {
        return false;
    }
    if pattern.get_char(i) != '<' || pattern.get_char(i + k + 1) != '>' {
        proof {
            if occurs_at(pattern@, i as int, tok) {
                assert(pattern@.subrange(i as int, i + tok.len())[0] == tok[0]);
                assert(pattern@.subrange(i as int, i + tok.len())[k + 1] == tok[k + 1]);
            }
        }
        return false;
    }
    let mut m: usize = 0;
    while m < k
        invariant
            k == key@.len(),
            tok == placeholder(key@),
            n == pattern@.len(),
            i + k + 1 < n,
            m <= k,
            forall|q: int| 0 <= q < m ==> pattern@[i + 1 + q] == #[trigger] capitalize(key@)[q],
        decreases k - m,
    {
        let kc = key.get_char(m);
        let want = if m == 0 {
            upper_char(kc)
        } else {
            kc
        };
        if pattern.get_char(i + 1 + m) != want {
            proof {
                if occurs_at(pattern@, i as int, tok) {
                    assert(tok[m + 1] == capitalize(key@)[m as int]);
                    assert(pattern@.subrange(i as int, i + tok.len())[m + 1] == tok[m + 1]);
                }
            }
            return false;
        }
        m = m + 1;
    }
    proof {
        assert(pattern@.subrange(i as int, i + tok.len()) =~= tok);
    }
    true
}

/// Index of the first entry whose placeholder stands in `pattern` at `i`,
/// or the number of entries.
fn find_match(pattern: &str, n: usize, i: usize, map: &Vec<(String, String)>) -> (j: usize)
    requires
        n == pattern@.len(),
        i < n,
    ensures
        j as int == first_match(pattern@, pairs_view(map@), i as int, 0),
{
    let ghost e = pairs_view(map@);
    let mut j: usize = 0;
    while j < map.len()
        invariant
            e == pairs_view(map@),
            n == pattern@.len(),
            i < n,
            j <= map@.len(),
            first_match(pattern@, e, i as int, 0) == first_match(pattern@, e, i as int, j as int),
        decreases map@.len() - j,
    {
        if placeholder_at(pattern, n, i, map[j].0.as_str()) {
            return j;
        }
        j = j + 1;
    }
    j
}

/// Fills the placeholders of `pattern` from `map`: for each pair, every
/// `<Key>` whose key is the pair's key with its first character in ASCII
/// uppercase is replaced by the pair's value. Placeholders without a pair
/// stay as they are.
pub fn make_url(pattern: String, map: Vec<(String, String)>) -> (url: String)
    ensures
        url@ == resolve(pattern@, pairs_view(map@)),
{
    let ghost e = pairs_view(map@);
    let p = pattern.as_str();
    let n = p.unicode_len();
    let mut out = String::new();
    let mut i: usize = 0;
    while i < n
        invariant
            e == pairs_view(map@),
            n == p@.len(),
            p@ == pattern@,
            i <= n,
            resolve(p@, e) == out@ + resolve_from(p@, e, i as int),
        decreases n - i,
    {
        let j = find_match(p, n, i, &map);
        proof {
            lemma_first_match(p@, e, i as int, 0);
        }
        if j < map.len() {
            let value = map[j].1.as_str();
            let k = map[j].0.as_str().unicode_len();
            proof {
                lemma_placeholder_shape(e[j as int].0);
            }
            out.append(value);
            i = i + k + 2;
        } else {
            out.append(p.substring_char(i, i + 1));
            i = i + 1;
        }
        assert(resolve(p@, e) == out@ + resolve_from(p@, e, i as int));
    }
    out
}

} // verus!
