//! Parameter stores: the values captured from a request path, and the
//! key/value pairs of a query string.

use vstd::prelude::*;
use vstd::hash_map::StringHashMap;

verus! {

/// The mapping that a store with string values stands for.
pub open spec fn store_view(m: Map<Seq<char>, String>) -> Map<Seq<char>, Seq<char>> {
    Map::new(|k: Seq<char>| m.contains_key(k), |k: Seq<char>| m[k]@)
}

/// Path parameters: capture name to captured text.
pub struct Params {
    params_map: StringHashMap<String>,
}

impl View for Params {
    type V = Map<Seq<char>, Seq<char>>;

    closed spec fn view(&self) -> Map<Seq<char>, Seq<char>> {
        store_view(self.params_map@)
    }
}

impl Params {
    /// An empty store.
    pub fn new() -> (store: Self)
        ensures
            store@ == Map::<Seq<char>, Seq<char>>::empty(),
    {
        let store = Self { params_map: StringHashMap::new() };
        assert(store@ =~= Map::<Seq<char>, Seq<char>>::empty());
        store
    }

    /// Binds `k` to `v`, replacing any value that `k` had.
    pub fn insert(&mut self, k: String, v: String)
        ensures
            final(self)@ == old(self)@.insert(k@, v@),
    {
        self.params_map.insert(k, v);
        assert(self@ =~= old(self)@.insert(k@, v@));
    }

    /// The value bound to `key`, or `None` where the store has no such key.
    /// An empty value is `Some` of an empty string.
    pub fn get_item(&self, key: String) -> (item: Option<&String>)
        ensures
            match item {
                Some(v) => self@.contains_key(key@) && v@ == self@[key@],
                None => !self@.contains_key(key@),
            },
    {
        self.params_map.get(key.as_str())
    }
}

/// `String::push` of the standard library. The contract claims what its
/// documentation says: it appends the character to the end of the
/// string.
pub assume_specification[ String::push ](s: &mut String, ch: char)
    ensures
        final(s)@ == old(s)@.push(ch),
;

/// The texts held by a list of strings.
pub open spec fn segment_texts(v: Seq<String>) -> Seq<Seq<char>> {
    Seq::new(v.len(), |i: int| v[i]@)
}

/// The pieces of `s` between the occurrences of `sep`: one piece more
/// than there are separators, so an empty text has one empty piece.
pub open spec fn split_text(s: Seq<char>, sep: char) -> Seq<Seq<char>>
    decreases s.len(),
{
    if s.len() == 0 {
        seq![Seq::<char>::empty()]
    } else {
        let before = split_text(s.drop_last(), sep);
        if s.last() == sep {
            before.push(Seq::<char>::empty())
        } else {
            before.drop_last().push(before.last().push(s.last()))
        }
    }
}

/// The key and value of one candidate pair: it is a pair only if it
/// splits on `=` into exactly two pieces, neither of them empty.
pub open spec fn pair_of(candidate: Seq<char>) -> Option<(Seq<char>, Seq<char>)> {
    let pieces = split_text(candidate, '=');
    if pieces.len() == 2 && pieces[0].len() > 0 && pieces[1].len() > 0 {
        Some((pieces[0], pieces[1]))
    } else {
        None
    }
}

/// The store built from the first `n` candidates: each that is a pair
/// binds its key to its value, a later pair replacing an earlier one of
/// the same key; the others are dropped.
pub open spec fn bind_pairs(candidates: Seq<Seq<char>>, n: int) -> Map<Seq<char>, Seq<char>>
    decreases n,
{
    if n <= 0 || n > candidates.len() {
        Map::empty()
    } else {
        let rest = bind_pairs(candidates, n - 1);
        match pair_of(candidates[n - 1]) {
            Some((k, v)) => rest.insert(k, v),
            None => rest,
        }
    }
}

/// The query parameters of a raw query string: its candidates are the
/// pieces between `&`.
pub open spec fn query_params(query: Seq<char>) -> Map<Seq<char>, Seq<char>> {
    let candidates = split_text(query, '&');
    bind_pairs(candidates, candidates.len() as int)
}

/// The query parameters of a request: those of its query string, and
/// none where it has no query string.
pub open spec fn query_of(query: Option<&str>) -> Map<Seq<char>, Seq<char>> {
    match query {
        Some(q) => query_params(q@),
        None => Map::empty(),
    }
}

/// The pieces put together again, with `sep` between each two.
pub open spec fn join_text(pieces: Seq<Seq<char>>, sep: char) -> Seq<char>
    decreases pieces.len(),
{
    if pieces.len() == 0 {
        Seq::empty()
    } else if pieces.len() == 1 {
        pieces[0]
    } else {
        join_text(pieces.drop_last(), sep).push(sep) + pieces.last()
    }
}

/// Splitting loses nothing and leaves no separator behind: there is at
/// least one piece, no piece holds `sep`, and the pieces joined by `sep`
/// are the text again.
pub proof fn lemma_split_joins(s: Seq<char>, sep: char)
    ensures
        split_text(s, sep).len() >= 1,
        forall|i: int| 0 <= i < split_text(s, sep).len() ==> !(#[trigger] split_text(s, sep)[i]).contains(sep),
        join_text(split_text(s, sep), sep) == s,
    decreases s.len(),
{
    let pieces = split_text(s, sep);
    if s.len() == 0 {
        assert(join_text(pieces, sep) =~= s);
        assert forall|i: int| 0 <= i < pieces.len() implies !(#[trigger] pieces[i]).contains(sep) by {
            assert(pieces[i].len() == 0);
        }
    } else {
        let t = s.drop_last();
        let c = s.last();
        let before = split_text(t, sep);
        lemma_split_joins(t, sep);
        assert(s =~= t.push(c));
        if c == sep {
            assert(pieces.drop_last() =~= before);
            assert(join_text(pieces, sep) =~= s);
            assert forall|i: int| 0 <= i < pieces.len() implies !(#[trigger] pieces[i]).contains(
                sep,
            ) by {
                if i < before.len() {
                    assert(pieces[i] == before[i]);
                } else {
                    assert(pieces[i].len() == 0);
                }
            }
        } else {
            let grown = before.last().push(c);
            assert(pieces.last() == grown);
            if before.len() == 1 {
                assert(join_text(before, sep) == before[0]);
                assert(join_text(pieces, sep) =~= s);
            } else {
                assert(pieces.drop_last() =~= before.drop_last());
                assert(join_text(pieces, sep) =~= (join_text(before.drop_last(), sep).push(sep)
                    + before.last()).push(c));
                assert(join_text(pieces, sep) =~= s);
            }
            assert forall|i: int| 0 <= i < pieces.len() implies !(#[trigger] pieces[i]).contains(
                sep,
            ) by {
                if i < before.len() - 1 {
                    assert(pieces[i] == before[i]);
                } else {
                    assert(!before.last().contains(sep));
                    if grown.contains(sep) {
                        let j = choose|j: int| 0 <= j < grown.len() && grown[j] == sep;
                        if j < before.last().len() {
                            assert(before.last()[j] == sep);
                        }
                    }
                }
            }
        }
    }
}

/// A text without `sep` is its own single piece.
pub proof fn lemma_split_one(k: Seq<char>, sep: char)
    requires
        !k.contains(sep),
    ensures
        split_text(k, sep) == seq![k],
    decreases k.len(),
{
    if k.len() == 0 {
        assert(k =~= Seq::<char>::empty());
    } else {
        let t = k.drop_last();
        assert(k[k.len() - 1] != sep);
        assert forall|j: int| 0 <= j < t.len() implies t[j] != sep by {
            assert(k[j] == t[j]);
        }
        lemma_split_one(t, sep);
        assert(t.push(k.last()) =~= k);
        assert(seq![t].drop_last().push(k) =~= seq![k]);
    }
}

/// A text without `sep`, a `sep`, and another text without `sep` split
/// into exactly those two texts.
pub proof fn lemma_split_two(k: Seq<char>, v: Seq<char>, sep: char)
    requires
        !k.contains(sep),
        !v.contains(sep),
    ensures
        split_text(k.push(sep) + v, sep) == seq![k, v],
    decreases v.len(),
{
    let whole = k.push(sep) + v;
    if v.len() == 0 {
        assert(v =~= Seq::<char>::empty());
        assert(whole =~= k.push(sep));
        assert(whole.drop_last() =~= k);
        lemma_split_one(k, sep);
        assert(seq![k].push(Seq::<char>::empty()) =~= seq![k, v]);
    } else {
        let t = v.drop_last();
        assert(v[v.len() - 1] != sep);
        assert forall|j: int| 0 <= j < t.len() implies t[j] != sep by {
            assert(v[j] == t[j]);
        }
        lemma_split_two(k, t, sep);
        assert(whole.drop_last() =~= k.push(sep) + t);
        assert(whole.last() == v.last());
        assert(t.push(v.last()) =~= v);
        assert(seq![k, t].drop_last().push(v) =~= seq![k, v]);
    }
}

/// A candidate is the pair of `k` and `v` exactly when it is `k`, one
/// `=` and `v`, with neither of the two empty nor holding a `=`.
pub proof fn lemma_pair_shape(candidate: Seq<char>, k: Seq<char>, v: Seq<char>)
    ensures
        pair_of(candidate) == Some((k, v)) <==> (candidate == k.push('=') + v && k.len() > 0
            && v.len() > 0 && !k.contains('=') && !v.contains('=')),
{
    if pair_of(candidate) == Some((k, v)) {
        let pieces = split_text(candidate, '=');
        lemma_split_joins(candidate, '=');
        assert(pieces.drop_last() =~= seq![k]);
        assert(join_text(pieces.drop_last(), '=') == k);
        assert(pieces[0] == k && pieces[1] == v);
    }
    if candidate == k.push('=') + v && k.len() > 0 && v.len() > 0 && !k.contains('=')
        && !v.contains('=') {
        lemma_split_two(k, v, '=');
    }
}

/// The key of a candidate, if the candidate is a pair.
pub open spec fn pair_key(candidate: Seq<char>) -> Option<Seq<char>> {
    match pair_of(candidate) {
        Some((k, _)) => Some(k),
        None => None,
    }
}

/// The last pair of a key wins: where candidate `i` is a pair of `k` and
/// `v`, and no later one of the first `n` candidates is a pair of `k`, the
/// store of those candidates binds `k` to `v`.
pub proof fn lemma_last_pair_wins(
    candidates: Seq<Seq<char>>,
    n: int,
    i: int,
    k: Seq<char>,
    v: Seq<char>,
)
    requires
        0 <= i < n <= candidates.len(),
        pair_of(candidates[i]) == Some((k, v)),
        forall|j: int| i < j < n ==> #[trigger] pair_key(candidates[j]) != Some(k),
    ensures
        bind_pairs(candidates, n).contains_key(k),
        bind_pairs(candidates, n)[k] == v,
    decreases n,
{
    if i < n - 1 {
        lemma_last_pair_wins(candidates, n - 1, i, k, v);
        assert(pair_key(candidates[n - 1]) != Some(k));
    }
}

/// Nothing is made up and a malformed candidate is dropped: a key of the
/// store of the first `n` candidates is the key of one of them that is a
/// pair.
pub proof fn lemma_key_has_pair(candidates: Seq<Seq<char>>, n: int, k: Seq<char>)
    requires
        bind_pairs(candidates, n).contains_key(k),
    ensures
        exists|i: int|
            0 <= i < n && i < candidates.len() && #[trigger] pair_key(candidates[i]) == Some(k),
    decreases n,
{
    if n <= 0 || n > candidates.len() {
    } else {
        if pair_key(candidates[n - 1]) != Some(k) {
            lemma_key_has_pair(candidates, n - 1, k);
        }
    }
}

/// Splits `s` at each occurrence of `sep`.
pub fn split(s: &str, sep: char) -> (pieces: Vec<String>)
    ensures
        segment_texts(pieces@) == split_text(s@, sep),
{
    let mut done: Vec<String> = Vec::new();
    let mut cur = String::new();
    assert(s@.take(0) =~= Seq::<char>::empty());
    assert(segment_texts(done@).push(cur@) =~= seq![Seq::<char>::empty()]);
    for c in it: s.chars()
        invariant
            it.seq() == s@,
            split_text(s@.take(it.index()), sep) == segment_texts(done@).push(cur@),
    {
        let ghost prefix = s@.take(it.index());
        let ghost next = s@.take(it.index() + 1);
        assert(next.drop_last() =~= prefix);
        assert(next.last() == c);
        let ghost before = segment_texts(done@).push(cur@);
        assert(before.drop_last() =~= segment_texts(done@));
        if c == sep {
            let ghost old_done = done@;
            let ghost old_cur = cur@;
            done.push(cur);
            cur = String::new();
            assert(segment_texts(done@) =~= segment_texts(old_done).push(old_cur));
        } else {
            cur.push(c);
        }
    }
    assert(s@.take(s@.len() as int) =~= s@);
    let ghost old_done = done@;
    done.push(cur);
    assert(segment_texts(done@) =~= segment_texts(old_done).push(cur@));
    done
}

/// Query parameters: key to value, from the pairs of a query string.
pub struct Query {
    query_map: StringHashMap<String>,
}

impl View for Query {
    type V = Map<Seq<char>, Seq<char>>;

    closed spec fn view(&self) -> Map<Seq<char>, Seq<char>> {
        store_view(self.query_map@)
    }
}

impl Query {
    /// Parses a raw query string: the candidates between `&` that split
    /// on `=` into a key and a value, both non-empty, are kept, the last
    /// one of a key winning; every other candidate is dropped.
    pub fn new(query_string: Option<&str>) -> (query: Self)
        ensures
            query@ == query_of(query_string),
    {
        let mut query = Self { query_map: StringHashMap::new() };
        assert(query@ =~= Map::<Seq<char>, Seq<char>>::empty());
        if let Some(raw) = query_string {
            let candidates = split(raw, '&');
            let mut i: usize = 0;
            while i < candidates.len()
                invariant
                    i <= candidates.len(),
                    query@ == bind_pairs(segment_texts(candidates@), i as int),
                decreases candidates.len() - i,
            {
                let pieces = split(candidates[i].as_str(), '=');
                if pieces.len() == 2 && !pieces[0].as_str().is_empty()
                    && !pieces[1].as_str().is_empty() {
                    let ghost before = query@;
                    query.query_map.insert(pieces[0].clone(), pieces[1].clone());
                    assert(query@ =~= before.insert(pieces[0]@, pieces[1]@));
                }
                i += 1;
            }
        }
        query
    }

    /// The value bound to `key`, or `None` where the query has no such
    /// key.
    pub fn get_item(&self, key: String) -> (item: Option<&String>)
        ensures
            match item {
                Some(v) => self@.contains_key(key@) && v@ == self@[key@],
                None => !self@.contains_key(key@),
            },
    {
        self.query_map.get(key.as_str())
    }
}

} // verus!
