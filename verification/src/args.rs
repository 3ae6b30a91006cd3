//! Ordered key/value argument lists.
//!
//! An [`Args`] value is the ordered string multimap used both to filter and
//! construct devices and to pass auxiliary parameters to operations.  As in
//! the native representation it is backed by two parallel arrays, one of
//! keys and one of values, which are equal in length at every observable
//! point.

use vstd::prelude::*;
use vstd::pervasive::VecAdditionalExecFns;
use vstd::string::StrSliceExecFns;
use vstd::string::StringExecFns;

verus! {

/// Holds when a string contains no null byte and so can cross the native
/// string boundary.
pub open spec fn no_nul(s: Seq<char>) -> bool {
    forall|i: int| 0 <= i < s.len() ==> s[i] != '\0'
}

/// The value the first pair with the given key carries, if any.
pub open spec fn lookup(items: Seq<(Seq<char>, Seq<char>)>, key: Seq<char>) -> Option<Seq<char>>
    decreases items.len(),
{
    if items.len() == 0 {
        None
    } else if items[0].0 == key {
        Some(items[0].1)
    } else {
        lookup(items.skip(1), key)
    }
}

/// The list after setting a key: the first pair with that key has its value
/// replaced, and a fresh pair is appended when no pair has the key.
pub open spec fn set_value(
    items: Seq<(Seq<char>, Seq<char>)>,
    key: Seq<char>,
    value: Seq<char>,
) -> Seq<(Seq<char>, Seq<char>)>
    decreases items.len(),
{
    if items.len() == 0 {
        seq![(key, value)]
    } else if items[0].0 == key {
        seq![(items[0].0, value)] + items.skip(1)
    } else {
        seq![items[0]] + set_value(items.skip(1), key, value)
    }
}

/// Holds when every pair of the filter is answered by the candidate: the
/// first value the candidate carries for the filter's key is the filter's
/// value.
pub open spec fn matches_spec(
    cand: Seq<(Seq<char>, Seq<char>)>,
    filter: Seq<(Seq<char>, Seq<char>)>,
) -> bool {
    forall|i: int| 0 <= i < filter.len() ==> lookup(cand, #[trigger] filter[i].0) == Some(
        filter[i].1,
    )
}

/// Holds of the characters the parser strips from segment edges.
pub open spec fn is_space(c: char) -> bool {
    c == ' ' || c == '\t' || c == '\n' || c == '\r'
}

/// The string with surrounding whitespace removed.
pub open spec fn trim(s: Seq<char>) -> Seq<char>
    decreases s.len(),
{
    if s.len() == 0 {
        s
    } else if is_space(s[0]) {
        trim(s.skip(1))
    } else if is_space(s[s.len() - 1]) {
        trim(s.take(s.len() - 1))
    } else {
        s
    }
}

/// Splits a segment at its first `=`: the characters before it and the
/// characters after it, or nothing when the segment has no `=`.  The first
/// argument accumulates the characters already passed.
pub open spec fn split_eq_rec(acc: Seq<char>, rest: Seq<char>) -> Option<(Seq<char>, Seq<char>)>
    decreases rest.len(),
{
    if rest.len() == 0 {
        None
    } else if rest[0] == '=' {
        Some((acc, rest.skip(1)))
    } else {
        split_eq_rec(acc.push(rest[0]), rest.skip(1))
    }
}

/// One comma-separated segment applied to the list: a segment without `=`
/// is skipped; any other segment sets its trimmed key to its trimmed value.
pub open spec fn apply_segment(
    items: Seq<(Seq<char>, Seq<char>)>,
    seg: Seq<char>,
) -> Seq<(Seq<char>, Seq<char>)> {
    match split_eq_rec(Seq::empty(), seg) {
        None => items,
        Some(kv) => set_value(items, trim(kv.0), trim(kv.1)),
    }
}

/// The list after parsing a string onto an existing list, one
/// comma-separated segment at a time.  The second argument accumulates the
/// current segment's characters already passed.
pub open spec fn parse_rec(
    items: Seq<(Seq<char>, Seq<char>)>,
    seg: Seq<char>,
    rest: Seq<char>,
) -> Seq<(Seq<char>, Seq<char>)>
    decreases rest.len(),
{
    if rest.len() == 0 {
        apply_segment(items, seg)
    } else if rest[0] == ',' {
        parse_rec(apply_segment(items, seg), Seq::empty(), rest.skip(1))
    } else {
        parse_rec(items, seg.push(rest[0]), rest.skip(1))
    }
}

/// The list a string parses to: split on commas, each segment split at its
/// first `=` into a trimmed key and a trimmed value, segments without `=`
/// skipped.
pub open spec fn parse_spec(s: Seq<char>) -> Seq<(Seq<char>, Seq<char>)> {
    parse_rec(Seq::empty(), Seq::empty(), s)
}

/// One pair rendered as `key=value`.
pub open spec fn render_kv(kv: (Seq<char>, Seq<char>)) -> Seq<char> {
    kv.0 + "="@ + kv.1
}

/// The whole list rendered: `key=value` pairs joined by `", "`.
pub open spec fn render(items: Seq<(Seq<char>, Seq<char>)>) -> Seq<char>
    decreases items.len(),
{
    if items.len() == 0 {
        Seq::empty()
    } else if items.len() == 1 {
        render_kv(items[0])
    } else {
        render_kv(items[0]) + ", "@ + render(items.skip(1))
    }
}

/// The pairs two parallel arrays of strings carry, in storage order.
pub open spec fn zip_view(keys: Seq<String>, vals: Seq<String>) -> Seq<(Seq<char>, Seq<char>)> {
    Seq::new(keys.len(), |i: int| (keys[i]@, vals[i]@))
}

/// Holds of a key or value that rendering keeps apart from the list
/// syntax: it contains no comma and no equals sign, and no whitespace at
/// either edge.
pub open spec fn plain(s: Seq<char>) -> bool {
    (forall|i: int| 0 <= i < s.len() ==> s[i] != ',' && #[trigger] s[i] != '=') && (s.len() > 0
        ==> !is_space(s[0]) && !is_space(s[s.len() - 1]))
}

/// Holds when no two pairs of the list share a key.
pub open spec fn distinct_keys(items: Seq<(Seq<char>, Seq<char>)>) -> bool {
    forall|i: int, j: int|
        0 <= i < j < items.len() ==> #[trigger] items[i].0 != #[trigger] items[j].0
}

/// Consuming characters without a comma only grows the current segment.
proof fn lemma_parse_rec_no_comma(
    items: Seq<(Seq<char>, Seq<char>)>,
    seg: Seq<char>,
    a: Seq<char>,
    b: Seq<char>,
)
    requires
        forall|i: int| 0 <= i < a.len() ==> #[trigger] a[i] != ',',
    ensures
        parse_rec(items, seg, a + b) == parse_rec(items, seg + a, b),
    decreases a.len(),
{
    if a.len() == 0 {
        assert(a + b =~= b);
        assert(seg + a =~= seg);
    } else {
        assert((a + b)[0] == a[0]);
        assert((a + b).len() > 0);
        assert((a + b).skip(1) =~= a.skip(1) + b);
        lemma_parse_rec_no_comma(items, seg.push(a[0]), a.skip(1), b);
        assert(seg.push(a[0]) + a.skip(1) =~= seg + a);
    }
}

/// A segment without an equals sign splits into nothing.
proof fn lemma_split_eq_none(acc: Seq<char>, s: Seq<char>)
    requires
        forall|i: int| 0 <= i < s.len() ==> #[trigger] s[i] != '=',
    ensures
        split_eq_rec(acc, s) is None,
    decreases s.len(),
{
    if s.len() == 0 {
    } else {
        lemma_split_eq_none(acc.push(s[0]), s.skip(1));
    }
}

/// A segment splits at its first equals sign: everything before it is the
/// key part and everything after it the value part.
proof fn lemma_split_eq_at(acc: Seq<char>, k: Seq<char>, v: Seq<char>)
    requires
        forall|i: int| 0 <= i < k.len() ==> #[trigger] k[i] != '=',
    ensures
        split_eq_rec(acc, k + seq!['='] + v) == Some((acc + k, v)),
    decreases k.len(),
{
    let s = k + seq!['='] + v;
    if k.len() == 0 {
        assert(s[0] == '=');
        assert(s.skip(1) =~= v);
        assert(acc + k =~= acc);
    } else {
        assert(s[0] == k[0]);
        assert(s[0] != '=');
        assert(s.skip(1) =~= k.skip(1) + seq!['='] + v);
        lemma_split_eq_at(acc.push(k[0]), k.skip(1), v);
        assert(acc.push(k[0]) + k.skip(1) =~= acc + k);
    }
}

/// Trimming leaves a string without edge whitespace unchanged.
proof fn lemma_trim_plain(s: Seq<char>)
    requires
        s.len() > 0 ==> !is_space(s[0]) && !is_space(s[s.len() - 1]),
    ensures
        trim(s) == s,
{
}

/// Trimming drops a whitespace prefix.
proof fn lemma_trim_leading(spaces: Seq<char>, s: Seq<char>)
    requires
        forall|i: int| 0 <= i < spaces.len() ==> is_space(#[trigger] spaces[i]),
    ensures
        trim(spaces + s) == trim(s),
    decreases spaces.len(),
{
    if spaces.len() == 0 {
        assert(spaces + s =~= s);
    } else {
        let w = spaces + s;
        assert(w[0] == spaces[0]);
        assert(w.skip(1) =~= spaces.skip(1) + s);
        lemma_trim_leading(spaces.skip(1), s);
    }
}

/// Setting a key no pair carries appends a fresh pair.
proof fn lemma_set_value_append(items: Seq<(Seq<char>, Seq<char>)>, k: Seq<char>, v: Seq<char>)
    requires
        lookup(items, k) is None,
    ensures
        set_value(items, k, v) == items.push((k, v)),
    decreases items.len(),
{
    if items.len() == 0 {
        assert(seq![(k, v)] =~= items.push((k, v)));
    } else {
        assert(items[0].0 != k);
        lemma_set_value_append(items.skip(1), k, v);
        assert(seq![items[0]] + items.skip(1).push((k, v)) =~= items.push((k, v)));
    }
}

/// Looking a key up in a list with one more pair at its end falls back to
/// that pair only when the key is absent from the rest.
proof fn lemma_lookup_push(
    items: Seq<(Seq<char>, Seq<char>)>,
    p: (Seq<char>, Seq<char>),
    k: Seq<char>,
)
    ensures
        lookup(items.push(p), k) == (match lookup(items, k) {
            Some(v) => Some(v),
            None => if p.0 == k {
                Some(p.1)
            } else {
                None
            },
        }),
    decreases items.len(),
{
    if items.len() == 0 {
        assert(items.push(p)[0] == p);
        assert(items.push(p).skip(1) =~= Seq::<(Seq<char>, Seq<char>)>::empty());
    } else {
        assert(items.push(p)[0] == items[0]);
        assert(items.push(p).skip(1) =~= items.skip(1).push(p));
        lemma_lookup_push(items.skip(1), p, k);
    }
}

/// Parsing the rendering of a list of plain pairs, starting from an
/// already-parsed list that carries none of its keys and from a current
/// segment of pure whitespace, appends exactly those pairs.
proof fn lemma_roundtrip_rec(
    done: Seq<(Seq<char>, Seq<char>)>,
    spaces: Seq<char>,
    items: Seq<(Seq<char>, Seq<char>)>,
)
    requires
        forall|i: int|
            0 <= i < items.len() ==> plain(#[trigger] items[i].0) && plain(items[i].1),
        distinct_keys(items),
        forall|i: int| 0 <= i < items.len() ==> lookup(done, #[trigger] items[i].0) is None,
        forall|i: int| 0 <= i < spaces.len() ==> is_space(#[trigger] spaces[i]),
    ensures
        parse_rec(done, spaces, render(items)) == done + items,
    decreases items.len(),
{
    reveal_strlit("=");
    reveal_strlit(", ");
    assert("="@.len() == 1 && "="@[0] == '=');
    assert(", "@.len() == 2 && ", "@[0] == ',' && ", "@[1] == ' ');
    if items.len() == 0 {
        assert(render(items).len() == 0);
        lemma_split_eq_none(Seq::empty(), spaces);
        assert(done + items =~= done);
    } else {
        let k0 = items[0].0;
        let v0 = items[0].1;
        let kv0 = render_kv(items[0]);
        assert(kv0 =~= k0 + seq!['='] + v0);
        assert(forall|i: int| 0 <= i < kv0.len() ==> #[trigger] kv0[i] != ',') by {
            assert(forall|i: int|
                0 <= i < kv0.len() ==> kv0[i] == (if i < k0.len() {
                    k0[i]
                } else if i == k0.len() {
                    '='
                } else {
                    v0[i - k0.len() - 1]
                }));
        }
        lemma_split_eq_at(Seq::empty(), spaces + k0, v0);
        assert(Seq::<char>::empty() + (spaces + k0) =~= spaces + k0);
        assert((spaces + k0) + seq!['='] + v0 =~= spaces + kv0);
        lemma_trim_leading(spaces, k0);
        lemma_trim_plain(k0);
        lemma_trim_plain(v0);
        lemma_set_value_append(done, k0, v0);
        let done1 = done.push((k0, v0));
        if items.len() == 1 {
            // the rendering is one segment, consumed without a comma
            lemma_parse_rec_no_comma(done, spaces, kv0, Seq::empty());
            assert(kv0 + Seq::<char>::empty() =~= kv0);
            assert(render(items) == kv0);
            assert(parse_rec(done, spaces + kv0, Seq::empty()) == apply_segment(
                done,
                spaces + kv0,
            ));
            assert(done1 =~= done + items);
        } else {
            let rest = render(items.skip(1));
            assert(render(items) == kv0 + ", "@ + rest);
            assert(render(items) =~= kv0 + (seq![','] + (seq![' '] + rest)));
            lemma_parse_rec_no_comma(done, spaces, kv0, seq![','] + (seq![' '] + rest));
            let after_comma = seq![' '] + rest;
            assert((seq![','] + after_comma)[0] == ',');
            assert((seq![','] + after_comma).skip(1) =~= after_comma);
            assert(parse_rec(done, spaces + kv0, seq![','] + after_comma) == parse_rec(
                apply_segment(done, spaces + kv0),
                Seq::empty(),
                after_comma,
            ));
            lemma_parse_rec_no_comma(done1, Seq::empty(), seq![' '], rest);
            assert(seq![' '] + rest =~= after_comma);
            assert(Seq::<char>::empty() + seq![' '] =~= seq![' ']);
            assert forall|i: int| 0 <= i < items.skip(1).len() implies plain(
                #[trigger] items.skip(1)[i].0,
            ) && plain(items.skip(1)[i].1) by {
                assert(items.skip(1)[i] == items[i + 1]);
                assert(plain(items[i + 1].0) && plain(items[i + 1].1));
            }
            assert forall|i: int, j: int| 0 <= i < j < items.skip(1).len() implies #[trigger] items
                .skip(1)[i].0 != #[trigger] items.skip(1)[j].0 by {
                assert(items.skip(1)[i] == items[i + 1]);
                assert(items.skip(1)[j] == items[j + 1]);
                assert(items[i + 1].0 != items[j + 1].0);
            }
            assert forall|i: int| 0 <= i < items.skip(1).len() implies lookup(
                done1,
                #[trigger] items.skip(1)[i].0,
            ) is None by {
                assert(items.skip(1)[i] == items[i + 1]);
                assert(items[0].0 != items[i + 1].0);
                assert(lookup(done, items[i + 1].0) is None);
                lemma_lookup_push(done, (k0, v0), items[i + 1].0);
            }
            lemma_roundtrip_rec(done1, seq![' '], items.skip(1));
            assert(done1 + items.skip(1) =~= done + items);
        }
    }
}

/// Rendering is the inverse of parsing: a list whose keys and values are
/// plain, and whose keys are distinct, parses back from its rendering
/// unchanged.  Keys or values carrying a comma, an equals sign or edge
/// whitespace do not round-trip, since rendering cannot keep them apart
/// from the list syntax.
pub proof fn lemma_parse_render_roundtrip(items: Seq<(Seq<char>, Seq<char>)>)
    requires
        forall|i: int|
            0 <= i < items.len() ==> plain(#[trigger] items[i].0) && plain(items[i].1),
        distinct_keys(items),
    ensures
        parse_spec(render(items)) == items,
{
    lemma_roundtrip_rec(Seq::empty(), Seq::empty(), items);
    assert(Seq::<(Seq<char>, Seq<char>)>::empty() + items =~= items);
}

/// Compares two strings character by character.
pub(crate) fn str_eq(a: &str, b: &str) -> (r: bool)
    ensures
        r == (a@ == b@),
{
    let alen = a.unicode_len();
    let blen = b.unicode_len();
    if alen != blen {
        return false;
    }
    let mut i: usize = 0;
    while i < alen
        invariant
            i <= alen,
            alen == a@.len(),
            alen == b@.len(),
            forall|j: int| 0 <= j < i ==> a@[j] == b@[j],
        decreases alen - i,
    {
        if a.get_char(i) != b.get_char(i) {
            return false;
        }
        i += 1;
    }
    proof {
        assert(a@ =~= b@);
    }
    true
}

/// Decides whether the parser strips a character from segment edges.
fn is_space_char(c: char) -> (r: bool)
    ensures
        r == is_space(c),
{
    c == ' ' || c == '\t' || c == '\n' || c == '\r'
}

/// Trimming a range of a string is taking the sub-range left after
/// stepping over whitespace from both ends.
proof fn lemma_trim_range(s: Seq<char>, a0: int, a: int, b: int, b0: int)
    requires
        0 <= a0 <= a <= b <= b0 <= s.len(),
        forall|i: int| a0 <= i < a ==> is_space(#[trigger] s[i]),
        forall|i: int| b <= i < b0 ==> is_space(#[trigger] s[i]),
        a < b ==> !is_space(s[a]),
        a < b ==> !is_space(s[b - 1]),
    ensures
        trim(s.subrange(a0, b0)) == s.subrange(a, b),
    decreases b0 - a0,
{
    let sub = s.subrange(a0, b0);
    if sub.len() == 0 {
        assert(s.subrange(a, b) =~= sub);
    } else if is_space(sub[0]) {
        assert(sub[0] == s[a0]);
        assert(sub.skip(1) =~= s.subrange(a0 + 1, b0));
        if a0 < a {
            lemma_trim_range(s, a0 + 1, a, b, b0);
        } else {
            // the first character is whitespace yet lies at or past the
            // trimmed start, so the trimmed range is empty
            assert(a == b);
            lemma_trim_range(s, a0 + 1, b0, b0, b0);
            assert(s.subrange(b0, b0) =~= s.subrange(a, b));
        }
    } else if is_space(sub[sub.len() - 1]) {
        assert(sub[sub.len() - 1] == s[b0 - 1]);
        assert(sub.take(sub.len() - 1) =~= s.subrange(a0, b0 - 1));
        assert(b < b0);
        lemma_trim_range(s, a0, a, b, b0 - 1);
    } else {
        assert(a == a0 && b == b0);
        assert(sub =~= s.subrange(a, b));
    }
}

/// Narrows a range of a string to its whitespace-trimmed core.
fn trim_range(s: &str, a0: usize, b0: usize) -> (r: (usize, usize))
    requires
        a0 <= b0 <= s@.len(),
    ensures
        a0 <= r.0 <= r.1 <= b0,
        s@.subrange(r.0 as int, r.1 as int) == trim(s@.subrange(a0 as int, b0 as int)),
{
    let mut a = a0;
    let mut b = b0;
    while a < b && is_space_char(s.get_char(a))
        invariant
            a0 <= a <= b,
            b == b0,
            b0 <= s@.len(),
            forall|i: int| a0 <= i < a ==> is_space(#[trigger] s@[i]),
        decreases b - a,
    {
        a += 1;
    }
    while a < b && is_space_char(s.get_char(b - 1))
        invariant
            a0 <= a <= b <= b0,
            b0 <= s@.len(),
            forall|i: int| a0 <= i < a ==> is_space(#[trigger] s@[i]),
            forall|i: int| b <= i < b0 ==> is_space(#[trigger] s@[i]),
            a < b ==> !is_space(s@[a as int]),
        decreases b - a,
    {
        b -= 1;
    }
    proof {
        lemma_trim_range(s@, a0 as int, a as int, b as int, b0 as int);
    }
    (a, b)
}

/// Rendering one more pair appends `", "` and the pair, except for the
/// first pair, which stands alone.
proof fn lemma_render_snoc(items: Seq<(Seq<char>, Seq<char>)>, i: int)
    requires
        0 <= i < items.len(),
    ensures
        render(items.take(i + 1)) == if i == 0 {
            render_kv(items[0])
        } else {
            render(items.take(i)) + ", "@ + render_kv(items[i])
        },
    decreases i,
{
    if i == 0 {
        assert(items.take(1).len() == 1);
        assert(items.take(1)[0] == items[0]);
    } else {
        lemma_render_snoc(items.skip(1), i - 1);
        assert(items.take(i + 1).len() == i + 1 >= 2);
        assert(items.take(i + 1)[0] == items[0]);
        assert(items.take(i + 1).skip(1) =~= items.skip(1).take(i));
        assert(items.take(i).skip(1) =~= items.skip(1).take(i - 1));
        assert(items.skip(1)[i - 1] == items[i]);
        if i == 1 {
            assert(items.take(1).len() == 1);
            assert(items.take(1)[0] == items[0]);
            assert(render(items.take(2)) =~= render(items.take(1)) + ", "@ + render_kv(items[1]));
        } else {
            assert(items.take(i).len() == i >= 2);
            assert(items.take(i)[0] == items[0]);
            assert(render(items.take(i + 1)) == render_kv(items[0]) + ", "@ + (render(
                items.skip(1).take(i - 1),
            ) + ", "@ + render_kv(items[i])));
            assert(render(items.take(i)) == render_kv(items[0]) + ", "@ + render(
                items.skip(1).take(i - 1),
            ));
            assert(render_kv(items[0]) + ", "@ + (render(items.skip(1).take(i - 1)) + ", "@
                + render_kv(items[i])) =~= (render_kv(items[0]) + ", "@ + render(
                items.skip(1).take(i - 1),
            )) + ", "@ + render_kv(items[i]));
        }
    }
}

/// Applies one comma-separated segment of `s`, the characters `a` to `b`,
/// to the list: nothing when the segment has no `=`, otherwise the trimmed
/// key is set to the trimmed value.
fn apply_segment_range(r: &mut Args, s: &str, a: usize, b: usize)
    requires
        a <= b <= s@.len(),
        no_nul(s@),
    ensures
        final(r)@ == apply_segment(old(r)@, s@.subrange(a as int, b as int)),
{
    let ghost seg = s@.subrange(a as int, b as int);
    let mut j = a;
    proof {
        assert(s@.subrange(a as int, a as int) =~= Seq::<char>::empty());
        assert(s@.subrange(a as int, b as int) =~= seg);
    }
    while j < b
        invariant
            a <= j <= b <= s@.len(),
            no_nul(s@),
            seg == s@.subrange(a as int, b as int),
            split_eq_rec(Seq::empty(), seg) == split_eq_rec(
                s@.subrange(a as int, j as int),
                s@.subrange(j as int, b as int),
            ),
            *r == *old(r),
        decreases b - j,
    {
        let ghost acc = s@.subrange(a as int, j as int);
        let ghost rest = s@.subrange(j as int, b as int);
        proof {
            assert(rest[0] == s@[j as int]);
            assert(rest.skip(1) =~= s@.subrange(j as int + 1, b as int));
        }
        if s.get_char(j) == '=' {
            let (ka, kb) = trim_range(s, a, j);
            let (va, vb) = trim_range(s, j + 1, b);
            let kstr = s.substring_char(ka, kb);
            let vstr = s.substring_char(va, vb);
            proof {
                assert(split_eq_rec(Seq::empty(), seg) == Some(
                    (acc, s@.subrange(j as int + 1, b as int)),
                ));
                assert(no_nul(kstr@)) by {
                    assert(forall|i: int|
                        0 <= i < kstr@.len() ==> #[trigger] kstr@[i] == s@[ka + i] && s@[ka + i]
                            != '\0');
                }
                assert(no_nul(vstr@)) by {
                    assert(forall|i: int|
                        0 <= i < vstr@.len() ==> #[trigger] vstr@[i] == s@[va + i] && s@[va + i]
                            != '\0');
                }
            }
            r.set(kstr, vstr);
            return ;
        }
        proof {
            assert(acc.push(s@[j as int]) =~= s@.subrange(a as int, j as int + 1));
        }
        j += 1;
    }
    proof {
        assert(s@.subrange(b as int, b as int).len() == 0);
        assert(split_eq_rec(Seq::empty(), seg) is None);
    }
}

/// An ordered list of key=value pairs.
///
/// The list is backed by two parallel arrays of strings; they are equal in
/// length at every observable point.
pub struct Args {
    keys: Vec<String>,
    vals: Vec<String>,
}

impl View for Args {
    type V = Seq<(Seq<char>, Seq<char>)>;

    closed spec fn view(&self) -> Seq<(Seq<char>, Seq<char>)> {
        zip_view(self.keys@, self.vals@)
    }
}

impl Args {
    #[verifier::type_invariant]
    spec fn parallel_arrays(self) -> bool {
        self.keys@.len() == self.vals@.len()
    }

    /// Create a new, empty `Args` list.
    pub fn new() -> (r: Args)
        ensures
            r@ == Seq::<(Seq<char>, Seq<char>)>::empty(),
    {
        let r = Args { keys: Vec::new(), vals: Vec::new() };
        proof {
            assert(r@ =~= Seq::<(Seq<char>, Seq<char>)>::empty());
        }
        r
    }

    /// Set a key in the arguments list.
    ///
    /// The first existing pair with this key has its value overwritten;
    /// when no pair has the key, a fresh pair is appended.  Strings with
    /// embedded null bytes cannot cross the native boundary, so they are
    /// ruled out by precondition rather than reported at run time.
    pub fn set(&mut self, key: &str, value: &str)
        requires
            no_nul(key@),
            no_nul(value@),
        ensures
            final(self)@ == set_value(old(self)@, key@, value@),
    {
        proof {
            use_type_invariant(&*self);
        }
        let ghost orig = self@;
        let mut tmp = Args { keys: Vec::new(), vals: Vec::new() };
        core::mem::swap(self, &mut tmp);
        let Args { mut keys, mut vals } = tmp;
        let n = keys.len();
        let mut i: usize = 0;
        let mut found = false;
        proof {
            assert(orig.skip(0) =~= orig);
            assert(orig.take(0) + set_value(orig, key@, value@) =~= set_value(orig, key@, value@));
        }
        while i < n && !found
            invariant
                n == keys@.len(),
                keys@.len() == vals@.len(),
                i <= n,
                !found ==> zip_view(keys@, vals@) == orig,
                !found ==> set_value(orig, key@, value@) == orig.take(i as int) + set_value(
                    orig.skip(i as int),
                    key@,
                    value@,
                ),
                found ==> set_value(orig, key@, value@) == zip_view(keys@, vals@),
            decreases n - i + (if found { 0int } else { 1int }),
        {
            if str_eq(keys[i].as_str(), key) {
                proof {
                    assert(orig.skip(i as int)[0] == orig[i as int]);
                    assert(set_value(orig.skip(i as int), key@, value@) == seq![
                        (orig[i as int].0, value@),
                    ] + orig.skip(i as int + 1));
                }
                vals.set(i, value.to_owned());
                found = true;
                proof {
                    assert(set_value(orig, key@, value@) =~= zip_view(keys@, vals@));
                }
            } else {
                proof {
                    assert(orig.skip(i as int)[0] == orig[i as int]);
                    assert(orig.skip(i as int).skip(1) =~= orig.skip(i as int + 1));
                    assert(orig.take(i as int) + seq![orig[i as int]] =~= orig.take(i as int + 1));
                    assert(set_value(orig.skip(i as int), key@, value@) == seq![orig[i as int]]
                        + set_value(orig.skip(i as int + 1), key@, value@));
                    assert(orig.take(i as int) + (seq![orig[i as int]] + set_value(
                        orig.skip(i as int + 1),
                        key@,
                        value@,
                    )) =~= orig.take(i as int + 1) + set_value(orig.skip(i as int + 1), key@, value@));
                }
                i += 1;
            }
        }
        if !found {
            proof {
                assert(orig.skip(i as int) =~= Seq::<(Seq<char>, Seq<char>)>::empty());
                assert(orig.take(i as int) =~= orig);
            }
            keys.push(key.to_owned());
            vals.push(value.to_owned());
            proof {
                assert(set_value(orig, key@, value@) =~= zip_view(keys@, vals@));
            }
        }
        *self = Args { keys, vals };
    }

    /// Get the value corresponding to a key in the arguments list.
    ///
    /// The first pair with the key answers; an absent key yields nothing.
    pub fn get<'a>(&'a self, key: &str) -> (r: Option<&'a str>)
        ensures
            match r {
                Some(v) => lookup(self@, key@) == Some(v@),
                None => lookup(self@, key@) is None,
            },
    {
        proof {
            use_type_invariant(&*self);
        }
        let n = self.keys.len();
        let mut i: usize = 0;
        proof {
            assert(self@.skip(0) =~= self@);
        }
        while i < n
            invariant
                n == self.keys@.len(),
                self.keys@.len() == self.vals@.len(),
                i <= n,
                lookup(self@, key@) == lookup(self@.skip(i as int), key@),
            decreases n - i,
    {
            proof {
                assert(self@.skip(i as int)[0] == self@[i as int]);
                assert(self@.skip(i as int).skip(1) =~= self@.skip(i as int + 1));
            }
            if str_eq(self.keys[i].as_str(), key) {
                return Some(self.vals[i].as_str());
            }
            i += 1;
        }
        proof {
            assert(self@.skip(i as int) =~= Seq::<(Seq<char>, Seq<char>)>::empty());
        }
        None
    }

    /// Parse an arguments list from a single string.
    ///
    /// The string is split on commas; each segment is split at its first
    /// `=` into a key and a value, both trimmed of surrounding whitespace,
    /// and segments without `=` are silently skipped.  A later segment with
    /// an already-seen key overwrites that key's value, as [`Args::set`]
    /// does.
    pub fn parse(s: &str) -> (r: Args)
        requires
            no_nul(s@),
        ensures
            r@ == parse_spec(s@),
    {
        let n = s.unicode_len();
        let mut r = Args::new();
        let mut seg_start: usize = 0;
        let mut pos: usize = 0;
        proof {
            assert(s@.subrange(0, 0) =~= Seq::<char>::empty());
            assert(s@.skip(0) =~= s@);
        }
        while pos < n
            invariant
                seg_start <= pos <= n,
                n == s@.len(),
                no_nul(s@),
                parse_spec(s@) == parse_rec(
                    r@,
                    s@.subrange(seg_start as int, pos as int),
                    s@.skip(pos as int),
                ),
            decreases n - pos,
        {
            let ghost rest = s@.skip(pos as int);
            proof {
                assert(rest[0] == s@[pos as int]);
                assert(rest.skip(1) =~= s@.skip(pos as int + 1));
            }
            if s.get_char(pos) == ',' {
                apply_segment_range(&mut r, s, seg_start, pos);
                seg_start = pos + 1;
                proof {
                    assert(s@.subrange(seg_start as int, seg_start as int) =~= Seq::<
                        char,
                    >::empty());
                }
            } else {
                proof {
                    assert(s@.subrange(seg_start as int, pos as int).push(s@[pos as int]) =~= s@
                        .subrange(seg_start as int, pos as int + 1));
                }
            }
            pos += 1;
        }
        proof {
            assert(s@.skip(n as int).len() == 0);
        }
        apply_segment_range(&mut r, s, seg_start, n);
        r
    }

    /// Render the arguments list as a single string: `key=value` pairs
    /// joined by `", "`.
    ///
    /// This is the inverse of [`Args::parse`] for keys and values that do
    /// not themselves contain `,` or `=` or edge whitespace;
    /// [`lemma_parse_render_roundtrip`] proves it.
    pub fn to_string(&self) -> (r: String)
        ensures
            r@ == render(self@),
    {
        proof {
            use_type_invariant(&*self);
        }
        let n = self.keys.len();
        let mut out = String::new();
        let mut i: usize = 0;
        proof {
            assert(self@.take(0) =~= Seq::<(Seq<char>, Seq<char>)>::empty());
        }
        while i < n
            invariant
                n == self.keys@.len(),
                self.keys@.len() == self.vals@.len(),
                i <= n,
                out@ == render(self@.take(i as int)),
            decreases n - i,
        {
            if i > 0 {
                out.append(", ");
            }
            out.append(self.keys[i].as_str());
            out.append("=");
            out.append(self.vals[i].as_str());
            proof {
                lemma_render_snoc(self@, i as int);
                assert(out@ =~= render(self@.take(i as int + 1)));
            }
            i += 1;
        }
        proof {
            assert(self@.take(n as int) =~= self@);
        }
        out
    }

    /// Decide whether this list satisfies a filter: for every pair of the
    /// filter, the first value this list carries under the filter's key is
    /// the filter's value.
    pub fn matches(&self, filter: &Args) -> (r: bool)
        ensures
            r == matches_spec(self@, filter@),
    {
        proof {
            use_type_invariant(&*filter);
        }
        let n = filter.keys.len();
        let mut i: usize = 0;
        while i < n
            invariant
                n == filter.keys@.len(),
                filter.keys@.len() == filter.vals@.len(),
                i <= n,
                forall|j: int|
                    0 <= j < i ==> lookup(self@, #[trigger] filter@[j].0) == Some(filter@[j].1),
            decreases n - i,
        {
            let matched = match self.get(filter.keys[i].as_str()) {
                Some(v) => str_eq(v, filter.vals[i].as_str()),
                None => false,
            };
            if !matched {
                proof {
                    assert(lookup(self@, filter@[i as int].0) != Some(filter@[i as int].1));
                }
                return false;
            }
            i += 1;
        }
        true
    }

    /// Get an iterator over the (key, value) pairs in the arguments list.
    pub fn iter<'a>(&'a self) -> (r: ArgsIterator<'a>)
        ensures
            r.items() == self@,
            r.position() == 0,
    {
        ArgsIterator { args: self, pos: 0 }
    }
}

impl Clone for Args {
    /// Clone the list, pair for pair.
    fn clone(&self) -> (r: Self)
        ensures
            r@ == self@,
    {
        proof {
            use_type_invariant(&*self);
        }
        let n = self.keys.len();
        let mut keys: Vec<String> = Vec::new();
        let mut vals: Vec<String> = Vec::new();
        let mut i: usize = 0;
        while i < n
            invariant
                n == self.keys@.len(),
                self.keys@.len() == self.vals@.len(),
                i <= n,
                keys@.len() == i,
                vals@.len() == i,
                forall|j: int| 0 <= j < i ==> keys@[j]@ == self.keys@[j]@,
                forall|j: int| 0 <= j < i ==> vals@[j]@ == self.vals@[j]@,
            decreases n - i,
        {
            keys.push(self.keys[i].clone());
            vals.push(self.vals[i].clone());
            i += 1;
        }
        let r = Args { keys, vals };
        proof {
            assert(r@ =~= self@);
        }
        r
    }
}

impl Default for Args {
    /// The default list is empty.
    fn default() -> (r: Args)
        ensures
            r@ == Seq::<(Seq<char>, Seq<char>)>::empty(),
    {
        Args::new()
    }
}

/// An iterator over the `(&key, &value)` pairs in an `Args` list.
pub struct ArgsIterator<'a> {
    args: &'a Args,
    pos: usize,
}

impl<'a> ArgsIterator<'a> {
    /// The pairs the iterator walks.
    pub closed spec fn items(self) -> Seq<(Seq<char>, Seq<char>)> {
        self.args@
    }

    /// How many pairs the iterator has already produced.
    pub closed spec fn position(self) -> int {
        self.pos as int
    }

    /// Produce the next (key, value) pair, in storage order.
    pub fn next(&mut self) -> (r: Option<(&'a str, &'a str)>)
        ensures
            final(self).items() == old(self).items(),
            old(self).position() < old(self).items().len() ==> (r matches Some(p)
                && p.0@ == old(self).items()[old(self).position()].0
                && p.1@ == old(self).items()[old(self).position()].1
                && final(self).position() == old(self).position() + 1),
            old(self).position() >= old(self).items().len() ==> r is None && final(self).position()
                == old(self).position(),
    {
        proof {
            use_type_invariant(self.args);
        }
        let a = self.args;
        if self.pos < a.keys.len() {
            let k = a.keys[self.pos].as_str();
            let v = a.vals[self.pos].as_str();
            self.pos = self.pos + 1;
            Some((k, v))
        } else {
            None
        }
    }
}

} // verus!
