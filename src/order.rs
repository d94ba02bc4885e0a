//! Comparing project and task names without regard to case: ordering
//! project assignments, and matching typed text in the entry editor.
use vstd::prelude::*;
use vstd::multiset::Multiset;
use crate::model::ProjectAssignment;
use crate::text::{chars_of, find, find_in};

verus! {

/// The lowercase form of `s`, as std's `str::to_lowercase` gives it.
pub uninterp spec fn lowercase_of(s: Seq<char>) -> Seq<char>;

/// Relies on std's `str::to_lowercase`; its result depends on the
/// characters alone.
#[verifier::external_body]
fn lowercase(s: &str) -> (r: String)
    ensures
        r@ == lowercase_of(s@),
{
    s.to_lowercase()
}

/// Whether `a` comes before `b`, or equals it, character by character.
pub open spec fn text_le(a: Seq<char>, b: Seq<char>) -> bool
    decreases a.len(),
{
    if a.len() == 0 {
        true
    } else if b.len() == 0 {
        false
    } else if a[0] != b[0] {
        a[0] < b[0]
    } else {
        text_le(a.drop_first(), b.drop_first())
    }
}

/// The key assignments are ordered by: the project name in lowercase.
pub open spec fn name_key(a: ProjectAssignment) -> Seq<char> {
    lowercase_of(a.project.name@)
}

/// Whether `v` is ordered by project name, ignoring case.
pub open spec fn sorted_by_name(v: Seq<ProjectAssignment>) -> bool {
    forall|i: int, j: int| 0 <= i < j < v.len() ==> text_le(name_key(v[i]), name_key(v[j]))
}

proof fn lemma_text_le_total(a: Seq<char>, b: Seq<char>)
    ensures
        text_le(a, b) || text_le(b, a),
    decreases a.len(),
{
    if a.len() > 0 && b.len() > 0 && a[0] == b[0] {
        lemma_text_le_total(a.drop_first(), b.drop_first());
    }
}

proof fn lemma_text_le_transitive(a: Seq<char>, b: Seq<char>, c: Seq<char>)
    requires
        text_le(a, b),
        text_le(b, c),
    ensures
        text_le(a, c),
    decreases a.len(),
{
    if a.len() > 0 && b.len() > 0 && c.len() > 0 && a[0] == b[0] && b[0] == c[0] {
        lemma_text_le_transitive(a.drop_first(), b.drop_first(), c.drop_first());
    }
}

/// Whether `a <= b` character by character.
fn text_le_in(a: &Vec<char>, b: &Vec<char>) -> (r: bool)
    ensures
        r == text_le(a@, b@),
{
    assert(a@.skip(0) == a@ && b@.skip(0) == b@);
    let mut k: usize = 0;
    while k < a.len()
        invariant
            k <= a@.len(),
            k <= b@.len(),
            text_le(a@, b@) == text_le(a@.skip(k as int), b@.skip(k as int)),
        decreases a@.len() - k,
    {
        if k == b.len() {
            return false;
        }
        assert(a@.skip(k as int)[0] == a@[k as int]);
        assert(b@.skip(k as int)[0] == b@[k as int]);
        if a[k] != b[k] {
            return a[k] < b[k];
        }
        assert(a@.skip(k as int).drop_first() == a@.skip(k + 1));
        assert(b@.skip(k as int).drop_first() == b@.skip(k + 1));
        k = k + 1;
    }
    true
}

/// Where `x` goes in `s`: before the first assignment whose key is not
/// smaller than `x`'s.
pub open spec fn insert_position(x: ProjectAssignment, s: Seq<ProjectAssignment>) -> int
    decreases s.len(),
{
    if s.len() == 0 {
        0
    } else if text_le(name_key(x), name_key(s[0])) {
        0
    } else {
        1 + insert_position(x, s.drop_first())
    }
}

/// `v` ordered by project name by insertion: the first assignment is put
/// into the ordered rest before the first one with a key that is not
/// smaller. Assignments with the same key therefore keep their order.
pub open spec fn sorted_by_name_of(v: Seq<ProjectAssignment>) -> Seq<ProjectAssignment>
    decreases v.len(),
{
    if v.len() == 0 {
        Seq::empty()
    } else {
        let rest = sorted_by_name_of(v.drop_first());
        rest.insert(insert_position(v[0], rest), v[0])
    }
}

proof fn lemma_insert_position(x: ProjectAssignment, s: Seq<ProjectAssignment>, p: int)
    requires
        0 <= p <= s.len(),
        forall|k: int| 0 <= k < p ==> !text_le(name_key(x), #[trigger] name_key(s[k])),
        p < s.len() ==> text_le(name_key(x), name_key(s[p])),
    ensures
        insert_position(x, s) == p,
    decreases p,
{
    if p > 0 {
        assert(!text_le(name_key(x), name_key(s[0])));
        let t = s.drop_first();
        assert forall|k: int| 0 <= k < p - 1 implies !text_le(name_key(x), #[trigger] name_key(t[k])) by {
            assert(t[k] == s[k + 1]);
        }
        if p < s.len() {
            assert(t[p - 1] == s[p]);
        }
        lemma_insert_position(x, t, p - 1);
    }
}

/// The same assignments, ordered by project name, ignoring case;
/// assignments with the same name keep their order.
pub fn sort_by_project_name(v: Vec<ProjectAssignment>) -> (r: Vec<ProjectAssignment>)
    ensures
        r@ == sorted_by_name_of(v@),
        sorted_by_name(r@),
        r@.to_multiset() == v@.to_multiset(),
{
    broadcast use vstd::seq_lib::group_to_multiset_ensures, vstd::multiset::group_multiset_axioms;

    let mut rest = v;
    let mut out: Vec<ProjectAssignment> = Vec::new();
    let mut keys: Vec<Vec<char>> = Vec::new();
    assert(out@.to_multiset() =~= Multiset::empty());
    assert(out@.to_multiset().add(rest@.to_multiset()) =~= v@.to_multiset());
    while rest.len() > 0
        invariant
            sorted_by_name(out@),
            rest@.len() <= v@.len(),
            rest@ == v@.subrange(0, rest@.len() as int),
            out@ == sorted_by_name_of(v@.subrange(rest@.len() as int, v@.len() as int)),
            keys@.len() == out@.len(),
            forall|k: int| 0 <= k < out@.len() ==> (#[trigger] keys@[k])@ == name_key(out@[k]),
            out@.to_multiset().add(rest@.to_multiset()) == v@.to_multiset(),
        decreases rest@.len(),
    {
        let ghost before = rest@;
        let x = rest.pop().unwrap();
        assert(before == rest@.push(x));
        let ghost suffix = v@.subrange(rest@.len() as int, v@.len() as int);
        assert(suffix.drop_first() == v@.subrange(before.len() as int, v@.len() as int));
        assert(suffix[0] == x);
        assert(rest@ == v@.subrange(0, rest@.len() as int));
        let key = chars_of(lowercase(x.project.name.as_str()).as_str());
        let mut p: usize = 0;
        while p < out.len() && !text_le_in(&key, &keys[p])
            invariant
                p <= out@.len(),
                keys@.len() == out@.len(),
                forall|k: int| 0 <= k < out@.len() ==> (#[trigger] keys@[k])@ == name_key(out@[k]),
                key@ == name_key(x),
                forall|k: int| 0 <= k < p ==> !text_le(name_key(x), #[trigger] name_key(out@[k])),
            decreases out@.len() - p,
        {
            p = p + 1;
        }
        proof {
            let o = out@;
            lemma_insert_position(x, o, p as int);
            assert forall|i: int, j: int|
                0 <= i < j < o.len() + 1 implies text_le(
                name_key(#[trigger] o.insert(p as int, x)[i]),
                name_key(#[trigger] o.insert(p as int, x)[j]),
            ) by {
                let n = o.insert(p as int, x);
                if i < p && j == p {
                    lemma_text_le_total(name_key(x), name_key(o[i]));
                } else if j > p && i <= p {
                    assert(text_le(name_key(x), name_key(o[p as int])));
                    if j - 1 > p {
                        lemma_text_le_transitive(name_key(x), name_key(o[p as int]), name_key(o[j - 1]));
                    }
                    if i < p {
                        lemma_text_le_total(name_key(x), name_key(o[i]));
                        lemma_text_le_transitive(name_key(o[i]), name_key(x), name_key(o[j - 1]));
                    }
                }
            }
        }
        let ghost o = out@;
        out.insert(p, x);
        keys.insert(p, key);
        proof {
            assert(out@ == o.insert(p as int, x));
            vstd::seq_lib::to_multiset_insert(o, p as int, x);
            vstd::seq_lib::to_multiset_build(rest@, x);
        }
        assert(out@.to_multiset().add(rest@.to_multiset()) =~= v@.to_multiset());
    }
    assert(rest@ == Seq::<ProjectAssignment>::empty());
    assert(v@.subrange(0, v@.len() as int) == v@);
    assert(rest@.to_multiset() =~= Multiset::empty());
    assert(out@.to_multiset() =~= out@.to_multiset().add(rest@.to_multiset()));
    out
}

/// Whether a completion row of the entry editor matches the text typed so
/// far: the row, in lowercase, contains `key` (which the editor has already
/// put in lowercase).
pub fn fuzzy_matching(row: &str, key: &str) -> (r: bool)
    ensures
        r == find(lowercase_of(row@), key@) is Some,
{
    let lower = chars_of(lowercase(row).as_str());
    let pattern = chars_of(key);
    assert(lower@.subrange(0, lower@.len() as int) == lower@);
    find_in(&lower, 0, lower.len(), &pattern).is_some()
}

} // verus!
