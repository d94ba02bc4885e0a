//! Reading the authorization grant out of the browser's redirected request.
use vstd::prelude::*;
use crate::text::{
    chars_of, find, second_piece, second_piece_in, starts_with, starts_with_in,
};

verus! {

/// The three grant values: access token, account id and expiry, as text.
pub type GrantText = (Seq<char>, Seq<char>, Seq<char>);

/// The query parameters of `q`: the pieces between `&` separators.
pub open spec fn split_params(q: Seq<char>) -> Seq<Seq<char>>
    decreases q.len(),
{
    if q.len() == 0 {
        seq![Seq::empty()]
    } else {
        let rest = split_params(q.drop_last());
        if q.last() == '&' {
            rest.push(Seq::empty())
        } else {
            rest.update(rest.len() - 1, rest.last().push(q.last()))
        }
    }
}

/// Takes one query parameter into the grant read so far. A parameter whose
/// name starts with a grant key replaces that value; a recognised
/// parameter without a value makes the request malformed (`None`).
pub open spec fn apply_param(acc: GrantText, part: Seq<char>) -> Option<GrantText> {
    if starts_with(part, "access_token"@) {
        match second_piece(part, "="@) {
            Some(v) => Some((v, acc.1, acc.2)),
            None => None,
        }
    } else if starts_with(part, "scope"@) {
        match second_piece(part, "="@) {
            Some(v) => match second_piece(v, "%3A"@) {
                Some(a) => Some((acc.0, a, acc.2)),
                None => None,
            },
            None => None,
        }
    } else if starts_with(part, "expires_in"@) {
        match second_piece(part, "="@) {
            Some(v) => Some((acc.0, acc.1, v)),
            None => None,
        }
    } else {
        Some(acc)
    }
}

/// The grant read from the parameters, in order; values not given stay empty.
pub open spec fn grant_from_params(parts: Seq<Seq<char>>) -> Option<GrantText>
    decreases parts.len(),
{
    if parts.len() == 0 {
        Some((Seq::empty(), Seq::empty(), Seq::empty()))
    } else {
        match grant_from_params(parts.drop_last()) {
            Some(acc) => apply_param(acc, parts.last()),
            None => None,
        }
    }
}

/// The grant carried by a query string.
pub open spec fn grant_from_query(q: Seq<char>) -> Option<GrantText> {
    grant_from_params(split_params(q))
}

/// The query component of a request target, as the URI parser reads it.
pub uninterp spec fn request_target_query(target: Seq<char>) -> Option<Seq<char>>;

/// The grant carried by a request line `METHOD TARGET ...`.
pub open spec fn grant_from_request(request: Seq<char>) -> Option<GrantText> {
    match second_piece(request, " "@) {
        Some(target) => match request_target_query(target) {
            Some(q) => grant_from_query(q),
            None => None,
        },
        None => None,
    }
}

/// Relies on `hyper::Uri`'s `FromStr` and `Uri::query`: parses the request
/// target as a URI and hands back its query component, if any.
#[verifier::external_body]
fn target_query(target: &str) -> (r: Option<String>)
    ensures
        match request_target_query(target@) {
            Some(q) => r matches Some(s) && s@ == q,
            None => r is None,
        },
{
    match target.parse::<hyper::Uri>() {
        Ok(uri) => uri.query().map(|q| q.to_string()),
        Err(_) => None,
    }
}

/// Text of `q[c..d]`.
fn piece(q: &str, c: usize, d: usize) -> (r: String)
    requires
        c <= d <= q@.len(),
    ensures
        r@ == q@.subrange(c as int, d as int),
{
    String::from_str(q.substring_char(c, d))
}

/// Takes the parameter `v[a..b]` (where `v` holds the characters of `q`)
/// into `acc`.
fn apply_param_in(
    q: &str,
    v: &Vec<char>,
    a: usize,
    b: usize,
    acc: (String, String, String),
) -> (r: Option<(String, String, String)>)
    requires
        v@ == q@,
        a <= b <= v@.len(),
    ensures
        match apply_param((acc.0@, acc.1@, acc.2@), v@.subrange(a as int, b as int)) {
            Some(g) => r matches Some(x) && (x.0@, x.1@, x.2@) == g,
            None => r is None,
        },
{
    let token_key = chars_of("access_token");
    let scope_key = chars_of("scope");
    let expires_key = chars_of("expires_in");
    let eq = chars_of("=");
    let colon = chars_of("%3A");
    if starts_with_in(v, a, b, &token_key) {
        match second_piece_in(v, a, b, &eq) {
            Some((c, d)) => Some((piece(q, c, d), acc.1, acc.2)),
            None => None,
        }
    } else if starts_with_in(v, a, b, &scope_key) {
        match second_piece_in(v, a, b, &eq) {
            Some((c, d)) => match second_piece_in(v, c, d, &colon) {
                Some((e, f)) => Some((acc.0, piece(q, e, f), acc.2)),
                None => None,
            },
            None => None,
        }
    } else if starts_with_in(v, a, b, &expires_key) {
        match second_piece_in(v, a, b, &eq) {
            Some((c, d)) => Some((acc.0, acc.1, piece(q, c, d))),
            None => None,
        }
    } else {
        Some(acc)
    }
}

proof fn lemma_split_params_len(q: Seq<char>)
    ensures
        split_params(q).len() >= 1,
    decreases q.len(),
{
    if q.len() > 0 {
        lemma_split_params_len(q.drop_last());
    }
}

/// Reads the access token, account id and expiry out of a query string.
/// Parameters may come in any order; a later one replaces an earlier one of
/// the same kind, and a value that is not given is left empty.
pub fn grant_of_query(q: &str) -> (r: Option<(String, String, String)>)
    ensures
        match grant_from_query(q@) {
            Some(g) => r matches Some(x) && (x.0@, x.1@, x.2@) == g,
            None => r is None,
        },
{
    let v = chars_of(q);
    let n = v.len();
    let mut acc = (String::new(), String::new(), String::new());
    let mut start: usize = 0;
    let mut i: usize = 0;
    while i < n
        invariant
            v@ == q@,
            n == v@.len(),
            start <= i <= n,
            split_params(v@.subrange(0, i as int)).len() >= 1,
            split_params(v@.subrange(0, i as int)).last() == v@.subrange(start as int, i as int),
            grant_from_params(split_params(v@.subrange(0, i as int)).drop_last()) == Some(
                (acc.0@, acc.1@, acc.2@),
            ),
        decreases n - i,
    {
        proof {
            lemma_split_params_len(v@.subrange(0, i as int));
            assert(v@.subrange(0, i + 1).drop_last() == v@.subrange(0, i as int));
        }
        if v[i] == '&' {
            let ghost parts = split_params(v@.subrange(0, i as int));
            assert(split_params(v@.subrange(0, i + 1)).drop_last() == parts);
            match apply_param_in(q, &v, start, i, acc) {
                Some(next) => {
                    acc = next;
                },
                None => {
                    proof {
                        lemma_split_params_len(v@.subrange(0, i + 1));
                        lemma_grant_none_stays(v@, i + 1);
                    }
                    return None;
                },
            }
            start = i + 1;
            assert(v@.subrange(start as int, i + 1) == Seq::<char>::empty());
        } else {
            let ghost parts = split_params(v@.subrange(0, i as int));
            assert(split_params(v@.subrange(0, i + 1)).drop_last() == parts.drop_last());
            assert(v@.subrange(start as int, i + 1) == v@.subrange(start as int, i as int).push(
                v@[i as int],
            ));
        }
        i = i + 1;
    }
    assert(v@.subrange(0, n as int) == q@);
    apply_param_in(q, &v, start, n, acc)
}

/// Once a completed parameter is malformed, the whole query is.
proof fn lemma_grant_none_stays(q: Seq<char>, i: int)
    requires
        0 <= i <= q.len(),
        split_params(q.subrange(0, i)).len() >= 1,
        grant_from_params(split_params(q.subrange(0, i)).drop_last()) is None,
    ensures
        grant_from_query(q) is None,
    decreases q.len() - i,
{
    let parts = split_params(q.subrange(0, i));
    if i < q.len() {
        let next = split_params(q.subrange(0, i + 1));
        assert(q.subrange(0, i + 1).drop_last() == q.subrange(0, i));
        lemma_split_params_len(q.subrange(0, i + 1));
        if q[i] == '&' {
            assert(next.drop_last() == parts);
        } else {
            assert(next.drop_last() == parts.drop_last());
        }
        lemma_grant_none_stays(q, i + 1);
    } else {
        assert(q.subrange(0, i) == q);
    }
}

/// Reads the access token, account id and expiry out of the first line of
/// the redirected request (`GET /?access_token=..&scope=..%3A<id>&expires_in=.. HTTP/1.1`).
/// `None` when the line has no target, the target has no query, or a grant
/// parameter has no value; a parameter that is not given is left empty.
pub fn parse_account_details(request: &str) -> (r: Option<(String, String, String)>)
    ensures
        match grant_from_request(request@) {
            Some(g) => r matches Some(x) && (x.0@, x.1@, x.2@) == g,
            None => r is None,
        },
{
    let v = chars_of(request);
    let space = chars_of(" ");
    assert(v@.subrange(0, v@.len() as int) == request@);
    match second_piece_in(&v, 0, v.len(), &space) {
        Some((c, d)) => {
            let target = piece(request, c, d);
            match target_query(target.as_str()) {
                Some(q) => grant_of_query(q.as_str()),
                None => None,
            }
        },
        None => None,
    }
}

/// Whether `part` is a parameter that can be read into a grant.
pub open spec fn param_ok(part: Seq<char>) -> bool {
    apply_param((Seq::empty(), Seq::empty(), Seq::empty()), part) is Some
}

/// The grant read from an access-token, a scope and an expiry parameter is
/// the same whichever order the three come in.
pub proof fn lemma_param_order_irrelevant(t: Seq<char>, s: Seq<char>, e: Seq<char>)
    requires
        starts_with(t, "access_token"@),
        starts_with(s, "scope"@),
        starts_with(e, "expires_in"@),
        param_ok(t),
        param_ok(s),
        param_ok(e),
    ensures
        grant_from_params(seq![t, s, e]) is Some,
        grant_from_params(seq![t, e, s]) == grant_from_params(seq![t, s, e]),
        grant_from_params(seq![s, t, e]) == grant_from_params(seq![t, s, e]),
        grant_from_params(seq![s, e, t]) == grant_from_params(seq![t, s, e]),
        grant_from_params(seq![e, t, s]) == grant_from_params(seq![t, s, e]),
        grant_from_params(seq![e, s, t]) == grant_from_params(seq![t, s, e]),
{
    reveal_with_fuel(grant_from_params, 4);
    reveal_strlit("access_token");
    reveal_strlit("scope");
    reveal_strlit("expires_in");
    assert("access_token"@.len() == 12 && "access_token"@[0] == 'a');
    assert("scope"@.len() == 5 && "scope"@[0] == 's');
    assert("expires_in"@.len() == 10 && "expires_in"@[0] == 'e');
    assert(t.subrange(0, 12)[0] == t[0]);
    assert(s.subrange(0, 5)[0] == s[0]);
    assert(e.subrange(0, 10)[0] == e[0]);
    assert(t[0] == 'a');
    assert(s[0] == 's');
    assert(e[0] == 'e');
    assert(t.len() < 10 || t.subrange(0, 10)[0] == t[0]);
    assert(t.len() < 5 || t.subrange(0, 5)[0] == t[0]);
    assert(s.len() < 10 || s.subrange(0, 10)[0] == s[0]);
    assert(s.len() < 12 || s.subrange(0, 12)[0] == s[0]);
    assert(e.len() < 12 || e.subrange(0, 12)[0] == e[0]);
    assert(e.len() < 5 || e.subrange(0, 5)[0] == e[0]);
    assert(!starts_with(s, "access_token"@));
    assert(!starts_with(e, "access_token"@));
    assert(!starts_with(e, "scope"@));
    assert(!starts_with(t, "scope"@));
    assert(!starts_with(t, "expires_in"@));
    assert(!starts_with(s, "expires_in"@));
    let orders = seq![
        seq![t, s, e],
        seq![t, e, s],
        seq![s, t, e],
        seq![s, e, t],
        seq![e, t, s],
        seq![e, s, t],
    ];
    assert forall|k: int| 0 <= k < 6 implies {
        let o = #[trigger] orders[k];
        &&& o.drop_last().drop_last().drop_last() == Seq::<Seq<char>>::empty()
        &&& o.drop_last().drop_last() == seq![o[0]]
        &&& o.drop_last() == seq![o[0], o[1]]
    } by {
        let o = orders[k];
        assert(o.drop_last().drop_last().drop_last() =~= Seq::<Seq<char>>::empty());
        assert(o.drop_last().drop_last() =~= seq![o[0]]);
        assert(o.drop_last() =~= seq![o[0], o[1]]);
    }
    assert(orders[0] == seq![t, s, e]);
    assert(orders[1] == seq![t, e, s]);
    assert(orders[2] == seq![s, t, e]);
    assert(orders[3] == seq![s, e, t]);
    assert(orders[4] == seq![e, t, s]);
    assert(orders[5] == seq![e, s, t]);
}

proof fn lemma_split_params_join(s: Seq<char>, t: Seq<char>)
    ensures
        split_params(s + seq!['&'] + t) == split_params(s) + split_params(t),
    decreases t.len(),
{
    let q = s + seq!['&'] + t;
    lemma_split_params_len(s);
    if t.len() == 0 {
        assert(q.drop_last() =~= s);
        assert(split_params(t) =~= seq![Seq::<char>::empty()]);
        assert(split_params(s).push(Seq::empty()) =~= split_params(s) + split_params(t));
    } else {
        let t0 = t.drop_last();
        lemma_split_params_join(s, t0);
        lemma_split_params_len(t0);
        assert(q.drop_last() =~= s + seq!['&'] + t0);
        assert(q.last() == t.last());
        let a = split_params(s);
        let b = split_params(t0);
        if t.last() == '&' {
            assert((a + b).push(Seq::empty()) =~= a + b.push(Seq::empty()));
        } else {
            assert((a + b).update((a + b).len() - 1, (a + b).last().push(t.last())) =~= a + b.update(
                b.len() - 1,
                b.last().push(t.last()),
            ));
        }
    }
}

proof fn lemma_split_params_single(t: Seq<char>)
    requires
        forall|i: int| 0 <= i < t.len() ==> #[trigger] t[i] != '&',
    ensures
        split_params(t) == seq![t],
    decreases t.len(),
{
    if t.len() > 0 {
        lemma_split_params_single(t.drop_last());
        assert(t.drop_last().push(t.last()) =~= t);
        assert(t[t.len() - 1] != '&');
        assert(seq![t.drop_last()].update(0, t.drop_last().push(t.last())) =~= seq![t]);
    } else {
        assert(t =~= Seq::<char>::empty());
    }
}

/// The query string `a&b&c`.
pub open spec fn join_params(a: Seq<char>, b: Seq<char>, c: Seq<char>) -> Seq<char> {
    a + seq!['&'] + b + seq!['&'] + c
}

proof fn lemma_query_of_three(a: Seq<char>, b: Seq<char>, c: Seq<char>)
    requires
        forall|i: int| 0 <= i < a.len() ==> #[trigger] a[i] != '&',
        forall|i: int| 0 <= i < b.len() ==> #[trigger] b[i] != '&',
        forall|i: int| 0 <= i < c.len() ==> #[trigger] c[i] != '&',
    ensures
        grant_from_query(join_params(a, b, c)) == grant_from_params(seq![a, b, c]),
{
    lemma_split_params_join(a + seq!['&'] + b, c);
    lemma_split_params_join(a, b);
    lemma_split_params_single(a);
    lemma_split_params_single(b);
    lemma_split_params_single(c);
    assert(seq![a] + seq![b] + seq![c] =~= seq![a, b, c]);
}

/// The grant read from a query string made of an access-token, a scope and
/// an expiry parameter, joined by `&`, is the same whichever order the three
/// come in.
pub proof fn lemma_query_order_irrelevant(t: Seq<char>, s: Seq<char>, e: Seq<char>)
    requires
        starts_with(t, "access_token"@),
        starts_with(s, "scope"@),
        starts_with(e, "expires_in"@),
        param_ok(t),
        param_ok(s),
        param_ok(e),
        forall|i: int| 0 <= i < t.len() ==> #[trigger] t[i] != '&',
        forall|i: int| 0 <= i < s.len() ==> #[trigger] s[i] != '&',
        forall|i: int| 0 <= i < e.len() ==> #[trigger] e[i] != '&',
    ensures
        grant_from_query(join_params(t, s, e)) is Some,
        grant_from_query(join_params(t, e, s)) == grant_from_query(join_params(t, s, e)),
        grant_from_query(join_params(s, t, e)) == grant_from_query(join_params(t, s, e)),
        grant_from_query(join_params(s, e, t)) == grant_from_query(join_params(t, s, e)),
        grant_from_query(join_params(e, t, s)) == grant_from_query(join_params(t, s, e)),
        grant_from_query(join_params(e, s, t)) == grant_from_query(join_params(t, s, e)),
{
    lemma_param_order_irrelevant(t, s, e);
    lemma_query_of_three(t, s, e);
    lemma_query_of_three(t, e, s);
    lemma_query_of_three(s, t, e);
    lemma_query_of_three(s, e, t);
    lemma_query_of_three(e, t, s);
    lemma_query_of_three(e, s, t);
}

} // verus!
