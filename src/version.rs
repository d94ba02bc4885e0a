//! The client's identity and the check for a newer published release.
use vstd::prelude::*;
use crate::credential::Harvest;

verus! {

/// The client's name.
pub const DESCRIPTION: &'static str = "Timer for Harvest";

/// The running build's version.
pub const VERSION: &'static str = "0.1.0";

/// Where releases are published.
pub const HOMEPAGE: &'static str = "https://github.com/frenkel/timer-for-harvest";

/// How version `a` compares to version `b` when both parse: -1 when `a` is
/// older, 0 when equal, 1 when newer; `None` when either does not parse.
pub uninterp spec fn version_order(a: Seq<char>, b: Seq<char>) -> Option<i8>;

/// Relies on `version_compare::compare`, which parses both strings as
/// versions and yields `Lt`, `Eq` or `Gt`, or an error when either does not
/// parse.
#[verifier::external_body]
fn compare_versions(a: &str, b: &str) -> (r: Option<i8>)
    ensures
        r == version_order(a@, b@),
        r matches Some(x) ==> -1 <= x <= 1,
{
    match version_compare::compare(a, b) {
        Ok(version_compare::Cmp::Lt) => Some(-1),
        Ok(version_compare::Cmp::Eq) => Some(0),
        Ok(version_compare::Cmp::Gt) => Some(1),
        _ => None,
    }
}

/// Whether `published` is a version newer than `current`.
pub open spec fn is_newer(current: Seq<char>, published: Seq<char>) -> bool {
    version_order(current, published) == Some(-1i8)
}

/// The notice shown when version `v` is available.
pub open spec fn notice_text(v: Seq<char>) -> Seq<char> {
    "New version available ("@ + v + "), download it from "@ + HOMEPAGE@
}

/// The first of the `published` versions that is newer than `current`.
pub open spec fn first_newer(current: Seq<char>, published: Seq<Seq<char>>) -> Option<Seq<char>>
    decreases published.len(),
{
    if published.len() == 0 {
        None
    } else if is_newer(current, published[0]) {
        Some(published[0])
    } else {
        first_newer(current, published.skip(1))
    }
}

/// The texts of a list of strings.
pub open spec fn texts(v: Seq<String>) -> Seq<Seq<char>> {
    v.map_values(|s: String| s@)
}

/// The upgrade notice for the first of the `published` versions that is
/// newer than `current`, or `None` when none is. A published value that does
/// not parse as a version is passed over.
pub fn upgrade_notice(current: &str, published: &Vec<String>) -> (r: Option<String>)
    ensures
        match first_newer(current@, texts(published@)) {
            Some(v) => r matches Some(t) && t@ == notice_text(v),
            None => r is None,
        },
{
    let ghost all = texts(published@);
    assert(all.skip(0) == all);
    let mut i: usize = 0;
    while i < published.len()
        invariant
            i <= published@.len(),
            all == texts(published@),
            first_newer(current@, all) == first_newer(current@, all.skip(i as int)),
        decreases published@.len() - i,
    {
        let v = &published[i];
        assert(all.skip(i as int)[0] == v@);
        assert(all.skip(i as int).skip(1) == all.skip(i + 1));
        if compare_versions(current, v.as_str()) == Some(-1i8) {
            let mut t = String::from_str("New version available (");
            t.append(v.as_str());
            t.append("), download it from ");
            t.append(HOMEPAGE);
            return Some(t);
        }
        i = i + 1;
    }
    assert(all.skip(i as int).len() == 0);
    None
}

impl Harvest {
    /// The user agent sent with every request: `<name> <version> (<homepage>)`.
    pub fn user_agent() -> (r: String)
        ensures
            r@ == DESCRIPTION@ + " "@ + VERSION@ + " ("@ + HOMEPAGE@ + ")"@,
    {
        let mut r = String::from_str(DESCRIPTION);
        r.append(" ");
        r.append(VERSION);
        r.append(" (");
        r.append(HOMEPAGE);
        r.append(")");
        r
    }
}

} // verus!
