//! Choosing the newest of several co-existing versioned files, and which of
//! the others to demote to backups.

use crate::naming::views;
use crate::text::text_eq;
use vstd::prelude::*;
use vstd::string::*;

verus! {

// ------------------------------------------------------------ semver calls

/// What `semver::Version::parse` makes of a text: `None` when it is not a
/// semantic version, else the version written back in canonical form.
pub uninterp spec fn semver_parse(s: Seq<char>) -> Option<Seq<char>>;

/// `a < b` in the order `semver::Version` implements, for two texts that parse.
pub uninterp spec fn semver_less(a: Seq<char>, b: Seq<char>) -> bool;

/// Relies on `semver::Version::parse` and the version's `Display`: whether
/// the text is a semantic version, and its canonical form.
#[verifier::external_body]
fn parse_semver(s: &str) -> (r: Option<String>)
    ensures
        r is Some <==> semver_parse(s@) is Some,
        r is Some ==> r->Some_0@ == semver_parse(s@)->Some_0,
{
    semver::Version::parse(s).ok().map(|v| v.to_string())
}

/// Relies on `semver::Version::parse` and the total order `Ord for Version`,
/// through `Ord for (Option<Version>, usize)` and `Iterator::max`: the index
/// of a version that no version of the list exceeds (the last such one).
#[verifier::external_body]
fn newest_semver(versions: &Vec<String>) -> (r: usize)
    requires
        versions@.len() > 0,
        forall|i: int| 0 <= i < versions@.len() ==> semver_parse(#[trigger] versions@[i]@) is Some,
    ensures
        r < versions@.len(),
        forall|k: int| 0 <= k < versions@.len() ==> !semver_less(versions@[r as int]@, #[trigger] versions@[k]@),
{
    let mut keyed: Vec<(Option<semver::Version>, usize)> = Vec::new();
    for (i, s) in versions.iter().enumerate() {
        keyed.push((semver::Version::parse(s).ok(), i));
    }
    keyed.into_iter().max().map(|p| p.1).unwrap_or(0)
}

// ------------------------------------------------------ lexicographic order

/// `a` sorts strictly before `b`, character by character.
pub open spec fn lex_lt(a: Seq<char>, b: Seq<char>) -> bool
    decreases a.len(),
{
    if a.len() == 0 {
        b.len() > 0
    } else if b.len() == 0 {
        false
    } else if a[0] != b[0] {
        a[0] < b[0]
    } else {
        lex_lt(a.drop_first(), b.drop_first())
    }
}

proof fn lemma_lex_transitive(a: Seq<char>, b: Seq<char>, c: Seq<char>)
    requires
        lex_lt(a, b),
        lex_lt(b, c),
    ensures
        lex_lt(a, c),
    decreases a.len(),
{
    if a.len() > 0 && b.len() > 0 && c.len() > 0 && a[0] == b[0] && b[0] == c[0] {
        lemma_lex_transitive(a.drop_first(), b.drop_first(), c.drop_first());
    }
}

proof fn lemma_lex_total(a: Seq<char>, b: Seq<char>)
    ensures
        a == b || lex_lt(a, b) || lex_lt(b, a),
    decreases a.len(),
{
    if a.len() > 0 && b.len() > 0 && a[0] == b[0] {
        lemma_lex_total(a.drop_first(), b.drop_first());
        if a.drop_first() == b.drop_first() {
            assert(a =~= seq![a[0]] + a.drop_first());
            assert(b =~= seq![b[0]] + b.drop_first());
        }
    } else if a.len() == 0 && b.len() == 0 {
        assert(a =~= b);
    }
}

/// Whether `a` sorts strictly before `b`.
pub fn text_lt(a: &str, b: &str) -> (r: bool)
    ensures
        r == lex_lt(a@, b@),
{
    let n = a.unicode_len();
    let m = b.unicode_len();
    let mut i: usize = 0;
    assert(a@.skip(0) =~= a@ && b@.skip(0) =~= b@);
    while i < n && i < m && a.get_char(i) == b.get_char(i)
        invariant
            i <= n,
            i <= m,
            n == a@.len(),
            m == b@.len(),
            lex_lt(a@, b@) == lex_lt(a@.skip(i as int), b@.skip(i as int)),
        decreases n - i,
    {
        assert(a@.skip(i as int).drop_first() =~= a@.skip(i + 1));
        assert(b@.skip(i as int).drop_first() =~= b@.skip(i + 1));
        i = i + 1;
    }
    if i == n {
        i < m
    } else if i == m {
        false
    } else {
        a.get_char(i) < b.get_char(i)
    }
}

// ------------------------------------------------------------ the choice

/// The text between `prefix` and `suffix`, when `name` has both.
pub open spec fn version_part(name: Seq<char>, prefix: Seq<char>, suffix: Seq<char>) -> Option<Seq<char>> {
    if prefix.len() + suffix.len() <= name.len() && name.take(prefix.len() as int) == prefix
        && name.skip(name.len() - suffix.len()) == suffix {
        Some(name.subrange(prefix.len() as int, name.len() - suffix.len()))
    } else {
        None
    }
}

/// The embedded version of `name`, when it is a semantic version.
pub open spec fn embedded_version(name: Seq<char>, prefix: Seq<char>, suffix: Seq<char>) -> Option<Seq<char>> {
    match version_part(name, prefix, suffix) {
        Some(v) => if semver_parse(v) is Some { Some(v) } else { None },
        None => None,
    }
}

pub fn starts_with_text(s: &str, p: &str) -> (r: bool)
    ensures
        r == (p@.len() <= s@.len() && s@.take(p@.len() as int) == p@),
{
    let n = s.unicode_len();
    let m = p.unicode_len();
    if m > n {
        return false;
    }
    let head = s.substring_char(0, m);
    text_eq(head, p)
}

pub fn ends_with_text(s: &str, p: &str) -> (r: bool)
    ensures
        r == (p@.len() <= s@.len() && s@.skip(s@.len() - p@.len()) == p@),
{
    let n = s.unicode_len();
    let m = p.unicode_len();
    if m > n {
        return false;
    }
    let tail = s.substring_char(n - m, n);
    assert(tail@ =~= s@.skip(s@.len() - p@.len()));
    text_eq(tail, p)
}

/// Cuts `prefix` and `suffix` from `name`, when it has both.
fn version_text<'a>(name: &'a str, prefix: &str, suffix: &str) -> (r: Option<&'a str>)
    ensures
        r is Some <==> version_part(name@, prefix@, suffix@) is Some,
        r is Some ==> r->Some_0@ == version_part(name@, prefix@, suffix@)->Some_0,
{
    let n = name.unicode_len();
    let p = prefix.unicode_len();
    let s = suffix.unicode_len();
    if p > n || s > n - p {
        return None;
    }
    if starts_with_text(name, prefix) && ends_with_text(name, suffix) {
        Some(name.substring_char(p, n - s))
    } else {
        None
    }
}

/// The canonical version embedded in `name` between `prefix` and `suffix`.
pub fn parse_version(name: &str, prefix: &str, suffix: &str) -> (r: Option<String>)
    ensures
        r is Some <==> embedded_version(name@, prefix@, suffix@) is Some,
        r is Some ==> r->Some_0@ == semver_parse(embedded_version(name@, prefix@, suffix@)->Some_0)->Some_0,
{
    match version_text(name, prefix, suffix) {
        Some(v) => parse_semver(v),
        None => None,
    }
}

/// The newest file among candidates and the ones to demote.
#[derive(Debug, Clone, PartialEq, Eq)]
pub struct Consolidation {
    /// The version of the newest file: its canonical semantic version, or
    /// its file name when no candidate carries one.
    pub version: String,
    /// The newest file's position among the candidates.
    pub latest_index: usize,
    /// Its name.
    pub latest: String,
    /// Every other candidate, in the given order.
    pub to_backup: Vec<String>,
}

pub open spec fn any_versioned(names: Seq<Seq<char>>, prefix: Seq<char>, suffix: Seq<char>) -> bool {
    exists|k: int| 0 <= k < names.len() && embedded_version(#[trigger] names[k], prefix, suffix) is Some
}

/// The choice among `names` is the newest: the highest semantic version when
/// any name carries one, else the last name in character order.
pub open spec fn is_newest(names: Seq<Seq<char>>, prefix: Seq<char>, suffix: Seq<char>, b: int) -> bool {
    &&& 0 <= b < names.len()
    &&& any_versioned(names, prefix, suffix) ==> {
        &&& embedded_version(names[b], prefix, suffix) is Some
        &&& forall|k: int| 0 <= k < names.len() && (#[trigger] embedded_version(names[k], prefix, suffix)) is Some
            ==> !semver_less(
                embedded_version(names[b], prefix, suffix)->Some_0,
                embedded_version(names[k], prefix, suffix)->Some_0,
            )
    }
    &&& !any_versioned(names, prefix, suffix) ==> forall|k: int| 0 <= k < names.len() ==> !lex_lt(names[b], #[trigger] names[k])
}

/// Picks the newest of `names` (file names matched in one directory) and
/// lists the others for demotion; `None` when there is no candidate.
pub fn plan_consolidation(names: &Vec<String>, prefix: &str, suffix: &str) -> (r: Option<Consolidation>)
    ensures
        r is None <==> names@.len() == 0,
        r is Some ==> {
            let c = r->Some_0;
            let b = c.latest_index as int;
            &&& is_newest(views(names@), prefix@, suffix@, b)
            &&& c.latest@ == names@[b]@
            &&& any_versioned(views(names@), prefix@, suffix@) ==> c.version@ == semver_parse(
                embedded_version(names@[b]@, prefix@, suffix@)->Some_0,
            )->Some_0
            &&& !any_versioned(views(names@), prefix@, suffix@) ==> c.version@ == names@[b]@
            &&& views(c.to_backup@) == views(names@).remove(b)
        },
{
    let ghost nv = views(names@);
    if names.len() == 0 {
        return None;
    }
    // Candidates that carry a semantic version, with their positions.
    let mut raw: Vec<String> = Vec::new();
    let mut pos: Vec<usize> = Vec::new();
    let mut i: usize = 0;
    while i < names.len()
        invariant
            i <= names@.len(),
            nv == views(names@),
            raw@.len() == pos@.len(),
            forall|a: int| 0 <= a < pos@.len() ==> {
                &&& (#[trigger] pos@[a]) < i
                &&& embedded_version(nv[pos@[a] as int], prefix@, suffix@) == Some(raw@[a]@)
            },
            forall|k: int| 0 <= k < i && (#[trigger] embedded_version(nv[k], prefix@, suffix@)) is Some
                ==> exists|a: int| 0 <= a < pos@.len() && pos@[a] == k,
            forall|a: int| 0 <= a < raw@.len() ==> semver_parse(#[trigger] raw@[a]@) is Some,
        decreases names@.len() - i,
    {
        let name = names[i].as_str();
        assert(nv[i as int] == name@);
        let ghost pos0 = pos@;
        match version_text(name, prefix, suffix) {
            Some(v) => {
                if parse_semver(v).is_some() {
                    raw.push(String::from_str(v));
                    pos.push(i);
                    assert(pos@[pos@.len() - 1] == i);
                }
            },
            None => {},
        }
        proof {
            assert forall|k: int| 0 <= k < i + 1 && (#[trigger] embedded_version(nv[k], prefix@, suffix@)) is Some
                implies exists|a: int| 0 <= a < pos@.len() && pos@[a] == k by {
                if k < i {
                    let a = choose|a: int| 0 <= a < pos0.len() && pos0[a] == k;
                    assert(pos@[a] == k);
                } else {
                    assert(pos@[pos@.len() - 1] == k);
                }
            }
        }
        i = i + 1;
    }
    let b: usize;
    let version: String;
    if raw.len() > 0 {
        let w = newest_semver(&raw);
        b = pos[w];
        proof {
            assert(any_versioned(nv, prefix@, suffix@)) by {
                assert(embedded_version(nv[b as int], prefix@, suffix@) is Some);
            }
            assert forall|k: int| 0 <= k < nv.len() && (#[trigger] embedded_version(nv[k], prefix@, suffix@)) is Some
                implies !semver_less(
                    embedded_version(nv[b as int], prefix@, suffix@)->Some_0,
                    embedded_version(nv[k], prefix@, suffix@)->Some_0,
                ) by {
                let a = choose|a: int| 0 <= a < pos@.len() && pos@[a] == k;
                assert(embedded_version(nv[pos@[a] as int], prefix@, suffix@) == Some(raw@[a]@));
            }
        }
        version = match parse_semver(raw[w].as_str()) {
            Some(t) => t,
            None => String::new(),
        };
    } else {
        let mut best: usize = 0;
        let mut k: usize = 1;
        proof { lemma_lex_irreflexive(nv[0]); }
        while k < names.len()
            invariant
                1 <= k <= names@.len(),
                best < k,
                nv == views(names@),
                forall|j: int| 0 <= j < k ==> !lex_lt(nv[best as int], #[trigger] nv[j]),
            decreases names@.len() - k,
        {
            if !text_lt(names[k].as_str(), names[best].as_str()) {
                proof {
                    assert(nv[k as int] == names@[k as int]@);
                    assert forall|j: int| 0 <= j < k + 1 implies !lex_lt(nv[k as int], #[trigger] nv[j]) by {
                        if j < k && lex_lt(nv[k as int], nv[j]) {
                            lemma_lex_total(nv[k as int], nv[best as int]);
                            if nv[k as int] != nv[best as int] {
                                lemma_lex_transitive(nv[best as int], nv[k as int], nv[j]);
                            }
                        }
                        if j == k {
                            lemma_lex_total(nv[k as int], nv[k as int]);
                            if lex_lt(nv[k as int], nv[k as int]) {
                                lemma_lex_irreflexive(nv[k as int]);
                            }
                        }
                    }
                }
                best = k;
            } else {
                proof {
                    assert(nv[k as int] == names@[k as int]@);
                    assert(nv[best as int] == names@[best as int]@);
                    if lex_lt(nv[best as int], nv[k as int]) {
                        lemma_lex_transitive(nv[best as int], nv[k as int], nv[best as int]);
                        lemma_lex_irreflexive(nv[best as int]);
                    }
                }
            }
            k = k + 1;
        }
        b = best;
        proof {
            assert(!any_versioned(nv, prefix@, suffix@)) by {
                if any_versioned(nv, prefix@, suffix@) {
                    let k = choose|k: int| 0 <= k < nv.len() && embedded_version(#[trigger] nv[k], prefix@, suffix@) is Some;
                    let a = choose|a: int| 0 <= a < pos@.len() && pos@[a] == k;
                }
            }
        }
        version = names[b].clone();
    }
    let mut rest: Vec<String> = Vec::new();
    let mut j: usize = 0;
    while j < names.len()
        invariant
            j <= names@.len(),
            b < names@.len(),
            nv == views(names@),
            views(rest@) == if j <= b { nv.take(j as int) } else { nv.remove(b as int).take(j - 1) },
        decreases names@.len() - j,
    {
        if j != b {
            let ghost r0 = rest@;
            rest.push(names[j].clone());
            assert(views(rest@) =~= views(r0).push(nv[j as int]));
        }
        j = j + 1;
        assert(views(rest@) =~= if j <= b { nv.take(j as int) } else { nv.remove(b as int).take(j - 1) });
    }
    assert(nv.remove(b as int).take(names@.len() - 1) =~= nv.remove(b as int));
    Some(Consolidation { version, latest_index: b, latest: names[b].clone(), to_backup: rest })
}

proof fn lemma_lex_irreflexive(a: Seq<char>)
    ensures
        !lex_lt(a, a),
    decreases a.len(),
{
    if a.len() > 0 {
        lemma_lex_irreflexive(a.drop_first());
    }
}

} // verus!
