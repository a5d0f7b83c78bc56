//! Version identities and their order.
//!
//! A version is split at `.` into parts. A part made only of ASCII digits
//! (and fitting in 64 bits) is a number; any other part is text. Parts
//! compare numbers by value, put numbers before text, and compare text by
//! character; versions compare part by part, a version that is a proper
//! prefix of another coming first. Two spellings with the same parts (such
//! as `1.01` and `1.1`) are ordered by their text, so the order is total.
//! "Latest" is always the highest visible (un-yanked) version by this order,
//! never the most recently published.
use vstd::prelude::*;
use crate::text::{
    text_lt, text_less, lemma_text_lt_irreflexive, lemma_text_lt_transitive, lemma_text_lt_total,
    all_digits, digits_value, parse_u64, chars_of,
};

verus! {

broadcast use vstd::seq_lib::group_seq_properties;

/// One dot-separated part of a version.
pub enum VersionPart {
    Num(u64),
    Text(Seq<char>),
}

/// The dot-separated pieces of `s` (one piece when `s` has no dot).
pub open spec fn split_dots(s: Seq<char>) -> Seq<Seq<char>> {
    crate::text::split_on(s, '.')
}

/// How a piece is compared: as a number when it is all digits and fits in
/// 64 bits, else as text.
pub open spec fn part_of(t: Seq<char>) -> VersionPart {
    if t.len() > 0 && all_digits(t) && digits_value(t) <= u64::MAX {
        VersionPart::Num(digits_value(t) as u64)
    } else {
        VersionPart::Text(t)
    }
}

/// The parts of a version.
pub open spec fn parts(s: Seq<char>) -> Seq<VersionPart> {
    split_dots(s).map_values(|t: Seq<char>| part_of(t))
}

/// Order of parts: numbers by value, numbers before text, text by character.
pub open spec fn part_lt(a: VersionPart, b: VersionPart) -> bool {
    match (a, b) {
        (VersionPart::Num(x), VersionPart::Num(y)) => x < y,
        (VersionPart::Num(_), VersionPart::Text(_)) => true,
        (VersionPart::Text(_), VersionPart::Num(_)) => false,
        (VersionPart::Text(x), VersionPart::Text(y)) => text_lt(x, y),
    }
}

/// Lexicographic order of part lists.
pub open spec fn parts_lt(a: Seq<VersionPart>, b: Seq<VersionPart>) -> bool
    decreases a.len(),
{
    if a.len() == 0 {
        b.len() > 0
    } else if b.len() == 0 {
        false
    } else if a[0] != b[0] {
        part_lt(a[0], b[0])
    } else {
        parts_lt(a.drop_first(), b.drop_first())
    }
}

/// The version order: by parts, then by text.
pub open spec fn version_lt(a: Seq<char>, b: Seq<char>) -> bool {
    parts_lt(parts(a), parts(b)) || (parts(a) == parts(b) && text_lt(a, b))
}

proof fn lemma_part_lt_irreflexive(a: VersionPart)
    ensures
        !part_lt(a, a),
{
    if let VersionPart::Text(x) = a {
        lemma_text_lt_irreflexive(x);
    }
}

proof fn lemma_part_lt_transitive(a: VersionPart, b: VersionPart, c: VersionPart)
    requires
        part_lt(a, b),
        part_lt(b, c),
    ensures
        part_lt(a, c),
{
    if let (VersionPart::Text(x), VersionPart::Text(y), VersionPart::Text(z)) = (a, b, c) {
        lemma_text_lt_transitive(x, y, z);
    }
}

proof fn lemma_part_lt_total(a: VersionPart, b: VersionPart)
    requires
        a != b,
    ensures
        part_lt(a, b) || part_lt(b, a),
{
    if let (VersionPart::Text(x), VersionPart::Text(y)) = (a, b) {
        lemma_text_lt_total(x, y);
    }
}

proof fn lemma_parts_lt_irreflexive(a: Seq<VersionPart>)
    ensures
        !parts_lt(a, a),
    decreases a.len(),
{
    if a.len() > 0 {
        lemma_parts_lt_irreflexive(a.drop_first());
    }
}

proof fn lemma_parts_lt_transitive(a: Seq<VersionPart>, b: Seq<VersionPart>, c: Seq<VersionPart>)
    requires
        parts_lt(a, b),
        parts_lt(b, c),
    ensures
        parts_lt(a, c),
    decreases a.len(),
{
    if a.len() > 0 && b.len() > 0 && c.len() > 0 {
        if a[0] == b[0] && b[0] == c[0] {
            lemma_parts_lt_transitive(a.drop_first(), b.drop_first(), c.drop_first());
        } else if a[0] != b[0] && b[0] != c[0] {
            lemma_part_lt_transitive(a[0], b[0], c[0]);
            if a[0] == c[0] {
                lemma_part_lt_irreflexive(a[0]);
            }
        }
    }
}

proof fn lemma_parts_lt_total(a: Seq<VersionPart>, b: Seq<VersionPart>)
    requires
        a != b,
    ensures
        parts_lt(a, b) || parts_lt(b, a),
    decreases a.len(),
{
    if a.len() > 0 && b.len() > 0 {
        if a[0] == b[0] {
            if a.drop_first() == b.drop_first() {
                assert(a =~= seq![a[0]] + a.drop_first());
                assert(b =~= seq![b[0]] + b.drop_first());
            }
            lemma_parts_lt_total(a.drop_first(), b.drop_first());
        } else {
            lemma_part_lt_total(a[0], b[0]);
        }
    } else if a.len() == 0 && b.len() == 0 {
        assert(a =~= b);
    }
}

/// No version comes before itself.
pub proof fn lemma_version_lt_irreflexive(a: Seq<char>)
    ensures
        !version_lt(a, a),
{
    lemma_parts_lt_irreflexive(parts(a));
    lemma_text_lt_irreflexive(a);
}

/// The version order is transitive.
pub proof fn lemma_version_lt_transitive(a: Seq<char>, b: Seq<char>, c: Seq<char>)
    requires
        version_lt(a, b),
        version_lt(b, c),
    ensures
        version_lt(a, c),
{
    let (pa, pb, pc) = (parts(a), parts(b), parts(c));
    if parts_lt(pa, pb) && parts_lt(pb, pc) {
        lemma_parts_lt_transitive(pa, pb, pc);
    } else if parts_lt(pa, pb) {
    } else if parts_lt(pb, pc) {
    } else {
        lemma_text_lt_transitive(a, b, c);
    }
}

/// Of two different versions one comes first.
pub proof fn lemma_version_lt_total(a: Seq<char>, b: Seq<char>)
    requires
        a != b,
    ensures
        version_lt(a, b) || version_lt(b, a),
{
    if parts(a) != parts(b) {
        lemma_parts_lt_total(parts(a), parts(b));
    } else {
        lemma_text_lt_total(a, b);
    }
}

/// A version never comes both before and after another.
pub proof fn lemma_version_lt_asymmetric(a: Seq<char>, b: Seq<char>)
    requires
        version_lt(a, b),
    ensures
        !version_lt(b, a),
{
    if version_lt(b, a) {
        lemma_version_lt_transitive(a, b, a);
        lemma_version_lt_irreflexive(a);
    }
}

/// One part, as computed.
#[derive(Debug)]
pub enum Part {
    Num(u64),
    Text(Vec<char>),
}

impl View for Part {
    type V = VersionPart;

    open spec fn view(&self) -> VersionPart {
        match self {
            Part::Num(n) => VersionPart::Num(*n),
            Part::Text(t) => VersionPart::Text(t@),
        }
    }
}

/// The parts of a computed list.
pub open spec fn parts_view(v: Seq<Part>) -> Seq<VersionPart> {
    v.map_values(|p: Part| p@)
}

fn part_of_chars(t: Vec<char>) -> (r: Part)
    ensures
        r@ == part_of(t@),
{
    if t.len() == 0 {
        return Part::Text(t);
    }
    let mut i: usize = 0;
    while i < t.len()
        invariant
            i <= t@.len(),
            forall|j: int| 0 <= j < i ==> crate::text::is_digit(#[trigger] t@[j]),
        decreases t.len() - i,
    {
        if !('0' <= t[i] && t[i] <= '9') {
            assert(!all_digits(t@));
            return Part::Text(t);
        }
        i = i + 1;
    }
    assert(all_digits(t@));
    assert(crate::text::unsigned_body(t@) == t@);
    match parse_u64(t.as_slice()) {
        Some(n) => Part::Num(n),
        None => Part::Text(t),
    }
}

/// The parts of a version, computed.
pub fn version_parts(s: &str) -> (r: Vec<Part>)
    ensures
        parts_view(r@) == parts(s@),
{
    let cs = chars_of(s);
    let mut done: Vec<Part> = Vec::new();
    let mut cur: Vec<char> = Vec::new();
    let ghost mut done_texts: Seq<Seq<char>> = Seq::empty();
    let mut i: usize = 0;
    assert(cs@.subrange(0, 0) =~= Seq::<char>::empty());
    while i < cs.len()
        invariant
            i <= cs@.len(),
            cs@ == s@,
            split_dots(cs@.subrange(0, i as int)) == done_texts.push(cur@),
            parts_view(done@) == done_texts.map_values(|t: Seq<char>| part_of(t)),
        decreases cs.len() - i,
    {
        let c = cs[i];
        proof {
            assert(cs@.subrange(0, i + 1).drop_last() =~= cs@.subrange(0, i as int));
            assert(cs@.subrange(0, i + 1).last() == c);
        }
        if c == '.' {
            let mut fresh: Vec<char> = Vec::new();
            std::mem::swap(&mut fresh, &mut cur);
            let ghost t = fresh@;
            let p = part_of_chars(fresh);
            let ghost od = done@;
            let ghost pv = p@;
            done.push(p);
            proof {
                assert(parts_view(done@) =~= parts_view(od).push(pv));
                assert(done_texts.push(t).map_values(|t: Seq<char>| part_of(t)) =~= done_texts.map_values(|t: Seq<char>| part_of(t)).push(part_of(t)));
                done_texts = done_texts.push(t);
                assert(parts_view(done@) =~= done_texts.map_values(|t: Seq<char>| part_of(t)));
                assert(split_dots(cs@.subrange(0, i + 1)) =~= done_texts.push(cur@));
            }
        } else {
            cur.push(c);
            proof {
                let old_cur = cur@.drop_last();
                assert(split_dots(cs@.subrange(0, i + 1)) =~= done_texts.push(cur@));
            }
        }
        i = i + 1;
    }
    let ghost t = cur@;
    let p = part_of_chars(cur);
    let ghost od = done@;
    let ghost pv = p@;
    done.push(p);
    proof {
        assert(parts_view(done@) =~= parts_view(od).push(pv));
        assert(done_texts.push(t).map_values(|t: Seq<char>| part_of(t)) =~= done_texts.map_values(|t: Seq<char>| part_of(t)).push(part_of(t)));
        assert(cs@.subrange(0, cs@.len() as int) =~= cs@);
        assert(parts_view(done@) =~= done_texts.push(t).map_values(|t: Seq<char>| part_of(t)));
    }
    done
}

fn chars_same(a: &Vec<char>, b: &Vec<char>) -> (r: bool)
    ensures
        r == (a@ == b@),
{
    if a.len() != b.len() {
        return false;
    }
    let mut i: usize = 0;
    while i < a.len()
        invariant
            i <= a@.len(),
            a@.len() == b@.len(),
            forall|j: int| 0 <= j < i ==> a@[j] == b@[j],
        decreases a.len() - i,
    {
        if a[i] != b[i] {
            return false;
        }
        i = i + 1;
    }
    assert(a@ =~= b@);
    true
}

fn part_same(a: &Part, b: &Part) -> (r: bool)
    ensures
        r == (a@ == b@),
{
    match (a, b) {
        (Part::Num(x), Part::Num(y)) => *x == *y,
        (Part::Text(x), Part::Text(y)) => chars_same(x, y),
        _ => false,
    }
}

fn part_less(a: &Part, b: &Part) -> (r: bool)
    ensures
        r == part_lt(a@, b@),
{
    match (a, b) {
        (Part::Num(x), Part::Num(y)) => *x < *y,
        (Part::Num(_), Part::Text(_)) => true,
        (Part::Text(_), Part::Num(_)) => false,
        (Part::Text(x), Part::Text(y)) => text_less(x.as_slice(), y.as_slice()),
    }
}

fn parts_less(a: &Vec<Part>, b: &Vec<Part>) -> (r: bool)
    ensures
        r == parts_lt(parts_view(a@), parts_view(b@)),
{
    let ghost pa = parts_view(a@);
    let ghost pb = parts_view(b@);
    let mut i: usize = 0;
    assert(pa.skip(0) =~= pa);
    assert(pb.skip(0) =~= pb);
    while i < a.len() && i < b.len()
        invariant
            i <= a@.len(),
            i <= b@.len(),
            pa == parts_view(a@),
            pb == parts_view(b@),
            parts_lt(pa, pb) == parts_lt(pa.skip(i as int), pb.skip(i as int)),
        decreases a.len() - i,
    {
        assert(pa.skip(i as int)[0] == a@[i as int]@);
        assert(pb.skip(i as int)[0] == b@[i as int]@);
        if !part_same(&a[i], &b[i]) {
            return part_less(&a[i], &b[i]);
        }
        assert(pa.skip(i as int).drop_first() =~= pa.skip(i + 1));
        assert(pb.skip(i as int).drop_first() =~= pb.skip(i + 1));
        i = i + 1;
    }
    b.len() > i
}

fn parts_same(a: &Vec<Part>, b: &Vec<Part>) -> (r: bool)
    ensures
        r == (parts_view(a@) == parts_view(b@)),
{
    if a.len() != b.len() {
        return false;
    }
    let mut i: usize = 0;
    while i < a.len()
        invariant
            i <= a@.len(),
            a@.len() == b@.len(),
            forall|j: int| 0 <= j < i ==> a@[j]@ == b@[j]@,
        decreases a.len() - i,
    {
        if !part_same(&a[i], &b[i]) {
            assert(parts_view(a@)[i as int] != parts_view(b@)[i as int]);
            return false;
        }
        i = i + 1;
    }
    assert(parts_view(a@) =~= parts_view(b@));
    true
}

/// Whether version `a` comes before version `b`.
pub fn version_less(a: &str, b: &str) -> (r: bool)
    ensures
        r == version_lt(a@, b@),
{
    let pa = version_parts(a);
    let pb = version_parts(b);
    if parts_less(&pa, &pb) {
        return true;
    }
    if !parts_same(&pa, &pb) {
        return false;
    }
    let ca = chars_of(a);
    let cb = chars_of(b);
    text_less(ca.as_slice(), cb.as_slice())
}

/// The texts of a list of strings.
pub open spec fn texts(v: Seq<String>) -> Seq<Seq<char>> {
    v.map_values(|s: String| s@)
}

/// Highest first: no version is followed by a higher one.
pub open spec fn sorted_desc(s: Seq<Seq<char>>) -> bool {
    forall|i: int, j: int| 0 <= i < j < s.len() ==> !version_lt(#[trigger] s[i], #[trigger] s[j])
}

/// Sort versions highest first.
pub fn sort_versions_desc(versions: Vec<String>) -> (r: Vec<String>)
    ensures
        sorted_desc(texts(r@)),
        texts(r@).to_multiset() == texts(versions@).to_multiset(),
{
    let mut out: Vec<String> = Vec::new();
    let mut i: usize = 0;
    let n = versions.len();
    while i < n
        invariant
            n == versions@.len(),
            i <= n,
            sorted_desc(texts(out@)),
            texts(out@).to_multiset() == texts(versions@.subrange(0, i as int)).to_multiset(),
        decreases n - i,
    {
        let x = &versions[i];
        let mut p: usize = 0;
        let mut found = false;
        while p < out.len() && !found
            invariant
                n == versions@.len(),
                i < n,
                x == versions@[i as int],
                texts(out@).to_multiset() == texts(versions@.subrange(0, i as int)).to_multiset(),
                p <= out@.len(),
                sorted_desc(texts(out@)),
                found ==> p < out@.len() && version_lt(out@[p as int]@, x@),
                forall|j: int| 0 <= j < p ==> !version_lt(#[trigger] out@[j]@, x@),
            decreases out@.len() - p + (if found { 0int } else { 1int }),
        {
            if version_less(out[p].as_str(), x.as_str()) {
                found = true;
            } else {
                p = p + 1;
            }
        }
        let ghost before = out@;
        out.insert(p, crate::text::owned(x.as_str()));
        proof {
            let t = texts(before);
            let xt = x@;
            assert(texts(out@) =~= t.insert(p as int, xt));
            assert forall|a: int, b: int| 0 <= a < b < texts(out@).len() implies !version_lt(
                #[trigger] texts(out@)[a],
                #[trigger] texts(out@)[b],
            ) by {
                let s = texts(out@);
                if b == p {
                    assert(s[a] == t[a]);
                } else if a == p {
                    let c = t[b - 1];
                    assert(s[b] == c);
                    // c comes no later than out[p], which comes before x.
                    assert(found || p == before.len()) by {
                        if !found {
                        }
                    }
                    if found {
                        let q = t[p as int];
                        if c == q {
                            lemma_version_lt_asymmetric(c, xt);
                        } else {
                            if b - 1 > p {
                                assert(!version_lt(t[p as int], t[b - 1]));
                            }
                            lemma_version_lt_total(c, q);
                            lemma_version_lt_transitive(c, q, xt);
                            lemma_version_lt_asymmetric(c, xt);
                        }
                    }
                } else if a < p && b < p {
                    assert(s[a] == t[a] && s[b] == t[b]);
                } else if a < p {
                    assert(s[a] == t[a] && s[b] == t[b - 1]);
                } else {
                    assert(s[a] == t[a - 1] && s[b] == t[b - 1]);
                }
            }
            vstd::seq_lib::to_multiset_insert(t, p as int, xt);
            assert(versions@.subrange(0, i + 1) =~= versions@.subrange(0, i as int).push(versions@[i as int]));
            assert(texts(versions@.subrange(0, i + 1)) =~= texts(versions@.subrange(0, i as int)).push(xt));
            vstd::seq_lib::to_multiset_build(texts(versions@.subrange(0, i as int)), xt);
        }
        i = i + 1;
    }
    assert(versions@.subrange(0, n as int) =~= versions@);
    out
}


/// A highest element of a list of versions.
pub open spec fn is_highest(v: Seq<char>, s: Seq<Seq<char>>) -> bool {
    s.contains(v) && forall|j: int| 0 <= j < s.len() ==> !version_lt(v, #[trigger] s[j])
}

/// The highest version of a list is unique, and it depends only on which
/// versions the list holds: the same versions in any order (published in
/// any order) have the same highest one.
pub proof fn lemma_highest_is_unique(s: Seq<Seq<char>>, t: Seq<Seq<char>>, a: Seq<char>, b: Seq<char>)
    requires
        s.to_multiset() == t.to_multiset(),
        is_highest(a, s),
        is_highest(b, t),
    ensures
        a == b,
{
    s.to_multiset_ensures();
    t.to_multiset_ensures();
    assert(s.to_multiset().count(a) > 0);
    assert(t.contains(a));
    assert(t.to_multiset().count(b) > 0);
    assert(s.contains(b));
    if a != b {
        lemma_version_lt_total(a, b);
        let i = choose|i: int| 0 <= i < s.len() && s[i] == b;
        let j = choose|j: int| 0 <= j < t.len() && t[j] == a;
        assert(!version_lt(a, s[i]));
        assert(!version_lt(b, t[j]));
    }
}

} // verus!
