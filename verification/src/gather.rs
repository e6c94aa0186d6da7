//! Candidate gathering: deduplicated, alphabetically sorted sets of
//! environment-derived sensitive values (usernames, hostnames, IP
//! addresses). Each source feeds the accumulator independently; a missing
//! or empty source contributes nothing.

use vstd::prelude::*;

use crate::fmt::views;
use crate::text::{chars_lt, chars_of, spec_trim, trim_chars};

verus! {

/// Two characters with the same code point are the same character.
proof fn lemma_char_code_injective(c: char, d: char)
    requires
        c as u32 == d as u32,
    ensures
        c == d,
{
}

/// The kind of a gathered candidate value.
#[derive(Clone, Copy, PartialEq, Eq, Structural, Debug)]
pub enum CandidateKind {
    Username,
    Hostname,
    IpAddress,
}

/// Strictly sorted: every element is less than the next, so the sequence
/// also holds no duplicates.
pub open spec fn sorted_unique(s: Seq<Seq<char>>) -> bool {
    forall|i: int, j: int| 0 <= i < j < s.len() ==> chars_lt(#[trigger] s[i], #[trigger] s[j])
}

/// All elements are nonempty.
pub open spec fn all_nonempty(s: Seq<Seq<char>>) -> bool {
    forall|i: int| 0 <= i < s.len() ==> (#[trigger] s[i]).len() > 0
}

proof fn lemma_chars_lt_trichotomy(a: Seq<char>, b: Seq<char>)
    ensures
        chars_lt(a, b) || chars_lt(b, a) || a == b,
    decreases a.len() + b.len(),
{
    if a.len() == 0 && b.len() == 0 {
        assert(a =~= b);
    } else if a.len() > 0 && b.len() > 0 {
        if a[0] == b[0] {
            lemma_chars_lt_trichotomy(a.drop_first(), b.drop_first());
            if !chars_lt(a, b) && !chars_lt(b, a) {
                assert(a.drop_first() == b.drop_first());
                assert(a =~= b) by {
                    assert(forall|i: int|
                        1 <= i < a.len() ==> a[i] == a.drop_first()[i - 1] && b[i]
                            == b.drop_first()[i - 1]);
                }
            }
        } else {
            let x = a[0] as u32;
            let y = b[0] as u32;
            if x < y {
                assert(chars_lt(a, b));
            } else if y < x {
                assert(chars_lt(b, a));
            } else {
                lemma_char_code_injective(a[0], b[0]);
            }
        }
    }
}

proof fn lemma_chars_lt_trans(a: Seq<char>, b: Seq<char>, c: Seq<char>)
    requires
        chars_lt(a, b),
        chars_lt(b, c),
    ensures
        chars_lt(a, c),
    decreases a.len(),
{
    if a.len() > 0 {
        // b and c are nonempty because something is below them.
        if a[0] == b[0] {
            if b[0] == c[0] {
                lemma_chars_lt_trans(a.drop_first(), b.drop_first(), c.drop_first());
            }
        }
    }
}

/// `v` placed at its ordered position in `s`; `s` unchanged when `v` is
/// already present.
pub open spec fn insert_sorted(s: Seq<Seq<char>>, v: Seq<char>) -> Seq<Seq<char>>
    decreases s.len(),
{
    if s.len() == 0 {
        seq![v]
    } else if chars_lt(s[0], v) {
        seq![s[0]] + insert_sorted(s.drop_first(), v)
    } else if s[0] == v {
        s
    } else {
        seq![v] + s
    }
}

proof fn lemma_insert_sorted_at(s: Seq<Seq<char>>, v: Seq<char>, p: int)
    requires
        0 <= p <= s.len(),
        forall|i: int| 0 <= i < p ==> chars_lt(#[trigger] s[i], v),
        p < s.len() ==> !chars_lt(s[p], v),
    ensures
        insert_sorted(s, v) == if p < s.len() && s[p] == v {
            s
        } else {
            s.take(p) + seq![v] + s.skip(p)
        },
    decreases p,
{
    if p == 0 {
        if s.len() == 0 {
            assert(insert_sorted(s, v) =~= s.take(0) + seq![v] + s.skip(0));
        } else if s[0] == v {
        } else {
            assert(insert_sorted(s, v) =~= s.take(0) + seq![v] + s.skip(0));
        }
    } else {
        let d = s.drop_first();
        lemma_insert_sorted_at(d, v, p - 1);
        assert(forall|i: int| 0 <= i < p - 1 ==> d[i] == s[i + 1]);
        if p - 1 < d.len() && d[p - 1] == v {
            assert(insert_sorted(s, v) =~= seq![s[0]] + d);
            assert(seq![s[0]] + d =~= s);
        } else {
            assert(insert_sorted(s, v) =~= seq![s[0]] + (d.take(p - 1) + seq![v] + d.skip(
                p - 1,
            )));
            assert(seq![s[0]] + (d.take(p - 1) + seq![v] + d.skip(p - 1)) =~= s.take(p)
                + seq![v] + s.skip(p));
        }
    }
}

/// A deduplicated set of candidate values, kept in ascending order.
pub struct CandidateSet {
    pub items: Vec<Vec<char>>,
}

impl CandidateSet {
    /// Well-formed: strictly sorted (hence unique) and free of empty values.
    pub open spec fn wf(&self) -> bool {
        sorted_unique(views(self.items@)) && all_nonempty(views(self.items@))
    }

    /// The model of the set: the views of its items, in order.
    pub open spec fn model(&self) -> Seq<Seq<char>> {
        views(self.items@)
    }

    /// An empty set.
    pub fn new() -> (r: CandidateSet)
        ensures
            r.wf(),
            r.model() == Seq::<Seq<char>>::empty(),
    {
        let r = CandidateSet { items: Vec::new() };
        assert(r.model() =~= Seq::<Seq<char>>::empty());
        r
    }

    /// Places `v` at its ordered position; leaves the set unchanged when
    /// `v` is already present.
    pub fn insert(&mut self, v: Vec<char>)
        requires
            old(self).wf(),
            v@.len() > 0,
        ensures
            final(self).wf(),
            final(self).model() == insert_sorted(old(self).model(), v@),
    {
        let ghost s = views(old(self).items@);
        let mut p: usize = 0;
        let mut place_found = false;
        while p < self.items.len() && !place_found
            invariant
                self == old(self),
                s == views(self.items@),
                p <= self.items@.len(),
                forall|i: int| 0 <= i < p ==> chars_lt(#[trigger] s[i], v@),
                place_found ==> p < s.len() && !chars_lt(s[p as int], v@),
            decreases self.items@.len() - p + (if place_found {
                0int
            } else {
                1int
            }),
        {
            if crate::text::chars_cmp_lt(&self.items[p], &v) {
                p = p + 1;
            } else {
                place_found = true;
            }
        }
        assert(place_found || p == s.len());
        proof {
            lemma_insert_sorted_at(s, v@, p as int);
        }
        if place_found {
            let same = crate::text::chars_eq(&self.items[p], &v);
            if same {
                assert(final(self).model() == insert_sorted(s, v@));
                return ;
            }
        }
        // v is strictly between its neighbours; inserting keeps the order.
        proof {
            if p < s.len() {
                lemma_chars_lt_trichotomy(s[p as int], v@);
                assert(chars_lt(v@, s[p as int]));
            }
        }
        self.items.insert(p, v);
        proof {
            let ns = views(self.items@);
            assert(ns =~= s.take(p as int) + seq![v@] + s.skip(p as int));
            assert(forall|i: int|
                0 <= i < ns.len() && i != p ==> ns[i] == (if i < p {
                    s[i]
                } else {
                    s[i - 1]
                }));
            assert(ns[p as int] == v@);
            assert forall|i: int, j: int| 0 <= i < j < ns.len() implies chars_lt(
                #[trigger] ns[i],
                #[trigger] ns[j],
            ) by {
                if i == p {
                    // ns[i] is v; everything after sits at or above s[p].
                    if j == p + 1 {
                        assert(chars_lt(v@, s[j - 1]));
                    } else {
                        lemma_chars_lt_trans(v@, s[p as int], s[j - 1]);
                    }
                } else if j == p {
                    assert(chars_lt(s[i], v@));
                } else {
                    assert(chars_lt(ns[i], ns[j]));
                }
            }
            assert(all_nonempty(ns));
        }
    }

    /// Trims the raw source value and inserts it; an empty trimmed value
    /// is discarded. This is how environment variables and the output of
    /// identity or hostname queries enter the set.
    pub fn add_trimmed(&mut self, raw: &str)
        requires
            old(self).wf(),
        ensures
            final(self).wf(),
            final(self).model() == if spec_trim(raw@).len() > 0 {
                insert_sorted(old(self).model(), spec_trim(raw@))
            } else {
                old(self).model()
            },
    {
        let cs = chars_of(raw);
        let t = trim_chars(&cs);
        if t.len() > 0 {
            self.insert(t);
        }
    }

    /// Inserts the raw value unchanged; an empty value is discarded.
    pub fn add_nonempty(&mut self, raw: &str)
        requires
            old(self).wf(),
        ensures
            final(self).wf(),
            final(self).model() == if raw@.len() > 0 {
                insert_sorted(old(self).model(), raw@)
            } else {
                old(self).model()
            },
    {
        let cs = chars_of(raw);
        if cs.len() > 0 {
            self.insert(cs);
        }
    }

    /// Inserts the name of a user home directory entry: hidden names
    /// (leading `'.'`) are discarded, every other name is a candidate.
    pub fn add_user_dir_entry(&mut self, name: &str)
        requires
            old(self).wf(),
        ensures
            final(self).wf(),
            final(self).model() == if name@.len() > 0 && name@[0] != '.' {
                insert_sorted(old(self).model(), name@)
            } else {
                old(self).model()
            },
    {
        let cs = chars_of(name);
        if cs.len() > 0 {
            if cs[0] != '.' {
                self.insert(cs);
            }
        }
    }

    /// How many values the set holds.
    pub fn len(&self) -> (r: usize)
        ensures
            r == self.model().len(),
    {
        self.items.len()
    }
}

/// The gathered candidates of all three kinds.
pub struct Candidates {
    pub usernames: CandidateSet,
    pub hostnames: CandidateSet,
    pub ips: CandidateSet,
}

impl Candidates {
    pub open spec fn wf(&self) -> bool {
        self.usernames.wf() && self.hostnames.wf() && self.ips.wf()
    }

    /// The kinds of the flattened candidate rows: usernames first, then
    /// hostnames, then IP addresses.
    pub open spec fn kinds_model(&self) -> Seq<CandidateKind> {
        Seq::new(self.usernames.model().len(), |i: int| CandidateKind::Username) + Seq::new(
            self.hostnames.model().len(),
            |i: int| CandidateKind::Hostname,
        ) + Seq::new(self.ips.model().len(), |i: int| CandidateKind::IpAddress)
    }

    /// The values of the flattened candidate rows, in the same order.
    pub open spec fn values_model(&self) -> Seq<Seq<char>> {
        self.usernames.model() + self.hostnames.model() + self.ips.model()
    }

    /// Empty candidate sets of every kind.
    pub fn new() -> (r: Candidates)
        ensures
            r.wf(),
            r.values_model() == Seq::<Seq<char>>::empty(),
    {
        let r = Candidates {
            usernames: CandidateSet::new(),
            hostnames: CandidateSet::new(),
            ips: CandidateSet::new(),
        };
        assert(r.values_model() =~= Seq::<Seq<char>>::empty());
        r
    }

    /// The flattened kind and value rows, usernames first, then hostnames,
    /// then IP addresses, each kind in ascending value order.
    pub fn rows(&self) -> (r: (Vec<CandidateKind>, Vec<Vec<char>>))
        ensures
            r.0@ == self.kinds_model(),
            views(r.1@) == self.values_model(),
    {
        let mut kinds: Vec<CandidateKind> = Vec::new();
        let mut values: Vec<Vec<char>> = Vec::new();
        push_rows(&mut kinds, &mut values, CandidateKind::Username, &self.usernames.items);
        push_rows(&mut kinds, &mut values, CandidateKind::Hostname, &self.hostnames.items);
        push_rows(&mut kinds, &mut values, CandidateKind::IpAddress, &self.ips.items);
        proof {
            assert(kinds@ =~= self.kinds_model());
            assert(views(values@) =~= self.values_model());
        }
        (kinds, values)
    }
}

/// A copy of the given character vector.
pub fn clone_chars(v: &Vec<char>) -> (r: Vec<char>)
    ensures
        r@ == v@,
{
    let mut r: Vec<char> = Vec::new();
    let mut i: usize = 0;
    while i < v.len()
        invariant
            i <= v.len(),
            r@ == v@.take(i as int),
        decreases v.len() - i,
    {
        r.push(v[i]);
        assert(v@.take(i + 1 as int) =~= v@.take(i as int).push(v@[i as int]));
        i = i + 1;
    }
    assert(v@.take(v@.len() as int) =~= v@);
    r
}

/// Appends one row per item, all of the given kind.
fn push_rows(
    kinds: &mut Vec<CandidateKind>,
    values: &mut Vec<Vec<char>>,
    kind: CandidateKind,
    items: &Vec<Vec<char>>,
)
    ensures
        final(kinds)@ == old(kinds)@ + Seq::new(items@.len() as nat, |i: int| kind),
        views(final(values)@) == views(old(values)@) + views(items@),
{
    let mut i: usize = 0;
    while i < items.len()
        invariant
            i <= items@.len(),
            kinds@ == old(kinds)@ + Seq::new(i as nat, |j: int| kind),
            views(values@) == views(old(values)@) + views(items@.take(i as int)),
        decreases items.len() - i,
    {
        kinds.push(kind);
        let ghost prev = values@;
        let c = clone_chars(&items[i]);
        assert(c@ == items@[i as int]@);
        values.push(c);
        proof {
            assert(kinds@ =~= old(kinds)@ + Seq::new((i + 1) as nat, |j: int| kind));
            assert(views(values@) =~= views(prev).push(items@[i as int]@));
            assert(views(items@.take(i + 1 as int)) =~= views(items@.take(i as int)).push(
                items@[i as int]@,
            ));
            assert(views(values@) =~= views(old(values)@) + views(items@.take(i + 1 as int)));
        }
        i = i + 1;
    }
    proof {
        assert(items@.take(items@.len() as int) =~= items@);
        assert(views(values@) =~= views(old(values)@) + views(items@));
    }
}

/// Whether an IPv4 address, given by its octets, is a candidate: neither
/// loopback (first octet 127) nor link-local (169.254.0.0/16).
pub fn ipv4_is_candidate(octets: &[u8; 4]) -> (r: bool)
    ensures
        r == (octets@[0] != 127 && !(octets@[0] == 169 && octets@[1] == 254)),
{
    octets[0] != 127 && !(octets[0] == 169 && octets[1] == 254)
}

/// Whether an IPv6 address, given by its sixteen-bit segments, is a
/// candidate: neither loopback nor unicast link-local (fe80::/10), the
/// same two exclusions as for IPv4.
pub open spec fn spec_ipv6_candidate(s: Seq<u16>) -> bool {
    let loopback = s[0] == 0 && s[1] == 0 && s[2] == 0 && s[3] == 0 && s[4] == 0 && s[5] == 0
        && s[6] == 0 && s[7] == 1;
    let unicast_link_local = (s[0] & 0xffc0) == 0xfe80;
    !loopback && !unicast_link_local
}

/// Decides `spec_ipv6_candidate` on the given segments.
pub fn ipv6_is_candidate(segs: &[u16; 8]) -> (r: bool)
    ensures
        r == spec_ipv6_candidate(segs@),
{
    let loopback = segs[0] == 0 && segs[1] == 0 && segs[2] == 0 && segs[3] == 0 && segs[4] == 0
        && segs[5] == 0 && segs[6] == 0 && segs[7] == 1;
    let unicast_link_local = (segs[0] & 0xffc0) == 0xfe80;
    !loopback && !unicast_link_local
}

} // verus!
