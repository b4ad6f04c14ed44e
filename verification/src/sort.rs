//! Presentation-agnostic ordering for domain lists (bookmarks, collections).
//!
//! [`SortMethod`] and [`sort_by`] are shared by every surface so that lists
//! are ordered identically everywhere. Types opt in by implementing
//! [`Sortable`], which exposes the two keys ordering needs: a display name
//! (alphabetical order) and a creation timestamp (date order).

use vstd::prelude::*;

use crate::engine::bookmark::{Bookmark, Collection};
use crate::text::{chars_of, lowercase, to_lowercase};

verus! {

/// How a list of [`Sortable`] items is ordered.
#[derive(Debug, Clone, Copy, PartialEq, Eq, Structural)]
pub enum SortMethod {
    /// A to Z by display name (case-insensitive).
    AlphabeticalAsc,
    /// Z to A by display name (case-insensitive).
    AlphabeticalDesc,
    /// Most recently created first.
    DateNewest,
    /// Oldest created first.
    DateOldest,
}

impl SortMethod {
    /// The method after `self` in the cycle.
    pub open spec fn next_spec(self) -> SortMethod {
        match self {
            SortMethod::AlphabeticalAsc => SortMethod::AlphabeticalDesc,
            SortMethod::AlphabeticalDesc => SortMethod::DateNewest,
            SortMethod::DateNewest => SortMethod::DateOldest,
            SortMethod::DateOldest => SortMethod::AlphabeticalAsc,
        }
    }

    /// The label of a method.
    pub open spec fn label_spec(self) -> Seq<char> {
        match self {
            SortMethod::AlphabeticalAsc => "Name A→Z"@,
            SortMethod::AlphabeticalDesc => "Name Z→A"@,
            SortMethod::DateNewest => "Newest"@,
            SortMethod::DateOldest => "Oldest"@,
        }
    }

    /// The next method in the cycle (wraps back to the start).
    pub fn next(self) -> (r: SortMethod)
        ensures
            r == self.next_spec(),
    {
        match self {
            SortMethod::AlphabeticalAsc => SortMethod::AlphabeticalDesc,
            SortMethod::AlphabeticalDesc => SortMethod::DateNewest,
            SortMethod::DateNewest => SortMethod::DateOldest,
            SortMethod::DateOldest => SortMethod::AlphabeticalAsc,
        }
    }

    /// Every method, in cycle order.
    pub fn all() -> (r: [SortMethod; 4])
        ensures
            r@ == seq![
                SortMethod::AlphabeticalAsc,
                SortMethod::AlphabeticalDesc,
                SortMethod::DateNewest,
                SortMethod::DateOldest,
            ],
    {
        [
            SortMethod::AlphabeticalAsc,
            SortMethod::AlphabeticalDesc,
            SortMethod::DateNewest,
            SortMethod::DateOldest,
        ]
    }

    /// Human-readable label (help text, flag descriptions, tooltips).
    pub fn label(self) -> (r: &'static str)
        ensures
            r@ == self.label_spec(),
    {
        match self {
            SortMethod::AlphabeticalAsc => "Name A→Z",
            SortMethod::AlphabeticalDesc => "Name Z→A",
            SortMethod::DateNewest => "Newest",
            SortMethod::DateOldest => "Oldest",
        }
    }
}

/// Starting from any method, four steps of the cycle come back to it, and
/// the four methods met on the way are all different.
pub proof fn lemma_cycle_of_four(m: SortMethod)
    ensures
        m.next_spec().next_spec().next_spec().next_spec() == m,
        m.next_spec() != m,
        m.next_spec().next_spec() != m,
        m.next_spec().next_spec().next_spec() != m,
{
}

/// A value that can be ordered by [`sort_by`].
///
/// The contracts of [`sort_by`] speak of an item's key through
/// `name_view` and `timestamp_view`; an implementation defines them as what
/// `sort_name` and `sort_timestamp` return.
pub trait Sortable {
    /// The display name, as characters.
    spec fn name_view(&self) -> Seq<char>;

    /// The creation timestamp, as characters.
    spec fn timestamp_view(&self) -> Option<Seq<char>>;

    /// The display name used for alphabetical ordering. Compared
    /// case-insensitively, so implementations return it verbatim.
    fn sort_name(&self) -> (r: &str)
        ensures
            r@ == self.name_view(),
    ;

    /// The ISO-8601 creation timestamp used for date ordering (such strings
    /// compare chronologically as plain text). Items returning `None` sort to
    /// the end regardless of direction.
    fn sort_timestamp(&self) -> (r: Option<&str>)
        ensures
            r matches Some(t) ==> self.timestamp_view() == Some(t@),
            r is None ==> self.timestamp_view() is None,
    ;
}

/// Lexicographic order of texts by character code (the order of `String`).
pub open spec fn text_lt(a: Seq<char>, b: Seq<char>) -> bool
    decreases a.len(),
{
    if a.len() == 0 {
        b.len() > 0
    } else if b.len() == 0 {
        false
    } else if a[0] != b[0] {
        a[0] < b[0]
    } else {
        text_lt(a.drop_first(), b.drop_first())
    }
}

/// Whether `a` goes strictly before `b` under `m`. Items neither of which
/// goes before the other have equal keys.
pub open spec fn goes_before<T: Sortable>(m: SortMethod, a: T, b: T) -> bool {
    match m {
        SortMethod::AlphabeticalAsc => text_lt(lowercase(a.name_view()), lowercase(b.name_view())),
        SortMethod::AlphabeticalDesc => text_lt(lowercase(b.name_view()), lowercase(a.name_view())),
        SortMethod::DateNewest => match (a.timestamp_view(), b.timestamp_view()) {
            (Some(x), Some(y)) => text_lt(y, x),
            (Some(_), None) => true,
            _ => false,
        },
        SortMethod::DateOldest => match (a.timestamp_view(), b.timestamp_view()) {
            (Some(x), Some(y)) => text_lt(x, y),
            (Some(_), None) => true,
            _ => false,
        },
    }
}

/// `s` is ordered by `m`: no item goes before an earlier one.
pub open spec fn sorted_by<T: Sortable>(m: SortMethod, s: Seq<T>) -> bool {
    forall|p: int, q: int| 0 <= p < q < s.len() ==> !goes_before(m, #[trigger] s[q], #[trigger] s[p])
}

/// `perm` maps each position of `after` to the position in `before` that its
/// item came from, one to one.
pub open spec fn is_rearrangement<T>(before: Seq<T>, after: Seq<T>, perm: Seq<int>) -> bool {
    &&& perm.len() == before.len()
    &&& after.len() == before.len()
    &&& forall|k: int| 0 <= k < perm.len() ==> 0 <= #[trigger] perm[k] < before.len()
    &&& forall|k: int| 0 <= k < perm.len() ==> after[k] == before[#[trigger] perm[k]]
    &&& forall|p: int, q: int| 0 <= p < q < perm.len() ==> #[trigger] perm[p] != #[trigger] perm[q]
}

/// Items with equal keys keep their relative order.
pub open spec fn keeps_ties<T: Sortable>(m: SortMethod, after: Seq<T>, perm: Seq<int>) -> bool {
    forall|p: int, q: int|
        0 <= p < q < after.len() && !goes_before(m, #[trigger] after[p], #[trigger] after[q])
            && !goes_before(m, after[q], after[p]) ==> perm[p] < perm[q]
}

/// `after` is the stable sort of `before` under `m`.
pub open spec fn stable_sort_of<T: Sortable>(m: SortMethod, before: Seq<T>, after: Seq<T>) -> bool {
    exists|perm: Seq<int>|
        is_rearrangement(before, after, perm) && sorted_by(m, after) && keeps_ties(m, after, perm)
}

/// [`text_lt`] never holds both ways.
pub proof fn lemma_text_lt_asymmetric(a: Seq<char>, b: Seq<char>)
    ensures
        !(text_lt(a, b) && text_lt(b, a)),
    decreases a.len(),
{
    if a.len() > 0 && b.len() > 0 && a[0] == b[0] {
        lemma_text_lt_asymmetric(a.drop_first(), b.drop_first());
    }
}

/// [`text_lt`] is transitive.
pub proof fn lemma_text_lt_transitive(a: Seq<char>, b: Seq<char>, c: Seq<char>)
    requires
        text_lt(a, b),
        text_lt(b, c),
    ensures
        text_lt(a, c),
    decreases a.len(),
{
    if a.len() > 0 && b.len() > 0 && c.len() > 0 && a[0] == b[0] && b[0] == c[0] {
        lemma_text_lt_transitive(a.drop_first(), b.drop_first(), c.drop_first());
    }
}

/// Of two different texts, one goes before the other.
pub proof fn lemma_text_lt_total(a: Seq<char>, b: Seq<char>)
    ensures
        a != b ==> text_lt(a, b) || text_lt(b, a),
    decreases a.len(),
{
    if a.len() > 0 && b.len() > 0 && a[0] == b[0] {
        lemma_text_lt_total(a.drop_first(), b.drop_first());
        if a.drop_first() == b.drop_first() {
            assert(a =~= seq![a[0]] + a.drop_first());
            assert(b =~= seq![b[0]] + b.drop_first());
        }
    } else if a.len() == 0 && b.len() == 0 {
        assert(a =~= b);
    } else if a.len() > 0 && b.len() > 0 {
    }
}

/// If `a` goes before `c`, then any `b` goes after `a` or before `c`.
pub proof fn lemma_text_lt_split(a: Seq<char>, b: Seq<char>, c: Seq<char>)
    requires
        text_lt(a, c),
    ensures
        text_lt(a, b) || text_lt(b, c),
{
    lemma_text_lt_total(a, b);
    if !text_lt(a, b) {
        if a == b {
        } else {
            lemma_text_lt_transitive(b, a, c);
        }
    }
}

/// The order of a method is a strict weak order: asymmetric, and if `a` goes
/// before `c` then any `b` goes after `a` or before `c`.
pub proof fn lemma_goes_before_weak_order<T: Sortable>(m: SortMethod, a: T, b: T, c: T)
    ensures
        !(goes_before(m, a, b) && goes_before(m, b, a)),
        goes_before(m, a, c) ==> goes_before(m, a, b) || goes_before(m, b, c),
{
    let (na, nb, nc) = (lowercase(a.name_view()), lowercase(b.name_view()), lowercase(c.name_view()));
    match m {
        SortMethod::AlphabeticalAsc => {
            lemma_text_lt_asymmetric(na, nb);
            if text_lt(na, nc) {
                lemma_text_lt_split(na, nb, nc);
            }
        },
        SortMethod::AlphabeticalDesc => {
            lemma_text_lt_asymmetric(na, nb);
            if text_lt(nc, na) {
                lemma_text_lt_split(nc, nb, na);
            }
        },
        SortMethod::DateNewest => {
            match (a.timestamp_view(), b.timestamp_view(), c.timestamp_view()) {
                (Some(x), Some(y), Some(z)) => {
                    lemma_text_lt_asymmetric(x, y);
                    if text_lt(z, x) {
                        lemma_text_lt_split(z, y, x);
                    }
                },
                (Some(x), Some(y), None) => {
                    lemma_text_lt_asymmetric(x, y);
                },
                _ => {},
            }
        },
        SortMethod::DateOldest => {
            match (a.timestamp_view(), b.timestamp_view(), c.timestamp_view()) {
                (Some(x), Some(y), Some(z)) => {
                    lemma_text_lt_asymmetric(x, y);
                    if text_lt(x, z) {
                        lemma_text_lt_split(x, y, z);
                    }
                },
                (Some(x), Some(y), None) => {
                    lemma_text_lt_asymmetric(x, y);
                },
                _ => {},
            }
        },
    }
}

/// Whether `a` goes before `b` in lexicographic character order.
pub fn chars_lt(a: &[char], b: &[char]) -> (r: bool)
    ensures
        r == text_lt(a@, b@),
{
    let mut i: usize = 0;
    assert(a@.skip(0) == a@);
    assert(b@.skip(0) == b@);
    while i < a.len() && i < b.len() && a[i] == b[i]
        invariant
            i <= a.len(),
            i <= b.len(),
            text_lt(a@, b@) == text_lt(a@.skip(i as int), b@.skip(i as int)),
        decreases a.len() - i,
    {
        assert(a@.skip(i as int).drop_first() == a@.skip(i + 1));
        assert(b@.skip(i as int).drop_first() == b@.skip(i + 1));
        i = i + 1;
    }
    if i == a.len() {
        i < b.len()
    } else if i == b.len() {
        false
    } else {
        a[i] < b[i]
    }
}

/// Whether `a` goes strictly before `b` under `m`.
fn goes_before_exec<T: Sortable>(m: SortMethod, a: &T, b: &T) -> (r: bool)
    ensures
        r == goes_before(m, *a, *b),
{
    match m {
        SortMethod::AlphabeticalAsc => {
            let x = to_lowercase(&chars_of(a.sort_name()));
            let y = to_lowercase(&chars_of(b.sort_name()));
            chars_lt(&x, &y)
        },
        SortMethod::AlphabeticalDesc => {
            let x = to_lowercase(&chars_of(a.sort_name()));
            let y = to_lowercase(&chars_of(b.sort_name()));
            chars_lt(&y, &x)
        },
        SortMethod::DateNewest => match (a.sort_timestamp(), b.sort_timestamp()) {
            (Some(x), Some(y)) => chars_lt(&chars_of(y), &chars_of(x)),
            (Some(_), None) => true,
            _ => false,
        },
        SortMethod::DateOldest => match (a.sort_timestamp(), b.sort_timestamp()) {
            (Some(x), Some(y)) => chars_lt(&chars_of(x), &chars_of(y)),
            (Some(_), None) => true,
            _ => false,
        },
    }
}

/// Order `items` in place by `method`. Stable: items with equal keys keep
/// their relative (insertion) order, and undated items always trail the
/// dated ones.
pub fn sort_by<T: Sortable>(items: &mut Vec<T>, method: SortMethod)
    ensures
        stable_sort_of(method, old(items)@, final(items)@),
{
    let ghost orig = items@;
    let ghost mut perm: Seq<int> = Seq::new(orig.len(), |k: int| k);
    let n = items.len();
    let mut i: usize = 0;
    while i < n
        invariant
            n == orig.len(),
            i <= n,
            items@.len() == n,
            is_rearrangement(orig, items@, perm),
            forall|k: int| i <= k < n ==> #[trigger] perm[k] == k,
            forall|k: int| 0 <= k < i ==> #[trigger] perm[k] < i,
            sorted_by(method, items@.take(i as int)),
            keeps_ties(method, items@.take(i as int), perm),
        decreases n - i,
    {
        let ghost before = items@;
        let ghost perm_before = perm;
        let x = items.remove(i);
        let mut j: usize = i;
        while j > 0 && goes_before_exec(method, &x, &items[j - 1])
            invariant
                0 <= j <= i < n,
                before.len() == n,
                items@ == before.remove(i as int),
                forall|k: int| 0 <= k < i ==> items@[k] == before[k],
                x == before[i as int],
                forall|k: int| j <= k < i ==> goes_before(method, x, #[trigger] before[k]),
            decreases j,
        {
            j = j - 1;
        }
        items.insert(j, x);
        proof {
            perm = perm_before.remove(i as int).insert(j as int, i as int);
            lemma_insert_step(method, orig, before, perm_before, i as int, j as int);
        }
        i = i + 1;
    }
    proof {
        assert(items@.take(n as int) == items@);
        assert(stable_sort_of(method, orig, items@)) by {
            assert(is_rearrangement(orig, items@, perm) && sorted_by(method, items@) && keeps_ties(
                method,
                items@,
                perm,
            ));
        }
    }
}

/// One step of the insertion sort: the item at `i` moves left to `j`, past
/// the items of the sorted prefix that it goes strictly before.
proof fn lemma_insert_step<T: Sortable>(
    m: SortMethod,
    orig: Seq<T>,
    before: Seq<T>,
    perm: Seq<int>,
    i: int,
    j: int,
)
    requires
        0 <= j <= i < before.len(),
        is_rearrangement(orig, before, perm),
        forall|k: int| i <= k < before.len() ==> #[trigger] perm[k] == k,
        forall|k: int| 0 <= k < i ==> #[trigger] perm[k] < i,
        sorted_by(m, before.take(i)),
        keeps_ties(m, before.take(i), perm),
        forall|k: int| j <= k < i ==> goes_before(m, before[i], #[trigger] before[k]),
        j > 0 ==> !goes_before(m, before[i], before[j - 1]),
    ensures
        ({
            let after = before.remove(i).insert(j, before[i]);
            let p2 = perm.remove(i).insert(j, i);
            &&& is_rearrangement(orig, after, p2)
            &&& forall|k: int| i + 1 <= k < before.len() ==> #[trigger] p2[k] == k
            &&& forall|k: int| 0 <= k < i + 1 ==> #[trigger] p2[k] < i + 1
            &&& sorted_by(m, after.take(i + 1))
            &&& keeps_ties(m, after.take(i + 1), p2)
        }),
{
    let x = before[i];
    let after = before.remove(i).insert(j, x);
    let p2 = perm.remove(i).insert(j, i);
    // Positions of the new sequence in terms of the old one.
    assert forall|k: int| 0 <= k < before.len() implies #[trigger] after[k] == (if k < j {
        before[k]
    } else if k == j {
        x
    } else if k <= i {
        before[k - 1]
    } else {
        before[k]
    }) && p2[k] == (if k < j {
        perm[k]
    } else if k == j {
        i
    } else if k <= i {
        perm[k - 1]
    } else {
        perm[k]
    }) by {}
    assert(after.len() == before.len());
    assert(p2.len() == perm.len());
    // A rearrangement still.
    assert forall|k: int| 0 <= k < p2.len() implies after[k] == orig[#[trigger] p2[k]] by {
        if k == j {
            assert(perm[i] == i);
        }
    }
    assert forall|p: int, q: int| 0 <= p < q < p2.len() implies #[trigger] p2[p] != #[trigger] p2[q] by {
        let op = if p < j {
            p
        } else if p == j {
            i
        } else if p <= i {
            p - 1
        } else {
            p
        };
        let oq = if q < j {
            q
        } else if q == j {
            i
        } else if q <= i {
            q - 1
        } else {
            q
        };
        assert(p2[p] == perm[op]);
        assert(p2[q] == perm[oq]);
        assert(op != oq);
        if op < oq {
            assert(perm[op] != perm[oq]);
        } else {
            assert(perm[oq] != perm[op]);
        }
    }
    assert forall|k: int| 0 <= k < p2.len() implies 0 <= #[trigger] p2[k] < orig.len() by {
        if k == j {
            assert(perm[i] == i);
        }
    }
    assert(is_rearrangement(orig, after, p2));
    // The prefix stays sorted.
    let s = after.take(i + 1);
    assert forall|p: int, q: int| 0 <= p < q < s.len() implies !goes_before(
        m,
        #[trigger] s[q],
        #[trigger] s[p],
    ) by {
        assert(s[p] == after[p]);
        assert(s[q] == after[q]);
        let old_sorted = before.take(i);
        if q < j {
            assert(old_sorted[p] == before[p] && old_sorted[q] == before[q]);
        } else if q == j {
            // before[p] <= before[j - 1] and x does not go before before[j - 1].
            assert(old_sorted[p] == before[p]);
            if p < j - 1 {
                assert(old_sorted[j - 1] == before[j - 1]);
                assert(!goes_before(m, before[j - 1], before[p]));
                lemma_goes_before_weak_order(m, x, before[j - 1], before[p]);
            }
        } else if p == j {
            // x goes strictly before after[q] == before[q - 1].
            assert(goes_before(m, x, before[q - 1]));
            lemma_goes_before_weak_order(m, x, before[q - 1], x);
        } else {
            let op = if p < j {
                p
            } else {
                p - 1
            };
            assert(old_sorted[op] == before[op] && old_sorted[q - 1] == before[q - 1]);
        }
    }
    // Ties keep their order.
    assert forall|p: int, q: int|
        0 <= p < q < s.len() && !goes_before(m, #[trigger] s[p], #[trigger] s[q]) && !goes_before(
            m,
            s[q],
            s[p],
        ) implies p2[p] < p2[q] by {
        assert(s[p] == after[p]);
        assert(s[q] == after[q]);
        let old_sorted = before.take(i);
        if q == j {
            assert(p2[q] == i);
            assert(p2[p] == perm[p]);
        } else if p == j {
            assert(goes_before(m, x, before[q - 1]));
        } else {
            let op = if p < j {
                p
            } else {
                p - 1
            };
            let oq = if q < j {
                q
            } else {
                q - 1
            };
            assert(old_sorted[op] == before[op] && old_sorted[oq] == before[oq]);
            assert(op < oq);
        }
    }
}

impl Sortable for Bookmark {
    open spec fn name_view(&self) -> Seq<char> {
        self.file_path@
    }

    open spec fn timestamp_view(&self) -> Option<Seq<char>> {
        Some(self.created_at@)
    }

    /// Bookmarks order by file path.
    fn sort_name(&self) -> (r: &str) {
        self.file_path.as_str()
    }

    fn sort_timestamp(&self) -> (r: Option<&str>) {
        Some(self.created_at.as_str())
    }
}

impl Sortable for Collection {
    open spec fn name_view(&self) -> Seq<char> {
        self.name@
    }

    open spec fn timestamp_view(&self) -> Option<Seq<char>> {
        Some(self.created_at@)
    }

    fn sort_name(&self) -> (r: &str) {
        self.name.as_str()
    }

    fn sort_timestamp(&self) -> (r: Option<&str>) {
        Some(self.created_at.as_str())
    }
}

/// A bare sort key: a name and, when it has one, an ISO-8601 timestamp.
#[derive(Debug, Clone, Copy)]
pub struct SortItem<'a> {
    pub name: &'a str,
    pub timestamp: Option<&'a str>,
}

impl<'a> Sortable for SortItem<'a> {
    open spec fn name_view(&self) -> Seq<char> {
        self.name@
    }

    open spec fn timestamp_view(&self) -> Option<Seq<char>> {
        match self.timestamp {
            Some(t) => Some(t@),
            None => None,
        }
    }

    fn sort_name(&self) -> (r: &str) {
        self.name
    }

    fn sort_timestamp(&self) -> (r: Option<&str>) {
        self.timestamp
    }
}

} // verus!
