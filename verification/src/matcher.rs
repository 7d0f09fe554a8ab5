//! Filtering and ranking of backend variants for one device.
//!
//! A CPU device accepts only CPU variants whose required tier is at most
//! its detected tier. A GPU device accepts variants of its own kind and
//! every CPU variant as a fallback. The accepted variants are then
//! ordered so that the most capable candidate is attempted first: native
//! GPU variants before CPU ones, higher versions and higher tiers before
//! lower ones; candidates of equal rank keep their catalog order.

use vstd::prelude::*;
use crate::capability::CPUCapability;
use crate::device::DeviceInfo;
use crate::error::Error;
use crate::strutil::str_eq;
use crate::variant::Variant;
use crate::version::{version_value, version_value_of, version_tag_is_wf, wf_version_tag,
    lemma_digits_val_bound};

verus! {

/// True when the variant is a CPU build.
pub open spec fn is_cpu(v: Variant) -> bool {
    v.library@ == "cpu"@
}

/// True when the variant's tag can be evaluated by the ranking: a CPU
/// tag names a tier, any other tag is a version tag.
pub open spec fn wf_variant(v: Variant) -> bool {
    if is_cpu(v) {
        CPUCapability::wf_tag(v.variant@)
    } else {
        wf_version_tag(v.variant@)
    }
}

/// True when every variant of the set has an evaluable tag.
pub open spec fn wf_candidates(s: Seq<Variant>) -> bool {
    forall|i: int| 0 <= i < s.len() ==> wf_variant(#[trigger] s[i])
}

/// True when all non-CPU variants of the set share one library kind.
/// The matcher guarantees this within one device's filtered set.
pub open spec fn single_gpu_kind(s: Seq<Variant>) -> bool {
    forall|i: int, j: int|
        #![trigger s[i], s[j]]
        0 <= i < s.len() && 0 <= j < s.len() && !is_cpu(s[i]) && !is_cpu(s[j])
            ==> s[i].library@ == s[j].library@
}

/// Rank of a variant, higher is more capable: CPU variants rank by their
/// required tier (0 to 2), GPU variants rank above every CPU variant, by
/// their version number.
pub open spec fn rank_key(v: Variant) -> int {
    if is_cpu(v) {
        CPUCapability::of_tag(v.variant@).tier()
    } else {
        3 + version_value(v.variant@)
    }
}

/// Equal tag strings compare equal: a variant's rank depends on its
/// kind and tag strings alone, so two variants spelling the same
/// directory name always rank the same.
pub proof fn lemma_equal_tags_rank_equal(a: Variant, b: Variant)
    requires
        a.library@ == b.library@,
        a.variant@ == b.variant@,
    ensures
        rank_key(a) == rank_key(b),
{
}

/// True when `v` is usable by the device `dev`.
pub open spec fn matches_device(dev: DeviceInfo, v: Variant) -> bool {
    if dev.library@ == "cpu"@ {
        is_cpu(v) && dev.variant.tier() >= CPUCapability::of_tag(v.variant@).tier()
    } else {
        v.library@ == dev.library@ || is_cpu(v)
    }
}

/// The subset of the catalog usable by `dev`, in catalog order.
pub open spec fn matched(dev: DeviceInfo, cat: Seq<Variant>) -> Seq<Variant> {
    cat.filter(|v: Variant| matches_device(dev, v))
}

/// Inserts `x` into `s` before the first element of strictly lower rank,
/// keeping elements of equal rank ahead of it.
pub open spec fn insert_desc(x: Variant, s: Seq<Variant>) -> Seq<Variant>
    decreases s.len(),
{
    if s.len() == 0 {
        seq![x]
    } else if rank_key(x) > rank_key(s.first()) {
        seq![x] + s
    } else {
        seq![s.first()] + insert_desc(x, s.drop_first())
    }
}

/// The candidate set ordered most-capable-first; elements of equal rank
/// keep their input order.
pub open spec fn sort_desc(s: Seq<Variant>) -> Seq<Variant>
    decreases s.len(),
{
    if s.len() == 0 {
        s
    } else {
        insert_desc(s.last(), sort_desc(s.drop_last()))
    }
}

/// True when ranks never increase along the sequence.
pub open spec fn sorted_desc(s: Seq<Variant>) -> bool {
    forall|i: int, j: int| 0 <= i < j < s.len() ==> rank_key(s[i]) >= rank_key(s[j])
}

/// `insert_desc` keeps the order, adds exactly `x`, and keeps the
/// elements.
proof fn lemma_insert_desc_ensures(x: Variant, s: Seq<Variant>)
    requires
        sorted_desc(s),
    ensures
        sorted_desc(insert_desc(x, s)),
        insert_desc(x, s).len() == s.len() + 1,
        forall|y: Variant| #[trigger] insert_desc(x, s).contains(y) ==> (y == x || s.contains(y)),
        forall|y: Variant| #[trigger] s.contains(y) ==> insert_desc(x, s).contains(y),
        insert_desc(x, s).contains(x),
    decreases s.len(),
{
    let t = insert_desc(x, s);
    if s.len() == 0 {
        assert(t =~= seq![x]);
        assert forall|y: Variant| #[trigger] t.contains(y) implies (y == x || s.contains(y)) by {
            let i = choose|i: int| 0 <= i < t.len() && t[i] == y;
            assert(t[0] == x);
        }
        assert(t.contains(x)) by {
            assert(t[0] == x);
        }
    } else if rank_key(x) > rank_key(s.first()) {
        assert(t =~= seq![x] + s);
        assert forall|i: int, j: int| 0 <= i < j < t.len() implies rank_key(t[i]) >= rank_key(
            t[j],
        ) by {
            if i > 0 {
                assert(t[i] == s[i - 1] && t[j] == s[j - 1]);
            } else {
                assert(t[j] == s[j - 1]);
                if j > 1 {
                    assert(rank_key(s[0]) >= rank_key(s[j - 1]));
                }
            }
        }
        assert forall|y: Variant| #[trigger] t.contains(y) implies (y == x || s.contains(y)) by {
            let i = choose|i: int| 0 <= i < t.len() && t[i] == y;
            if i > 0 {
                assert(s[i - 1] == y);
                assert(s.contains(y));
            }
        }
        assert forall|y: Variant| #[trigger] s.contains(y) implies t.contains(y) by {
            let i = choose|i: int| 0 <= i < s.len() && s[i] == y;
            assert(t[i + 1] == y);
        }
        assert(t.contains(x)) by {
            assert(t[0] == x);
        }
    } else {
        let rest = s.drop_first();
        let sub = insert_desc(x, rest);
        assert(sorted_desc(rest)) by {
            assert(forall|i: int, j: int|
                0 <= i < j < rest.len() ==> rank_key(#[trigger] rest[i]) >= rank_key(
                    #[trigger] rest[j],
                ));
        }
        lemma_insert_desc_ensures(x, rest);
        assert(t =~= seq![s.first()] + sub);
        assert forall|i: int, j: int| 0 <= i < j < t.len() implies rank_key(t[i]) >= rank_key(
            t[j],
        ) by {
            if i > 0 {
                assert(t[i] == sub[i - 1] && t[j] == sub[j - 1]);
            } else {
                assert(t[i] == s.first());
                assert(t[j] == sub[j - 1]);
                assert(sub.contains(sub[j - 1])) by {
                    assert(sub[j - 1] == sub[j - 1]);
                }
                if sub[j - 1] == x {
                    assert(rank_key(s.first()) >= rank_key(x));
                } else {
                    assert(rest.contains(sub[j - 1]));
                    let k = choose|k: int| 0 <= k < rest.len() && rest[k] == sub[j - 1];
                    assert(rest[k] == s[k + 1]);
                    assert(rank_key(s[0]) >= rank_key(s[k + 1]));
                }
            }
        }
        assert forall|y: Variant| #[trigger] t.contains(y) implies (y == x || s.contains(y)) by {
            let i = choose|i: int| 0 <= i < t.len() && t[i] == y;
            if i == 0 {
                assert(s[0] == y);
                assert(s.contains(y));
            } else {
                assert(sub[i - 1] == y);
                assert(sub.contains(y));
                if y != x {
                    assert(rest.contains(y));
                    let k = choose|k: int| 0 <= k < rest.len() && rest[k] == y;
                    assert(s[k + 1] == y);
                    assert(s.contains(y));
                }
            }
        }
        assert forall|y: Variant| #[trigger] s.contains(y) implies t.contains(y) by {
            let i = choose|i: int| 0 <= i < s.len() && s[i] == y;
            if i == 0 {
                assert(t[0] == y);
            } else {
                assert(rest[i - 1] == y);
                assert(rest.contains(y));
                assert(sub.contains(y));
                let k = choose|k: int| 0 <= k < sub.len() && sub[k] == y;
                assert(t[k + 1] == y);
            }
        }
        assert(t.contains(x)) by {
            assert(sub.contains(x));
            let k = choose|k: int| 0 <= k < sub.len() && sub[k] == x;
            assert(t[k + 1] == x);
        }
    }
}

/// The ranked order is sorted, has the same length, and holds exactly
/// the elements of the input.
pub proof fn lemma_sort_desc_ensures(s: Seq<Variant>)
    ensures
        sorted_desc(sort_desc(s)),
        sort_desc(s).len() == s.len(),
        forall|y: Variant| #[trigger] sort_desc(s).contains(y) ==> s.contains(y),
        forall|y: Variant| #[trigger] s.contains(y) ==> sort_desc(s).contains(y),
    decreases s.len(),
{
    if s.len() > 0 {
        let prev = sort_desc(s.drop_last());
        let t = sort_desc(s);
        lemma_sort_desc_ensures(s.drop_last());
        lemma_insert_desc_ensures(s.last(), prev);
        assert forall|y: Variant| #[trigger] t.contains(y) implies s.contains(y) by {
            if y == s.last() {
                assert(s[s.len() - 1] == y);
                assert(s.contains(y));
            } else {
                assert(prev.contains(y));
                assert(s.drop_last().contains(y));
                let i = choose|i: int| 0 <= i < s.drop_last().len() && s.drop_last()[i] == y;
                assert(s[i] == y);
                assert(s.contains(y));
            }
        }
        assert forall|y: Variant| #[trigger] s.contains(y) implies t.contains(y) by {
            let i = choose|i: int| 0 <= i < s.len() && s[i] == y;
            if i < s.len() - 1 {
                assert(s.drop_last()[i] == y);
                assert(s.drop_last().contains(y));
                assert(prev.contains(y));
            } else {
                assert(y == s.last());
            }
        }
    }
}

/// Every element of a filtered sequence is an element of the original.
proof fn lemma_filter_subset<A>(s: Seq<A>, pred: spec_fn(A) -> bool)
    ensures
        forall|y: A| #[trigger] s.filter(pred).contains(y) ==> s.contains(y),
    decreases s.len(),
{
    reveal(Seq::filter);
    if s.len() > 0 {
        lemma_filter_subset(s.drop_last(), pred);
        assert forall|y: A| #[trigger] s.filter(pred).contains(y) implies s.contains(y) by {
            let f = s.filter(pred);
            let sub = s.drop_last().filter(pred);
            let i = choose|i: int| 0 <= i < f.len() && f[i] == y;
            if pred(s.last()) && i == f.len() - 1 {
                assert(f == sub.push(s.last()));
                assert(s[s.len() - 1] == y);
                assert(s.contains(y));
            } else {
                assert(sub[i] == y);
                assert(sub.contains(y));
                assert(s.drop_last().contains(y));
                let k = choose|k: int| 0 <= k < s.drop_last().len() && s.drop_last()[k] == y;
                assert(s[k] == y);
                assert(s.contains(y));
            }
        }
    }
}

/// Rank of a variant with an evaluable tag, as a number.
fn key_of(v: &Variant) -> (n: u64)
    requires
        wf_variant(*v),
    ensures
        n as int == rank_key(*v),
{
    if str_eq(v.library.as_str(), "cpu") {
        CPUCapability::from(v.variant.as_str()).rank() as u64
    } else {
        3 + version_value_of(v.variant.as_str())
    }
}

/// `insert_desc` places `x` at the first position whose element has
/// strictly lower rank.
proof fn lemma_insert_desc_at(x: Variant, s: Seq<Variant>, j: int)
    requires
        0 <= j <= s.len(),
        forall|k: int| 0 <= k < j ==> rank_key(#[trigger] s[k]) >= rank_key(x),
        j < s.len() ==> rank_key(s[j]) < rank_key(x),
    ensures
        insert_desc(x, s) == s.take(j) + seq![x] + s.skip(j),
    decreases j,
{
    if j == 0 {
        if s.len() == 0 {
            assert(insert_desc(x, s) =~= s.take(0) + seq![x] + s.skip(0));
        } else {
            assert(rank_key(x) > rank_key(s.first()));
            assert(insert_desc(x, s) =~= s.take(0) + seq![x] + s.skip(0));
        }
    } else {
        assert(rank_key(s[0]) >= rank_key(x));
        let sub = s.drop_first();
        assert(forall|k: int| 0 <= k < j - 1 ==> rank_key(#[trigger] sub[k]) >= rank_key(x));
        lemma_insert_desc_at(x, sub, j - 1);
        assert(insert_desc(x, s) == seq![s.first()] + insert_desc(x, sub));
        assert(insert_desc(x, s) =~= s.take(j) + seq![x] + s.skip(j));
    }
}

/// First position in `res` whose element ranks strictly below `kx`.
fn insert_pos(res: &Vec<Variant>, kx: u64) -> (j: usize)
    requires
        wf_candidates(res@),
    ensures
        j <= res@.len(),
        forall|k: int| 0 <= k < j ==> rank_key(#[trigger] res@[k]) >= kx as int,
        j < res@.len() ==> rank_key(res@[j as int]) < kx as int,
{
    let mut j: usize = 0;
    while j < res.len()
        invariant
            j <= res@.len(),
            wf_candidates(res@),
            forall|k: int| 0 <= k < j ==> rank_key(#[trigger] res@[k]) >= kx as int,
        decreases res@.len() - j,
    {
        if key_of(&res[j]) < kx {
            return j;
        }
        j += 1;
    }
    j
}

/// The candidate set ordered most-capable-first.
fn sorted_by_rank(vars: &Vec<Variant>) -> (r: Vec<Variant>)
    requires
        wf_candidates(vars@),
    ensures
        r@ == sort_desc(vars@),
{
    let mut res: Vec<Variant> = Vec::new();
    let mut i: usize = 0;
    while i < vars.len()
        invariant
            i <= vars@.len(),
            wf_candidates(vars@),
            wf_candidates(res@),
            sorted_desc(res@),
            res@ == sort_desc(vars@.take(i as int)),
        decreases vars@.len() - i,
    {
        let x = vars[i].clone();
        let kx = key_of(&x);
        let j = insert_pos(&res, kx);
        proof {
            lemma_insert_desc_at(x, res@, j as int);
            lemma_insert_desc_ensures(x, res@);
            assert(vars@.take(i + 1).drop_last() == vars@.take(i as int));
            assert(vars@.take(i + 1).last() == vars@[i as int]);
        }
        let ghost prev = res@;
        res.insert(j, x);
        proof {
            assert(res@ =~= prev.take(j as int) + seq![x] + prev.skip(j as int));
            assert(res@ == insert_desc(x, prev));
            assert forall|k: int| 0 <= k < res@.len() implies wf_variant(#[trigger] res@[k]) by {
                assert(res@.contains(res@[k]));
                if res@[k] != x {
                    assert(prev.contains(res@[k]));
                    let m = choose|m: int| 0 <= m < prev.len() && prev[m] == res@[k];
                    assert(wf_variant(prev[m]));
                }
            }
        }
        i += 1;
    }
    proof {
        assert(vars@.take(vars@.len() as int) == vars@);
    }
    res
}

/// Checks the matcher's invariant on an arbitrary candidate set and
/// ranks it: a set holding GPU variants of two different kinds is
/// rejected rather than ordered arbitrarily.
pub fn sort_candidates(vars: &Vec<Variant>) -> (r: Result<Vec<Variant>, Error>)
    requires
        wf_candidates(vars@),
    ensures
        match r {
            Ok(s) => single_gpu_kind(vars@) && s@ == sort_desc(vars@),
            Err(e) => !single_gpu_kind(vars@) && e is MixedGpuLibraries,
        },
{
    let mut gi: Option<usize> = None;
    let mut i: usize = 0;
    while i < vars.len()
        invariant
            i <= vars@.len(),
            match gi {
                Some(g) => g < i && !is_cpu(vars@[g as int]) && forall|k: int|
                    0 <= k < i && !is_cpu(#[trigger] vars@[k]) ==> vars@[k].library@
                        == vars@[g as int].library@,
                None => forall|k: int| 0 <= k < i ==> is_cpu(#[trigger] vars@[k]),
            },
        decreases vars@.len() - i,
    {
        if !str_eq(vars[i].library.as_str(), "cpu") {
            match gi {
                None => { gi = Some(i); },
                Some(g) => {
                    if !str_eq(vars[i].library.as_str(), vars[g].library.as_str()) {
                        return Err(Error::MixedGpuLibraries);
                    }
                },
            }
        }
        i += 1;
    }
    Ok(sorted_by_rank(vars))
}

impl DeviceInfo {
    /// The subset of the catalog this device can use, in catalog order.
    ///
    /// A CPU device keeps the CPU variants whose required tier is at
    /// most its own; a GPU device keeps its own kind and every CPU
    /// variant.
    pub fn variants(&self, vars: &Vec<Variant>) -> (r: Vec<Variant>)
        requires
            self.library@ == "cpu"@ ==> forall|i: int|
                0 <= i < vars@.len() && is_cpu(#[trigger] vars@[i]) ==> CPUCapability::wf_tag(
                    vars@[i].variant@,
                ),
        ensures
            r@ == matched(*self, vars@),
    {
        let dev_is_cpu = str_eq(self.library.as_str(), "cpu");
        let mut r: Vec<Variant> = Vec::new();
        let mut i: usize = 0;
        while i < vars.len()
            invariant
                i <= vars@.len(),
                dev_is_cpu == (self.library@ == "cpu"@),
                self.library@ == "cpu"@ ==> forall|k: int|
                    0 <= k < vars@.len() && is_cpu(#[trigger] vars@[k]) ==> CPUCapability::wf_tag(
                        vars@[k].variant@,
                    ),
                r@ == matched(*self, vars@.take(i as int)),
            decreases vars@.len() - i,
        {
            let v = &vars[i];
            let keep: bool = if dev_is_cpu {
                str_eq(v.library.as_str(), "cpu") && self.variant.at_least(
                    &CPUCapability::from(v.variant.as_str()),
                )
            } else {
                str_eq(v.library.as_str(), self.library.as_str()) || str_eq(
                    v.library.as_str(),
                    "cpu",
                )
            };
            proof {
                reveal(Seq::filter);
                assert(vars@.take(i + 1).drop_last() == vars@.take(i as int));
                assert(vars@.take(i + 1).last() == vars@[i as int]);
                assert(keep == matches_device(*self, vars@[i as int]));
            }
            if keep {
                r.push(vars[i].clone());
            }
            i += 1;
        }
        proof {
            assert(vars@.take(vars@.len() as int) == vars@);
        }
        r
    }
}

/// The catalog subset usable by `dev`, ordered most-capable-first: the
/// try order of the loader for this device.
pub fn ranked_variants(dev: &DeviceInfo, catalog: &Vec<Variant>) -> (r: Vec<Variant>)
    requires
        wf_candidates(catalog@),
    ensures
        r@ == sort_desc(matched(*dev, catalog@)),
{
    let m = dev.variants(catalog);
    proof {
        lemma_filter_subset(catalog@, |v: Variant| matches_device(*dev, v));
        assert forall|k: int| 0 <= k < m@.len() implies wf_variant(#[trigger] m@[k]) by {
            assert(m@.contains(m@[k]));
            assert(catalog@.contains(m@[k]));
            let j = choose|j: int| 0 <= j < catalog@.len() && catalog@[j] == m@[k];
            assert(wf_variant(catalog@[j]));
        }
    }
    sorted_by_rank(&m)
}

/// True when every variant of the catalog has an evaluable tag, so that
/// the ranking's preconditions hold. Callers that scanned an arbitrary
/// directory check this first.
pub fn catalog_is_wf(vars: &Vec<Variant>) -> (r: bool)
    ensures
        r == wf_candidates(vars@),
{
    let mut i: usize = 0;
    while i < vars.len()
        invariant
            i <= vars@.len(),
            forall|k: int| 0 <= k < i ==> wf_variant(#[trigger] vars@[k]),
        decreases vars@.len() - i,
    {
        let v = &vars[i];
        let ok: bool = if str_eq(v.library.as_str(), "cpu") {
            CPUCapability::tag_is_wf(v.variant.as_str())
        } else {
            version_tag_is_wf(v.variant.as_str())
        };
        if !ok {
            return false;
        }
        i += 1;
    }
    true
}

/// For a host detected as a CPU at some tier, the try order holds only
/// CPU variants requiring at most that tier, and its first entry
/// requires the highest tier among them: a variant requiring more than
/// the host is never attempted, and the most specific usable build is
/// attempted first.
pub proof fn lemma_cpu_tier_selection(dev: DeviceInfo, catalog: Seq<Variant>)
    requires
        dev.library@ == "cpu"@,
    ensures
        ({
            let order = sort_desc(matched(dev, catalog));
            &&& forall|i: int|
                0 <= i < order.len() ==> is_cpu(#[trigger] order[i]) && CPUCapability::of_tag(
                    order[i].variant@,
                ).tier() <= dev.variant.tier()
            &&& forall|i: int|
                0 < i < order.len() ==> CPUCapability::of_tag(order[0].variant@).tier()
                    >= CPUCapability::of_tag(#[trigger] order[i].variant@).tier()
        }),
{
    let m = matched(dev, catalog);
    let order = sort_desc(m);
    lemma_sort_desc_ensures(m);
    assert forall|i: int| 0 <= i < order.len() implies is_cpu(#[trigger] order[i])
        && CPUCapability::of_tag(order[i].variant@).tier() <= dev.variant.tier() by {
        assert(order.contains(order[i]));
        assert(m.contains(order[i]));
        let k = choose|k: int| 0 <= k < m.len() && m[k] == order[i];
        catalog.lemma_filter_pred(|v: Variant| matches_device(dev, v), k);
    }
    assert forall|i: int| 0 < i < order.len() implies CPUCapability::of_tag(
        order[0].variant@,
    ).tier() >= CPUCapability::of_tag(#[trigger] order[i].variant@).tier() by {
        assert(rank_key(order[0]) >= rank_key(order[i]));
    }
}

/// For a GPU-class device, every CPU variant of the catalog is in the
/// try order, and every native variant of the device's kind is
/// attempted before any CPU variant.
pub proof fn lemma_gpu_fallback(dev: DeviceInfo, catalog: Seq<Variant>)
    requires
        dev.library@ != "cpu"@,
        wf_candidates(catalog),
    ensures
        ({
            let order = sort_desc(matched(dev, catalog));
            &&& forall|k: int|
                0 <= k < catalog.len() && is_cpu(#[trigger] catalog[k]) ==> order.contains(
                    catalog[k],
                )
            &&& forall|i: int, j: int|
                #![trigger order[i], order[j]]
                0 <= i < order.len() && 0 <= j < order.len() && !is_cpu(order[i]) && is_cpu(
                    order[j],
                ) ==> i < j
        }),
{
    let m = matched(dev, catalog);
    let order = sort_desc(m);
    lemma_sort_desc_ensures(m);
    assert forall|k: int| 0 <= k < catalog.len() && is_cpu(#[trigger] catalog[k]) implies
        order.contains(catalog[k]) by {
        assert(matches_device(dev, catalog[k]));
        catalog.lemma_filter_contains(|v: Variant| matches_device(dev, v), k);
    }
    lemma_filter_subset(catalog, |v: Variant| matches_device(dev, v));
    assert forall|i: int, j: int|
        #![trigger order[i], order[j]]
        0 <= i < order.len() && 0 <= j < order.len() && !is_cpu(order[i]) && is_cpu(
            order[j],
        ) implies i < j by {
        assert(order.contains(order[i]));
        assert(catalog.contains(order[i]));
        let k = choose|k: int| 0 <= k < catalog.len() && catalog[k] == order[i];
        assert(wf_variant(catalog[k]));
        lemma_digits_val_bound(crate::version::major_str(order[i].variant@));
        if crate::version::has_minor(order[i].variant@) {
            lemma_digits_val_bound(crate::version::minor_str(order[i].variant@));
        }
        assert(rank_key(order[i]) >= 3);
        assert(rank_key(order[j]) <= 2);
        if j < i {
            assert(rank_key(order[j]) >= rank_key(order[i]));
            assert(false);
        }
        if j == i {
            assert(false);
        }
    }
}

} // verus!
