//! The foreground application as the platform reports it, and the list of
//! running applications offered when a rule is created.
use vstd::prelude::*;

use crate::text::{
    bytes_less, lemma_lex_irreflexive, lemma_lex_total, lemma_lex_transitive, lex_less, same_text,
    text_bytes,
};

verus! {

/// An application identified by its platform identifier (a macOS bundle
/// identifier). The process identifier locates its windows and is never
/// shown to the user interface.
#[derive(Clone, Debug, PartialEq)]
pub struct ForegroundApplication {
    pub platform_app_id: String,
    pub display_name: String,
    pub process_id: i32,
}

/// The platform identifier of this application, which never protects itself.
pub const OWN_APP_ID: &'static str = "com.privacyaperture.desktop";

/// The identifier bytes applications are ordered by.
pub open spec fn app_key(a: ForegroundApplication) -> Seq<u8> {
    text_bytes(a.platform_app_id@)
}

pub open spec fn is_own(a: ForegroundApplication) -> bool {
    a.platform_app_id@ == OWN_APP_ID@
}

/// Application `i` is not this application and is the first entry from
/// index `m` on with its identifier.
pub open spec fn first_from(apps: Seq<ForegroundApplication>, m: int, i: int) -> bool {
    &&& m <= i < apps.len()
    &&& !is_own(apps[i])
    &&& forall|j: int| m <= j < i ==> (#[trigger] apps[j]).platform_app_id@ != apps[i].platform_app_id@
}

/// Strictly ascending by identifier.
pub open spec fn sorted_by_id(r: Seq<ForegroundApplication>) -> bool {
    forall|i: int, j: int| 0 <= i < j < r.len() ==> lex_less(app_key(#[trigger] r[i]), app_key(#[trigger] r[j]))
}

/// `x` is the first entry from index `m` on with its identifier.
pub open spec fn drawn_from(apps: Seq<ForegroundApplication>, m: int, x: ForegroundApplication) -> bool {
    exists|i: int| #![trigger first_from(apps, m, i)] first_from(apps, m, i) && x == apps[i]
}

/// `x` is one of the listed entries.
pub open spec fn listed_in(r: Seq<ForegroundApplication>, x: ForegroundApplication) -> bool {
    exists|k: int| #![trigger r[k]] 0 <= k < r.len() && r[k] == x
}

/// Every listed entry is the first reported entry of its identifier (other
/// than this application), and every such entry is listed.
pub open spec fn lists_first_entries(
    apps: Seq<ForegroundApplication>,
    m: int,
    r: Seq<ForegroundApplication>,
) -> bool {
    &&& forall|k: int| 0 <= k < r.len() ==> drawn_from(apps, m, #[trigger] r[k])
    &&& forall|i: int| #[trigger] first_from(apps, m, i) ==> listed_in(r, apps[i])
}

proof fn lemma_sorted_ids_distinct(r: Seq<ForegroundApplication>, i: int, j: int)
    requires
        sorted_by_id(r),
        0 <= i < r.len(),
        0 <= j < r.len(),
        i != j,
    ensures
        r[i].platform_app_id@ != r[j].platform_app_id@,
{
    if i < j {
        assert(lex_less(app_key(r[i]), app_key(r[j])));
        lemma_lex_irreflexive(app_key(r[i]));
    } else {
        assert(lex_less(app_key(r[j]), app_key(r[i])));
        lemma_lex_irreflexive(app_key(r[j]));
    }
}

fn position_of(list: &Vec<ForegroundApplication>, id: &str) -> (r: Option<usize>)
    ensures
        r matches Some(k) ==> k < list@.len() && list@[k as int].platform_app_id@ == id@,
        r is None ==> forall|k: int| 0 <= k < list@.len() ==> (#[trigger] list@[k]).platform_app_id@ != id@,
{
    let mut k: usize = 0;
    while k < list.len()
        invariant
            0 <= k <= list@.len(),
            forall|q: int| 0 <= q < k ==> (#[trigger] list@[q]).platform_app_id@ != id@,
        decreases list@.len() - k,
    {
        if same_text(list[k].platform_app_id.as_str(), id) {
            return Some(k);
        }
        k = k + 1;
    }
    None
}

fn insertion_point(list: &Vec<ForegroundApplication>, id: &str) -> (p: usize)
    requires
        sorted_by_id(list@),
        forall|k: int| 0 <= k < list@.len() ==> (#[trigger] list@[k]).platform_app_id@ != id@,
    ensures
        p <= list@.len(),
        forall|q: int| 0 <= q < p ==> lex_less(app_key(#[trigger] list@[q]), text_bytes(id@)),
        forall|q: int| p <= q < list@.len() ==> lex_less(text_bytes(id@), app_key(#[trigger] list@[q])),
{
    let key = id.as_bytes();
    let mut p: usize = 0;
    while p < list.len() && bytes_less(list[p].platform_app_id.as_str().as_bytes(), key)
        invariant
            key@ == text_bytes(id@),
            0 <= p <= list@.len(),
            forall|q: int| 0 <= q < p ==> lex_less(app_key(#[trigger] list@[q]), key@),
        decreases list@.len() - p,
    {
        p = p + 1;
    }
    if p < list.len() {
        let ghost at = app_key(list@[p as int]);
        proof {
            crate::text::lemma_text_bytes_injective(list@[p as int].platform_app_id@, id@);
            lemma_lex_total(at, key@);
            assert forall|q: int| p <= q < list@.len() implies lex_less(
                key@,
                app_key(#[trigger] list@[q]),
            ) by {
                if q > p {
                    assert(lex_less(app_key(list@[p as int]), app_key(list@[q])));
                    lemma_lex_transitive(key@, at, app_key(list@[q]));
                }
            }
        }
    }
    p
}

proof fn lemma_skip_own(orig: Seq<ForegroundApplication>, m: int, r: Seq<ForegroundApplication>)
    requires
        0 < m <= orig.len(),
        is_own(orig[m - 1]),
        lists_first_entries(orig, m, r),
    ensures
        lists_first_entries(orig, m - 1, r),
{
    assert forall|i: int| first_from(orig, m, i) implies #[trigger] first_from(orig, m - 1, i) by {
        assert(orig[m - 1].platform_app_id@ != orig[i].platform_app_id@);
    }
    assert forall|k: int| 0 <= k < r.len() implies drawn_from(orig, m - 1, #[trigger] r[k]) by {
        assert(drawn_from(orig, m, r[k]));
        let i = choose|i: int| first_from(orig, m, i) && r[k] == orig[i];
        assert(first_from(orig, m - 1, i));
    }
    assert forall|i: int| #[trigger] first_from(orig, m - 1, i) implies listed_in(r, orig[i]) by {
        assert(first_from(orig, m, i));
    }
}

proof fn lemma_replace_entry(
    orig: Seq<ForegroundApplication>,
    m: int,
    before: Seq<ForegroundApplication>,
    k: int,
    after: Seq<ForegroundApplication>,
)
    requires
        0 < m <= orig.len(),
        !is_own(orig[m - 1]),
        sorted_by_id(before),
        lists_first_entries(orig, m, before),
        0 <= k < before.len(),
        before[k].platform_app_id@ == orig[m - 1].platform_app_id@,
        after == before.update(k, orig[m - 1]),
    ensures
        sorted_by_id(after),
        lists_first_entries(orig, m - 1, after),
{
    assert forall|q: int| 0 <= q < before.len() && q != k implies (#[trigger] before[q]).platform_app_id@
        != orig[m - 1].platform_app_id@ by {
        lemma_sorted_ids_distinct(before, q, k);
    }
    assert forall|i: int, j: int| 0 <= i < j < after.len() implies lex_less(
        app_key(#[trigger] after[i]),
        app_key(#[trigger] after[j]),
    ) by {
        assert(lex_less(app_key(before[i]), app_key(before[j])));
    }
    assert forall|q: int| 0 <= q < after.len() implies drawn_from(orig, m - 1, #[trigger] after[q]) by {
        if q == k {
            assert(first_from(orig, m - 1, m - 1));
        } else {
            assert(drawn_from(orig, m, before[q]));
            let i = choose|i: int| first_from(orig, m, i) && before[q] == orig[i];
            assert(first_from(orig, m - 1, i));
        }
    }
    assert forall|i: int| #[trigger] first_from(orig, m - 1, i) implies listed_in(after, orig[i]) by {
        if i == m - 1 {
            assert(after[k] == orig[i]);
        } else {
            assert(first_from(orig, m, i));
            assert(listed_in(before, orig[i]));
            let q = choose|q: int| 0 <= q < before.len() && before[q] == orig[i];
            assert(q != k);
            assert(after[q] == orig[i]);
        }
    }
}

proof fn lemma_insert_entry(
    orig: Seq<ForegroundApplication>,
    m: int,
    before: Seq<ForegroundApplication>,
    p: int,
    after: Seq<ForegroundApplication>,
)
    requires
        0 < m <= orig.len(),
        !is_own(orig[m - 1]),
        sorted_by_id(before),
        lists_first_entries(orig, m, before),
        forall|q: int| 0 <= q < before.len() ==> (#[trigger] before[q]).platform_app_id@ != orig[m
            - 1].platform_app_id@,
        0 <= p <= before.len(),
        forall|q: int| 0 <= q < p ==> lex_less(app_key(#[trigger] before[q]), app_key(orig[m - 1])),
        forall|q: int| p <= q < before.len() ==> lex_less(app_key(orig[m - 1]), app_key(#[trigger] before[q])),
        after == before.insert(p, orig[m - 1]),
    ensures
        sorted_by_id(after),
        lists_first_entries(orig, m - 1, after),
{
    let key = app_key(orig[m - 1]);
    assert forall|i: int, j: int| 0 <= i < j < after.len() implies lex_less(
        app_key(#[trigger] after[i]),
        app_key(#[trigger] after[j]),
    ) by {
        if j < p {
            assert(lex_less(app_key(before[i]), app_key(before[j])));
        } else if j == p {
            assert(lex_less(app_key(before[i]), key));
        } else if i < p {
            assert(lex_less(app_key(before[i]), key));
            assert(lex_less(key, app_key(before[j - 1])));
            lemma_lex_transitive(app_key(before[i]), key, app_key(before[j - 1]));
        } else if i == p {
            assert(lex_less(key, app_key(before[j - 1])));
        } else {
            assert(lex_less(app_key(before[i - 1]), app_key(before[j - 1])));
        }
    }
    assert forall|q: int| 0 <= q < after.len() implies drawn_from(orig, m - 1, #[trigger] after[q]) by {
        if q == p {
            assert(first_from(orig, m - 1, m - 1));
        } else {
            let b = if q < p { q } else { q - 1 };
            assert(after[q] == before[b]);
            assert(drawn_from(orig, m, before[b]));
            let i = choose|i: int| first_from(orig, m, i) && before[b] == orig[i];
            assert(first_from(orig, m - 1, i));
        }
    }
    assert forall|i: int| #[trigger] first_from(orig, m - 1, i) implies listed_in(after, orig[i]) by {
        if i == m - 1 {
            assert(after[p] == orig[i]);
        } else {
            assert(first_from(orig, m, i));
            assert(listed_in(before, orig[i]));
            let b = choose|b: int| 0 <= b < before.len() && before[b] == orig[i];
            if b < p {
                assert(after[b] == orig[i]);
            } else {
                assert(after[b + 1] == orig[i]);
            }
        }
    }
}

/// The running applications offered for new rules: this application left
/// out, one entry per identifier (the first one reported), ordered by
/// identifier.
pub fn distinct_running(apps: Vec<ForegroundApplication>) -> (r: Vec<ForegroundApplication>)
    ensures
        sorted_by_id(r@),
        lists_first_entries(apps@, 0, r@),
{
    let ghost orig = apps@;
    let mut rest = apps;
    let mut out: Vec<ForegroundApplication> = Vec::new();
    while rest.len() > 0
        invariant
            rest@ == orig.subrange(0, rest@.len() as int),
            rest@.len() <= orig.len(),
            sorted_by_id(out@),
            lists_first_entries(orig, rest@.len() as int, out@),
        decreases rest@.len(),
    {
        let ghost m = rest@.len() as int;
        let ghost before = out@;
        let app = match rest.pop() {
            Some(app) => app,
            None => {
                return out;
            },
        };
        assert(app == orig[m - 1]);
        if same_text(app.platform_app_id.as_str(), OWN_APP_ID) {
            proof {
                lemma_skip_own(orig, m, before);
            }
        } else {
            match position_of(&out, app.platform_app_id.as_str()) {
                Some(k) => {
                    out.set(k, app);
                    proof {
                        lemma_replace_entry(orig, m, before, k as int, out@);
                    }
                },
                None => {
                    let p = insertion_point(&out, app.platform_app_id.as_str());
                    out.insert(p, app);
                    proof {
                        lemma_insert_entry(orig, m, before, p as int, out@);
                    }
                },
            }
        }
    }
    out
}

/// Whether a process owns one of the eligible windows.
pub open spec fn owns_window(owners: Seq<i32>) -> spec_fn(ForegroundApplication) -> bool {
    |a: ForegroundApplication| owners.contains(a.process_id)
}

fn is_owner(owners: &Vec<i32>, process_id: i32) -> (b: bool)
    ensures
        b == owners@.contains(process_id),
{
    let mut i: usize = 0;
    while i < owners.len()
        invariant
            0 <= i <= owners@.len(),
            forall|k: int| 0 <= k < i ==> owners@[k] != process_id,
        decreases owners@.len() - i,
    {
        if owners[i] == process_id {
            assert(owners@[i as int] == process_id);
            return true;
        }
        i = i + 1;
    }
    false
}

/// Keeps, in order, the applications whose process owns an eligible window
/// (`owners` lists those processes), so that helpers and agents without a
/// window are not offered. This comes before `distinct_running`.
pub fn windowed_applications(apps: Vec<ForegroundApplication>, owners: &Vec<i32>) -> (r: Vec<
    ForegroundApplication,
>)
    ensures
        r@ == apps@.filter(owns_window(owners@)),
{
    let ghost orig = apps@;
    let ghost pred = owns_window(owners@);
    let mut rest = apps;
    let mut out: Vec<ForegroundApplication> = Vec::new();
    proof {
        reveal(Seq::filter);
        assert(orig.take(0) =~= Seq::<ForegroundApplication>::empty());
    }
    while rest.len() > 0
        invariant
            rest@ == orig.skip(orig.len() - rest@.len()),
            rest@.len() <= orig.len(),
            pred == owns_window(owners@),
            out@ == orig.take(orig.len() - rest@.len()).filter(pred),
        decreases rest@.len(),
    {
        let ghost k = orig.len() - rest@.len();
        let app = rest.remove(0);
        assert(app == orig[k]);
        assert(rest@ =~= orig.skip(k + 1));
        let keep = is_owner(owners, app.process_id);
        proof {
            reveal(Seq::filter);
            assert(orig.take(k + 1).drop_last() =~= orig.take(k));
            assert(orig.take(k + 1).last() == orig[k]);
        }
        if keep {
            out.push(app);
        }
    }
    proof {
        assert(orig.take(orig.len() as int) =~= orig);
    }
    out
}

} // verus!
