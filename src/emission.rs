//! Exact carbon emission sums of a sheet's line items, per category.
//!
//! An item's emission is its quantity times the carbon factor that applies to
//! it, both in millionths, so emissions are counted in millionths of
//! millionths. An item whose quantity is no number contributes zero.
use vstd::prelude::*;
use crate::category::Category;
use crate::import::{LineItem, LineItemView, items_view};
use crate::number::{parse_fixed, parse_fixed_spec, scale};
use crate::reference::{ReferenceTables, ReferenceTablesView, factor_spec, lookup_spec, strip_prefix};

verus! {

/// Largest magnitude, in millionths of millionths, that a running category
/// sum may reach: `10^28`, that is `10^16` units of emission.
pub const EMISSION_LIMIT: i128 = 10_000_000_000_000_000_000_000_000_000;

/// The emission of one line item: quantity times factor, or zero where the
/// quantity is no number.
pub open spec fn item_emission(refs: ReferenceTablesView, it: LineItemView) -> int {
    match parse_fixed_spec(it.quantity) {
        Some(q) => q * factor_spec(refs, it.code, it.category),
        None => 0,
    }
}

/// The summed emission of the items of category `c` among the first `k` items.
pub open spec fn category_sum(
    refs: ReferenceTablesView,
    items: Seq<LineItemView>,
    c: Category,
    k: int,
) -> int
    decreases k,
{
    if k <= 0 {
        0
    } else {
        category_sum(refs, items, c, k - 1) + if items[k - 1].category == c {
            item_emission(refs, items[k - 1])
        } else {
            0
        }
    }
}

/// The emission of category `c` over all of `items`.
pub open spec fn category_total(refs: ReferenceTablesView, items: Seq<LineItemView>, c: Category) -> int {
    category_sum(refs, items, c, items.len() as int)
}

pub open spec fn within_limit(v: int) -> bool {
    -(EMISSION_LIMIT as int) <= v <= EMISSION_LIMIT as int
}

/// Whether every running sum of the labor, material and machine emissions of
/// `items` stays within `EMISSION_LIMIT`.
pub open spec fn sums_in_range(refs: ReferenceTablesView, items: Seq<LineItemView>) -> bool {
    forall|j: int|
        0 <= j <= items.len() ==> {
            &&& within_limit(#[trigger] category_sum(refs, items, Category::Labor, j))
            &&& within_limit(category_sum(refs, items, Category::Material, j))
            &&& within_limit(category_sum(refs, items, Category::Machine, j))
        }
}

proof fn lemma_category_sum_prefix(
    refs: ReferenceTablesView,
    a: Seq<LineItemView>,
    b: Seq<LineItemView>,
    c: Category,
    k: int,
)
    requires
        0 <= k <= a.len(),
    ensures
        category_sum(refs, a + b, c, k) == category_sum(refs, a, c, k),
    decreases k,
{
    if k > 0 {
        lemma_category_sum_prefix(refs, a, b, c, k - 1);
        assert((a + b)[k - 1] == a[k - 1]);
    }
}

/// The category total is a sum over the items: it adds up over a split of the
/// items, and one item contributes its quantity times its factor exactly when
/// it has the category.
pub proof fn lemma_category_total_additive(
    refs: ReferenceTablesView,
    a: Seq<LineItemView>,
    b: Seq<LineItemView>,
    c: Category,
)
    ensures
        category_total(refs, a + b, c) == category_total(refs, a, c) + category_total(refs, b, c),
        category_total(refs, Seq::empty(), c) == 0,
        forall|it: LineItemView| #[trigger]
            category_total(refs, seq![it], c) == if it.category == c {
                item_emission(refs, it)
            } else {
                0
            },
    decreases b.len(),
{
    if b.len() == 0 {
        assert(a + b =~= a);
    } else {
        let b0 = b.drop_last();
        lemma_category_total_additive(refs, a, b0, c);
        assert(a + b0 == (a + b).drop_last());
        assert((a + b)[a.len() + b.len() - 1] == b.last());
        lemma_category_sum_prefix(refs, b0, seq![b.last()], c, b0.len() as int);
        assert(b0 + seq![b.last()] =~= b);
        assert(category_sum(refs, a + b, c, (a.len() + b.len()) as int - 1) == category_sum(
            refs,
            a + b0,
            c,
            (a + b0).len() as int,
        )) by {
            lemma_category_sum_prefix(refs, a + b0, seq![b.last()], c, (a + b0).len() as int);
            assert((a + b0) + seq![b.last()] =~= a + b);
        }
    }
    assert forall|it: LineItemView| #[trigger]
        category_total(refs, seq![it], c) == if it.category == c {
            item_emission(refs, it)
        } else {
            0
        } by {
        assert(seq![it][0] == it);
        assert(category_sum(refs, seq![it], c, 0) == 0);
        assert(category_sum(refs, seq![it], c, 1) == category_sum(refs, seq![it], c, 0) + if it.category == c {
            item_emission(refs, it)
        } else {
            0
        });
    }
}

/// An item whose code has no entry in its category's reference table, or
/// that has no category, counts with a factor of one.
pub proof fn lemma_missing_reference(refs: ReferenceTablesView, it: LineItemView, q: int)
    requires
        parse_fixed_spec(it.quantity) == Some(q),
        match it.category {
            Category::Labor => lookup_spec(refs.labor, strip_prefix(it.code)) is None,
            Category::Material => lookup_spec(refs.material, strip_prefix(it.code)) is None,
            Category::Machine => lookup_spec(refs.machine, strip_prefix(it.code)) is None,
            Category::Uncategorized => true,
        },
    ensures
        item_emission(refs, it) == q * scale(),
{
}

/// The emission totals of one sheet, in millionths of millionths.
#[derive(Clone, Copy, Debug, PartialEq, Eq, Structural)]
pub struct Totals {
    pub labor: i128,
    pub material: i128,
    pub machine: i128,
}

impl Totals {
    /// The sum of the three category totals.
    pub open spec fn subtotal_spec(self) -> int {
        self.labor + self.material + self.machine
    }

    pub fn subtotal(self) -> (r: i128)
        requires
            within_limit(self.labor as int),
            within_limit(self.material as int),
            within_limit(self.machine as int),
        ensures
            r == self.subtotal_spec(),
    {
        self.labor + self.material + self.machine
    }
}

/// Bound on the product of two `i64` values: `2^126`.
pub const PRODUCT_BOUND: i128 = 0x4000_0000_0000_0000_0000_0000_0000_0000;

pub proof fn lemma_product_bound(q: int, f: int)
    requires
        i64::MIN <= q <= i64::MAX,
        i64::MIN <= f <= i64::MAX,
    ensures
        -(PRODUCT_BOUND as int) <= q * f <= PRODUCT_BOUND as int,
{
    let m: int = 0x8000_0000_0000_0000;
    assert(-m <= q <= m && -m <= f <= m);
    assert(-(m * m) <= q * f <= m * m) by (nonlinear_arith)
        requires
            -m <= q <= m,
            -m <= f <= m,
            m >= 0,
    ;
    assert(m * m == PRODUCT_BOUND as int);
}

/// The emission of one line item (see `item_emission`).
pub fn line_emission(it: &LineItem, refs: &ReferenceTables) -> (r: i128)
    ensures
        r == item_emission(refs@, it@),
        -PRODUCT_BOUND <= r <= PRODUCT_BOUND,
{
    match parse_fixed(it.quantity.as_str()) {
        Some(q) => {
            let f = refs.factor_for(it.code.as_str(), it.category);
            proof {
                lemma_product_bound(q as int, f as int);
            }
            (q as i128) * (f as i128)
        },
        None => 0,
    }
}

/// The labor, material and machine emission totals of `items`; `None`
/// exactly when a running sum leaves `EMISSION_LIMIT`.
pub fn sheet_totals(items: &Vec<LineItem>, refs: &ReferenceTables) -> (r: Option<Totals>)
    ensures
        r matches Some(t) ==> {
            &&& sums_in_range(refs@, items_view(items@))
            &&& t.labor == category_total(refs@, items_view(items@), Category::Labor)
            &&& t.material == category_total(refs@, items_view(items@), Category::Material)
            &&& t.machine == category_total(refs@, items_view(items@), Category::Machine)
        },
        r is None ==> !sums_in_range(refs@, items_view(items@)),
{
    let ghost iv = items_view(items@);
    let mut labor: i128 = 0;
    let mut material: i128 = 0;
    let mut machine: i128 = 0;
    let mut k: usize = 0;
    while k < items.len()
        invariant
            iv == items_view(items@),
            k <= items.len(),
            labor == category_sum(refs@, iv, Category::Labor, k as int),
            material == category_sum(refs@, iv, Category::Material, k as int),
            machine == category_sum(refs@, iv, Category::Machine, k as int),
            forall|j: int|
                0 <= j <= k ==> {
                    &&& within_limit(#[trigger] category_sum(refs@, iv, Category::Labor, j))
                    &&& within_limit(category_sum(refs@, iv, Category::Material, j))
                    &&& within_limit(category_sum(refs@, iv, Category::Machine, j))
                },
        decreases items.len() - k,
    {
        let it = &items[k];
        assert(iv[k as int] == it@);
        let e = line_emission(it, refs);
        assert(within_limit(category_sum(refs@, iv, Category::Labor, k as int)));
        match it.category {
            Category::Labor => {
                labor = labor + e;
            },
            Category::Material => {
                material = material + e;
            },
            Category::Machine => {
                machine = machine + e;
            },
            Category::Uncategorized => {},
        }
        k = k + 1;
        if labor > EMISSION_LIMIT || labor < -EMISSION_LIMIT || material > EMISSION_LIMIT
            || material < -EMISSION_LIMIT || machine > EMISSION_LIMIT || machine
            < -EMISSION_LIMIT {
            assert(labor == category_sum(refs@, iv, Category::Labor, k as int));
            assert(material == category_sum(refs@, iv, Category::Material, k as int));
            assert(machine == category_sum(refs@, iv, Category::Machine, k as int));
            assert(!sums_in_range(refs@, iv)) by {
                if sums_in_range(refs@, iv) {
                    assert(within_limit(category_sum(refs@, iv, Category::Labor, k as int)));
                }
            }
            return None;
        }
        assert(within_limit(category_sum(refs@, iv, Category::Labor, k as int)));
        assert(within_limit(category_sum(refs@, iv, Category::Material, k as int)));
        assert(within_limit(category_sum(refs@, iv, Category::Machine, k as int)));
        assert forall|j: int| 0 <= j <= k implies {
            &&& within_limit(#[trigger] category_sum(refs@, iv, Category::Labor, j))
            &&& within_limit(category_sum(refs@, iv, Category::Material, j))
            &&& within_limit(category_sum(refs@, iv, Category::Machine, j))
        } by {
            if j < k {
                assert(within_limit(category_sum(refs@, iv, Category::Labor, j)));
            }
        }
    }
    Some(Totals { labor, material, machine })
}

} // verus!
