//! The drill-down rows of one sheet: for each of labor, material and machine
//! that has items, a header row carrying the category's total emission, then
//! its items numbered from one; a blank separator row stands between groups.
use vstd::prelude::*;
use crate::category::{Category, marker_spec};
use crate::emission::{Totals, category_total, sums_in_range, sheet_totals, lemma_product_bound};
use crate::format::{nat_text, count_text};
use crate::import::{LineItem, LineItemView, items_view};
use crate::number::{parse_fixed, parse_fixed_spec};
use crate::reference::{ReferenceTables, ReferenceTablesView, factor_spec};

verus! {

/// What a drill-down row is.
#[derive(Clone, Copy, Debug, PartialEq, Eq, Structural)]
pub enum DetailKind {
    /// Opens the items of one category and carries their total emission.
    CategoryHeader,
    /// One line item with its factor and emission.
    Item,
    /// A blank row between two category groups.
    Separator,
}

/// One drill-down row. Factors are in millionths, emissions in millionths of
/// millionths.
pub struct SubItemRow {
    pub kind: DetailKind,
    pub serial: String,
    pub code: String,
    pub description: String,
    pub unit: String,
    pub quantity: String,
    pub factor: Option<i64>,
    pub emission: Option<i128>,
    pub category: Category,
}

pub struct SubItemRowView {
    pub kind: DetailKind,
    pub serial: Seq<char>,
    pub code: Seq<char>,
    pub description: Seq<char>,
    pub unit: Seq<char>,
    pub quantity: Seq<char>,
    pub factor: Option<int>,
    pub emission: Option<int>,
    pub category: Category,
}

impl View for SubItemRow {
    type V = SubItemRowView;

    open spec fn view(&self) -> SubItemRowView {
        SubItemRowView {
            kind: self.kind,
            serial: self.serial@,
            code: self.code@,
            description: self.description@,
            unit: self.unit@,
            quantity: self.quantity@,
            factor: match self.factor {
                Some(f) => Some(f as int),
                None => None,
            },
            emission: match self.emission {
                Some(e) => Some(e as int),
                None => None,
            },
            category: self.category,
        }
    }
}

pub open spec fn details_view(rows: Seq<SubItemRow>) -> Seq<SubItemRowView> {
    rows.map_values(|r: SubItemRow| r@)
}

/// The items of category `c` among the first `k` of `items`, in order.
pub open spec fn only(items: Seq<LineItemView>, c: Category, k: int) -> Seq<LineItemView>
    decreases k,
{
    if k <= 0 {
        Seq::empty()
    } else if items[k - 1].category == c {
        only(items, c, k - 1).push(items[k - 1])
    } else {
        only(items, c, k - 1)
    }
}

/// The drill-down row of item `it`, numbered `n`.
pub open spec fn item_detail(refs: ReferenceTablesView, it: LineItemView, n: nat) -> SubItemRowView {
    let f = factor_spec(refs, it.code, it.category);
    SubItemRowView {
        kind: DetailKind::Item,
        serial: nat_text(n),
        code: it.code,
        description: it.description,
        unit: it.unit,
        quantity: it.quantity,
        factor: Some(f),
        emission: match parse_fixed_spec(it.quantity) {
            Some(q) => Some(q * f),
            None => None,
        },
        category: it.category,
    }
}

/// The row that opens the group of category `c`, whose items emit `total`.
pub open spec fn header_detail(c: Category, total: int) -> SubItemRowView {
    SubItemRowView {
        kind: DetailKind::CategoryHeader,
        serial: Seq::empty(),
        code: Seq::empty(),
        description: marker_spec(c),
        unit: Seq::empty(),
        quantity: Seq::empty(),
        factor: None,
        emission: Some(total),
        category: c,
    }
}

pub open spec fn separator_detail() -> SubItemRowView {
    SubItemRowView {
        kind: DetailKind::Separator,
        serial: Seq::empty(),
        code: Seq::empty(),
        description: Seq::empty(),
        unit: Seq::empty(),
        quantity: Seq::empty(),
        factor: None,
        emission: None,
        category: Category::Uncategorized,
    }
}

/// The group of category `c`: its header row, then its items numbered from one.
pub open spec fn group_details(
    refs: ReferenceTablesView,
    items: Seq<LineItemView>,
    c: Category,
) -> Seq<SubItemRowView> {
    let its = only(items, c, items.len() as int);
    seq![header_detail(c, category_total(refs, items, c))] + Seq::new(
        its.len(),
        |i: int| item_detail(refs, its[i], (i + 1) as nat),
    )
}

/// `acc` followed by the group of category `c`, if `c` has items, with a
/// separator between them when `acc` is not empty.
pub open spec fn join_group(
    refs: ReferenceTablesView,
    items: Seq<LineItemView>,
    acc: Seq<SubItemRowView>,
    c: Category,
) -> Seq<SubItemRowView> {
    if only(items, c, items.len() as int).len() == 0 {
        acc
    } else if acc.len() == 0 {
        group_details(refs, items, c)
    } else {
        acc.push(separator_detail()) + group_details(refs, items, c)
    }
}

/// The drill-down rows of a sheet with line items `items`: the groups of
/// labor, material and machine, in that order.
pub open spec fn sheet_details_spec(refs: ReferenceTablesView, items: Seq<LineItemView>) -> Seq<
    SubItemRowView,
> {
    join_group(
        refs,
        items,
        join_group(
            refs,
            items,
            join_group(refs, items, Seq::empty(), Category::Labor),
            Category::Material,
        ),
        Category::Machine,
    )
}

fn empty_text() -> (r: String)
    ensures
        r@ == Seq::<char>::empty(),
{
    String::new()
}

fn item_row(it: &LineItem, refs: &ReferenceTables, n: usize) -> (r: SubItemRow)
    ensures
        r@ == item_detail(refs@, it@, n as nat),
{
    let f = refs.factor_for(it.code.as_str(), it.category);
    let emission = match parse_fixed(it.quantity.as_str()) {
        Some(q) => {
            proof {
                lemma_product_bound(q as int, f as int);
            }
            Some((q as i128) * (f as i128))
        },
        None => None,
    };
    SubItemRow {
        kind: DetailKind::Item,
        serial: count_text(n),
        code: it.code.clone(),
        description: it.description.clone(),
        unit: it.unit.clone(),
        quantity: it.quantity.clone(),
        factor: Some(f),
        emission,
        category: it.category,
    }
}

fn separator_row() -> (r: SubItemRow)
    ensures
        r@ == separator_detail(),
{
    SubItemRow {
        kind: DetailKind::Separator,
        serial: empty_text(),
        code: empty_text(),
        description: empty_text(),
        unit: empty_text(),
        quantity: empty_text(),
        factor: None,
        emission: None,
        category: Category::Uncategorized,
    }
}

/// The group of category `c` (see `group_details`), whose total is `total`.
fn group_rows(items: &Vec<LineItem>, refs: &ReferenceTables, c: Category, total: i128) -> (r: Vec<
    SubItemRow,
>)
    requires
        total == category_total(refs@, items_view(items@), c),
    ensures
        details_view(r@) == group_details(refs@, items_view(items@), c),
        r@.len() == 1 + only(items_view(items@), c, items@.len() as int).len(),
{
    let ghost iv = items_view(items@);
    let mut rows: Vec<SubItemRow> = Vec::new();
    rows.push(
        SubItemRow {
            kind: DetailKind::CategoryHeader,
            serial: empty_text(),
            code: empty_text(),
            description: String::from_str(c.marker()),
            unit: empty_text(),
            quantity: empty_text(),
            factor: None,
            emission: Some(total),
            category: c,
        },
    );
    let mut n: usize = 0;
    let mut k: usize = 0;
    while k < items.len()
        invariant
            iv == items_view(items@),
            k <= items.len(),
            n == only(iv, c, k as int).len(),
            n <= k,
            rows@.len() == 1 + n,
            details_view(rows@)[0] == header_detail(c, category_total(refs@, iv, c)),
            forall|i: int|
                0 <= i < n ==> details_view(rows@)[i + 1] == item_detail(
                    refs@,
                    #[trigger] only(iv, c, k as int)[i],
                    (i + 1) as nat,
                ),
        decreases items.len() - k,
    {
        let it = &items[k];
        assert(iv[k as int] == it@);
        if it.category == c {
            let row = item_row(it, refs, n + 1);
            rows.push(row);
            proof {
                assert(only(iv, c, k + 1) == only(iv, c, k as int).push(it@));
                assert forall|i: int| 0 <= i < n + 1 implies details_view(rows@)[i + 1] == item_detail(
                    refs@,
                    #[trigger] only(iv, c, k + 1)[i],
                    (i + 1) as nat,
                ) by {
                    if i < n {
                        assert(only(iv, c, k + 1)[i] == only(iv, c, k as int)[i]);
                    }
                }
            }
            n = n + 1;
        } else {
            assert(only(iv, c, k + 1) == only(iv, c, k as int));
        }
        k = k + 1;
    }
    assert(details_view(rows@) =~= group_details(refs@, iv, c));
    rows
}

/// The drill-down rows of a sheet whose emission totals are `t`.
pub fn details_with_totals(items: &Vec<LineItem>, refs: &ReferenceTables, t: Totals) -> (r: Vec<
    SubItemRow,
>)
    requires
        t.labor == category_total(refs@, items_view(items@), Category::Labor),
        t.material == category_total(refs@, items_view(items@), Category::Material),
        t.machine == category_total(refs@, items_view(items@), Category::Machine),
    ensures
        details_view(r@) == sheet_details_spec(refs@, items_view(items@)),
{
    let ghost iv = items_view(items@);
    let mut out: Vec<SubItemRow> = Vec::new();
    let ghost mut acc: Seq<SubItemRowView> = Seq::empty();
    assert(details_view(out@) =~= acc);
    let cats = [Category::Labor, Category::Material, Category::Machine];
    let mut g: usize = 0;
    while g < 3
        invariant
            iv == items_view(items@),
            t.labor == category_total(refs@, iv, Category::Labor),
            t.material == category_total(refs@, iv, Category::Material),
            t.machine == category_total(refs@, iv, Category::Machine),
            cats@ == seq![Category::Labor, Category::Material, Category::Machine],
            g <= 3,
            details_view(out@) == acc,
            g == 0 ==> acc == Seq::<SubItemRowView>::empty(),
            g == 1 ==> acc == join_group(refs@, iv, Seq::empty(), Category::Labor),
            g == 2 ==> acc == join_group(
                refs@,
                iv,
                join_group(refs@, iv, Seq::empty(), Category::Labor),
                Category::Material,
            ),
            g == 3 ==> acc == sheet_details_spec(refs@, iv),
        decreases 3 - g,
    {
        let c = cats[g];
        let total = match c {
            Category::Labor => t.labor,
            Category::Material => t.material,
            _ => t.machine,
        };
        let mut group = group_rows(items, refs, c, total);
        let ghost gv = details_view(group@);
        if group.len() > 1 {
            if out.len() > 0 {
                let ghost before = out@;
                out.push(separator_row());
                assert(details_view(out@) =~= details_view(before).push(separator_detail()));
            }
            let ghost before = out@;
            out.append(&mut group);
            assert(details_view(out@) =~= details_view(before) + gv);
        }
        proof {
            acc = join_group(refs@, iv, acc, c);
        }
        g = g + 1;
    }
    out
}

/// The drill-down rows of a sheet (see `sheet_details_spec`); `None` exactly
/// when a running emission sum of the sheet leaves the representable range.
pub fn sheet_details(items: &Vec<LineItem>, refs: &ReferenceTables) -> (r: Option<Vec<SubItemRow>>)
    ensures
        r is Some <==> sums_in_range(refs@, items_view(items@)),
        r matches Some(rows) ==> details_view(rows@) == sheet_details_spec(
            refs@,
            items_view(items@),
        ),
{
    match sheet_totals(items, refs) {
        Some(t) => Some(details_with_totals(items, refs, t)),
        None => None,
    }
}

} // verus!
